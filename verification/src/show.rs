//! The show record (`show.json`) and the Writer desk: brief, style, cast,
//! lock. Every mutation bumps the revision; a locked writer refuses changes.

use vstd::prelude::*;
use crate::error::{fails_with, is_msg, msg, ShowError};
use crate::model::{Beat, MediaItem, Scene, SlateLora, Shot, Take};
use crate::packs::{resolve_format, resolve_ids, spec_resolve_format, spec_resolve_ids, IdKind, PackFile};
use crate::text::{chars_of, eq_icase, eq_icase_vec, string_of, strings_view, trim, trim_string, trim_vec};

verus! {

pub const NAME: &'static str = "lot";

pub const VERSION: &'static str = "0.1.0";

pub const SHOW_SCHEMA: u32 = 1;

pub const SHOW_FILE: &'static str = "show.json";

pub const SCREENPLAY_FILE: &'static str = "screenplay.fountain";

/// Which brain answered (never a secret).
#[derive(Debug, Clone, PartialEq, Eq)]
pub struct Provenance {
    pub backend: String,
    pub model: String,
    pub base_url: String,
    pub auth: String,
}

#[derive(Debug, Clone, PartialEq, Eq)]
pub struct SchoolStatus {
    pub enabled: bool,
    pub path: Option<String>,
    pub level: Option<String>,
    pub help: Option<String>,
}

#[derive(Debug, Clone, PartialEq, Eq)]
pub struct CastMember {
    pub name: String,
    pub function: String,
    pub look: String,
    pub must_not: String,
}

#[derive(Debug, Clone, PartialEq, Eq)]
pub struct Writer {
    pub brief: String,
    pub genres: Vec<String>,
    pub styles_living: Vec<String>,
    pub styles_canon: Vec<String>,
    pub format: Option<String>,
    pub cast: Vec<CastMember>,
    pub locked: bool,
    pub draft_path: Option<String>,
    pub draft_provenance: Option<Provenance>,
}

#[derive(Debug, Clone, PartialEq, Eq)]
pub struct Stems {
    pub soundtrack_brief: String,
    pub soundtrack_cue: Option<String>,
    pub soundtrack_path: Option<String>,
    pub soundtrack_provenance: Option<Provenance>,
    pub vo_text: String,
    pub vo_path: Option<String>,
    pub vo_provenance: Option<Provenance>,
}

#[derive(Debug, Clone, PartialEq, Eq)]
pub struct SlateState {
    pub default_target: Option<String>,
    pub loras: Vec<SlateLora>,
}

#[derive(Debug, Clone, PartialEq, Eq)]
pub struct FinishState {
    pub path: Option<String>,
    pub upscaled: bool,
    pub fps: Option<String>,
}

/// Per-show spend / render budget. An unset cap is unlimited.
#[derive(Debug, Clone, PartialEq, Eq)]
pub struct Budget {
    pub spend_cap: Option<u32>,
    pub spend_used: u32,
    pub render_cap: Option<u32>,
    pub render_used: u32,
}

#[derive(Debug, Clone, PartialEq, Eq)]
pub struct Show {
    pub schema: u32,
    pub id: String,
    pub name: String,
    pub created_at: String,
    pub updated_at: String,
    pub rev: u64,
    pub school: SchoolStatus,
    pub phase: String,
    pub scenes: Vec<Scene>,
    pub shots: Vec<Shot>,
    pub takes: Vec<Take>,
    pub media: Vec<MediaItem>,
    pub wall: Vec<Beat>,
    pub writer: Writer,
    pub stems: Stems,
    pub slate: SlateState,
    pub finish: FinishState,
    pub budget: Budget,
    pub locked_by: Option<String>,
    pub locked_at: Option<String>,
}

pub fn empty_writer() -> (r: Writer)
    ensures
        r.brief@.len() == 0,
        r.genres@.len() == 0,
        r.styles_living@.len() == 0,
        r.styles_canon@.len() == 0,
        r.format is None,
        r.cast@.len() == 0,
        !r.locked,
        r.draft_path is None,
        r.draft_provenance is None,
{
    Writer {
        brief: String::new(),
        genres: Vec::new(),
        styles_living: Vec::new(),
        styles_canon: Vec::new(),
        format: None,
        cast: Vec::new(),
        locked: false,
        draft_path: None,
        draft_provenance: None,
    }
}

pub fn empty_stems() -> (r: Stems)
    ensures
        r.soundtrack_brief@.len() == 0,
        r.soundtrack_cue is None,
        r.soundtrack_path is None,
        r.soundtrack_provenance is None,
        r.vo_text@.len() == 0,
        r.vo_path is None,
        r.vo_provenance is None,
{
    Stems {
        soundtrack_brief: String::new(),
        soundtrack_cue: None,
        soundtrack_path: None,
        soundtrack_provenance: None,
        vo_text: String::new(),
        vo_path: None,
        vo_provenance: None,
    }
}

/// A fresh show: schema 1, revision 1, phase `writer`, school off, nothing else.
pub fn new_show(name: String, id: String, now: &str) -> (r: Show)
    ensures
        r.schema == SHOW_SCHEMA,
        r.name == name,
        r.id == id,
        r.created_at@ == now@,
        r.updated_at@ == now@,
        r.rev == 1,
        !r.school.enabled,
        r.school.path is None && r.school.level is None && r.school.help is None,
        r.phase@ == crate::model::spec_default_phase(),
        r.scenes@.len() == 0 && r.shots@.len() == 0 && r.takes@.len() == 0,
        r.media@.len() == 0 && r.wall@.len() == 0,
        r.writer.brief@.len() == 0 && r.writer.cast@.len() == 0 && !r.writer.locked,
        r.writer.genres@.len() == 0 && r.writer.format is None && r.writer.draft_path is None,
        r.slate.default_target is None && r.slate.loras@.len() == 0,
        r.finish.path is None,
        r.budget == (Budget { spend_cap: None, spend_used: 0, render_cap: None, render_used: 0 }),
        r.locked_by is None && r.locked_at is None,
        r.stems.soundtrack_path is None && r.stems.vo_path is None,
{
    Show {
        schema: SHOW_SCHEMA,
        id,
        name,
        created_at: string_of(&chars_of(now)),
        updated_at: string_of(&chars_of(now)),
        rev: 1,
        school: SchoolStatus { enabled: false, path: None, level: None, help: None },
        phase: crate::model::default_phase_value(),
        scenes: Vec::new(),
        shots: Vec::new(),
        takes: Vec::new(),
        media: Vec::new(),
        wall: Vec::new(),
        writer: empty_writer(),
        stems: empty_stems(),
        slate: SlateState { default_target: None, loras: Vec::new() },
        finish: FinishState { path: None, upscaled: false, fps: None },
        budget: Budget { spend_cap: None, spend_used: 0, render_cap: None, render_used: 0 },
        locked_by: None,
        locked_at: None,
    }
}

pub open spec fn spec_show_title(name: Option<Seq<char>>, dir_stem: Option<Seq<char>>) -> Seq<char> {
    match name {
        Some(n) if trim(n).len() > 0 => trim(n),
        _ => match dir_stem {
            Some(s) => s,
            None => "untitled"@,
        },
    }
}

/// The title of a new show: the trimmed name, else the folder's stem, else
/// `untitled`.
pub fn show_title(name: Option<&str>, dir_stem: Option<&str>) -> (r: String)
    ensures
        r@ == spec_show_title(
            match name {
                Some(n) => Some(n@),
                None => None,
            },
            match dir_stem {
                Some(s) => Some(s@),
                None => None,
            },
        ),
{
    match name {
        Some(n) => {
            let t = trim_vec(&chars_of(n));
            if t.len() > 0 {
                return string_of(&t);
            }
        },
        None => {},
    }
    match dir_stem {
        Some(s) => string_of(&chars_of(s)),
        None => string_of(&chars_of("untitled")),
    }
}

/// A show read from disk must carry schema 1.
pub fn check_schema(show: &Show) -> (r: Result<(), ShowError>)
    ensures
        r is Ok <==> show.schema == SHOW_SCHEMA,
        r matches Err(e) ==> e == ShowError::Schema(show.schema),
{
    if show.schema != SHOW_SCHEMA {
        Err(ShowError::Schema(show.schema))
    } else {
        Ok(())
    }
}

/// The revision went up by one and the time stamp is `now`; nothing else moved.
pub open spec fn spec_bumped(old: Show, new: Show, now: Seq<char>) -> bool {
    new == (Show { rev: (old.rev + 1) as u64, updated_at: new.updated_at, ..old })
        && new.updated_at@ == now
}

/// Next revision, stamped `now`.
pub fn bump(show: &mut Show, now: &str)
    requires
        old(show).rev < u64::MAX,
    ensures
        spec_bumped(*old(show), *final(show), now@),
{
    show.rev = show.rev + 1;
    show.updated_at = string_of(&chars_of(now));
}

pub open spec fn locked_msg() -> Seq<char> {
    "writer locked — unlock before changing the draft"@
}

/// Refuses when the writer is locked.
pub fn require_unlocked(show: &Show) -> (r: Result<(), ShowError>)
    ensures
        r is Ok <==> !show.writer.locked,
        r matches Err(e) ==> is_msg(e, locked_msg()),
{
    if show.writer.locked {
        Err(msg("writer locked — unlock before changing the draft"))
    } else {
        Ok(())
    }
}

/// The writer desk changed only in `w`, and the revision was bumped.
pub open spec fn spec_writer_changed(old: Show, new: Show, w: Writer, now: Seq<char>) -> bool {
    new == (Show { rev: (old.rev + 1) as u64, updated_at: new.updated_at, writer: w, ..old })
        && new.updated_at@ == now
}

/// Sets the brief (trimmed). Refused while the writer is locked.
pub fn set_brief(show: &mut Show, text: &str, now: &str) -> (r: Result<(), ShowError>)
    requires
        old(show).rev < u64::MAX,
    ensures
        old(show).writer.locked ==> fails_with(r, locked_msg()) && *final(show)
            == *old(show),
        !old(show).writer.locked ==> r is Ok && final(show).writer.brief@ == trim(text@)
            && spec_writer_changed(
            *old(show),
            *final(show),
            Writer { brief: final(show).writer.brief, ..old(show).writer },
            now@,
        ),
{
    require_unlocked(show)?;
    show.writer.brief = trim_string(text);
    bump(show, now);
    Ok(())
}

/// The three Writer packs.
pub struct WriterPacks {
    pub genres: PackFile,
    pub living: PackFile,
    pub canon: PackFile,
}

pub open spec fn opt_ids(o: Option<&[String]>) -> Option<Seq<Seq<char>>> {
    match o {
        Some(v) => Some(strings_view(v@)),
        None => None,
    }
}

/// What `set_style` does: `Ok(None)` for "nothing asked", otherwise the new
/// (genres, living, canon, format) or the first error, in that order.
pub open spec fn spec_style_result(
    packs: WriterPacks,
    genres: Option<Seq<Seq<char>>>,
    living: Option<Seq<Seq<char>>>,
    canon: Option<Seq<Seq<char>>>,
    format: Option<Seq<char>>,
) -> Result<
    (
        Option<Seq<Seq<char>>>,
        Option<Seq<Seq<char>>>,
        Option<Seq<Seq<char>>>,
        Option<Seq<char>>,
    ),
    Seq<char>,
> {
    let g = match genres {
        Some(ids) => Some(spec_resolve_ids(IdKind::Genre, packs.genres, ids)),
        None => None,
    };
    let l = match living {
        Some(ids) => Some(spec_resolve_ids(IdKind::Living, packs.living, ids)),
        None => None,
    };
    let c = match canon {
        Some(ids) => Some(spec_resolve_ids(IdKind::Canon, packs.canon, ids)),
        None => None,
    };
    let f = match format {
        Some(raw) => Some(spec_resolve_format(raw)),
        None => None,
    };
    if g matches Some(Err(_)) {
        Err(g->0->Err_0)
    } else if l matches Some(Err(_)) {
        Err(l->0->Err_0)
    } else if c matches Some(Err(_)) {
        Err(c->0->Err_0)
    } else if f matches Some(Err(_)) {
        Err(f->0->Err_0)
    } else {
        Ok(
            (
                match g {
                    Some(Ok(v)) => Some(v),
                    _ => None,
                },
                match l {
                    Some(Ok(v)) => Some(v),
                    _ => None,
                },
                match c {
                    Some(Ok(v)) => Some(v),
                    _ => None,
                },
                match f {
                    Some(Ok(v)) => Some(v),
                    _ => None,
                },
            ),
        )
    }
}

pub open spec fn style_missing_msg() -> Seq<char> {
    "style needs --genre, --living, --canon, or --format"@
}

fn resolve_opt(kind: IdKind, pack: &PackFile, ids: Option<&[String]>) -> (r: Result<
    Option<Vec<String>>,
    ShowError,
>)
    ensures
        match (r, ids) {
            (Ok(None), None) => true,
            (Ok(Some(v)), Some(i)) => spec_resolve_ids(kind, *pack, strings_view(i@)) == Ok::<
                Seq<Seq<char>>,
                Seq<char>,
            >(v.deep_view()),
            (Err(e), Some(i)) => spec_resolve_ids(kind, *pack, strings_view(i@)) matches Err(m)
                && is_msg(e, m),
            _ => false,
        },
{
    match ids {
        Some(i) => match resolve_ids(kind, pack, i) {
            Ok(v) => Ok(Some(v)),
            Err(e) => Err(e),
        },
        None => Ok(None),
    }
}

/// Sets genres / living / canon influences / format, each resolved against
/// its pack. Refused while locked, when nothing is asked, or on the first
/// unknown id; nothing changes on a refusal.
pub fn set_style(
    show: &mut Show,
    packs: &WriterPacks,
    genres: Option<&[String]>,
    living: Option<&[String]>,
    canon: Option<&[String]>,
    format: Option<&str>,
    now: &str,
) -> (r: Result<(), ShowError>)
    requires
        old(show).rev < u64::MAX,
    ensures
        old(show).writer.locked ==> fails_with(r, locked_msg()),
        !old(show).writer.locked && genres is None && living is None && canon is None && format
            is None ==> fails_with(r, style_missing_msg()),
        r is Err ==> *final(show) == *old(show),
        !old(show).writer.locked && !(genres is None && living is None && canon is None
            && format is None) ==> match spec_style_result(
            *packs,
            opt_ids(genres),
            opt_ids(living),
            opt_ids(canon),
            match format {
                Some(f) => Some(f@),
                None => None,
            },
        ) {
            Err(m) => fails_with(r, m),
            Ok(t) => r is Ok && spec_writer_changed(
                *old(show),
                *final(show),
                Writer {
                    genres: final(show).writer.genres,
                    styles_living: final(show).writer.styles_living,
                    styles_canon: final(show).writer.styles_canon,
                    format: final(show).writer.format,
                    ..old(show).writer
                },
                now@,
            ) && (t.0 matches Some(g) ==> final(show).writer.genres.deep_view() == g) && (
            t.0 is None ==> final(show).writer.genres == old(show).writer.genres) && (
            t.1 matches Some(g) ==> final(show).writer.styles_living.deep_view() == g) && (
            t.1 is None ==> final(show).writer.styles_living == old(show).writer.styles_living)
                && (t.2 matches Some(g) ==> final(show).writer.styles_canon.deep_view() == g) && (
            t.2 is None ==> final(show).writer.styles_canon == old(show).writer.styles_canon)
                && (t.3 matches Some(f) ==> final(show).writer.format matches Some(x) && x@ == f)
                && (t.3 is None ==> final(show).writer.format == old(show).writer.format),
        },
{
    require_unlocked(show)?;
    if genres.is_none() && living.is_none() && canon.is_none() && format.is_none() {
        return Err(msg("style needs --genre, --living, --canon, or --format"));
    }
    let g = resolve_opt(IdKind::Genre, &packs.genres, genres)?;
    let l = resolve_opt(IdKind::Living, &packs.living, living)?;
    let c = resolve_opt(IdKind::Canon, &packs.canon, canon)?;
    let f = match format {
        Some(raw) => Some(resolve_format(raw)?),
        None => None,
    };
    match g {
        Some(v) => {
            show.writer.genres = v;
        },
        None => {},
    }
    match l {
        Some(v) => {
            show.writer.styles_living = v;
        },
        None => {},
    }
    match c {
        Some(v) => {
            show.writer.styles_canon = v;
        },
        None => {},
    }
    match f {
        Some(v) => {
            show.writer.format = Some(v);
        },
        None => {},
    }
    bump(show, now);
    Ok(())
}

pub open spec fn opt_trim(o: Option<&str>) -> Option<Seq<char>> {
    match o {
        Some(s) => Some(trim(s@)),
        None => None,
    }
}

/// First cast member whose name equals `name` ignoring ASCII case.
pub open spec fn cast_index(cast: Seq<CastMember>, name: Seq<char>) -> int
    decreases cast.len(),
{
    if cast.len() == 0 {
        -1
    } else if eq_icase(cast[0].name@, name) {
        0
    } else {
        let r = cast_index(cast.drop_first(), name);
        if r < 0 {
            -1
        } else {
            r + 1
        }
    }
}

pub proof fn lemma_cast_index(cast: Seq<CastMember>, name: Seq<char>)
    ensures
        -1 <= cast_index(cast, name) < cast.len(),
    decreases cast.len(),
{
    if cast.len() > 0 && !eq_icase(cast[0].name@, name) {
        lemma_cast_index(cast.drop_first(), name);
    }
}

pub fn find_cast(cast: &Vec<CastMember>, name: &Vec<char>) -> (r: Option<usize>)
    ensures
        match r {
            Some(k) => k as int == cast_index(cast@, name@),
            None => cast_index(cast@, name@) == -1,
        },
{
    let mut i: usize = 0;
    assert(cast@.skip(0) =~= cast@);
    while i < cast.len()
        invariant
            i <= cast.len(),
            cast_index(cast@, name@) == if cast_index(cast@.skip(i as int), name@) < 0 {
                -1
            } else {
                cast_index(cast@.skip(i as int), name@) + i
            },
        decreases cast.len() - i,
    {
        assert(cast@.skip(i as int)[0] == cast@[i as int]);
        if eq_icase_vec(&chars_of(cast[i].name.as_str()), name) {
            return Some(i);
        }
        assert(cast@.skip(i as int).drop_first() =~= cast@.skip(i + 1));
        i += 1;
    }
    None
}

pub open spec fn cast_missing_msg() -> Seq<char> {
    "cast needs --name or --from-json"@
}

pub fn opt_trimmed(o: Option<&str>) -> (r: Option<String>)
    ensures
        match (r, o) {
            (Some(x), Some(s)) => x@ == trim(s@),
            (None, None) => true,
            _ => false,
        },
{
    match o {
        Some(s) => Some(trim_string(s)),
        None => None,
    }
}

pub fn trimmed_or_empty(o: Option<&str>) -> (r: String)
    ensures
        match o {
            Some(s) => r@ == trim(s@),
            None => r@.len() == 0,
        },
{
    match o {
        Some(s) => trim_string(s),
        None => String::new(),
    }
}

/// Adds a cast member, or updates the one with the same name (ignoring ASCII
/// case): the name takes the new spelling and only the given fields change.
pub fn upsert_cast(
    show: &mut Show,
    name: &str,
    function: Option<&str>,
    look: Option<&str>,
    must_not: Option<&str>,
    now: &str,
) -> (r: Result<(), ShowError>)
    requires
        old(show).rev < u64::MAX,
    ensures
        old(show).writer.locked ==> fails_with(r, locked_msg()),
        !old(show).writer.locked && trim(name@).len() == 0 ==> fails_with(r, cast_missing_msg()),
        r is Err ==> *final(show) == *old(show),
        r is Ok <==> !old(show).writer.locked && trim(name@).len() > 0,
        r is Ok ==> ({
            let k = cast_index(old(show).writer.cast@, trim(name@));
            let nc = final(show).writer.cast@;
            &&& spec_writer_changed(
                *old(show),
                *final(show),
                Writer { cast: final(show).writer.cast, ..old(show).writer },
                now@,
            )
            &&& k >= 0 ==> {
                let o = old(show).writer.cast@[k];
                &&& nc == old(show).writer.cast@.update(k, nc[k])
                &&& nc[k].name@ == trim(name@)
                &&& nc[k].function@ == (match opt_trim(function) {
                    Some(f) => f,
                    None => o.function@,
                })
                &&& nc[k].look@ == (match opt_trim(look) {
                    Some(f) => f,
                    None => o.look@,
                })
                &&& nc[k].must_not@ == (match opt_trim(must_not) {
                    Some(f) => f,
                    None => o.must_not@,
                })
            }
            &&& k < 0 ==> {
                &&& nc.len() == old(show).writer.cast@.len() + 1
                &&& nc.drop_last() == old(show).writer.cast@
                &&& nc.last().name@ == trim(name@)
                &&& nc.last().function@ == (match opt_trim(function) {
                    Some(f) => f,
                    None => seq![],
                })
                &&& nc.last().look@ == (match opt_trim(look) {
                    Some(f) => f,
                    None => seq![],
                })
                &&& nc.last().must_not@ == (match opt_trim(must_not) {
                    Some(f) => f,
                    None => seq![],
                })
            }
        }),
{
    require_unlocked(show)?;
    let nm = trim_vec(&chars_of(name));
    if nm.len() == 0 {
        return Err(msg("cast needs --name or --from-json"));
    }
    let mut cast = show.writer.cast.clone();
    proof {
        lemma_cast_index(show.writer.cast@, nm@);
    }
    match find_cast(&show.writer.cast, &nm) {
        Some(k) => {
            let o = &show.writer.cast[k];
            let m = CastMember {
                name: string_of(&nm),
                function: match opt_trimmed(function) {
                    Some(f) => f,
                    None => o.function.clone(),
                },
                look: match opt_trimmed(look) {
                    Some(f) => f,
                    None => o.look.clone(),
                },
                must_not: match opt_trimmed(must_not) {
                    Some(f) => f,
                    None => o.must_not.clone(),
                },
            };
            cast = replace_cast_at(&show.writer.cast, k, m);
        },
        None => {
            let m = CastMember {
                name: string_of(&nm),
                function: trimmed_or_empty(function),
                look: trimmed_or_empty(look),
                must_not: trimmed_or_empty(must_not),
            };
            cast = push_cast(&show.writer.cast, m);
        },
    }
    show.writer.cast = cast;
    bump(show, now);
    Ok(())
}

pub fn copy_cast_member(m: &CastMember) -> (r: CastMember)
    ensures
        r == *m,
{
    CastMember {
        name: m.name.clone(),
        function: m.function.clone(),
        look: m.look.clone(),
        must_not: m.must_not.clone(),
    }
}

pub fn replace_cast_at(cast: &Vec<CastMember>, k: usize, m: CastMember) -> (r: Vec<CastMember>)
    requires
        k < cast.len(),
    ensures
        r@ == cast@.update(k as int, m),
{
    let mut out: Vec<CastMember> = Vec::new();
    let mut i: usize = 0;
    let mut m = Some(m);
    let ghost mv = m->0;
    while i < cast.len()
        invariant
            i <= cast.len(),
            k < cast.len(),
            i <= k ==> m == Some(mv),
            out@ == cast@.update(k as int, mv).take(i as int),
        decreases cast.len() - i,
    {
        if i == k {
            let x = m.take().unwrap();
            out.push(x);
        } else {
            out.push(copy_cast_member(&cast[i]));
        }
        i += 1;
        assert(out@ =~= cast@.update(k as int, mv).take(i as int));
    }
    assert(cast@.update(k as int, mv).take(i as int) =~= cast@.update(k as int, mv));
    out
}

pub fn push_cast(cast: &Vec<CastMember>, m: CastMember) -> (r: Vec<CastMember>)
    ensures
        r@ == cast@.push(m),
{
    let mut out: Vec<CastMember> = Vec::new();
    let mut i: usize = 0;
    while i < cast.len()
        invariant
            i <= cast.len(),
            out@ == cast@.take(i as int),
        decreases cast.len() - i,
    {
        out.push(copy_cast_member(&cast[i]));
        i += 1;
        assert(out@ =~= cast@.take(i as int));
    }
    assert(cast@.take(i as int) =~= cast@);
    out.push(m);
    out
}

pub open spec fn cast_json_msg() -> Seq<char> {
    "cast json: each member needs name"@
}

pub open spec fn trimmed_member(m: CastMember, t: CastMember) -> bool {
    &&& t.name@ == trim(m.name@)
    &&& t.function@ == trim(m.function@)
    &&& t.look@ == trim(m.look@)
    &&& t.must_not@ == trim(m.must_not@)
}

/// Replaces the whole cast; every member needs a name. Fields are trimmed.
pub fn replace_cast(show: &mut Show, members: Vec<CastMember>, now: &str) -> (r: Result<
    (),
    ShowError,
>)
    requires
        old(show).rev < u64::MAX,
    ensures
        old(show).writer.locked ==> fails_with(r, locked_msg()),
        !old(show).writer.locked && (exists|i: int|
            0 <= i < members@.len() && trim(#[trigger] members@[i].name@).len() == 0) ==> fails_with(r, cast_json_msg()),
        r is Err ==> *final(show) == *old(show),
        r is Ok <==> !old(show).writer.locked && forall|i: int|
            0 <= i < members@.len() ==> trim(#[trigger] members@[i].name@).len() > 0,
        r is Ok ==> spec_writer_changed(
            *old(show),
            *final(show),
            Writer { cast: final(show).writer.cast, ..old(show).writer },
            now@,
        ) && final(show).writer.cast@.len() == members@.len() && forall|i: int|
            0 <= i < members@.len() ==> trimmed_member(
                #[trigger] members@[i],
                final(show).writer.cast@[i],
            ),
{
    require_unlocked(show)?;
    let mut i: usize = 0;
    while i < members.len()
        invariant
            i <= members.len(),
            *show == *old(show),
            !old(show).writer.locked,
            forall|j: int| 0 <= j < i ==> trim(#[trigger] members@[j].name@).len() > 0,
        decreases members.len() - i,
    {
        if trim_vec(&chars_of(members[i].name.as_str())).len() == 0 {
            return Err(msg("cast json: each member needs name"));
        }
        i += 1;
    }
    let mut out: Vec<CastMember> = Vec::new();
    let mut j: usize = 0;
    while j < members.len()
        invariant
            j <= members.len(),
            out@.len() == j,
            forall|q: int| 0 <= q < j ==> trimmed_member(#[trigger] members@[q], out@[q]),
        decreases members.len() - j,
    {
        let m = &members[j];
        out.push(
            CastMember {
                name: trim_string(m.name.as_str()),
                function: trim_string(m.function.as_str()),
                look: trim_string(m.look.as_str()),
                must_not: trim_string(m.must_not.as_str()),
            },
        );
        j += 1;
    }
    show.writer.cast = out;
    bump(show, now);
    Ok(())
}

/// Locks the writer desk. Returns whether anything changed (already locked:
/// no change, no revision).
pub fn lock_writer(show: &mut Show, now: &str) -> (changed: bool)
    requires
        old(show).rev < u64::MAX,
    ensures
        changed == !old(show).writer.locked,
        !changed ==> *final(show) == *old(show),
        changed ==> spec_writer_changed(
            *old(show),
            *final(show),
            Writer { locked: true, ..old(show).writer },
            now@,
        ),
        final(show).writer.locked,
{
    if show.writer.locked {
        return false;
    }
    show.writer.locked = true;
    bump(show, now);
    true
}

/// Unlocks the writer desk. Returns whether anything changed.
pub fn unlock_writer(show: &mut Show, now: &str) -> (changed: bool)
    requires
        old(show).rev < u64::MAX,
    ensures
        changed == old(show).writer.locked,
        !changed ==> *final(show) == *old(show),
        changed ==> spec_writer_changed(
            *old(show),
            *final(show),
            Writer { locked: false, ..old(show).writer },
            now@,
        ),
        !final(show).writer.locked,
{
    if !show.writer.locked {
        return false;
    }
    show.writer.locked = false;
    bump(show, now);
    true
}

pub open spec fn no_brief_msg() -> Seq<char> {
    "no brief — lot writer brief --text \"...\""@
}

/// Before a draft: the writer must be unlocked and have a brief.
pub fn draft_ready(show: &Show) -> (r: Result<(), ShowError>)
    ensures
        show.writer.locked ==> fails_with(r, locked_msg()),
        !show.writer.locked && trim(show.writer.brief@).len() == 0 ==> fails_with(r, no_brief_msg()),
        r is Ok <==> !show.writer.locked && trim(show.writer.brief@).len() > 0,
{
    require_unlocked(show)?;
    if trim_vec(&chars_of(show.writer.brief.as_str())).len() == 0 {
        return Err(msg("no brief — lot writer brief --text \"...\""));
    }
    Ok(())
}

pub open spec fn no_draft_msg() -> Seq<char> {
    "no draft — lot writer draft first (missing screenplay.fountain)"@
}

/// Before a revise: unlocked, and `screenplay.fountain` exists.
pub fn revise_ready(show: &Show, screenplay_exists: bool) -> (r: Result<(), ShowError>)
    ensures
        show.writer.locked ==> fails_with(r, locked_msg()),
        !show.writer.locked && !screenplay_exists ==> fails_with(r, no_draft_msg()),
        r is Ok <==> !show.writer.locked && screenplay_exists,
{
    require_unlocked(show)?;
    if !screenplay_exists {
        return Err(msg("no draft — lot writer draft first (missing screenplay.fountain)"));
    }
    Ok(())
}

pub open spec fn spec_newline_terminated(text: Seq<char>) -> Seq<char> {
    if text.len() > 0 && text.last() == '\n' {
        text
    } else {
        text.push('\n')
    }
}

/// Records a new draft: the Fountain text to write (newline-terminated), the
/// path it lives at, and the brain that wrote it.
pub fn record_draft(
    show: &mut Show,
    text: String,
    path: String,
    provenance: Provenance,
    now: &str,
) -> (r: String)
    requires
        old(show).rev < u64::MAX,
    ensures
        r@ == spec_newline_terminated(text@),
        spec_writer_changed(
            *old(show),
            *final(show),
            Writer {
                draft_path: Some(path),
                draft_provenance: Some(provenance),
                ..old(show).writer
            },
            now@,
        ),
{
    let mut v = chars_of(text.as_str());
    if v.len() == 0 || v[v.len() - 1] != '\n' {
        v.push('\n');
    }
    show.writer.draft_path = Some(path);
    show.writer.draft_provenance = Some(provenance);
    bump(show, now);
    string_of(&v)
}

} // verus!
