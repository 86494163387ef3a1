//! Stage: 2D floor marks and the camera card of each shot. 3D blocking stays
//! in Blockout.

use vstd::prelude::*;
use crate::caps::{Caps, Cap, require, holds, need_message};
use crate::error::{ShowError, fails_with, msg, msg2};
use crate::model::{Shot, StageMark, first_shot_index, lemma_first_shot_index, find_shot};
use crate::show::{Show, bump, spec_bumped};
use crate::slate::{others_kept, unknown_shot};
use crate::text::{
    chars_of, string_of, str_eq, trim, trim_vec, lower, lower_vec, eq_icase, eq_icase_vec, seq_eq,
    append_str, append_vec, join, join_vecs, push_piece, filled, dec, dec_vec,
};
use crate::json::{Json, JsonV, jv, jv_seq, jv_members};

verus! {

/// The kind of a mark: the given kind (synonyms folded), else `camera` for a
/// camera, else `actor`.
pub open spec fn spec_mark_kind(who: Seq<char>, raw: Option<Seq<char>>) -> Seq<char> {
    match raw {
        Some(k) if trim(k).len() > 0 => {
            let key = lower(trim(k));
            if key == "actor"@ || key == "cast"@ || key == "talent"@ {
                "actor"@
            } else if key == "camera"@ || key == "cam"@ {
                "camera"@
            } else if key == "prop"@ || key == "object"@ || key == "vehicle"@ {
                "prop"@
            } else {
                key
            }
        },
        _ => {
            let w = lower(trim(who));
            if w == "camera"@ || w == "cam"@ || w == "lens"@ {
                "camera"@
            } else {
                "actor"@
            }
        },
    }
}

/// The kind of a mark. With no kind given (or a blank one), a mark whose
/// `who`, trimmed and in any ASCII case, is `camera`, `cam` or `lens` is a
/// camera mark, and any other is an actor mark. A given kind is folded:
/// `actor`/`cast`/`talent` are actor marks, `camera`/`cam` camera marks,
/// `prop`/`object`/`vehicle` prop marks, in any case and trimmed.
pub proof fn lemma_mark_kind_law(who: Seq<char>, raw: Option<Seq<char>>)
    ensures
        (raw is None || trim(raw->0).len() == 0) ==> {
            let w = lower(trim(who));
            &&& (w == "camera"@ || w == "cam"@ || w == "lens"@) ==> spec_mark_kind(who, raw) == "camera"@
            &&& !(w == "camera"@ || w == "cam"@ || w == "lens"@) ==> spec_mark_kind(who, raw) == "actor"@
        },
        (raw matches Some(k) && trim(k).len() > 0) ==> {
            let key = lower(trim(raw->0));
            &&& (key == "actor"@ || key == "cast"@ || key == "talent"@) ==> spec_mark_kind(who, raw) == "actor"@
            &&& (key == "camera"@ || key == "cam"@) ==> spec_mark_kind(who, raw) == "camera"@
            &&& (key == "prop"@ || key == "object"@ || key == "vehicle"@) ==> spec_mark_kind(who, raw)
                == "prop"@
        },
{
    reveal_strlit("actor");
    reveal_strlit("cast");
    reveal_strlit("talent");
    reveal_strlit("camera");
    reveal_strlit("cam");
    reveal_strlit("prop");
    reveal_strlit("object");
    reveal_strlit("vehicle");
    assert("camera"@[0] != "talent"@[0] && "camera"@[0] != "object"@[0] && "talent"@[0] != "object"@[0]);
    assert("cast"@[0] != "prop"@[0]);
    assert("actor"@.len() == 5 && "cast"@.len() == 4 && "talent"@.len() == 6 && "camera"@.len() == 6);
    assert("cam"@.len() == 3 && "prop"@.len() == 4 && "object"@.len() == 6 && "vehicle"@.len() == 7);
    match raw {
        Some(k) => {
            if trim(k).len() > 0 {
                let key = lower(trim(k));
                assert(spec_mark_kind(who, raw) == (if key == "actor"@ || key == "cast"@ || key == "talent"@ {
                    "actor"@
                } else if key == "camera"@ || key == "cam"@ {
                    "camera"@
                } else if key == "prop"@ || key == "object"@ || key == "vehicle"@ {
                    "prop"@
                } else {
                    key
                }));
                if key == "camera"@ || key == "cam"@ {
                    assert(key != "actor"@ && key != "cast"@ && key != "talent"@);
                }
                if key == "prop"@ || key == "object"@ || key == "vehicle"@ {
                    assert(key != "actor"@ && key != "cast"@ && key != "talent"@);
                    assert(key != "camera"@ && key != "cam"@);
                }
            }
        },
        None => {},
    }
}

fn is(v: &Vec<char>, s: &str) -> (r: bool)
    ensures
        r == (v@ == s@),
{
    seq_eq(v, &chars_of(s))
}

pub fn resolve_mark_kind(who: &str, raw: Option<&str>) -> (r: String)
    ensures
        r@ == spec_mark_kind(who@, match raw {
            Some(k) => Some(k@),
            None => None,
        }),
{
    match raw {
        Some(k) => {
            let t = trim_vec(&chars_of(k));
            if t.len() > 0 {
                let key = lower_vec(&t);
                let out = if is(&key, "actor") || is(&key, "cast") || is(&key, "talent") {
                    chars_of("actor")
                } else if is(&key, "camera") || is(&key, "cam") {
                    chars_of("camera")
                } else if is(&key, "prop") || is(&key, "object") || is(&key, "vehicle") {
                    chars_of("prop")
                } else {
                    key
                };
                return string_of(out.as_slice());
            }
        },
        None => {},
    }
    let w = lower_vec(&trim_vec(&chars_of(who)));
    if is(&w, "camera") || is(&w, "cam") || is(&w, "lens") {
        string_of(chars_of("camera").as_slice())
    } else {
        string_of(chars_of("actor").as_slice())
    }
}

/// A mark as text: id, who, kind, mark, x, z, notes.
pub type MarkText = (Seq<char>, Seq<char>, Seq<char>, Seq<char>, Seq<char>, Seq<char>, Seq<char>);

pub open spec fn mark_text(m: StageMark) -> MarkText {
    (m.id@, m.who@, m.kind@, m.mark@, m.x@, m.z@, m.notes@)
}

pub open spec fn marks_text(ms: Seq<StageMark>) -> Seq<MarkText> {
    Seq::new(ms.len(), |i: int| mark_text(ms[i]))
}

/// First mark for `who` (ASCII case ignored), or -1.
pub open spec fn who_index(ms: Seq<MarkText>, who: Seq<char>) -> int
    decreases ms.len(),
{
    if ms.len() == 0 {
        -1
    } else if eq_icase(ms[0].1, who) {
        0
    } else {
        let r = who_index(ms.drop_first(), who);
        if r < 0 {
            -1
        } else {
            r + 1
        }
    }
}

pub proof fn lemma_who_index(ms: Seq<MarkText>, who: Seq<char>)
    ensures
        -1 <= who_index(ms, who) < ms.len(),
        who_index(ms, who) >= 0 ==> eq_icase(ms[who_index(ms, who)].1, who),
        who_index(ms, who) < 0 ==> forall|j: int| 0 <= j < ms.len() ==> !eq_icase((#[trigger] ms[j]).1, who),
        forall|j: int| 0 <= j < who_index(ms, who) ==> !eq_icase((#[trigger] ms[j]).1, who),
    decreases ms.len(),
{
    if ms.len() > 0 {
        lemma_who_index(ms.drop_first(), who);
        assert forall|j: int| 1 <= j < ms.len() implies ms[j] == ms.drop_first()[j - 1] by {}
    }
}

pub open spec fn keep_or(old: Seq<char>, new: Seq<char>) -> Seq<char> {
    if new.len() > 0 {
        new
    } else {
        old
    }
}

/// The marks after placing `who`: their mark updated (kind replaced, each
/// given field replaced), or a new mark `mk-N` at the end.
pub open spec fn placed(
    ms: Seq<MarkText>,
    who: Seq<char>,
    kind: Seq<char>,
    mark: Seq<char>,
    x: Seq<char>,
    z: Seq<char>,
    notes: Seq<char>,
) -> Seq<MarkText> {
    let k = who_index(ms, who);
    if k >= 0 {
        let m = ms[k];
        ms.update(k, (m.0, m.1, kind, keep_or(m.3, mark), keep_or(m.4, x), keep_or(m.5, z), keep_or(m.6, notes)))
    } else {
        ms.push(("mk-"@ + dec((ms.len() + 1) as nat), who, kind, mark, x, z, notes))
    }
}

fn trimmed_or_empty(o: Option<&str>) -> (r: Vec<char>)
    ensures
        r@ == match o {
            Some(s) => trim(s@),
            None => seq![],
        },
{
    match o {
        Some(s) => trim_vec(&chars_of(s)),
        None => Vec::new(),
    }
}

pub open spec fn opt_trim(o: Option<&str>) -> Seq<char> {
    match o {
        Some(s) => trim(s@),
        None => seq![],
    }
}

pub open spec fn opt_str(o: Option<&str>) -> Option<Seq<char>> {
    match o {
        Some(s) => Some(s@),
        None => None,
    }
}

fn place_mark(ms: &mut Vec<StageMark>, who: &str, kind: &str, mark: &str, x: &str, z: &str, notes: &str)
    requires
        old(ms).len() < u64::MAX,
    ensures
        marks_text(final(ms)@) == placed(marks_text(old(ms)@), who@, kind@, mark@, x@, z@, notes@),
{
    let ghost mv = marks_text(ms@);
    proof {
        lemma_who_index(mv, who@);
    }
    let wv = chars_of(who);
    let mut i: usize = 0;
    while i < ms.len()
        invariant
            i <= ms.len(),
            wv@ == who@,
            mv == marks_text(ms@),
            *ms == *old(ms),
            forall|j: int| 0 <= j < i ==> !eq_icase((#[trigger] mv[j]).1, who@),
            -1 <= who_index(mv, who@) < mv.len(),
            who_index(mv, who@) >= 0 ==> eq_icase(mv[who_index(mv, who@)].1, who@),
            who_index(mv, who@) < 0 ==> forall|j: int| 0 <= j < mv.len() ==> !eq_icase((#[trigger] mv[j]).1, who@),
            forall|j: int| 0 <= j < who_index(mv, who@) ==> !eq_icase((#[trigger] mv[j]).1, who@),
        decreases ms.len() - i,
    {
        if eq_icase_vec(&chars_of(ms[i].who.as_str()), &wv) {
            assert(eq_icase(mv[i as int].1, who@));
            assert(who_index(mv, who@) == i as int);
            let mut m = ms.remove(i);
            m.kind = string_of(chars_of(kind).as_slice());
            if filled(mark) {
                m.mark = string_of(chars_of(mark).as_slice());
            }
            if filled(x) {
                m.x = string_of(chars_of(x).as_slice());
            }
            if filled(z) {
                m.z = string_of(chars_of(z).as_slice());
            }
            if filled(notes) {
                m.notes = string_of(chars_of(notes).as_slice());
            }
            ms.insert(i, m);
            assert(marks_text(ms@) =~= placed(mv, who@, kind@, mark@, x@, z@, notes@));
            return;
        }
        i += 1;
    }
    let mut id = chars_of("mk-");
    append_vec(&mut id, &dec_vec(ms.len() as u64 + 1));
    ms.push(
        StageMark {
            id: string_of(id.as_slice()),
            who: string_of(chars_of(who).as_slice()),
            kind: string_of(chars_of(kind).as_slice()),
            mark: string_of(chars_of(mark).as_slice()),
            x: string_of(chars_of(x).as_slice()),
            z: string_of(chars_of(z).as_slice()),
            notes: string_of(chars_of(notes).as_slice()),
        },
    );
    assert(marks_text(ms@) =~= placed(mv, who@, kind@, mark@, x@, z@, notes@));
}

/// Places `who` on a shot's floor plan (or updates their mark). The shot
/// keeps its name; the phase becomes `stage`.
pub fn stage_place(
    show: &mut Show,
    shot_num: &str,
    who: &str,
    mark: Option<&str>,
    x: Option<&str>,
    z: Option<&str>,
    notes: Option<&str>,
    kind: Option<&str>,
    now: &str,
) -> (r: Result<(), ShowError>)
    requires
        old(show).rev < u64::MAX,
        forall|i: int| 0 <= i < old(show).shots@.len() ==> (#[trigger] old(show).shots@[i]).stage_marks@.len() < u64::MAX,
    ensures
        ({
            let w = trim(who@);
            let k = first_shot_index(old(show).shots@, shot_num@);
            if w.len() == 0 {
                fails_with(r, "stage place needs --who"@) && *final(show) == *old(show)
            } else if opt_trim(mark).len() == 0 && opt_trim(x).len() == 0 && opt_trim(z).len() == 0
                && opt_trim(notes).len() == 0 {
                fails_with(r, "stage place needs --mark, --x/--z, or --notes"@) && *final(show) == *old(show)
            } else if k < 0 {
                fails_with(r, unknown_shot(shot_num@)) && *final(show) == *old(show)
            } else {
                let before = old(show).shots@[k];
                let after = final(show).shots@[k];
                &&& r is Ok
                &&& others_kept(old(show).shots@, final(show).shots@, k)
                &&& after == Shot { stage_marks: after.stage_marks, ..before }
                &&& marks_text(after.stage_marks@) == placed(
                    marks_text(before.stage_marks@),
                    w,
                    spec_mark_kind(w, opt_str(kind)),
                    opt_trim(mark),
                    opt_trim(x),
                    opt_trim(z),
                    opt_trim(notes),
                )
                &&& final(show).phase@ == "stage"@
                &&& spec_bumped(
                    Show { shots: final(show).shots, phase: final(show).phase, ..*old(show) },
                    *final(show),
                    now@,
                )
            }
        }),
{
    let w = string_of(trim_vec(&chars_of(who)).as_slice());
    if !filled(w.as_str()) {
        return Err(msg("stage place needs --who"));
    }
    let m = string_of(trimmed_or_empty(mark).as_slice());
    let xs = string_of(trimmed_or_empty(x).as_slice());
    let zs = string_of(trimmed_or_empty(z).as_slice());
    let ns = string_of(trimmed_or_empty(notes).as_slice());
    if !filled(m.as_str()) && !filled(xs.as_str()) && !filled(zs.as_str()) && !filled(ns.as_str()) {
        return Err(msg("stage place needs --mark, --x/--z, or --notes"));
    }
    let kd = resolve_mark_kind(w.as_str(), kind);
    proof {
        lemma_first_shot_index(show.shots@, shot_num@);
    }
    let k = match find_shot(&show.shots, shot_num) {
        Some(k) => k,
        None => return Err(msg2("unknown shot: ", shot_num)),
    };
    let ghost before = show.shots@[k as int];
    let mut sh = show.shots.remove(k);
    place_mark(&mut sh.stage_marks, w.as_str(), kd.as_str(), m.as_str(), xs.as_str(), zs.as_str(), ns.as_str());
    let ghost after = sh;
    show.shots.insert(k, sh);
    assert(show.shots@[k as int] == after);
    assert(others_kept(old(show).shots@, show.shots@, k as int));
    show.phase = string_of(chars_of("stage").as_slice());
    bump(show, now);
    Ok(())
}

pub open spec fn opt_filled(o: Option<&str>) -> Option<Seq<char>> {
    match o {
        Some(s) => if trim(s@).len() > 0 {
            Some(trim(s@))
        } else {
            None
        },
        None => None,
    }
}

pub open spec fn set_or(old: String, new: Option<Seq<char>>, after: String) -> bool {
    match new {
        Some(v) => after@ == v,
        None => after == old,
    }
}

fn opt_filled_exec(o: Option<&str>) -> (r: Option<String>)
    ensures
        match (r, opt_filled(o)) {
            (Some(a), Some(b)) => a@ == b,
            (None, None) => true,
            _ => false,
        },
{
    match o {
        Some(s) => {
            let t = trim_vec(&chars_of(s));
            if t.len() > 0 {
                Some(string_of(t.as_slice()))
            } else {
                None
            }
        },
        None => None,
    }
}

/// Sets the camera card of a shot: each given field replaced, the rest kept.
/// The phase becomes `stage`.
pub fn stage_camera(
    show: &mut Show,
    shot_num: &str,
    size: Option<&str>,
    angle: Option<&str>,
    lens: Option<&str>,
    move_kind: Option<&str>,
    now: &str,
) -> (r: Result<(), ShowError>)
    requires
        old(show).rev < u64::MAX,
    ensures
        ({
            let k = first_shot_index(old(show).shots@, shot_num@);
            if opt_filled(size) is None && opt_filled(angle) is None && opt_filled(lens) is None
                && opt_filled(move_kind) is None {
                fails_with(r, "stage camera needs --size, --angle, --lens, or --move"@) && *final(show)
                    == *old(show)
            } else if k < 0 {
                fails_with(r, unknown_shot(shot_num@)) && *final(show) == *old(show)
            } else {
                let before = old(show).shots@[k];
                let after = final(show).shots@[k];
                &&& r is Ok
                &&& others_kept(old(show).shots@, final(show).shots@, k)
                &&& after == Shot {
                    size: after.size,
                    angle: after.angle,
                    lens: after.lens,
                    move_kind: after.move_kind,
                    ..before
                }
                &&& set_or(before.size, opt_filled(size), after.size)
                &&& set_or(before.angle, opt_filled(angle), after.angle)
                &&& set_or(before.lens, opt_filled(lens), after.lens)
                &&& set_or(before.move_kind, opt_filled(move_kind), after.move_kind)
                &&& final(show).phase@ == "stage"@
                &&& spec_bumped(
                    Show { shots: final(show).shots, phase: final(show).phase, ..*old(show) },
                    *final(show),
                    now@,
                )
            }
        }),
{
    let s = opt_filled_exec(size);
    let a = opt_filled_exec(angle);
    let l = opt_filled_exec(lens);
    let m = opt_filled_exec(move_kind);
    if s.is_none() && a.is_none() && l.is_none() && m.is_none() {
        return Err(msg("stage camera needs --size, --angle, --lens, or --move"));
    }
    proof {
        lemma_first_shot_index(show.shots@, shot_num@);
    }
    let k = match find_shot(&show.shots, shot_num) {
        Some(k) => k,
        None => return Err(msg2("unknown shot: ", shot_num)),
    };
    let mut sh = show.shots.remove(k);
    if let Some(v) = s {
        sh.size = v;
    }
    if let Some(v) = a {
        sh.angle = v;
    }
    if let Some(v) = l {
        sh.lens = v;
    }
    if let Some(v) = m {
        sh.move_kind = v;
    }
    let ghost after = sh;
    show.shots.insert(k, sh);
    assert(show.shots@[k as int] == after);
    assert(others_kept(old(show).shots@, show.shots@, k as int));
    show.phase = string_of(chars_of("stage").as_slice());
    bump(show, now);
    Ok(())
}

pub open spec fn no_shots_msg() -> Seq<char> {
    "stage export needs shots (breakdown parse, then stage place / camera)"@
}

/// Whether the stage may be exported: the `export` capability and at least
/// one shot.
pub fn stage_export_ready(show: &Show, have: Caps) -> (r: Result<(), ShowError>)
    ensures
        !holds(have, Cap::Export) ==> fails_with(r, need_message(have, Cap::Export)),
        holds(have, Cap::Export) && show.shots@.len() == 0 ==> fails_with(r, no_shots_msg()),
        r is Ok <==> holds(have, Cap::Export) && show.shots@.len() > 0,
{
    match require(have, Cap::Export) {
        Ok(()) => {},
        Err(e) => return Err(e),
    }
    if show.shots.len() == 0 {
        return Err(msg("stage export needs shots (breakdown parse, then stage place / camera)"));
    }
    Ok(())
}

/// The camera line of a shot: size, angle, lens and move, those set, joined
/// by ` · `.
pub open spec fn camera_bits(s: Shot) -> Seq<Seq<char>> {
    let a: Seq<Seq<char>> = if s.size@.len() > 0 { seq![s.size@] } else { seq![] };
    let b: Seq<Seq<char>> = if s.angle@.len() > 0 { seq![s.angle@] } else { seq![] };
    let c: Seq<Seq<char>> = if s.lens@.len() > 0 { seq![s.lens@] } else { seq![] };
    let d: Seq<Seq<char>> = if s.move_kind@.len() > 0 { seq![s.move_kind@] } else { seq![] };
    a + b + c + d
}

pub open spec fn md_mark(m: StageMark) -> Seq<char> {
    "- "@ + m.who@ + " ("@ + m.kind@ + ") "@ + m.mark@ + " "@ + m.x@ + ","@ + m.z@ + " "@ + m.notes@
        + "\n"@
}

pub open spec fn md_marks(ms: Seq<StageMark>) -> Seq<char>
    decreases ms.len(),
{
    if ms.len() == 0 {
        seq![]
    } else {
        md_marks(ms.drop_last()) + md_mark(ms.last())
    }
}

/// The stage card of one shot in `stage/prompt.md`.
pub open spec fn md_shot(s: Shot) -> Seq<char> {
    let cam = join(camera_bits(s), " · "@);
    "## Shot "@ + s.num@ + "\n\n"@ + (if s.name@.len() > 0 {
        "Name: "@ + s.name@ + "\n\n"@
    } else {
        seq![]
    }) + (if cam.len() > 0 {
        "Camera: "@ + cam + "\n\n"@
    } else {
        seq![]
    }) + if s.stage_marks@.len() == 0 {
        "Marks: _(none)_\n\n"@
    } else {
        "Marks:\n\n"@ + md_marks(s.stage_marks@) + "\n"@
    }
}

pub open spec fn md_shots(ss: Seq<Shot>) -> Seq<char>
    decreases ss.len(),
{
    if ss.len() == 0 {
        seq![]
    } else {
        md_shots(ss.drop_last()) + md_shot(ss.last())
    }
}

/// `stage/prompt.md`: the 2D marks and camera cards for generators.
pub open spec fn spec_stage_md(show: Show) -> Seq<char> {
    "# Stage — "@ + show.name@ + "\n\n"@ + "2D marks for generators. Not a Blockout 3D export.\n\n"@
        + md_shots(show.shots@)
}

fn camera_line(s: &Shot) -> (r: Vec<char>)
    ensures
        r@ == join(camera_bits(*s), " · "@),
{
    let mut bits: Vec<Vec<char>> = Vec::new();
    if filled(s.size.as_str()) {
        push_piece(&mut bits, chars_of(s.size.as_str()));
    }
    if filled(s.angle.as_str()) {
        push_piece(&mut bits, chars_of(s.angle.as_str()));
    }
    if filled(s.lens.as_str()) {
        push_piece(&mut bits, chars_of(s.lens.as_str()));
    }
    if filled(s.move_kind.as_str()) {
        push_piece(&mut bits, chars_of(s.move_kind.as_str()));
    }
    assert(bits.deep_view() =~= camera_bits(*s));
    join_vecs(&bits, &chars_of(" · "))
}

fn md_mark_exec(m: &StageMark) -> (r: Vec<char>)
    ensures
        r@ == md_mark(*m),
{
    let mut line = chars_of("- ");
    append_str(&mut line, m.who.as_str());
    append_str(&mut line, " (");
    append_str(&mut line, m.kind.as_str());
    append_str(&mut line, ") ");
    append_str(&mut line, m.mark.as_str());
    append_str(&mut line, " ");
    append_str(&mut line, m.x.as_str());
    append_str(&mut line, ",");
    append_str(&mut line, m.z.as_str());
    append_str(&mut line, " ");
    append_str(&mut line, m.notes.as_str());
    append_str(&mut line, "\n");
    line
}

fn md_marks_exec(ms: &Vec<StageMark>) -> (r: Vec<char>)
    ensures
        r@ == md_marks(ms@),
{
    let mut out: Vec<char> = Vec::new();
    let mut i: usize = 0;
    while i < ms.len()
        invariant
            i <= ms.len(),
            out@ == md_marks(ms@.take(i as int)),
        decreases ms.len() - i,
    {
        append_vec(&mut out, &md_mark_exec(&ms[i]));
        i += 1;
        assert(ms@.take(i as int).drop_last() =~= ms@.take(i - 1));
    }
    assert(ms@.take(i as int) =~= ms@);
    out
}

fn md_shot_exec(s: &Shot) -> (r: Vec<char>)
    ensures
        r@ == md_shot(*s),
{
    let cam = camera_line(s);
    let mut out = chars_of("## Shot ");
    append_str(&mut out, s.num.as_str());
    append_str(&mut out, "\n\n");
    if filled(s.name.as_str()) {
        append_str(&mut out, "Name: ");
        append_str(&mut out, s.name.as_str());
        append_str(&mut out, "\n\n");
    }
    if cam.len() > 0 {
        append_str(&mut out, "Camera: ");
        append_vec(&mut out, &cam);
        append_str(&mut out, "\n\n");
    }
    if s.stage_marks.len() == 0 {
        append_str(&mut out, "Marks: _(none)_\n\n");
    } else {
        append_str(&mut out, "Marks:\n\n");
        append_vec(&mut out, &md_marks_exec(&s.stage_marks));
        append_str(&mut out, "\n");
    }
    assert(out@ =~= md_shot(*s));
    out
}

pub fn stage_md(show: &Show) -> (r: String)
    ensures
        r@ == spec_stage_md(*show),
{
    let mut out = chars_of("# Stage — ");
    append_str(&mut out, show.name.as_str());
    append_str(&mut out, "\n\n");
    append_str(&mut out, "2D marks for generators. Not a Blockout 3D export.\n\n");
    let ghost start = out@;
    let mut i: usize = 0;
    while i < show.shots.len()
        invariant
            i <= show.shots.len(),
            out@ == start + md_shots(show.shots@.take(i as int)),
        decreases show.shots.len() - i,
    {
        append_vec(&mut out, &md_shot_exec(&show.shots[i]));
        i += 1;
        assert(show.shots@.take(i as int).drop_last() =~= show.shots@.take(i - 1));
        assert(out@ =~= start + md_shots(show.shots@.take(i as int)));
    }
    assert(show.shots@.take(i as int) =~= show.shots@);
    string_of(out.as_slice())
}

/// Records an export of the stage: the phase becomes `stage`.
pub fn stage_export_done(show: &mut Show, now: &str)
    requires
        old(show).rev < u64::MAX,
    ensures
        final(show).phase@ == "stage"@,
        spec_bumped(Show { phase: final(show).phase, ..*old(show) }, *final(show), now@),
{
    show.phase = string_of(chars_of("stage").as_slice());
    bump(show, now);
}

// ---------------------------------------------------------------- block.json

pub open spec fn stage_notice() -> Seq<char> {
    "2D floor marks only. 3D grey-box blocking stays in Blockout (Sam Wasserman). Lot does not invent a glTF or depth pass."@
}

/// A mark as JSON: every field.
pub open spec fn mark_jv(m: StageMark) -> JsonV {
    JsonV::Object(
        seq![
            ("id"@, JsonV::Str(m.id@)),
            ("who"@, JsonV::Str(m.who@)),
            ("kind"@, JsonV::Str(m.kind@)),
            ("mark"@, JsonV::Str(m.mark@)),
            ("x"@, JsonV::Str(m.x@)),
            ("z"@, JsonV::Str(m.z@)),
            ("notes"@, JsonV::Str(m.notes@)),
        ],
    )
}

pub open spec fn marks_jv(ms: Seq<StageMark>) -> Seq<JsonV> {
    Seq::new(ms.len(), |i: int| mark_jv(ms[i]))
}

/// One shot's row in `stage/block.json`.
pub open spec fn block_row(s: Shot) -> JsonV {
    JsonV::Object(
        seq![
            ("num"@, JsonV::Str(s.num@)),
            ("name"@, JsonV::Str(s.name@)),
            ("size"@, JsonV::Str(s.size@)),
            ("angle"@, JsonV::Str(s.angle@)),
            ("lens"@, JsonV::Str(s.lens@)),
            ("move"@, JsonV::Str(s.move_kind@)),
            ("marks"@, JsonV::Array(marks_jv(s.stage_marks@))),
            ("prompt"@, JsonV::Str(s.prompt@)),
        ],
    )
}

pub open spec fn block_rows(ss: Seq<Shot>) -> Seq<JsonV> {
    Seq::new(ss.len(), |i: int| block_row(ss[i]))
}

/// `stage/block.json`: the show, its revision, the engine, the notice, the
/// Blockout control file when it runs, and a row per shot.
pub open spec fn spec_block_json(show: Show, studio: Option<Seq<char>>) -> JsonV {
    JsonV::Object(
        seq![
            ("show"@, JsonV::Str(show.name@)),
            ("rev"@, JsonV::Number(dec(show.rev as nat))),
            ("engine"@, JsonV::Str("lot-marks"@)),
            ("notice"@, JsonV::Str(stage_notice())),
            ("blockout"@, match studio {
                Some(p) => JsonV::Object(seq![("ready"@, JsonV::Bool(true)), ("control"@, JsonV::Str(p))]),
                None => JsonV::Null,
            }),
            ("shots"@, JsonV::Array(block_rows(show.shots@))),
        ],
    )
}

fn sj(s: &str) -> (r: Json)
    ensures
        jv(r) == JsonV::Str(s@),
{
    Json::Str(string_of(chars_of(s).as_slice()))
}

fn kv(k: &str, v: Json) -> (r: (String, Json))
    ensures
        r.0@ == k@,
        r.1 == v,
{
    (string_of(chars_of(k).as_slice()), v)
}

fn mark_json(m: &StageMark) -> (r: Json)
    ensures
        jv(r) == mark_jv(*m),
{
    let mut ms: Vec<(String, Json)> = Vec::new();
    ms.push(kv("id", sj(m.id.as_str())));
    ms.push(kv("who", sj(m.who.as_str())));
    ms.push(kv("kind", sj(m.kind.as_str())));
    ms.push(kv("mark", sj(m.mark.as_str())));
    ms.push(kv("x", sj(m.x.as_str())));
    ms.push(kv("z", sj(m.z.as_str())));
    ms.push(kv("notes", sj(m.notes.as_str())));
    let ghost want = seq![
        ("id"@, JsonV::Str(m.id@)),
        ("who"@, JsonV::Str(m.who@)),
        ("kind"@, JsonV::Str(m.kind@)),
        ("mark"@, JsonV::Str(m.mark@)),
        ("x"@, JsonV::Str(m.x@)),
        ("z"@, JsonV::Str(m.z@)),
        ("notes"@, JsonV::Str(m.notes@)),
    ];
    assert(jv_members(ms@) =~= want) by {
        reveal_with_fuel(jv_members, 8);
    }
    let r = Json::Object(ms);
    proof {
        assert(mark_jv(*m)->Object_0 =~= want);
    }
    r
}

fn marks_json(ms: &Vec<StageMark>) -> (r: Json)
    ensures
        jv(r) == JsonV::Array(marks_jv(ms@)),
{
    let mut out: Vec<Json> = Vec::new();
    let mut i: usize = 0;
    while i < ms.len()
        invariant
            i <= ms.len(),
            jv_seq(out@) == marks_jv(ms@.take(i as int)),
        decreases ms.len() - i,
    {
        let ghost pre = out@;
        out.push(mark_json(&ms[i]));
        assert(out@.drop_last() =~= pre);
        assert(marks_jv(ms@.take(i + 1)) =~= marks_jv(ms@.take(i as int)).push(mark_jv(ms@[i as int])));
        i += 1;
    }
    assert(ms@.take(ms.len() as int) =~= ms@);
    Json::Array(out)
}

fn block_row_json(s: &Shot) -> (r: Json)
    ensures
        jv(r) == block_row(*s),
{
    let mut ms: Vec<(String, Json)> = Vec::new();
    ms.push(kv("num", sj(s.num.as_str())));
    ms.push(kv("name", sj(s.name.as_str())));
    ms.push(kv("size", sj(s.size.as_str())));
    ms.push(kv("angle", sj(s.angle.as_str())));
    ms.push(kv("lens", sj(s.lens.as_str())));
    ms.push(kv("move", sj(s.move_kind.as_str())));
    ms.push(kv("marks", marks_json(&s.stage_marks)));
    ms.push(kv("prompt", sj(s.prompt.as_str())));
    let ghost want = seq![
        ("num"@, JsonV::Str(s.num@)),
        ("name"@, JsonV::Str(s.name@)),
        ("size"@, JsonV::Str(s.size@)),
        ("angle"@, JsonV::Str(s.angle@)),
        ("lens"@, JsonV::Str(s.lens@)),
        ("move"@, JsonV::Str(s.move_kind@)),
        ("marks"@, JsonV::Array(marks_jv(s.stage_marks@))),
        ("prompt"@, JsonV::Str(s.prompt@)),
    ];
    assert(jv_members(ms@) =~= want) by {
        reveal_with_fuel(jv_members, 9);
    }
    let r = Json::Object(ms);
    proof {
        assert(block_row(*s)->Object_0 =~= want);
    }
    r
}

/// `stage/block.json` for a show (the caller checked it has shots).
pub fn block_json(show: &Show, studio: Option<&str>) -> (r: Json)
    ensures
        jv(r) == spec_block_json(*show, match studio { Some(p) => Some(p@), None => None }),
{
    let mut rows: Vec<Json> = Vec::new();
    let mut i: usize = 0;
    while i < show.shots.len()
        invariant
            i <= show.shots.len(),
            jv_seq(rows@) == block_rows(show.shots@.take(i as int)),
        decreases show.shots.len() - i,
    {
        let ghost pre = rows@;
        rows.push(block_row_json(&show.shots[i]));
        assert(rows@.drop_last() =~= pre);
        assert(block_rows(show.shots@.take(i + 1)) =~= block_rows(show.shots@.take(i as int)).push(
            block_row(show.shots@[i as int]),
        ));
        i += 1;
    }
    assert(show.shots@.take(show.shots.len() as int) =~= show.shots@);
    let ghost sv = match studio {
        Some(p) => JsonV::Object(seq![("ready"@, JsonV::Bool(true)), ("control"@, JsonV::Str(p@))]),
        None => JsonV::Null,
    };
    let st = match studio {
        Some(p) => {
            let mut sm: Vec<(String, Json)> = Vec::new();
            sm.push(kv("ready", Json::Bool(true)));
            sm.push(kv("control", sj(p)));
            assert(jv_members(sm@) =~= seq![("ready"@, JsonV::Bool(true)), ("control"@, JsonV::Str(p@))]) by {
                reveal_with_fuel(jv_members, 3);
            }
            Json::Object(sm)
        },
        None => Json::Null,
    };
    assert(jv(st) == sv);
    let mut ms: Vec<(String, Json)> = Vec::new();
    ms.push(kv("show", sj(show.name.as_str())));
    ms.push(kv("rev", Json::Number(string_of(dec_vec(show.rev).as_slice()))));
    ms.push(kv("engine", sj("lot-marks")));
    ms.push(
        kv(
            "notice",
            sj(
                "2D floor marks only. 3D grey-box blocking stays in Blockout (Sam Wasserman). Lot does not invent a glTF or depth pass.",
            ),
        ),
    );
    ms.push(kv("blockout", st));
    ms.push(kv("shots", Json::Array(rows)));
    let ghost want = seq![
        ("show"@, JsonV::Str(show.name@)),
        ("rev"@, JsonV::Number(dec(show.rev as nat))),
        ("engine"@, JsonV::Str("lot-marks"@)),
        ("notice"@, JsonV::Str(stage_notice())),
        ("blockout"@, sv),
        ("shots"@, JsonV::Array(block_rows(show.shots@))),
    ];
    assert(jv_members(ms@) =~= want) by {
        reveal_with_fuel(jv_members, 7);
    }
    let r = Json::Object(ms);
    proof {
        let sp = spec_block_json(*show, match studio { Some(p) => Some(p@), None => None });
        assert(sp->Object_0 =~= want);
    }
    r
}

} // verus!
