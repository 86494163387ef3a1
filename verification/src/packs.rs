//! Dated Writer packs (genres, living and canon directors, prompt targets).
//! IDs live in data; a pack is handed in already read.

use vstd::prelude::*;
use crate::error::{is_msg, msg, msg2, msg3, ShowError};
use crate::json::{Json, json_parse, member, member_str, get_member, parse_json};
use crate::text::{
    chars_of, eq_icase, eq_icase_vec, join, seq_eq, split_on, split_vec, string_of, trim,
    trim_vec,
};

verus! {

#[derive(Debug, Clone, Copy, PartialEq, Eq)]
pub enum IdKind {
    Genre,
    Living,
    Canon,
}

#[derive(Debug, Clone)]
pub struct PackItem {
    pub id: String,
    pub label: Option<String>,
    pub name: Option<String>,
    pub notes: Option<String>,
    pub kind: Option<String>,
}

#[derive(Debug, Clone)]
pub struct PackFile {
    pub reviewed: String,
    pub disclaimer: String,
    pub items: Vec<PackItem>,
}

pub open spec fn spec_display_name(it: PackItem) -> Seq<char> {
    match it.name {
        Some(n) => n@,
        None => match it.label {
            Some(l) => l@,
            None => it.id@,
        },
    }
}

impl PackItem {
    /// Name, else label, else id.
    pub fn display_name(&self) -> (r: &str)
        ensures
            r@ == spec_display_name(*self),
    {
        match &self.name {
            Some(n) => n.as_str(),
            None => match &self.label {
                Some(l) => l.as_str(),
                None => self.id.as_str(),
            },
        }
    }
}

pub open spec fn spec_unknown_msg(kind: IdKind, id: Seq<char>) -> Seq<char> {
    match kind {
        IdKind::Genre => "unknown genre: "@ + id,
        IdKind::Living => "unknown living: "@ + id,
        IdKind::Canon => "unknown canon: "@ + id,
    }
}

impl IdKind {
    pub fn unknown_msg(self, id: &str) -> (r: ShowError)
        ensures
            is_msg(r, spec_unknown_msg(self, id@)),
    {
        match self {
            IdKind::Genre => msg2("unknown genre: ", id),
            IdKind::Living => msg2("unknown living: ", id),
            IdKind::Canon => msg2("unknown canon: ", id),
        }
    }
}

/// The comma-separated pieces of every argument, in order.
pub open spec fn id_pieces(ids: Seq<Seq<char>>) -> Seq<Seq<char>>
    decreases ids.len(),
{
    if ids.len() == 0 {
        seq![]
    } else {
        id_pieces(ids.drop_last()) + split_on(ids.last(), seq![','])
    }
}

/// First item whose id equals `raw` ignoring ASCII case.
pub open spec fn find_item(items: Seq<PackItem>, raw: Seq<char>) -> int
    decreases items.len(),
{
    if items.len() == 0 {
        -1
    } else if eq_icase(items[0].id@, raw) {
        0
    } else {
        let r = find_item(items.drop_first(), raw);
        if r < 0 {
            -1
        } else {
            r + 1
        }
    }
}

pub proof fn lemma_find_item(items: Seq<PackItem>, raw: Seq<char>)
    ensures
        -1 <= find_item(items, raw) < items.len(),
    decreases items.len(),
{
    if items.len() > 0 && !eq_icase(items[0].id@, raw) {
        lemma_find_item(items.drop_first(), raw);
    }
}

/// Canonical ids for `ps[i..]`, appended to `out` without repeats; the first
/// unknown piece is the error.
pub open spec fn resolve_from(
    kind: IdKind,
    items: Seq<PackItem>,
    ps: Seq<Seq<char>>,
    i: nat,
    out: Seq<Seq<char>>,
) -> Result<Seq<Seq<char>>, Seq<char>>
    decreases ps.len() - i,
{
    if i >= ps.len() {
        Ok(out)
    } else {
        let raw = trim(ps[i as int]);
        if raw.len() == 0 {
            resolve_from(kind, items, ps, i + 1, out)
        } else {
            let k = find_item(items, raw);
            if k < 0 {
                Err(spec_unknown_msg(kind, raw))
            } else {
                let id = items[k].id@;
                resolve_from(kind, items, ps, i + 1, if out.contains(id) { out } else { out.push(id) })
            }
        }
    }
}

pub open spec fn spec_resolve_ids(kind: IdKind, pack: PackFile, ids: Seq<Seq<char>>) -> Result<
    Seq<Seq<char>>,
    Seq<char>,
> {
    resolve_from(kind, pack.items@, id_pieces(ids), 0, seq![])
}

pub fn find_item_exec(items: &Vec<PackItem>, raw: &Vec<char>) -> (r: Option<usize>)
    ensures
        match r {
            Some(k) => k as int == find_item(items@, raw@),
            None => find_item(items@, raw@) == -1,
        },
{
    let mut i: usize = 0;
    assert(items@.skip(0) =~= items@);
    while i < items.len()
        invariant
            i <= items.len(),
            find_item(items@, raw@) == if find_item(items@.skip(i as int), raw@) < 0 {
                -1
            } else {
                find_item(items@.skip(i as int), raw@) + i
            },
        decreases items.len() - i,
    {
        assert(items@.skip(i as int)[0] == items@[i as int]);
        if eq_icase_vec(&chars_of(items[i].id.as_str()), raw) {
            return Some(i);
        }
        assert(items@.skip(i as int).drop_first() =~= items@.skip(i + 1));
        i += 1;
    }
    None
}

pub fn contains_string(v: &Vec<String>, s: &Vec<char>) -> (r: bool)
    ensures
        r == v.deep_view().contains(s@),
{
    let mut i: usize = 0;
    while i < v.len()
        invariant
            i <= v.len(),
            forall|j: int| 0 <= j < i ==> v.deep_view()[j] != s@,
        decreases v.len() - i,
    {
        assert(v.deep_view()[i as int] == v[i as int]@);
        if seq_eq(&chars_of(v[i].as_str()), s) {
            return true;
        }
        i += 1;
    }
    false
}

pub fn push_string(v: &mut Vec<String>, s: String)
    ensures
        final(v).deep_view() == old(v).deep_view().push(s@),
{
    let ghost pre = v@;
    let ghost sv = s@;
    v.push(s);
    proof {
        assert(v@ == pre.push(s));
        assert forall|j: int| 0 <= j < v@.len() implies v.deep_view()[j] == Seq::new(
            pre.len(),
            |i: int| pre[i]@,
        ).push(sv)[j] by {
            if j < pre.len() {
                assert(v@[j] == pre[j]);
            }
        }
        assert(v.deep_view() =~= Seq::new(pre.len(), |i: int| pre[i]@).push(sv));
    }
}

/// Every comma-separated piece of every argument, in order.
pub fn pieces_of(ids: &[String]) -> (r: Vec<Vec<char>>)
    ensures
        r.deep_view() == id_pieces(crate::text::strings_view(ids@)),
{
    let ghost idv = crate::text::strings_view(ids@);
    let comma: Vec<char> = vec![','];
    assert(comma@ =~= seq![',']);
    let mut acc: Vec<Vec<char>> = Vec::new();
    let mut a: usize = 0;
    assert(idv.take(0) =~= Seq::<Seq<char>>::empty());
    assert(acc.deep_view() =~= id_pieces(idv.take(0)));
    while a < ids.len()
        invariant
            a <= ids.len(),
            comma@ == seq![','],
            idv == crate::text::strings_view(ids@),
            acc.deep_view() == id_pieces(idv.take(a as int)),
        decreases ids.len() - a,
    {
        let pieces = split_vec(&chars_of(ids[a].as_str()), &comma);
        assert(idv[a as int] == ids@[a as int]@);
        let ghost base = acc.deep_view();
        let mut b: usize = 0;
        assert(acc.deep_view() =~= base + pieces.deep_view().take(0));
        while b < pieces.len()
            invariant
                b <= pieces.len(),
                acc.deep_view() == base + pieces.deep_view().take(b as int),
            decreases pieces.len() - b,
        {
            let piece = crate::text::sub_vec(&pieces[b], 0, pieces[b].len());
            assert(piece@ =~= pieces.deep_view()[b as int]);
            crate::text::push_piece(&mut acc, piece);
            b += 1;
            assert(acc.deep_view() =~= base + pieces.deep_view().take(b as int));
        }
        proof {
            let t1 = idv.take(a + 1);
            assert(t1.drop_last() =~= idv.take(a as int));
            assert(t1.last() == idv[a as int]);
            assert(pieces.deep_view().take(b as int) =~= pieces.deep_view());
            assert(id_pieces(t1) == id_pieces(t1.drop_last()) + split_on(t1.last(), seq![',']));
        }
        a += 1;
    }
    assert(idv.take(a as int) =~= idv);
    acc
}

/// Resolves comma-separated ids (case-insensitive) to the pack's canonical
/// ids, in order and without repeats. The first unknown id is an error naming
/// its kind.
pub fn resolve_ids(kind: IdKind, pack: &PackFile, ids: &[String]) -> (r: Result<Vec<String>, ShowError>)
    ensures
        match (r, spec_resolve_ids(kind, *pack, crate::text::strings_view(ids@))) {
            (Ok(v), Ok(w)) => v.deep_view() == w,
            (Err(e), Err(m)) => is_msg(e, m),
            _ => false,
        },
{
    let all = pieces_of(ids);
    let ghost av = all.deep_view();
    let mut out: Vec<String> = Vec::new();
    assert(out.deep_view() =~= Seq::<Seq<char>>::empty());
    let mut i: usize = 0;
    while i < all.len()
        invariant
            i <= all.len(),
            av == all.deep_view(),
            av == id_pieces(crate::text::strings_view(ids@)),
            resolve_from(kind, pack.items@, av, 0, seq![]) == resolve_from(
                kind,
                pack.items@,
                av,
                i as nat,
                out.deep_view(),
            ),
        decreases all.len() - i,
    {
        assert(av[i as int] == all[i as int]@);
        let raw = trim_vec(&all[i]);
        if raw.len() > 0 {
            match find_item_exec(&pack.items, &raw) {
                None => {
                    let rs = string_of(&raw);
                    assert(resolve_from(kind, pack.items@, av, i as nat, out.deep_view()) == Err::<
                        Seq<Seq<char>>,
                        Seq<char>,
                    >(spec_unknown_msg(kind, raw@)));
                    return Err(kind.unknown_msg(rs.as_str()));
                },
                Some(k) => {
                    proof {
                        lemma_find_item(pack.items@, raw@);
                    }
                    let idc = chars_of(pack.items[k].id.as_str());
                    if !contains_string(&out, &idc) {
                        push_string(&mut out, pack.items[k].id.clone());
                    }
                },
            }
        }
        i += 1;
    }
    Ok(out)
}

pub open spec fn spec_resolve_format(raw: Seq<char>) -> Result<Seq<char>, Seq<char>> {
    let t = trim(raw);
    if eq_icase(t, "feature"@) {
        Ok("feature"@)
    } else if eq_icase(t, "30min"@) {
        Ok("30min"@)
    } else if eq_icase(t, "15s"@) {
        Ok("15s"@)
    } else if eq_icase(t, "episodic"@) {
        Ok("episodic"@)
    } else if eq_icase(t, "advertisement"@) || eq_icase(t, "ad"@) {
        Ok("advertisement"@)
    } else if eq_icase(t, "music-video"@) || eq_icase(t, "mv"@) {
        Ok("music-video"@)
    } else {
        Err("unknown format: "@ + t + " (want feature | 30min | 15s | episodic | advertisement | music-video)"@)
    }
}

fn icase(t: &Vec<char>, s: &str) -> (r: bool)
    ensures
        r == eq_icase(t@, s@),
{
    eq_icase_vec(t, &chars_of(s))
}

/// A screenplay format id (`ad` and `mv` are short for `advertisement` and
/// `music-video`).
pub fn resolve_format(raw: &str) -> (r: Result<String, ShowError>)
    ensures
        match (r, spec_resolve_format(raw@)) {
            (Ok(v), Ok(w)) => v@ == w,
            (Err(e), Err(m)) => is_msg(e, m),
            _ => false,
        },
{
    let t = trim_vec(&chars_of(raw));
    let id = if icase(&t, "feature") {
        "feature"
    } else if icase(&t, "30min") {
        "30min"
    } else if icase(&t, "15s") {
        "15s"
    } else if icase(&t, "episodic") {
        "episodic"
    } else if icase(&t, "advertisement") || icase(&t, "ad") {
        "advertisement"
    } else if icase(&t, "music-video") || icase(&t, "mv") {
        "music-video"
    } else {
        let ts = string_of(&t);
        return Err(
            msg3(
                "unknown format: ",
                ts.as_str(),
                " (want feature | 30min | 15s | episodic | advertisement | music-video)",
            ),
        );
    };
    Ok(string_of(&chars_of(id)))
}

/// First item whose id equals `id` exactly.
pub open spec fn lookup_index(items: Seq<PackItem>, id: Seq<char>) -> int
    decreases items.len(),
{
    if items.len() == 0 {
        -1
    } else if items[0].id@ == id {
        0
    } else {
        let r = lookup_index(items.drop_first(), id);
        if r < 0 {
            -1
        } else {
            r + 1
        }
    }
}

pub fn lookup<'a>(pack: &'a PackFile, id: &str) -> (r: Option<&'a PackItem>)
    ensures
        match r {
            Some(it) => lookup_index(pack.items@, id@) >= 0 && *it == pack.items@[lookup_index(
                pack.items@,
                id@,
            )],
            None => lookup_index(pack.items@, id@) == -1,
        },
{
    let mut i: usize = 0;
    assert(pack.items@.skip(0) =~= pack.items@);
    while i < pack.items.len()
        invariant
            i <= pack.items.len(),
            lookup_index(pack.items@, id@) == if lookup_index(pack.items@.skip(i as int), id@)
                < 0 {
                -1
            } else {
                lookup_index(pack.items@.skip(i as int), id@) + i
            },
        decreases pack.items.len() - i,
    {
        assert(pack.items@.skip(i as int)[0] == pack.items@[i as int]);
        if crate::text::str_eq(pack.items[i].id.as_str(), id) {
            return Some(&pack.items[i]);
        }
        assert(pack.items@.skip(i as int).drop_first() =~= pack.items@.skip(i + 1));
        i += 1;
    }
    None
}

pub open spec fn spec_resolve_target(targets: PackFile, raw: Seq<char>) -> Result<Seq<char>, Seq<char>> {
    let t = trim(raw);
    let k = find_item(targets.items@, t);
    if k < 0 {
        Err("unknown prompt target: "@ + t)
    } else {
        Ok(targets.items@[k].id@)
    }
}

/// A prompt-target id (case-insensitive) resolved to the target pack's id.
pub fn resolve_prompt_target(targets: &PackFile, raw: &str) -> (r: Result<String, ShowError>)
    ensures
        match (r, spec_resolve_target(*targets, raw@)) {
            (Ok(v), Ok(w)) => v@ == w,
            (Err(e), Err(m)) => is_msg(e, m),
            _ => false,
        },
{
    let t = trim_vec(&chars_of(raw));
    match find_item_exec(&targets.items, &t) {
        Some(k) => {
            proof {
                lemma_find_item(targets.items@, t@);
            }
            Ok(targets.items[k].id.clone())
        },
        None => {
            let ts = string_of(&t);
            Err(msg2("unknown prompt target: ", ts.as_str()))
        },
    }
}


/// An optional text field of a pack item: missing, `null` or a text.
pub open spec fn opt_text_ok(v: Option<Json>) -> bool {
    match v {
        None => true,
        Some(Json::Null) => true,
        Some(Json::Str(_)) => true,
        _ => false,
    }
}

pub open spec fn opt_text_of(v: Option<Json>) -> Option<Seq<char>> {
    match v {
        Some(Json::Str(s)) => Some(s@),
        _ => None,
    }
}

/// A pack item as the data holds it: an object with a text `id` and
/// optional texts `label`, `name` and `notes`.
pub open spec fn item_shape_ok(v: Json) -> bool {
    &&& v is Object
    &&& member_str(v, "id"@) is Some
    &&& opt_text_ok(member(v, "label"@))
    &&& opt_text_ok(member(v, "name"@))
    &&& opt_text_ok(member(v, "notes"@))
}

pub open spec fn opt_string_view(o: Option<String>) -> Option<Seq<char>> {
    match o {
        Some(s) => Some(s@),
        None => None,
    }
}

/// The item read from `v` carries its fields.
pub open spec fn item_read(it: PackItem, v: Json) -> bool {
    &&& Some(it.id@) == member_str(v, "id"@)
    &&& opt_string_view(it.label) == opt_text_of(member(v, "label"@))
    &&& opt_string_view(it.name) == opt_text_of(member(v, "name"@))
    &&& opt_string_view(it.notes) == opt_text_of(member(v, "notes"@))
    &&& opt_string_view(it.kind) == opt_text_of(member(v, "kind"@))
}

/// A pack as the data holds it: texts `reviewed` and `disclaimer` and a list
/// of well-formed `items`.
pub open spec fn pack_shape_ok(v: Json) -> bool {
    &&& member_str(v, "reviewed"@) is Some
    &&& member_str(v, "disclaimer"@) is Some
    &&& match member(v, "items"@) {
        Some(Json::Array(xs)) => items_shape_ok(xs@),
        _ => false,
    }
}

pub open spec fn items_shape_ok(xs: Seq<Json>) -> bool {
    forall|i: int| 0 <= i < xs.len() ==> #[trigger] item_shape_ok(xs[i])
}

pub open spec fn pack_items(v: Json) -> Seq<Json> {
    match member(v, "items"@) {
        Some(Json::Array(xs)) => xs@,
        _ => seq![],
    }
}

/// The pack read from `v` carries its fields and its items in order.
pub open spec fn pack_read(p: PackFile, v: Json) -> bool {
    &&& Some(p.reviewed@) == member_str(v, "reviewed"@)
    &&& Some(p.disclaimer@) == member_str(v, "disclaimer"@)
    &&& p.items@.len() == pack_items(v).len()
    &&& forall|i: int| 0 <= i < p.items@.len() ==> #[trigger] item_read(p.items@[i], pack_items(v)[i])
}

fn opt_text_exec(v: Option<&Json>) -> (r: Result<Option<String>, ()>)
    ensures
        r is Ok <==> opt_text_ok(crate::json::opt_json(v)),
        r matches Ok(o) ==> opt_string_view(o) == opt_text_of(crate::json::opt_json(v)),
{
    match v {
        None => Ok(None),
        Some(Json::Null) => Ok(None),
        Some(Json::Str(s)) => Ok(Some(string_of(chars_of(s.as_str()).as_slice()))),
        _ => Err(()),
    }
}

fn read_item(v: &Json) -> (r: Option<PackItem>)
    ensures
        r is Some <==> item_shape_ok(*v),
        r matches Some(it) ==> item_read(it, *v),
{
    if !matches!(v, Json::Object(_)) {
        return None;
    }
    let id = match get_member(v, "id") {
        Some(Json::Str(s)) => string_of(chars_of(s.as_str()).as_slice()),
        _ => return None,
    };
    let label = match opt_text_exec(get_member(v, "label")) {
        Ok(o) => o,
        Err(_) => return None,
    };
    let name = match opt_text_exec(get_member(v, "name")) {
        Ok(o) => o,
        Err(_) => return None,
    };
    let notes = match opt_text_exec(get_member(v, "notes")) {
        Ok(o) => o,
        Err(_) => return None,
    };
    let kind = match get_member(v, "kind") {
        Some(Json::Str(s)) => Some(string_of(chars_of(s.as_str()).as_slice())),
        _ => None,
    };
    Some(PackItem { id, label, name, notes, kind })
}

/// A pack that reads: well formed, with a reviewed date and a disclaimer
/// that are not blank.
pub open spec fn pack_ok(v: Json) -> bool {
    pack_shape_ok(v) && trim(member_str(v, "reviewed"@).unwrap()).len() > 0 && trim(
        member_str(v, "disclaimer"@).unwrap(),
    ).len() > 0
}

/// Reads a pack from its JSON. It is refused, with a message that names the
/// pack, where the data is not a pack (`pack_shape_ok`), or where its
/// reviewed date or its disclaimer is blank.
pub fn parse_pack(v: &Json, name: &str) -> (r: Result<PackFile, ShowError>)
    ensures
        r is Ok <==> pack_shape_ok(*v) && trim(member_str(*v, "reviewed"@).unwrap()).len() > 0
            && trim(member_str(*v, "disclaimer"@).unwrap()).len() > 0,
        r matches Ok(p) ==> pack_read(p, *v),
        pack_shape_ok(*v) && trim(member_str(*v, "reviewed"@).unwrap()).len() == 0 ==> is_msg(
            r->Err_0,
            name@ + " pack: missing reviewed date"@,
        ),
        pack_shape_ok(*v) && trim(member_str(*v, "reviewed"@).unwrap()).len() > 0 && trim(
            member_str(*v, "disclaimer"@).unwrap(),
        ).len() == 0 ==> is_msg(r->Err_0, name@ + " pack: missing disclaimer"@),
        !pack_shape_ok(*v) ==> is_msg(r->Err_0, name@ + " pack: not a pack"@),
{
    let bad = msg2(name, " pack: not a pack");
    let reviewed = match get_member(v, "reviewed") {
        Some(Json::Str(s)) => s,
        _ => return Err(bad),
    };
    let disclaimer = match get_member(v, "disclaimer") {
        Some(Json::Str(s)) => s,
        _ => return Err(bad),
    };
    let xs = match get_member(v, "items") {
        Some(Json::Array(xs)) => xs,
        _ => return Err(bad),
    };
    let mut items: Vec<PackItem> = Vec::new();
    let mut i: usize = 0;
    while i < xs.len()
        invariant
            i <= xs.len(),
            member(*v, "items"@) == Some(Json::Array(*xs)),
            items@.len() == i,
            forall|k: int| 0 <= k < i ==> #[trigger] item_shape_ok(xs@[k]),
            forall|k: int| 0 <= k < i ==> #[trigger] item_read(items@[k], xs@[k]),
            is_msg(bad, name@ + " pack: not a pack"@),
        decreases xs.len() - i,
    {
        match read_item(&xs[i]) {
            Some(it) => items.push(it),
            None => {
                assert(!item_shape_ok(xs@[i as int]));
                assert(!items_shape_ok(xs@));
                assert(!pack_shape_ok(*v));
                return Err(bad);
            },
        }
        i += 1;
    }
    assert(pack_shape_ok(*v));
    if trim_vec(&chars_of(reviewed.as_str())).len() == 0 {
        return Err(msg2(name, " pack: missing reviewed date"));
    }
    if trim_vec(&chars_of(disclaimer.as_str())).len() == 0 {
        return Err(msg2(name, " pack: missing disclaimer"));
    }
    Ok(PackFile {
        reviewed: string_of(chars_of(reviewed.as_str()).as_slice()),
        disclaimer: string_of(chars_of(disclaimer.as_str()).as_slice()),
        items,
    })
}

/// Reads the pack of one name from its JSON text: a text that is not JSON is
/// refused with the parser's message after the pack's name, the rest is
/// `parse_pack`.
pub fn read_pack(raw: &str, name: &str) -> (r: Result<PackFile, ShowError>)
    ensures
        match json_parse(raw@) {
            Some(v) => (r is Ok <==> pack_ok(v)) && (r matches Ok(p) ==> pack_read(p, v)),
            None => r is Err,
        },
{
    match parse_json(raw) {
        Ok(v) => parse_pack(&v, name),
        Err(e) => Err(msg3(name, " pack: ", e.as_str())),
    }
}

/// The genres pack, from the text of its data file.
pub fn genres(raw: &str) -> (r: Result<PackFile, ShowError>)
    ensures
        match json_parse(raw@) {
            Some(v) => (r is Ok <==> pack_ok(v)) && (r matches Ok(p) ==> pack_read(p, v)),
            None => r is Err,
        },
{
    read_pack(raw, "genres")
}

/// The living directors pack, from the text of its data file.
pub fn living_directors(raw: &str) -> (r: Result<PackFile, ShowError>)
    ensures
        match json_parse(raw@) {
            Some(v) => (r is Ok <==> pack_ok(v)) && (r matches Ok(p) ==> pack_read(p, v)),
            None => r is Err,
        },
{
    read_pack(raw, "directors-living")
}

/// The canon directors pack, from the text of its data file.
pub fn canon_directors(raw: &str) -> (r: Result<PackFile, ShowError>)
    ensures
        match json_parse(raw@) {
            Some(v) => (r is Ok <==> pack_ok(v)) && (r matches Ok(p) ==> pack_read(p, v)),
            None => r is Err,
        },
{
    read_pack(raw, "directors-canon")
}

} // verus!
