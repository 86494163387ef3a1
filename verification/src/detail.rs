//! How much a mutation's reply carries: lean by default, full shot and prompt
//! cards only when the detail is `full`.

use vstd::prelude::*;
use crate::json::{Json, JsonV, jv, jv_seq, jv_members, member, get_member, opt_json, copy_json};
use crate::json::{lemma_jv_seq_take, lemma_jv_members_take};
use crate::text::{chars_of, string_of, str_eq, dec, dec_vec, trim, trim_vec, eq_icase, eq_icase_vec};

verus! {

/// Whether a `detail` setting asks for full cards.
pub open spec fn spec_detail_full(raw: Option<Seq<char>>) -> bool {
    match raw {
        Some(s) => eq_icase(trim(s), "full"@),
        None => false,
    }
}

pub fn detail_full(raw: Option<&str>) -> (r: bool)
    ensures
        r == spec_detail_full(match raw {
            Some(s) => Some(s@),
            None => None,
        }),
{
    match raw {
        Some(s) => eq_icase_vec(&trim_vec(&chars_of(s)), &chars_of("full")),
        None => false,
    }
}

/// Whether a JSON `detail` argument asks for full cards: the text `full`
/// (as `detail_full` reads it) or `true`.
pub open spec fn spec_detail_full_value(v: Option<Json>) -> bool {
    match v {
        Some(Json::Str(s)) => spec_detail_full(Some(s@)),
        Some(Json::Bool(b)) => b,
        _ => false,
    }
}

pub fn detail_full_value(v: Option<&Json>) -> (r: bool)
    ensures
        r == spec_detail_full_value(opt_json(v)),
{
    match v {
        Some(Json::Str(s)) => detail_full(Some(s.as_str())),
        Some(Json::Bool(b)) => *b,
        _ => false,
    }
}

/// The detail setting that the process carries.
pub struct DetailScope {
    pub full: bool,
}

impl DetailScope {
    pub fn new() -> (r: DetailScope)
        ensures
            !r.full,
    {
        DetailScope { full: false }
    }
}

pub fn set_detail_full(scope: &mut DetailScope, full: bool)
    ensures
        final(scope).full == full,
{
    scope.full = full;
}

pub fn clear_detail(scope: &mut DetailScope)
    ensures
        !final(scope).full,
{
    set_detail_full(scope, false);
}

pub fn detail_full_active(scope: &DetailScope) -> (r: bool)
    ensures
        r == scope.full,
{
    scope.full
}

/// Runs `f` with the detail set to `full`, then puts the previous setting back.
pub fn with_detail<T, F: FnOnce(&DetailScope) -> T>(scope: &mut DetailScope, full: bool, f: F) -> (r: T)
    requires
        call_requires(f, (&(DetailScope { full: full }),)),
    ensures
        final(scope).full == old(scope).full,
        call_ensures(f, (&(DetailScope { full: full }),), r),
{
    let prev = scope.full;
    scope.full = full;
    let out = f(&*scope);
    scope.full = prev;
    out
}


/// A member's value, or `fallback` where the member is missing.
pub open spec fn member_or(v: Json, key: Seq<char>, fallback: JsonV) -> JsonV {
    match member(v, key) {
        Some(x) => jv(x),
        None => fallback,
    }
}

/// The text of a string value that is not empty.
pub open spec fn nonempty_text(v: Option<Json>) -> Option<Seq<char>> {
    match v {
        Some(Json::Str(s)) => if s@.len() > 0 { Some(s@) } else { None },
        _ => None,
    }
}

/// A member that is there and not `null`.
pub open spec fn present(v: Option<Json>) -> bool {
    match v {
        Some(x) => !(x is Null),
        None => false,
    }
}

pub open spec fn kept_as(k: Seq<char>, v: Option<Json>) -> Seq<(Seq<char>, JsonV)> {
    if present(v) {
        seq![(k, jv(v.unwrap()))]
    } else {
        seq![]
    }
}

/// What a provenance record adds to a media card: its prompt hash as
/// `sha256` and its `duration_ms`, each where it is set.
pub open spec fn provenance_members(prov: Option<Json>) -> Seq<(Seq<char>, JsonV)> {
    match prov {
        Some(p) => kept_as("sha256"@, member(p, "prompt_hash"@)) + kept_as("duration_ms"@, member(p, "duration_ms"@)),
        None => seq![],
    }
}

/// A media card: the path, where it is a non-empty text, then what the
/// provenance adds.
pub open spec fn spec_media_ref(path: Option<Json>, prov: Option<Json>) -> Option<Seq<(Seq<char>, JsonV)>> {
    match nonempty_text(path) {
        Some(p) => Some(seq![("path"@, JsonV::Str(p))] + provenance_members(prov)),
        None => None,
    }
}

pub open spec fn card_member(k: Seq<char>, m: Option<Seq<(Seq<char>, JsonV)>>) -> Seq<(Seq<char>, JsonV)> {
    match m {
        Some(ms) => seq![(k, JsonV::Object(ms))],
        None => seq![],
    }
}

pub open spec fn media_or_null(m: Option<Seq<(Seq<char>, JsonV)>>) -> JsonV {
    match m {
        Some(ms) => JsonV::Object(ms),
        None => JsonV::Null,
    }
}

/// How many stage marks a shot carries.
pub open spec fn marks_count(s: Json) -> nat {
    match member(s, "stage_marks"@) {
        Some(Json::Array(xs)) => xs@.len(),
        _ => 0,
    }
}

/// The plate card: the plate's media card, with the motion duration where
/// the shot has one.
pub open spec fn plate_card(s: Json) -> Option<Seq<(Seq<char>, JsonV)>> {
    match spec_media_ref(member(s, "plate_path"@), None) {
        Some(m) => match member(s, "motion_duration"@) {
            Some(d) => Some(m.push(("duration"@, jv(d)))),
            None => Some(m),
        },
        None => None,
    }
}

/// The lean card of a shot: id, number, name, size, lock, the count of its
/// stage marks, and its reference, still and plate media where they exist.
pub open spec fn shot_card(s: Json) -> JsonV {
    JsonV::Object(
        seq![
            ("id"@, member_or(s, "id"@, JsonV::Null)),
            ("num"@, member_or(s, "num"@, JsonV::Null)),
            ("name"@, member_or(s, "name"@, JsonV::Null)),
            ("size"@, member_or(s, "size"@, JsonV::Null)),
            ("locked"@, member_or(s, "locked"@, JsonV::Bool(false))),
            ("marks"@, JsonV::Number(dec(marks_count(s)))),
        ] + card_member("ref"@, spec_media_ref(member(s, "ref_path"@), None)) + card_member(
            "still"@,
            spec_media_ref(member(s, "still_path"@), member(s, "still_provenance"@)),
        ) + card_member("plate"@, plate_card(s)),
    )
}

/// The lean card of a take.
pub open spec fn take_card(t: Json) -> JsonV {
    JsonV::Object(
        seq![
            ("id"@, member_or(t, "id"@, JsonV::Null)),
            ("shot_id"@, member_or(t, "shot_id"@, JsonV::Null)),
            ("path"@, member_or(t, "path"@, JsonV::Null)),
            ("sha256"@, member_or(t, "sha256"@, JsonV::Str(seq![]))),
            ("duration_secs"@, member_or(t, "duration_secs"@, JsonV::Null)),
            ("circled"@, member_or(t, "circled"@, JsonV::Bool(false))),
        ],
    )
}

/// The lean card of a cast member: name and function.
pub open spec fn cast_card(c: Json) -> JsonV {
    JsonV::Object(
        seq![
            ("name"@, member_or(c, "name"@, JsonV::Null)),
            ("function"@, member_or(c, "function"@, JsonV::Str(seq![]))),
        ],
    )
}

/// The three lists whose entries are cut down to cards.
pub enum CardKind {
    Shot,
    Take,
    Cast,
}

pub open spec fn card_of(kind: CardKind, v: Json) -> JsonV {
    match kind {
        CardKind::Shot => shot_card(v),
        CardKind::Take => take_card(v),
        CardKind::Cast => cast_card(v),
    }
}

pub open spec fn cards(kind: CardKind, xs: Seq<Json>) -> Seq<JsonV> {
    xs.map_values(|x: Json| card_of(kind, x))
}

/// A list cut down to cards; anything that is not a list stays as it is.
pub open spec fn lean_list(kind: CardKind, v: Json) -> JsonV {
    match v {
        Json::Array(xs) => JsonV::Array(cards(kind, xs@)),
        _ => jv(v),
    }
}

/// The lean stems: the soundtrack and voice-over media cards, `null` where
/// there is none.
pub open spec fn lean_stems(v: Json) -> JsonV {
    JsonV::Object(
        seq![
            ("soundtrack"@, media_or_null(spec_media_ref(member(v, "soundtrack_path"@), member(v, "soundtrack_provenance"@)))),
            ("vo"@, media_or_null(spec_media_ref(member(v, "vo_path"@), member(v, "vo_provenance"@)))),
        ],
    )
}

/// The ids of the entries that have one, in order.
pub open spec fn ids_of(xs: Seq<Json>) -> Seq<JsonV>
    decreases xs.len(),
{
    if xs.len() == 0 {
        seq![]
    } else {
        ids_of(xs.drop_last()) + match member(xs.last(), "id"@) {
            Some(x) => seq![jv(x)],
            None => seq![],
        }
    }
}

pub open spec fn lora_ids(v: Json) -> Seq<JsonV> {
    match member(v, "loras"@) {
        Some(Json::Array(xs)) => ids_of(xs@),
        _ => seq![],
    }
}

/// The lean slate: its default target and the ids of its LoRAs.
pub open spec fn lean_slate(v: Json) -> JsonV {
    JsonV::Object(
        seq![
            ("default_target"@, member_or(v, "default_target"@, JsonV::Null)),
            ("loras"@, JsonV::Array(lora_ids(v))),
        ],
    )
}

/// One member of the extras, cut down by its key.
pub open spec fn lean_member(k: Seq<char>, v: Json) -> JsonV {
    if k == "shots"@ {
        lean_list(CardKind::Shot, v)
    } else if k == "takes"@ {
        lean_list(CardKind::Take, v)
    } else if k == "cast"@ {
        lean_list(CardKind::Cast, v)
    } else if k == "stems"@ {
        lean_stems(v)
    } else if k == "slate"@ {
        lean_slate(v)
    } else {
        jv(v)
    }
}

pub open spec fn lean_members(ms: Seq<(String, Json)>) -> Seq<(Seq<char>, JsonV)>
    decreases ms.len(),
{
    if ms.len() == 0 {
        seq![]
    } else {
        lean_members(ms.drop_last()).push((ms.last().0@, lean_member(ms.last().0@, ms.last().1)))
    }
}

/// The extras of a mutation's reply: as they are when `full`, or when they
/// are not an object; else each of `shots`, `takes`, `cast`, `stems` and
/// `slate` is cut down to its lean cards and the other members stay.
pub open spec fn spec_lean_extra(extra: Json, full: bool) -> JsonV {
    if full {
        jv(extra)
    } else {
        match extra {
            Json::Object(ms) => JsonV::Object(lean_members(ms@)),
            _ => jv(extra),
        }
    }
}

fn key(s: &str) -> (r: String)
    ensures
        r@ == s@,
{
    string_of(chars_of(s).as_slice())
}

fn put(ms: &mut Vec<(String, Json)>, k: &str, v: Json)
    ensures
        jv_members(final(ms)@) == jv_members(old(ms)@).push((k@, jv(v))),
{
    let ghost pre = ms@;
    ms.push((key(k), v));
    assert(ms@.drop_last() =~= pre);
}

fn put_card(ms: &mut Vec<(String, Json)>, k: &str, m: Option<Vec<(String, Json)>>)
    ensures
        jv_members(final(ms)@) == jv_members(old(ms)@) + card_member(k@, match m {
            Some(x) => Some(jv_members(x@)),
            None => None,
        }),
{
    match m {
        Some(x) => {
            let ghost inner = jv_members(x@);
            put(ms, k, Json::Object(x));
            assert(jv_members(ms@) =~= jv_members(old(ms)@) + seq![(k@, JsonV::Object(inner))]);
        },
        None => {
            assert(jv_members(ms@) =~= jv_members(ms@) + seq![]);
        },
    }
}

fn member_or_exec(v: &Json, k: &str, fallback: Json) -> (r: Json)
    ensures
        jv(r) == member_or(*v, k@, jv(fallback)),
{
    match get_member(v, k) {
        Some(x) => copy_json(x),
        None => fallback,
    }
}

fn keep_as(ms: &mut Vec<(String, Json)>, k: &str, v: Option<&Json>)
    ensures
        jv_members(final(ms)@) == jv_members(old(ms)@) + kept_as(k@, opt_json(v)),
{
    match v {
        Some(x) => {
            if !matches!(x, Json::Null) {
                put(ms, k, copy_json(x));
                assert(jv_members(ms@) =~= jv_members(old(ms)@) + kept_as(k@, opt_json(v)));
            } else {
                assert(jv_members(ms@) =~= jv_members(ms@) + seq![]);
            }
        },
        None => {
            assert(jv_members(ms@) =~= jv_members(ms@) + seq![]);
        },
    }
}

/// The media card of a path and its provenance, where the path is a
/// non-empty text.
pub fn media_ref(path: Option<&Json>, prov: Option<&Json>) -> (r: Option<Vec<(String, Json)>>)
    ensures
        match r {
            Some(ms) => spec_media_ref(opt_json(path), opt_json(prov)) == Some(jv_members(ms@)),
            None => spec_media_ref(opt_json(path), opt_json(prov)) is None,
        },
{
    let p = match path {
        Some(Json::Str(s)) => s,
        _ => return None,
    };
    if chars_of(p.as_str()).len() == 0 {
        return None;
    }
    let mut ms: Vec<(String, Json)> = Vec::new();
    put(&mut ms, "path", Json::Str(key(p.as_str())));
    assert(jv_members(ms@) =~= seq![("path"@, JsonV::Str(p@))]) by {
        reveal_with_fuel(jv_members, 2);
    }
    match prov {
        Some(pv) => {
            keep_as(&mut ms, "sha256", get_member(pv, "prompt_hash"));
            keep_as(&mut ms, "duration_ms", get_member(pv, "duration_ms"));
        },
        None => {},
    }
    assert(jv_members(ms@) =~= seq![("path"@, JsonV::Str(p@))] + provenance_members(opt_json(prov)));
    Some(ms)
}

fn shot_card_exec(s: &Json) -> (r: Json)
    ensures
        jv(r) == shot_card(*s),
{
    let marks: usize = match get_member(s, "stage_marks") {
        Some(Json::Array(xs)) => xs.len(),
        _ => 0,
    };
    let mut ms: Vec<(String, Json)> = Vec::new();
    put(&mut ms, "id", member_or_exec(s, "id", Json::Null));
    put(&mut ms, "num", member_or_exec(s, "num", Json::Null));
    put(&mut ms, "name", member_or_exec(s, "name", Json::Null));
    put(&mut ms, "size", member_or_exec(s, "size", Json::Null));
    put(&mut ms, "locked", member_or_exec(s, "locked", Json::Bool(false)));
    put(&mut ms, "marks", Json::Number(string_of(dec_vec(marks as u64).as_slice())));
    let ghost head = jv_members(ms@);
    assert(head =~= seq![
        ("id"@, member_or(*s, "id"@, JsonV::Null)),
        ("num"@, member_or(*s, "num"@, JsonV::Null)),
        ("name"@, member_or(*s, "name"@, JsonV::Null)),
        ("size"@, member_or(*s, "size"@, JsonV::Null)),
        ("locked"@, member_or(*s, "locked"@, JsonV::Bool(false))),
        ("marks"@, JsonV::Number(dec(marks_count(*s)))),
    ]) by {
        reveal_with_fuel(jv_members, 2);
    }
    put_card(&mut ms, "ref", media_ref(get_member(s, "ref_path"), None));
    put_card(&mut ms, "still", media_ref(get_member(s, "still_path"), get_member(s, "still_provenance")));
    let plate = match media_ref(get_member(s, "plate_path"), None) {
        Some(m) => match get_member(s, "motion_duration") {
            Some(d) => {
                let mut m2 = m;
                put(&mut m2, "duration", copy_json(d));
                Some(m2)
            },
            None => Some(m),
        },
        None => None,
    };
    put_card(&mut ms, "plate", plate);
    Json::Object(ms)
}

fn take_card_exec(t: &Json) -> (r: Json)
    ensures
        jv(r) == take_card(*t),
{
    let mut ms: Vec<(String, Json)> = Vec::new();
    put(&mut ms, "id", member_or_exec(t, "id", Json::Null));
    put(&mut ms, "shot_id", member_or_exec(t, "shot_id", Json::Null));
    put(&mut ms, "path", member_or_exec(t, "path", Json::Null));
    put(&mut ms, "sha256", member_or_exec(t, "sha256", Json::Str(String::new())));
    put(&mut ms, "duration_secs", member_or_exec(t, "duration_secs", Json::Null));
    put(&mut ms, "circled", member_or_exec(t, "circled", Json::Bool(false)));
    assert(jv_members(ms@) =~= seq![
        ("id"@, member_or(*t, "id"@, JsonV::Null)),
        ("shot_id"@, member_or(*t, "shot_id"@, JsonV::Null)),
        ("path"@, member_or(*t, "path"@, JsonV::Null)),
        ("sha256"@, member_or(*t, "sha256"@, JsonV::Str(seq![]))),
        ("duration_secs"@, member_or(*t, "duration_secs"@, JsonV::Null)),
        ("circled"@, member_or(*t, "circled"@, JsonV::Bool(false))),
    ]) by {
        reveal_with_fuel(jv_members, 2);
    }
    Json::Object(ms)
}

fn cast_card_exec(c: &Json) -> (r: Json)
    ensures
        jv(r) == cast_card(*c),
{
    let mut ms: Vec<(String, Json)> = Vec::new();
    put(&mut ms, "name", member_or_exec(c, "name", Json::Null));
    put(&mut ms, "function", member_or_exec(c, "function", Json::Str(String::new())));
    assert(jv_members(ms@) =~= seq![
        ("name"@, member_or(*c, "name"@, JsonV::Null)),
        ("function"@, member_or(*c, "function"@, JsonV::Str(seq![]))),
    ]) by {
        reveal_with_fuel(jv_members, 2);
    }
    Json::Object(ms)
}

fn card_exec(kind: &CardKind, v: &Json) -> (r: Json)
    ensures
        jv(r) == card_of(*kind, *v),
{
    match kind {
        CardKind::Shot => shot_card_exec(v),
        CardKind::Take => take_card_exec(v),
        CardKind::Cast => cast_card_exec(v),
    }
}

fn lean_list_exec(kind: CardKind, v: &Json) -> (r: Json)
    ensures
        jv(r) == lean_list(kind, *v),
{
    match v {
        Json::Array(xs) => {
            let mut out: Vec<Json> = Vec::new();
            let mut i: usize = 0;
            while i < xs.len()
                invariant
                    i <= xs.len(),
                    jv_seq(out@) == cards(kind, xs@.take(i as int)),
                decreases xs.len() - i,
            {
                let ghost pre = out@;
                out.push(card_exec(&kind, &xs[i]));
                proof {
                    assert(out@.drop_last() =~= pre);
                    assert(xs@.take(i + 1).drop_last() =~= xs@.take(i as int));
                    assert(cards(kind, xs@.take(i + 1)) =~= cards(kind, xs@.take(i as int)).push(card_of(kind, xs@[i as int])));
                }
                i += 1;
            }
            assert(xs@.take(xs.len() as int) =~= xs@);
            Json::Array(out)
        },
        _ => copy_json(v),
    }
}

fn lean_stems_exec(v: &Json) -> (r: Json)
    ensures
        jv(r) == lean_stems(*v),
{
    let mut ms: Vec<(String, Json)> = Vec::new();
    let st = match media_ref(get_member(v, "soundtrack_path"), get_member(v, "soundtrack_provenance")) {
        Some(m) => Json::Object(m),
        None => Json::Null,
    };
    put(&mut ms, "soundtrack", st);
    let vo = match media_ref(get_member(v, "vo_path"), get_member(v, "vo_provenance")) {
        Some(m) => Json::Object(m),
        None => Json::Null,
    };
    put(&mut ms, "vo", vo);
    assert(jv_members(ms@) =~= seq![
        ("soundtrack"@, media_or_null(spec_media_ref(member(*v, "soundtrack_path"@), member(*v, "soundtrack_provenance"@)))),
        ("vo"@, media_or_null(spec_media_ref(member(*v, "vo_path"@), member(*v, "vo_provenance"@)))),
    ]) by {
        reveal_with_fuel(jv_members, 2);
    }
    Json::Object(ms)
}

fn lean_slate_exec(v: &Json) -> (r: Json)
    ensures
        jv(r) == lean_slate(*v),
{
    let mut ids: Vec<Json> = Vec::new();
    match get_member(v, "loras") {
        Some(Json::Array(xs)) => {
            let mut i: usize = 0;
            while i < xs.len()
                invariant
                    i <= xs.len(),
                    jv_seq(ids@) == ids_of(xs@.take(i as int)),
                decreases xs.len() - i,
            {
                let ghost pre = ids@;
                proof {
                    assert(xs@.take(i + 1).drop_last() =~= xs@.take(i as int));
                }
                match get_member(&xs[i], "id") {
                    Some(x) => {
                        ids.push(copy_json(x));
                        assert(ids@.drop_last() =~= pre);
                        assert(ids_of(xs@.take(i + 1)) =~= ids_of(xs@.take(i as int)).push(jv(*x)));
                    },
                    None => {
                        assert(ids_of(xs@.take(i + 1)) =~= ids_of(xs@.take(i as int)));
                    },
                }
                i += 1;
            }
            assert(xs@.take(xs.len() as int) =~= xs@);
        },
        _ => {},
    }
    let mut ms: Vec<(String, Json)> = Vec::new();
    put(&mut ms, "default_target", member_or_exec(v, "default_target", Json::Null));
    let ghost idv = jv_seq(ids@);
    put(&mut ms, "loras", Json::Array(ids));
    assert(jv_members(ms@) =~= seq![
        ("default_target"@, member_or(*v, "default_target"@, JsonV::Null)),
        ("loras"@, JsonV::Array(lora_ids(*v))),
    ]) by {
        reveal_with_fuel(jv_members, 2);
    }
    Json::Object(ms)
}

fn lean_member_exec(k: &String, v: &Json) -> (r: Json)
    ensures
        jv(r) == lean_member(k@, *v),
{
    if str_eq(k.as_str(), "shots") {
        lean_list_exec(CardKind::Shot, v)
    } else if str_eq(k.as_str(), "takes") {
        lean_list_exec(CardKind::Take, v)
    } else if str_eq(k.as_str(), "cast") {
        lean_list_exec(CardKind::Cast, v)
    } else if str_eq(k.as_str(), "stems") {
        lean_stems_exec(v)
    } else if str_eq(k.as_str(), "slate") {
        lean_slate_exec(v)
    } else {
        copy_json(v)
    }
}

/// Strips prompt dumps and full cards from a mutation's extras unless `full`.
pub fn lean_extra(extra: Json, full: bool) -> (r: Json)
    ensures
        jv(r) == spec_lean_extra(extra, full),
{
    if full {
        return extra;
    }
    match &extra {
        Json::Object(ms) => {
            let mut out: Vec<(String, Json)> = Vec::new();
            let mut i: usize = 0;
            while i < ms.len()
                invariant
                    i <= ms.len(),
                    jv_members(out@) == lean_members(ms@.take(i as int)),
                decreases ms.len() - i,
            {
                let ghost pre = out@;
                let v = lean_member_exec(&ms[i].0, &ms[i].1);
                out.push((key(ms[i].0.as_str()), v));
                proof {
                    assert(out@.drop_last() =~= pre);
                    assert(ms@.take(i + 1).drop_last() =~= ms@.take(i as int));
                }
                i += 1;
            }
            assert(ms@.take(ms.len() as int) =~= ms@);
            Json::Object(out)
        },
        _ => extra,
    }
}

} // verus!
