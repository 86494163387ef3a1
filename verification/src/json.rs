//! JSON documents as the library reads them. Parsing is `serde_json`'s; what
//! it gives back is turned one for one into `Json`, which the verified code
//! then walks.

use vstd::prelude::*;
use crate::text::str_eq;

verus! {

/// A JSON value. A number is kept as its text; an object keeps its members in
/// the order `serde_json` iterates them (keys are unique).
#[derive(Debug)]
pub enum Json {
    Null,
    Bool(bool),
    Number(String),
    Str(String),
    Array(Vec<Json>),
    Object(Vec<(String, Json)>),
}

#[verifier::external_type_specification]
#[verifier::external_body]
pub struct ExValue(serde_json::Value);

/// The value `serde_json::from_str::<Value>` parses from a text, turned into
/// `Json`; `None` when it refuses the text.
pub uninterp spec fn json_parse(text: Seq<char>) -> Option<Json>;

/// The message of `serde_json`'s error when it refuses a text.
pub uninterp spec fn json_error(text: Seq<char>) -> Seq<char>;

/// Turns a parsed `serde_json::Value` into `Json`, one node for one node.
#[verifier::external_body]
fn json_of(v: &serde_json::Value) -> (r: Json) {
    match v {
        serde_json::Value::Null => Json::Null,
        serde_json::Value::Bool(b) => Json::Bool(*b),
        serde_json::Value::Number(n) => Json::Number(n.to_string()),
        serde_json::Value::String(s) => Json::Str(s.clone()),
        serde_json::Value::Array(a) => Json::Array(a.iter().map(json_of).collect()),
        serde_json::Value::Object(m) => Json::Object(
            m.iter().map(|(k, x)| (k.clone(), json_of(x))).collect(),
        ),
    }
}

/// Wraps `serde_json::from_str::<Value>`; the contract claims only that the
/// value is what `json_parse` names for this text, and a refusal's message
/// what `json_error` names.
#[verifier::external_body]
pub fn parse_json(text: &str) -> (r: Result<Json, String>)
    ensures
        match r {
            Ok(v) => json_parse(text@) == Some(v),
            Err(m) => json_parse(text@) is None && m@ == json_error(text@),
        },
{
    match serde_json::from_str::<serde_json::Value>(text) {
        Ok(v) => Ok(json_of(&v)),
        Err(e) => Err(e.to_string()),
    }
}

/// The member `key` of an object (`Value::get` with a string key).
pub open spec fn member(v: Json, key: Seq<char>) -> Option<Json> {
    match v {
        Json::Object(ms) => member_in(ms@, key),
        _ => None,
    }
}

pub open spec fn member_in(ms: Seq<(String, Json)>, key: Seq<char>) -> Option<Json>
    decreases ms.len(),
{
    if ms.len() == 0 {
        None
    } else if ms[0].0@ == key {
        Some(ms[0].1)
    } else {
        member_in(ms.drop_first(), key)
    }
}

fn member_in_exec<'a>(ms: &'a Vec<(String, Json)>, key: &str) -> (r: Option<&'a Json>)
    ensures
        match r {
            Some(x) => member_in(ms@, key@) == Some(*x),
            None => member_in(ms@, key@) is None,
        },
{
    let mut i: usize = 0;
    assert(ms@.skip(0) =~= ms@);
    while i < ms.len()
        invariant
            i <= ms.len(),
            member_in(ms@, key@) == member_in(ms@.skip(i as int), key@),
        decreases ms.len() - i,
    {
        assert(ms@.skip(i as int).drop_first() =~= ms@.skip(i + 1));
        if str_eq(ms[i].0.as_str(), key) {
            return Some(&ms[i].1);
        }
        i += 1;
    }
    None
}

pub fn get_member<'a>(v: &'a Json, key: &str) -> (r: Option<&'a Json>)
    ensures
        match r {
            Some(x) => member(*v, key@) == Some(*x),
            None => member(*v, key@) is None,
        },
{
    match v {
        Json::Object(ms) => member_in_exec(ms, key),
        _ => None,
    }
}

/// The text of a string member (`v.get(key).and_then(Value::as_str)`).
pub open spec fn member_str(v: Json, key: Seq<char>) -> Option<Seq<char>> {
    match member(v, key) {
        Some(Json::Str(s)) => Some(s@),
        _ => None,
    }
}

pub fn get_str<'a>(v: &'a Json, key: &str) -> (r: Option<&'a String>)
    ensures
        match r {
            Some(s) => member_str(*v, key@) == Some(s@),
            None => member_str(*v, key@) is None,
        },
{
    match get_member(v, key) {
        Some(Json::Str(s)) => Some(s),
        _ => None,
    }
}

/// Walks one step: the member `key` of an object.
pub open spec fn at(v: Option<Json>, key: Seq<char>) -> Option<Json> {
    match v {
        Some(x) => member(x, key),
        None => None,
    }
}

/// Walks one step: element `i` of an array.
pub open spec fn nth(v: Option<Json>, i: int) -> Option<Json> {
    match v {
        Some(Json::Array(xs)) => if 0 <= i < xs@.len() {
            Some(xs@[i])
        } else {
            None
        },
        _ => None,
    }
}

/// The text of a string value.
pub open spec fn text_of(v: Option<Json>) -> Option<Seq<char>> {
    match v {
        Some(Json::Str(s)) => Some(s@),
        _ => None,
    }
}

/// The elements of an array value.
pub open spec fn items_of(v: Option<Json>) -> Option<Seq<Json>> {
    match v {
        Some(Json::Array(xs)) => Some(xs@),
        _ => None,
    }
}

pub fn at_exec<'a>(v: Option<&'a Json>, key: &str) -> (r: Option<&'a Json>)
    ensures
        match r {
            Some(x) => at(opt_json(v), key@) == Some(*x),
            None => at(opt_json(v), key@) is None,
        },
{
    match v {
        Some(x) => get_member(x, key),
        None => None,
    }
}

pub open spec fn opt_json(v: Option<&Json>) -> Option<Json> {
    match v {
        Some(x) => Some(*x),
        None => None,
    }
}

pub fn nth_exec<'a>(v: Option<&'a Json>, i: usize) -> (r: Option<&'a Json>)
    ensures
        match r {
            Some(x) => nth(opt_json(v), i as int) == Some(*x),
            None => nth(opt_json(v), i as int) is None,
        },
{
    match v {
        Some(Json::Array(xs)) => if i < xs.len() {
            Some(&xs[i])
        } else {
            None
        },
        _ => None,
    }
}

pub fn text_exec<'a>(v: Option<&'a Json>) -> (r: Option<&'a String>)
    ensures
        match r {
            Some(s) => text_of(opt_json(v)) == Some(s@),
            None => text_of(opt_json(v)) is None,
        },
{
    match v {
        Some(Json::Str(s)) => Some(s),
        _ => None,
    }
}

pub fn items_exec<'a>(v: Option<&'a Json>) -> (r: Option<&'a Vec<Json>>)
    ensures
        match r {
            Some(xs) => items_of(opt_json(v)) == Some(xs@),
            None => items_of(opt_json(v)) is None,
        },
{
    match v {
        Some(Json::Array(xs)) => Some(xs),
        _ => None,
    }
}

/// A JSON value as text: what a `Json` holds, with strings as characters.
pub enum JsonV {
    Null,
    Bool(bool),
    Number(Seq<char>),
    Str(Seq<char>),
    Array(Seq<JsonV>),
    Object(Seq<(Seq<char>, JsonV)>),
}

pub open spec fn jv(v: Json) -> JsonV
    decreases v,
{
    match v {
        Json::Null => JsonV::Null,
        Json::Bool(b) => JsonV::Bool(b),
        Json::Number(n) => JsonV::Number(n@),
        Json::Str(s) => JsonV::Str(s@),
        Json::Array(xs) => JsonV::Array(jv_seq(xs@)),
        Json::Object(ms) => JsonV::Object(jv_members(ms@)),
    }
}

pub open spec fn jv_seq(s: Seq<Json>) -> Seq<JsonV>
    decreases s,
{
    if s.len() == 0 {
        seq![]
    } else {
        jv_seq(s.drop_last()).push(jv(s.last()))
    }
}

pub open spec fn jv_members(ms: Seq<(String, Json)>) -> Seq<(Seq<char>, JsonV)>
    decreases ms,
{
    if ms.len() == 0 {
        seq![]
    } else {
        jv_members(ms.drop_last()).push((ms.last().0@, jv(ms.last().1)))
    }
}

pub proof fn lemma_jv_seq_take(xs: Seq<Json>, i: int)
    requires
        0 <= i < xs.len(),
    ensures
        jv_seq(xs.take(i + 1)) == jv_seq(xs.take(i)).push(jv(xs[i])),
{
    assert(xs.take(i + 1).drop_last() =~= xs.take(i));
}

pub proof fn lemma_jv_members_take(ms: Seq<(String, Json)>, i: int)
    requires
        0 <= i < ms.len(),
    ensures
        jv_members(ms.take(i + 1)) == jv_members(ms.take(i)).push((ms[i].0@, jv(ms[i].1))),
{
    assert(ms.take(i + 1).drop_last() =~= ms.take(i));
}

pub proof fn lemma_jv_members_index(ms: Seq<(String, Json)>)
    ensures
        jv_members(ms).len() == ms.len(),
        forall|k: int| 0 <= k < ms.len() ==> #[trigger] jv_members(ms)[k] == (ms[k].0@, jv(ms[k].1)),
    decreases ms.len(),
{
    if ms.len() > 0 {
        lemma_jv_members_index(ms.drop_last());
        assert forall|k: int| 0 <= k < ms.len() implies #[trigger] jv_members(ms)[k] == (ms[k].0@, jv(ms[k].1)) by {
            if k < ms.len() - 1 {
                assert(ms.drop_last()[k] == ms[k]);
            }
        }
    }
}

/// A copy of a value, node for node.
pub fn copy_json(v: &Json) -> (r: Json)
    ensures
        jv(r) == jv(*v),
    decreases v,
{
    match v {
        Json::Null => Json::Null,
        Json::Bool(b) => Json::Bool(*b),
        Json::Number(n) => Json::Number(crate::text::string_of(crate::text::chars_of(n.as_str()).as_slice())),
        Json::Str(s) => Json::Str(crate::text::string_of(crate::text::chars_of(s.as_str()).as_slice())),
        Json::Array(xs) => {
            let mut out: Vec<Json> = Vec::new();
            let mut i: usize = 0;
            while i < xs.len()
                invariant
                    *v == Json::Array(*xs),
                    i <= xs.len(),
                    jv_seq(out@) == jv_seq(xs@.take(i as int)),
                decreases xs.len() - i,
            {
                proof {
                    let a = (*v)->Array_0;
                    assert(decreases_to!(*v => a));
                    assert(decreases_to!(a => a@));
                    assert(decreases_to!(a@ => a@[i as int]));
                    assert(decreases_to!(*v => xs@[i as int]));
                    lemma_jv_seq_take(xs@, i as int);
                }
                let y = copy_json(&xs[i]);
                let ghost pre = out@;
                out.push(y);
                proof {
                    assert(out@.drop_last() =~= pre);
                }
                i += 1;
            }
            assert(xs@.take(xs.len() as int) =~= xs@);
            Json::Array(out)
        },
        Json::Object(ms) => {
            let mut out: Vec<(String, Json)> = Vec::new();
            let mut i: usize = 0;
            while i < ms.len()
                invariant
                    *v == Json::Object(*ms),
                    i <= ms.len(),
                    jv_members(out@) == jv_members(ms@.take(i as int)),
                decreases ms.len() - i,
            {
                proof {
                    let a = (*v)->Object_0;
                    assert(decreases_to!(*v => a));
                    assert(decreases_to!(a => a@));
                    assert(decreases_to!(a@ => a@[i as int]));
                    assert(decreases_to!(a@[i as int] => a@[i as int].1));
                    assert(decreases_to!(*v => ms@[i as int].1));
                    lemma_jv_members_take(ms@, i as int);
                }
                let k = crate::text::string_of(crate::text::chars_of(ms[i].0.as_str()).as_slice());
                let y = copy_json(&ms[i].1);
                let ghost pre = out@;
                out.push((k, y));
                proof {
                    assert(out@.drop_last() =~= pre);
                }
                i += 1;
            }
            assert(ms@.take(ms.len() as int) =~= ms@);
            Json::Object(out)
        },
    }
}

pub proof fn lemma_jv_seq_index(xs: Seq<Json>)
    ensures
        jv_seq(xs).len() == xs.len(),
        forall|k: int| 0 <= k < xs.len() ==> #[trigger] jv_seq(xs)[k] == jv(xs[k]),
    decreases xs.len(),
{
    if xs.len() > 0 {
        lemma_jv_seq_index(xs.drop_last());
        assert forall|k: int| 0 <= k < xs.len() implies #[trigger] jv_seq(xs)[k] == jv(xs[k]) by {
            if k < xs.len() - 1 {
                assert(xs.drop_last()[k] == xs[k]);
            }
        }
    }
}

/// Whether two values are the same JSON (`Value`'s `==`).
pub fn json_eq(a: &Json, b: &Json) -> (r: bool)
    ensures
        r == (jv(*a) == jv(*b)),
    decreases a,
{
    match (a, b) {
        (Json::Null, Json::Null) => true,
        (Json::Bool(x), Json::Bool(y)) => *x == *y,
        (Json::Number(x), Json::Number(y)) => str_eq(x.as_str(), y.as_str()),
        (Json::Str(x), Json::Str(y)) => str_eq(x.as_str(), y.as_str()),
        (Json::Array(xs), Json::Array(ys)) => {
            proof {
                lemma_jv_seq_index(xs@);
                lemma_jv_seq_index(ys@);
            }
            if xs.len() != ys.len() {
                return false;
            }
            let mut i: usize = 0;
            while i < xs.len()
                invariant
                    *a == Json::Array(*xs),
                    *b == Json::Array(*ys),
                    xs.len() == ys.len(),
                    i <= xs.len(),
                    jv_seq(xs@).len() == xs@.len(),
                    jv_seq(ys@).len() == ys@.len(),
                    forall|k: int| 0 <= k < xs@.len() ==> #[trigger] jv_seq(xs@)[k] == jv(xs@[k]),
                    forall|k: int| 0 <= k < ys@.len() ==> #[trigger] jv_seq(ys@)[k] == jv(ys@[k]),
                    forall|k: int| 0 <= k < i ==> jv(#[trigger] xs@[k]) == jv(ys@[k]),
                decreases xs.len() - i,
            {
                proof {
                    let v = (*a)->Array_0;
                    assert(decreases_to!(*a => v));
                    assert(decreases_to!(v => v@));
                    assert(decreases_to!(v@ => v@[i as int]));
                    assert(decreases_to!(*a => xs@[i as int]));
                }
                if !json_eq(&xs[i], &ys[i]) {
                    assert(jv_seq(xs@)[i as int] != jv_seq(ys@)[i as int]);
                    return false;
                }
                i += 1;
            }
            assert(jv_seq(xs@) =~= jv_seq(ys@));
            true
        },
        (Json::Object(ms), Json::Object(ns)) => {
            proof {
                lemma_jv_members_index(ms@);
                lemma_jv_members_index(ns@);
            }
            if ms.len() != ns.len() {
                return false;
            }
            let mut i: usize = 0;
            while i < ms.len()
                invariant
                    *a == Json::Object(*ms),
                    *b == Json::Object(*ns),
                    ms.len() == ns.len(),
                    i <= ms.len(),
                    jv_members(ms@).len() == ms@.len(),
                    jv_members(ns@).len() == ns@.len(),
                    forall|k: int| 0 <= k < ms@.len() ==> #[trigger] jv_members(ms@)[k] == (ms@[k].0@, jv(ms@[k].1)),
                    forall|k: int| 0 <= k < ns@.len() ==> #[trigger] jv_members(ns@)[k] == (ns@[k].0@, jv(ns@[k].1)),
                    forall|k: int| 0 <= k < i ==> #[trigger] jv_members(ms@)[k] == jv_members(ns@)[k],
                decreases ms.len() - i,
            {
                proof {
                    let v = (*a)->Object_0;
                    assert(decreases_to!(*a => v));
                    assert(decreases_to!(v => v@));
                    assert(decreases_to!(v@ => v@[i as int]));
                    assert(decreases_to!(v@[i as int] => v@[i as int].1));
                    assert(decreases_to!(*a => ms@[i as int].1));
                }
                if !str_eq(ms[i].0.as_str(), ns[i].0.as_str()) {
                    assert(jv_members(ms@)[i as int] != jv_members(ns@)[i as int]);
                    return false;
                }
                if !json_eq(&ms[i].1, &ns[i].1) {
                    assert(jv_members(ms@)[i as int] != jv_members(ns@)[i as int]);
                    return false;
                }
                i += 1;
            }
            assert(jv_members(ms@) =~= jv_members(ns@));
            true
        },
        _ => false,
    }
}

} // verus!
