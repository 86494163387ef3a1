//! The audit log: who did what, at which revision. Each event is one JSON
//! line; an export redacts tokens and secrets. Reading and writing the file
//! is the caller's part: here are the lines it holds, parsed, and the lines
//! to write.

use vstd::prelude::*;
use crate::json::{
    Json, JsonV, jv, jv_seq, jv_members, member, text_of, get_member, text_exec, opt_json,
    copy_json, parse_json, json_parse, lemma_jv_seq_take, lemma_jv_members_take,
};
use crate::parse::{json_u64, json_u64_exec};
use crate::show::{Show, SchoolStatus};
use crate::text::{
    chars_of, string_of, str_eq, trim, trim_vec, lower_char, starts_with, ends_with,
    starts_with_vec, ends_with_vec, utf8_len, utf8_len_vec, seq_eq, dec, dec_vec, is_ws, split_on,
};
use crate::brain::{text_lines, lines_vec};

verus! {

/// One event as listed: its id, time, kind, author and revision.
#[derive(Debug)]
pub struct EventMeta {
    pub id: String,
    pub at: String,
    pub kind: String,
    pub who: String,
    pub rev: u64,
}

pub open spec fn meta_view(m: EventMeta) -> (Seq<char>, Seq<char>, Seq<char>, Seq<char>, nat) {
    (m.id@, m.at@, m.kind@, m.who@, m.rev as nat)
}

pub open spec fn metas_view(ms: Seq<EventMeta>) -> Seq<(Seq<char>, Seq<char>, Seq<char>, Seq<char>, nat)> {
    Seq::new(ms.len(), |i: int| meta_view(ms[i]))
}

/// The meta of a logged line, when it has string `id`, `at`, `kind`, `who`
/// and a whole-number `rev`.
pub open spec fn spec_meta_from(v: Json) -> Option<(Seq<char>, Seq<char>, Seq<char>, Seq<char>, nat)> {
    match (
        text_of(member(v, "id"@)),
        text_of(member(v, "at"@)),
        text_of(member(v, "kind"@)),
        text_of(member(v, "who"@)),
        json_u64(member(v, "rev"@)),
    ) {
        (Some(a), Some(b), Some(c), Some(d), Some(e)) => Some((a, b, c, d, e)),
        _ => None,
    }
}

fn copy_text(s: &String) -> (r: String)
    ensures
        r@ == s@,
{
    string_of(chars_of(s.as_str()).as_slice())
}

pub fn meta_from(v: &Json) -> (r: Option<EventMeta>)
    ensures
        match r {
            Some(m) => spec_meta_from(*v) == Some(meta_view(m)),
            None => spec_meta_from(*v) is None,
        },
{
    let id = text_exec(get_member(v, "id"));
    let at = text_exec(get_member(v, "at"));
    let kind = text_exec(get_member(v, "kind"));
    let who = text_exec(get_member(v, "who"));
    let rev = json_u64_exec(get_member(v, "rev"));
    match (id, at, kind, who, rev) {
        (Some(a), Some(b), Some(c), Some(d), Some(e)) => Some(
            EventMeta { id: copy_text(a), at: copy_text(b), kind: copy_text(c), who: copy_text(d), rev: e },
        ),
        _ => None,
    }
}

/// The metas of the lines that have one, in order.
pub open spec fn spec_metas(lines: Seq<Json>) -> Seq<(Seq<char>, Seq<char>, Seq<char>, Seq<char>, nat)>
    decreases lines.len(),
{
    if lines.len() == 0 {
        seq![]
    } else {
        let r = spec_metas(lines.drop_last());
        match spec_meta_from(lines.last()) {
            Some(m) => r.push(m),
            None => r,
        }
    }
}

/// The last `n` items (all of them when there are no more, or no `n`).
pub open spec fn last_n<A>(s: Seq<A>, n: Option<usize>) -> Seq<A> {
    match n {
        Some(l) => if s.len() > l {
            s.skip(s.len() - l)
        } else {
            s
        },
        None => s,
    }
}

/// The events of a log, oldest first, the newest `n` of them when `n` is given.
pub fn list_events(lines: &Vec<Json>, n: Option<usize>) -> (r: Vec<EventMeta>)
    ensures
        metas_view(r@) == last_n(spec_metas(lines@), n),
{
    let mut out: Vec<EventMeta> = Vec::new();
    let mut i: usize = 0;
    while i < lines.len()
        invariant
            i <= lines.len(),
            metas_view(out@) == spec_metas(lines@.take(i as int)),
        decreases lines.len() - i,
    {
        assert(lines@.take(i + 1).drop_last() =~= lines@.take(i as int));
        assert(lines@.take(i + 1).last() == lines@[i as int]);
        match meta_from(&lines[i]) {
            Some(m) => {
                let ghost pre = out@;
                out.push(m);
                assert(metas_view(out@) =~= metas_view(pre).push(meta_view(m)));
            },
            None => {},
        }
        i += 1;
    }
    assert(lines@.take(lines.len() as int) =~= lines@);
    match n {
        Some(limit) => {
            if out.len() > limit {
                let at = out.len() - limit;
                let ghost all = out@;
                let tail = out.split_off(at);
                assert(metas_view(tail@) =~= metas_view(all).skip(at as int));
                return tail;
            }
            out
        },
        None => out,
    }
}

/// The newest event of a log, if it has one.
pub fn last_event(lines: &Vec<Json>) -> (r: Option<EventMeta>)
    ensures
        match r {
            Some(m) => spec_metas(lines@).len() > 0 && meta_view(m) == spec_metas(lines@).last(),
            None => spec_metas(lines@).len() == 0,
        },
{
    let mut es = list_events(lines, Some(1));
    let ghost ms = spec_metas(lines@);
    assert(metas_view(es@).len() == es@.len());
    if es.len() == 0 {
        None
    } else {
        assert(metas_view(es@)[0] == meta_view(es@[0]));
        assert(ms.len() > 1 ==> ms.skip(ms.len() - 1)[0] == ms.last());
        let e = es.remove(0);
        Some(e)
    }
}

/// The lines of a log as they are, the newest `n` of them when `n` is given.
pub fn list_raw(lines: Vec<Json>, n: Option<usize>) -> (r: Vec<Json>)
    ensures
        r@ == last_n(lines@, n),
{
    let mut lines = lines;
    match n {
        Some(limit) => {
            if lines.len() > limit {
                let at = lines.len() - limit;
                return lines.split_off(at);
            }
            lines
        },
        None => lines,
    }
}

/// The JSON values of a log file's text: one per line that is not blank and
/// parses; other lines are skipped.
pub open spec fn spec_log_lines(text: Seq<char>) -> Seq<Json> {
    log_values(text_lines(text))
}

pub open spec fn log_values(ls: Seq<Seq<char>>) -> Seq<Json>
    decreases ls.len(),
{
    if ls.len() == 0 {
        seq![]
    } else {
        let r = log_values(ls.drop_last());
        let l = ls.last();
        if trim(l).len() == 0 {
            r
        } else {
            match json_parse(l) {
                Some(v) => r.push(v),
                None => r,
            }
        }
    }
}

fn push_log_value(out: &mut Vec<Json>, l: &Vec<char>)
    ensures
        final(out)@ == (if trim(l@).len() == 0 {
            old(out)@
        } else {
            match json_parse(l@) {
                Some(v) => old(out)@.push(v),
                None => old(out)@,
            }
        }),
{
    let t = trim_vec(l);
    if t.len() > 0 {
        let line = string_of(l.as_slice());
        match parse_json(line.as_str()) {
            Ok(v) => out.push(v),
            Err(_) => {},
        }
    }
}

pub fn log_lines(text: &str) -> (r: Vec<Json>)
    ensures
        r@ == spec_log_lines(text@),
{
    let ls = lines_vec(&chars_of(text));
    let mut out: Vec<Json> = Vec::new();
    let mut i: usize = 0;
    while i < ls.len()
        invariant
            i <= ls.len(),
            ls.deep_view() == text_lines(text@),
            out@ == log_values(text_lines(text@).take(i as int)),
        decreases ls.len() - i,
    {
        proof {
            let tl = text_lines(text@);
            assert(tl.take(i + 1).drop_last() =~= tl.take(i as int));
            assert(ls.deep_view()[i as int] == ls@[i as int]@);
        }
        push_log_value(&mut out, &ls[i]);
        i += 1;
    }
    assert(text_lines(text@).take(ls.len() as int) =~= text_lines(text@));
    out
}

// ---------------------------------------------------------------- redaction

pub open spec fn key_char(c: char) -> char {
    if lower_char(c) == '-' {
        '_'
    } else {
        lower_char(c)
    }
}

/// A key lowercased (ASCII) with `-` as `_`.
pub open spec fn key_norm(k: Seq<char>) -> Seq<char> {
    Seq::new(k.len(), |i: int| key_char(k[i]))
}

/// A key whose value is a credential: token, secret, password and the like,
/// or one ending in `_token`, `_secret` or `_api_key`.
pub open spec fn spec_sensitive_key(k: Seq<char>) -> bool {
    let n = key_norm(k);
    ||| n == "token"@
    ||| n == "secret"@
    ||| n == "password"@
    ||| n == "authorization"@
    ||| n == "api_key"@
    ||| n == "access_token"@
    ||| n == "refresh_token"@
    ||| n == "xai_token"@
    ||| n == "bearer"@
    ||| n == "client_secret"@
    ||| ends_with(n, "_token"@)
    ||| ends_with(n, "_secret"@)
    ||| ends_with(n, "_api_key"@)
}

/// A string that looks like a key or a bearer token (trimmed): `sk-`, `xai-`,
/// `gsk_`, `xox`, `Bearer `, or a JWT (`eyJ`) of more than 40 bytes.
pub open spec fn spec_looks_like_secret(s: Seq<char>) -> bool {
    let t = trim(s);
    ||| starts_with(t, "sk-"@)
    ||| starts_with(t, "xai-"@)
    ||| starts_with(t, "gsk_"@)
    ||| starts_with(t, "xox"@)
    ||| starts_with(t, "Bearer "@)
    ||| (starts_with(t, "eyJ"@) && utf8_len(t) > 40)
}

fn key_norm_vec(k: &str) -> (r: Vec<char>)
    ensures
        r@ == key_norm(k@),
{
    let s = chars_of(k);
    let mut out: Vec<char> = Vec::new();
    let mut i: usize = 0;
    while i < s.len()
        invariant
            i <= s.len(),
            s@ == k@,
            out@ == key_norm(k@).take(i as int),
        decreases s.len() - i,
    {
        let c = crate::text::lower_c(s[i]);
        let d = if c == '-' {
            '_'
        } else {
            c
        };
        out.push(d);
        assert(out@ =~= key_norm(k@).take(i + 1));
        i += 1;
    }
    assert(key_norm(k@).take(s.len() as int) =~= key_norm(k@));
    out
}

pub fn sensitive_key(k: &str) -> (r: bool)
    ensures
        r == spec_sensitive_key(k@),
{
    let n = key_norm_vec(k);
    let eq = |w: &str| -> (b: bool)
        ensures
            b == (n@ == w@),
        { seq_eq(&n, &chars_of(w)) };
    eq("token") || eq("secret") || eq("password") || eq("authorization") || eq("api_key") || eq(
        "access_token",
    ) || eq("refresh_token") || eq("xai_token") || eq("bearer") || eq("client_secret")
        || ends_with_vec(&n, &chars_of("_token")) || ends_with_vec(&n, &chars_of("_secret"))
        || ends_with_vec(&n, &chars_of("_api_key"))
}

pub fn looks_like_secret(s: &str) -> (r: bool)
    ensures
        r == spec_looks_like_secret(s@),
{
    let t = trim_vec(&chars_of(s));
    starts_with_vec(&t, &chars_of("sk-")) || starts_with_vec(&t, &chars_of("xai-")) || starts_with_vec(
        &t,
        &chars_of("gsk_"),
    ) || starts_with_vec(&t, &chars_of("xox")) || starts_with_vec(&t, &chars_of("Bearer "))
        || (starts_with_vec(&t, &chars_of("eyJ")) && utf8_len_vec(&t) > 40)
}

pub open spec fn redacted() -> JsonV {
    JsonV::Str("[redacted]"@)
}

/// A value with every credential replaced by `"[redacted]"`: the value of a
/// sensitive key, and any string that looks like a secret, at any depth.
pub open spec fn jv_redact(v: JsonV) -> JsonV
    decreases v,
{
    match v {
        JsonV::Str(s) => if spec_looks_like_secret(s) {
            redacted()
        } else {
            v
        },
        JsonV::Array(xs) => JsonV::Array(jvs_redact(xs)),
        JsonV::Object(ms) => JsonV::Object(jms_redact(ms)),
        _ => v,
    }
}

pub open spec fn jvs_redact(xs: Seq<JsonV>) -> Seq<JsonV>
    decreases xs,
{
    if xs.len() == 0 {
        seq![]
    } else {
        jvs_redact(xs.drop_last()).push(jv_redact(xs.last()))
    }
}

pub open spec fn jms_redact(ms: Seq<(Seq<char>, JsonV)>) -> Seq<(Seq<char>, JsonV)>
    decreases ms,
{
    if ms.len() == 0 {
        seq![]
    } else {
        jms_redact(ms.drop_last()).push(
            (
                ms.last().0,
                if spec_sensitive_key(ms.last().0) {
                    redacted()
                } else {
                    jv_redact(ms.last().1)
                },
            ),
        )
    }
}

fn redacted_json() -> (r: Json)
    ensures
        jv(r) == redacted(),
{
    Json::Str(string_of(chars_of("[redacted]").as_slice()))
}

/// The value as exported: credentials redacted, all else as it was.
pub fn redact_value(v: &Json) -> (r: Json)
    ensures
        jv(r) == jv_redact(jv(*v)),
    decreases v,
{
    match v {
        Json::Str(s) => if looks_like_secret(s.as_str()) {
            redacted_json()
        } else {
            copy_json(v)
        },
        Json::Array(xs) => {
            let mut out: Vec<Json> = Vec::new();
            let mut i: usize = 0;
            while i < xs.len()
                invariant
                    *v == Json::Array(*xs),
                    i <= xs.len(),
                    jv_seq(out@) == jvs_redact(jv_seq(xs@.take(i as int))),
                decreases xs.len() - i,
            {
                proof {
                    let a = (*v)->Array_0;
                    assert(decreases_to!(*v => a));
                    assert(decreases_to!(a => a@));
                    assert(decreases_to!(a@ => a@[i as int]));
                    assert(decreases_to!(*v => xs@[i as int]));
                    lemma_jv_seq_take(xs@, i as int);
                }
                let ghost prev = jv_seq(xs@.take(i as int));
                let ghost jx = jv(xs@[i as int]);
                let y = redact_value(&xs[i]);
                let ghost pre = out@;
                out.push(y);
                proof {
                    assert(out@.drop_last() =~= pre);
                    assert(prev.push(jx).drop_last() =~= prev);
                }
                i += 1;
            }
            assert(xs@.take(xs.len() as int) =~= xs@);
            Json::Array(out)
        },
        Json::Object(ms) => {
            let mut out: Vec<(String, Json)> = Vec::new();
            let mut i: usize = 0;
            while i < ms.len()
                invariant
                    *v == Json::Object(*ms),
                    i <= ms.len(),
                    jv_members(out@) == jms_redact(jv_members(ms@.take(i as int))),
                decreases ms.len() - i,
            {
                proof {
                    let a = (*v)->Object_0;
                    assert(decreases_to!(*v => a));
                    assert(decreases_to!(a => a@));
                    assert(decreases_to!(a@ => a@[i as int]));
                    assert(decreases_to!(a@[i as int] => a@[i as int].1));
                    assert(decreases_to!(*v => ms@[i as int].1));
                    lemma_jv_members_take(ms@, i as int);
                }
                let ghost prev = jv_members(ms@.take(i as int));
                let ghost kv = ms@[i as int].0@;
                let ghost jx = jv(ms@[i as int].1);
                let k = copy_text(&ms[i].0);
                let y = if sensitive_key(ms[i].0.as_str()) {
                    redacted_json()
                } else {
                    redact_value(&ms[i].1)
                };
                let ghost pre = out@;
                out.push((k, y));
                proof {
                    assert(out@.drop_last() =~= pre);
                    assert(prev.push((kv, jx)).drop_last() =~= prev);
                }
                i += 1;
            }
            assert(ms@.take(ms.len() as int) =~= ms@);
            Json::Object(out)
        },
        _ => copy_json(v),
    }
}

// ---------------------------------------------------------------- event lines

/// Keys an event line sets itself; an `extra` cannot override them.
pub open spec fn stamp_reserved(k: Seq<char>) -> bool {
    k == "id"@ || k == "at"@ || k == "kind"@ || k == "who"@ || k == "rev"@ || k == "show_id"@
}

/// Keys of the mutation envelope; an `extra` cannot override them.
pub open spec fn envelope_reserved(k: Seq<char>) -> bool {
    k == "ok"@ || k == "show"@ || k == "show_id"@ || k == "rev"@ || k == "event_id"@ || k == "who"@
        || k == "school"@
}

pub open spec fn reserved_for(envelope: bool, k: Seq<char>) -> bool {
    if envelope {
        envelope_reserved(k)
    } else {
        stamp_reserved(k)
    }
}

/// The members of `extra` that are kept: all whose key is not reserved, in
/// order; none when `extra` is no object.
pub open spec fn kept_extra(extra: Option<JsonV>, envelope: bool) -> Seq<(Seq<char>, JsonV)> {
    match extra {
        Some(JsonV::Object(ms)) => ms.filter(|p: (Seq<char>, JsonV)| !reserved_for(envelope, p.0)),
        _ => seq![],
    }
}

fn is_reserved(envelope: bool, k: &str) -> (r: bool)
    ensures
        r == reserved_for(envelope, k@),
{
    if envelope {
        str_eq(k, "ok") || str_eq(k, "show") || str_eq(k, "show_id") || str_eq(k, "rev") || str_eq(
            k,
            "event_id",
        ) || str_eq(k, "who") || str_eq(k, "school")
    } else {
        str_eq(k, "id") || str_eq(k, "at") || str_eq(k, "kind") || str_eq(k, "who") || str_eq(k, "rev")
            || str_eq(k, "show_id")
    }
}

pub open spec fn opt_jv(v: Option<Json>) -> Option<JsonV> {
    match v {
        Some(x) => Some(jv(x)),
        None => None,
    }
}

fn push_extra(out: &mut Vec<(String, Json)>, extra: Option<&Json>, envelope: bool)
    ensures
        jv_members(final(out)@) == jv_members(old(out)@) + kept_extra(opt_jv(opt_json(extra)), envelope),
{
    let ghost base = jv_members(out@);
    match extra {
        Some(Json::Object(ms)) => {
            let ghost jms = jv_members(ms@);
            proof {
                crate::json::lemma_jv_members_index(ms@);
            }
            let mut i: usize = 0;
            while i < ms.len()
                invariant
                    i <= ms.len(),
                    jms == jv_members(ms@),
                    jms.len() == ms@.len(),
                    forall|k: int| 0 <= k < ms@.len() ==> #[trigger] jms[k] == (ms@[k].0@, jv(ms@[k].1)),
                    jv_members(out@) == base + jms.take(i as int).filter(
                        |p: (Seq<char>, JsonV)| !reserved_for(envelope, p.0),
                    ),
                decreases ms.len() - i,
            {
                proof {
                    assert(jms.take(i + 1).drop_last() =~= jms.take(i as int));
                    reveal(Seq::filter);
                }
                if !is_reserved(envelope, ms[i].0.as_str()) {
                    let k = copy_text(&ms[i].0);
                    let y = copy_json(&ms[i].1);
                    let ghost pre = out@;
                    out.push((k, y));
                    proof {
                        assert(out@.drop_last() =~= pre);
                        assert(jv_members(out@) == jv_members(pre).push((k@, jv(y))));
                    }
                }
                i += 1;
            }
            assert(jms.take(ms.len() as int) =~= jms);
        },
        _ => {
            assert(jv_members(out@) =~= base + seq![]);
        },
    }
}

pub open spec fn who_or_human(agent: Option<Seq<char>>) -> Seq<char> {
    match agent {
        Some(a) => a,
        None => "human"@,
    }
}

pub open spec fn opt_view(o: Option<&str>) -> Option<Seq<char>> {
    match o {
        Some(s) => Some(s@),
        None => None,
    }
}

/// An event line: id, time, kind, author (the agent, else `human`),
/// revision and show id, then the members of `extra` that do not touch those.
pub open spec fn spec_stamp(
    kind: Seq<char>,
    show: Show,
    extra: Option<JsonV>,
    id: Seq<char>,
    now: Seq<char>,
    agent: Option<Seq<char>>,
) -> JsonV {
    JsonV::Object(
        seq![
            ("id"@, JsonV::Str(id)),
            ("at"@, JsonV::Str(now)),
            ("kind"@, JsonV::Str(kind)),
            ("who"@, JsonV::Str(who_or_human(agent))),
            ("rev"@, JsonV::Number(dec(show.rev as nat))),
            ("show_id"@, JsonV::Str(show.id@)),
        ] + kept_extra(extra, false),
    )
}

fn text_member(k: &str, v: &str) -> (r: (String, Json))
    ensures
        r.0@ == k@,
        jv(r.1) == JsonV::Str(v@),
{
    (string_of(chars_of(k).as_slice()), Json::Str(string_of(chars_of(v).as_slice())))
}

/// The line logged for an event, with the id it was given (made by the
/// caller from the clock), the time, and the acting agent.
pub fn stamp(
    kind: &str,
    show: &Show,
    extra: Option<&Json>,
    id: &str,
    now: &str,
    agent: Option<&str>,
) -> (r: (String, Json))
    ensures
        r.0@ == id@,
        jv(r.1) == spec_stamp(kind@, *show, opt_jv(opt_json(extra)), id@, now@, opt_view(agent)),
{
    proof {
        reveal_strlit("human");
    }
    let who = match agent {
        Some(a) => a,
        None => "human",
    };
    let mut ms: Vec<(String, Json)> = Vec::new();
    ms.push(text_member("id", id));
    ms.push(text_member("at", now));
    ms.push(text_member("kind", kind));
    ms.push(text_member("who", who));
    ms.push((string_of(chars_of("rev").as_slice()), Json::Number(string_of(dec_vec(show.rev).as_slice()))));
    ms.push(text_member("show_id", show.id.as_str()));
    let ghost head = ms@;
    assert(jv_members(head) =~= seq![
        ("id"@, JsonV::Str(id@)),
        ("at"@, JsonV::Str(now@)),
        ("kind"@, JsonV::Str(kind@)),
        ("who"@, JsonV::Str(who_or_human(opt_view(agent)))),
        ("rev"@, JsonV::Number(dec(show.rev as nat))),
        ("show_id"@, JsonV::Str(show.id@)),
    ]) by {
        reveal_with_fuel(jv_members, 7);
    }
    push_extra(&mut ms, extra, false);
    (string_of(chars_of(id).as_slice()), Json::Object(ms))
}

/// The school status as JSON: `enabled`, then each setting that is set.
pub open spec fn school_jv(s: SchoolStatus) -> JsonV {
    JsonV::Object(
        seq![("enabled"@, JsonV::Bool(s.enabled))] + opt_member("path"@, s.path) + opt_member(
            "level"@,
            s.level,
        ) + opt_member("help"@, s.help),
    )
}

pub open spec fn opt_member(k: Seq<char>, v: Option<String>) -> Seq<(Seq<char>, JsonV)> {
    match v {
        Some(s) => seq![(k, JsonV::Str(s@))],
        None => seq![],
    }
}

fn push_opt(ms: &mut Vec<(String, Json)>, k: &str, v: &Option<String>)
    ensures
        jv_members(final(ms)@) == jv_members(old(ms)@) + opt_member(k@, *v),
{
    match v {
        Some(s) => {
            let ghost pre = ms@;
            ms.push(text_member(k, s.as_str()));
            assert(ms@.drop_last() =~= pre);
            assert(jv_members(ms@) =~= jv_members(pre) + opt_member(k@, *v));
        },
        None => {
            assert(jv_members(ms@) =~= jv_members(ms@) + seq![]);
        },
    }
}

pub fn school_json(s: &SchoolStatus) -> (r: Json)
    ensures
        jv(r) == school_jv(*s),
{
    let mut ms: Vec<(String, Json)> = Vec::new();
    ms.push((string_of(chars_of("enabled").as_slice()), Json::Bool(s.enabled)));
    assert(jv_members(ms@) =~= seq![("enabled"@, JsonV::Bool(s.enabled))]) by {
        reveal_with_fuel(jv_members, 2);
    }
    push_opt(&mut ms, "path", &s.path);
    push_opt(&mut ms, "level", &s.level);
    push_opt(&mut ms, "help", &s.help);
    Json::Object(ms)
}

/// The answer of a mutating command: ok, the show's directory, id and
/// revision, the id and author of the newest event (the acting agent, else
/// `human`, when there is none), the school status, then the members of
/// `extra` that do not touch those.
pub open spec fn spec_mutation_json(
    show_dir: Seq<char>,
    show: Show,
    last: Option<EventMeta>,
    agent: Option<Seq<char>>,
    extra: JsonV,
) -> JsonV {
    JsonV::Object(
        seq![
            ("ok"@, JsonV::Bool(true)),
            ("show"@, JsonV::Str(show_dir)),
            ("show_id"@, JsonV::Str(show.id@)),
            ("rev"@, JsonV::Number(dec(show.rev as nat))),
            ("event_id"@, match last {
                Some(e) => JsonV::Str(e.id@),
                None => JsonV::Null,
            }),
            ("who"@, JsonV::Str(match last {
                Some(e) => e.who@,
                None => who_or_human(agent),
            })),
            ("school"@, school_jv(show.school)),
        ] + kept_extra(Some(extra), true),
    )
}

pub fn mutation_json(
    show_dir: &str,
    show: &Show,
    last: Option<&EventMeta>,
    agent: Option<&str>,
    extra: &Json,
) -> (r: Json)
    ensures
        jv(r) == spec_mutation_json(
            show_dir@,
            *show,
            match last { Some(e) => Some(*e), None => None },
            opt_view(agent),
            jv(*extra),
        ),
{
    proof {
        reveal_strlit("human");
    }
    let mut ms: Vec<(String, Json)> = Vec::new();
    ms.push((string_of(chars_of("ok").as_slice()), Json::Bool(true)));
    ms.push(text_member("show", show_dir));
    ms.push(text_member("show_id", show.id.as_str()));
    ms.push((string_of(chars_of("rev").as_slice()), Json::Number(string_of(dec_vec(show.rev).as_slice()))));
    let event_id = match last {
        Some(e) => Json::Str(copy_text(&e.id)),
        None => Json::Null,
    };
    ms.push((string_of(chars_of("event_id").as_slice()), event_id));
    let who = match last {
        Some(e) => e.who.as_str(),
        None => match agent {
            Some(a) => a,
            None => "human",
        },
    };
    ms.push(text_member("who", who));
    ms.push((string_of(chars_of("school").as_slice()), school_json(&show.school)));
    let ghost head = ms@;
    assert(jv_members(head) =~= seq![
        ("ok"@, JsonV::Bool(true)),
        ("show"@, JsonV::Str(show_dir@)),
        ("show_id"@, JsonV::Str(show.id@)),
        ("rev"@, JsonV::Number(dec(show.rev as nat))),
        ("event_id"@, match last {
            Some(e) => JsonV::Str(e.id@),
            None => JsonV::Null,
        }),
        ("who"@, JsonV::Str(match last {
            Some(e) => e.who@,
            None => who_or_human(opt_view(agent)),
        })),
        ("school"@, school_jv(show.school)),
    ]) by {
        reveal_with_fuel(jv_members, 8);
    }
    push_extra(&mut ms, Some(extra), true);
    assert(opt_jv(opt_json(Some(extra))) == Some(jv(*extra)));
    let r = Json::Object(ms);
    assert(jv(r) == JsonV::Object(jv_members(ms@)));
    let ghost lastv = match last { Some(e) => Some(*e), None => None };
    let ghost want = seq![
        ("ok"@, JsonV::Bool(true)),
        ("show"@, JsonV::Str(show_dir@)),
        ("show_id"@, JsonV::Str(show.id@)),
        ("rev"@, JsonV::Number(dec(show.rev as nat))),
        ("event_id"@, match lastv {
            Some(e) => JsonV::Str(e.id@),
            None => JsonV::Null,
        }),
        ("who"@, JsonV::Str(match lastv {
            Some(e) => e.who@,
            None => who_or_human(opt_view(agent)),
        })),
        ("school"@, school_jv(show.school)),
    ];
    assert(jv_members(head) =~= want);
    assert(jv_members(ms@) =~= want + kept_extra(Some(jv(*extra)), true));
    assert(jv(r) == spec_mutation_json(show_dir@, *show, lastv, opt_view(agent), jv(*extra)));
    r
}

/// Redaction keeps the shape of a value: an object keeps its keys in order
/// and an array its length; only values change.
pub proof fn lemma_redact_keeps_keys(ms: Seq<(Seq<char>, JsonV)>)
    ensures
        jms_redact(ms).len() == ms.len(),
        forall|i: int| 0 <= i < ms.len() ==> (#[trigger] jms_redact(ms)[i]).0 == ms[i].0,
    decreases ms.len(),
{
    if ms.len() > 0 {
        lemma_redact_keeps_keys(ms.drop_last());
        assert forall|i: int| 0 <= i < ms.len() implies (#[trigger] jms_redact(ms)[i]).0 == ms[i].0 by {
            if i < ms.len() - 1 {
                assert(jms_redact(ms)[i] == jms_redact(ms.drop_last())[i]);
            }
        }
    }
}

/// No credential survives an export: a sensitive key's value is
/// `"[redacted]"` after redaction.
pub proof fn lemma_sensitive_values_redacted(ms: Seq<(Seq<char>, JsonV)>)
    ensures
        forall|i: int| 0 <= i < ms.len() && spec_sensitive_key(ms[i].0) ==> (#[trigger] jms_redact(ms)[i]).1 == redacted(),
    decreases ms.len(),
{
    if ms.len() > 0 {
        lemma_sensitive_values_redacted(ms.drop_last());
        lemma_redact_keeps_keys(ms.drop_last());
        assert forall|i: int| 0 <= i < ms.len() && spec_sensitive_key(ms[i].0) implies (#[trigger] jms_redact(ms)[i]).1 == redacted() by {
            if i < ms.len() - 1 {
                assert(jms_redact(ms)[i] == jms_redact(ms.drop_last())[i]);
                assert(ms.drop_last()[i] == ms[i]);
            }
        }
    }
}

} // verus!
