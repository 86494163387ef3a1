//! The MCP door: NDJSON JSON-RPC 2.0. Here is what each message asks for,
//! the replies and envelopes, and how a call's arguments are read. Running
//! the tools (files, brains, renderers) is the caller's part.

use vstd::prelude::*;
pub use crate::tools::{spec_tools_list, tools_list};
use crate::caps::{Caps, spec_parse_caps, parse_caps};
use crate::error::{ShowError, spec_message};
use crate::json::{Json, JsonV, jv, jv_seq, jv_members, member, text_of, items_of, get_member, text_exec, items_exec, copy_json, opt_json};
use crate::show::{NAME, VERSION};
use crate::text::{chars_of, string_of, str_eq, trim, trim_vec, split_on, split_vec, join, join_vecs, push_piece, strings_view, append_str};

verus! {

pub const PROTOCOL: &'static str = "2024-11-05";

/// The text a value prints as (`serde_json`'s `Value::to_string`).
pub uninterp spec fn json_print(v: JsonV) -> Seq<char>;

/// Turns a `Json` back into a `serde_json::Value`, node for node.
#[verifier::external_body]
fn value_of(v: &Json) -> (r: serde_json::Value) {
    match v {
        Json::Null => serde_json::Value::Null,
        Json::Bool(b) => serde_json::Value::Bool(*b),
        Json::Number(n) => serde_json::from_str::<serde_json::Value>(n).unwrap_or(serde_json::Value::Null),
        Json::Str(s) => serde_json::Value::String(s.clone()),
        Json::Array(xs) => serde_json::Value::Array(xs.iter().map(value_of).collect()),
        Json::Object(ms) => serde_json::Value::Object(ms.iter().map(|(k, x)| (k.clone(), value_of(x))).collect()),
    }
}

/// Wraps `Value::to_string` (compact JSON text); the contract claims only
/// that the text is what `json_print` names for the value.
#[verifier::external_body]
pub fn json_text(v: &Json) -> (r: String)
    ensures
        r@ == json_print(jv(*v)),
{
    value_of(v).to_string()
}

/// What a message asks of the server.
#[derive(Debug)]
pub enum RpcStep {
    /// Answer with this reply.
    Reply(Json),
    /// Run the tool `name` with `args`, then answer `id` with its result.
    Call { id: Option<Json>, name: String, args: Json },
    /// Answer nothing (a notification).
    Silent,
}

pub open spec fn opt_jv(v: Option<Json>) -> Option<JsonV> {
    match v {
        Some(x) => Some(jv(x)),
        None => None,
    }
}

/// A JSON-RPC result: `jsonrpc`, the id when there is one, the result.
pub open spec fn spec_rpc_ok(id: Option<JsonV>, result: JsonV) -> JsonV {
    JsonV::Object(
        seq![("jsonrpc"@, JsonV::Str("2.0"@))] + match id {
            Some(i) => seq![("id"@, i)],
            None => seq![],
        } + seq![("result"@, result)],
    )
}

/// A JSON-RPC error: `jsonrpc`, the id when there is one, code and message.
pub open spec fn spec_rpc_err(id: Option<JsonV>, code: int, message: Seq<char>) -> JsonV {
    JsonV::Object(
        seq![("jsonrpc"@, JsonV::Str("2.0"@))] + match id {
            Some(i) => seq![("id"@, i)],
            None => seq![],
        } + seq![
            ("error"@, JsonV::Object(
                seq![("code"@, JsonV::Number(int_text(code))), ("message"@, JsonV::Str(message))],
            )),
        ],
    )
}

pub open spec fn int_text(n: int) -> Seq<char> {
    if n < 0 {
        "-"@ + crate::text::dec((-n) as nat)
    } else {
        crate::text::dec(n as nat)
    }
}

fn key(k: &str) -> (r: String)
    ensures
        r@ == k@,
{
    string_of(chars_of(k).as_slice())
}

fn head_members(id: Option<Json>) -> (r: Vec<(String, Json)>)
    ensures
        jv_members(r@) == seq![("jsonrpc"@, JsonV::Str("2.0"@))] + match opt_jv(id) {
            Some(i) => seq![("id"@, i)],
            None => seq![],
        },
{
    let mut ms: Vec<(String, Json)> = Vec::new();
    ms.push((key("jsonrpc"), Json::Str(key("2.0"))));
    assert(jv_members(ms@) =~= seq![("jsonrpc"@, JsonV::Str("2.0"@))]) by {
        reveal_with_fuel(jv_members, 2);
    }
    match id {
        Some(i) => {
            let ghost pre = ms@;
            let ghost iv = jv(i);
            ms.push((key("id"), i));
            assert(ms@.drop_last() =~= pre);
            assert(jv_members(ms@) =~= seq![("jsonrpc"@, JsonV::Str("2.0"@))] + seq![("id"@, iv)]);
        },
        None => {
            assert(jv_members(ms@) =~= seq![("jsonrpc"@, JsonV::Str("2.0"@))] + seq![]);
        },
    }
    ms
}

pub fn rpc_ok(id: Option<Json>, result: Json) -> (r: Json)
    ensures
        jv(r) == spec_rpc_ok(opt_jv(id), jv(result)),
{
    let ghost idv = opt_jv(id);
    let ghost rv = jv(result);
    let mut ms = head_members(id);
    let ghost pre = ms@;
    ms.push((key("result"), result));
    assert(ms@.drop_last() =~= pre);
    let r = Json::Object(ms);
    proof {
        let want = jv_members(pre) + seq![("result"@, rv)];
        assert(jv_members(ms@) =~= want);
        assert(spec_rpc_ok(idv, rv)->Object_0 =~= want);
    }
    r
}

fn int_json(n: i64) -> (r: Json)
    ensures
        jv(r) == JsonV::Number(int_text(n as int)),
{
    if n < 0 {
        let mut v = chars_of("-");
        let m: u64 = if n == i64::MIN {
            0x8000_0000_0000_0000u64
        } else {
            (-n) as u64
        };
        crate::text::append_vec(&mut v, &crate::text::dec_vec(m));
        Json::Number(string_of(v.as_slice()))
    } else {
        Json::Number(string_of(crate::text::dec_vec(n as u64).as_slice()))
    }
}

pub fn rpc_err(id: Option<Json>, code: i64, message: &str) -> (r: Json)
    ensures
        jv(r) == spec_rpc_err(opt_jv(id), code as int, message@),
{
    let ghost idv = opt_jv(id);
    let mut ms = head_members(id);
    let ghost pre = ms@;
    let mut em: Vec<(String, Json)> = Vec::new();
    em.push((key("code"), int_json(code)));
    em.push((key("message"), Json::Str(key(message))));
    let ghost ev = seq![("code"@, JsonV::Number(int_text(code as int))), ("message"@, JsonV::Str(message@))];
    assert(jv_members(em@) =~= ev) by {
        reveal_with_fuel(jv_members, 3);
    }
    let eo = Json::Object(em);
    assert(jv(eo) == JsonV::Object(ev));
    ms.push((key("error"), eo));
    assert(ms@.drop_last() =~= pre);
    assert(jv_members(ms@) == jv_members(pre).push(("error"@, jv(eo))));
    let r = Json::Object(ms);
    proof {
        let want = jv_members(pre) + seq![("error"@, JsonV::Object(ev))];
        assert(jv_members(ms@) =~= want);
        assert(spec_rpc_err(idv, code as int, message@)->Object_0 =~= want);
    }
    r
}

/// What `initialize` answers: the protocol, the tools capability, the
/// server's name and version.
pub open spec fn init_result() -> JsonV {
    JsonV::Object(
        seq![
            ("protocolVersion"@, JsonV::Str(PROTOCOL@)),
            ("capabilities"@, JsonV::Object(seq![("tools"@, JsonV::Object(seq![]))])),
            ("serverInfo"@, JsonV::Object(seq![("name"@, JsonV::Str(NAME@)), ("version"@, JsonV::Str(VERSION@))])),
        ],
    )
}

fn init_json() -> (r: Json)
    ensures
        jv(r) == init_result(),
{
    let mut tools: Vec<(String, Json)> = Vec::new();
    tools.push((key("tools"), Json::Object(Vec::new())));
    assert(jv_members(Seq::<(String, Json)>::empty()) =~= seq![]);
    assert(jv_members(tools@) =~= seq![("tools"@, JsonV::Object(seq![]))]) by {
        reveal_with_fuel(jv_members, 2);
    }
    let mut info: Vec<(String, Json)> = Vec::new();
    info.push((key("name"), Json::Str(key(NAME))));
    info.push((key("version"), Json::Str(key(VERSION))));
    assert(jv_members(info@) =~= seq![("name"@, JsonV::Str(NAME@)), ("version"@, JsonV::Str(VERSION@))]) by {
        reveal_with_fuel(jv_members, 3);
    }
    let mut ms: Vec<(String, Json)> = Vec::new();
    ms.push((key("protocolVersion"), Json::Str(key(PROTOCOL))));
    ms.push((key("capabilities"), Json::Object(tools)));
    ms.push((key("serverInfo"), Json::Object(info)));
    let ghost want = seq![
        ("protocolVersion"@, JsonV::Str(PROTOCOL@)),
        ("capabilities"@, JsonV::Object(seq![("tools"@, JsonV::Object(seq![]))])),
        ("serverInfo"@, JsonV::Object(seq![("name"@, JsonV::Str(NAME@)), ("version"@, JsonV::Str(VERSION@))])),
    ];
    assert(jv_members(ms@) =~= want) by {
        reveal_with_fuel(jv_members, 4);
    }
    let r = Json::Object(ms);
    proof {
        assert(init_result()->Object_0 =~= want);
    }
    r
}

pub open spec fn tools_result(tools: JsonV) -> JsonV {
    JsonV::Object(seq![("tools"@, tools)])
}

pub open spec fn method_not_found(m: Seq<char>) -> Seq<char> {
    "Method not found: "@ + m
}

/// What a message asks: no reply without a string `method`; `initialize`,
/// `ping` and `tools/list` are answered here; `tools/call` runs a tool; a
/// notification gets nothing; an unknown method with an id is an error.
pub open spec fn spec_rpc_step(msg: Json, tools: JsonV, step: RpcStep) -> bool {
    let id = member(msg, "id"@);
    match text_of(member(msg, "method"@)) {
        None => step is Silent,
        Some(m) => if m == "initialize"@ {
            step matches RpcStep::Reply(r) && jv(r) == spec_rpc_ok(opt_jv(id), init_result())
        } else if m == "notifications/initialized"@ {
            step is Silent
        } else if m == "ping"@ {
            step matches RpcStep::Reply(r) && jv(r) == spec_rpc_ok(opt_jv(id), JsonV::Object(seq![]))
        } else if m == "tools/list"@ {
            step matches RpcStep::Reply(r) && jv(r) == spec_rpc_ok(opt_jv(id), tools_result(tools))
        } else if m == "tools/call"@ {
            step matches RpcStep::Call { id: i, name, args } && opt_jv(i) == opt_jv(id) && name@ == call_name(
                member(msg, "params"@),
            ) && jv(args) == call_args(member(msg, "params"@))
        } else {
            match id {
                Some(_) => step matches RpcStep::Reply(r) && jv(r) == spec_rpc_err(opt_jv(id), -32601, method_not_found(m)),
                None => step is Silent,
            }
        },
    }
}

/// The tool a call names (empty when none).
pub open spec fn call_name(params: Option<Json>) -> Seq<char> {
    match params {
        Some(p) => match text_of(member(p, "name"@)) {
            Some(n) => n,
            None => seq![],
        },
        None => seq![],
    }
}

/// The arguments of a call (an empty object when none).
pub open spec fn call_args(params: Option<Json>) -> JsonV {
    match params {
        Some(p) => match member(p, "arguments"@) {
            Some(a) => jv(a),
            None => JsonV::Object(seq![]),
        },
        None => JsonV::Object(seq![]),
    }
}

fn copy_opt_json(v: Option<&Json>) -> (r: Option<Json>)
    ensures
        opt_jv(r) == opt_jv(opt_json(v)),
{
    match v {
        Some(x) => Some(copy_json(x)),
        None => None,
    }
}

pub fn rpc_step(msg: &Json, tools: &Json) -> (r: RpcStep)
    ensures
        spec_rpc_step(*msg, jv(*tools), r),
{
    let method = match text_exec(get_member(msg, "method")) {
        Some(m) => m,
        None => return RpcStep::Silent,
    };
    let id = copy_opt_json(get_member(msg, "id"));
    if str_eq(method.as_str(), "initialize") {
        RpcStep::Reply(rpc_ok(id, init_json()))
    } else if str_eq(method.as_str(), "notifications/initialized") {
        RpcStep::Silent
    } else if str_eq(method.as_str(), "ping") {
        let e = Json::Object(Vec::new());
        assert(jv(e) == JsonV::Object(seq![])) by {
            assert(jv_members(Seq::<(String, Json)>::empty()) =~= seq![]);
        }
        RpcStep::Reply(rpc_ok(id, e))
    } else if str_eq(method.as_str(), "tools/list") {
        let mut ms: Vec<(String, Json)> = Vec::new();
        ms.push((key("tools"), copy_json(tools)));
        assert(jv_members(ms@) =~= seq![("tools"@, jv(*tools))]) by {
            reveal_with_fuel(jv_members, 2);
        }
        let t = Json::Object(ms);
        proof {
            assert(tools_result(jv(*tools))->Object_0 =~= seq![("tools"@, jv(*tools))]);
        }
        RpcStep::Reply(rpc_ok(id, t))
    } else if str_eq(method.as_str(), "tools/call") {
        let params = get_member(msg, "params");
        let name = match params {
            Some(p) => match text_exec(get_member(p, "name")) {
                Some(n) => key(n.as_str()),
                None => String::new(),
            },
            None => String::new(),
        };
        let args = match params {
            Some(p) => match get_member(p, "arguments") {
                Some(a) => copy_json(a),
                None => Json::Object(Vec::new()),
            },
            None => Json::Object(Vec::new()),
        };
        assert(jv_members(Seq::<(String, Json)>::empty()) =~= seq![]);
        RpcStep::Call { id, name, args }
    } else {
        match id {
            Some(_) => {
                let mut m = chars_of("Method not found: ");
                append_str(&mut m, method.as_str());
                let ms = string_of(m.as_slice());
                RpcStep::Reply(rpc_err(id, -32601, ms.as_str()))
            },
            None => RpcStep::Silent,
        }
    }
}

// ---------------------------------------------------------------- tool replies

/// A tool's success: its payload as text content.
pub open spec fn spec_tool_ok(v: JsonV) -> JsonV {
    JsonV::Object(
        seq![("content"@, JsonV::Array(seq![JsonV::Object(seq![("type"@, JsonV::Str("text"@)), ("text"@, JsonV::Str(json_print(v)))])]))],
    )
}

/// A tool's refusal: its message as text content, flagged as an error.
pub open spec fn spec_tool_err(m: Seq<char>) -> JsonV {
    JsonV::Object(
        seq![
            ("content"@, JsonV::Array(seq![JsonV::Object(seq![("type"@, JsonV::Str("text"@)), ("text"@, JsonV::Str(m))])])),
            ("isError"@, JsonV::Bool(true)),
        ],
    )
}

fn text_content(t: String) -> (r: Json)
    ensures
        jv(r) == JsonV::Array(seq![JsonV::Object(seq![("type"@, JsonV::Str("text"@)), ("text"@, JsonV::Str(t@))])]),
{
    let ghost tv = t@;
    let mut item: Vec<(String, Json)> = Vec::new();
    item.push((key("type"), Json::Str(key("text"))));
    item.push((key("text"), Json::Str(t)));
    let ghost iv = seq![("type"@, JsonV::Str("text"@)), ("text"@, JsonV::Str(tv))];
    assert(jv_members(item@) =~= iv) by {
        reveal_with_fuel(jv_members, 3);
    }
    let mut arr: Vec<Json> = Vec::new();
    arr.push(Json::Object(item));
    assert(jv_seq(arr@) =~= seq![JsonV::Object(iv)]) by {
        reveal_with_fuel(jv_seq, 2);
    }
    Json::Array(arr)
}

pub fn tool_ok(v: &Json) -> (r: Json)
    ensures
        jv(r) == spec_tool_ok(jv(*v)),
{
    let t = json_text(v);
    let c = text_content(t);
    let ghost cv = jv(c);
    let mut ms: Vec<(String, Json)> = Vec::new();
    ms.push((key("content"), c));
    assert(jv_members(ms@) =~= seq![("content"@, cv)]) by {
        reveal_with_fuel(jv_members, 2);
    }
    let r = Json::Object(ms);
    proof {
        assert(spec_tool_ok(jv(*v))->Object_0 =~= seq![("content"@, cv)]);
    }
    r
}

pub fn tool_err(m: &str) -> (r: Json)
    ensures
        jv(r) == spec_tool_err(m@),
{
    let c = text_content(key(m));
    let ghost cv = jv(c);
    let mut ms: Vec<(String, Json)> = Vec::new();
    ms.push((key("content"), c));
    ms.push((key("isError"), Json::Bool(true)));
    assert(jv_members(ms@) =~= seq![("content"@, cv), ("isError"@, JsonV::Bool(true))]) by {
        reveal_with_fuel(jv_members, 3);
    }
    let r = Json::Object(ms);
    proof {
        assert(spec_tool_err(m@)->Object_0 =~= seq![("content"@, cv), ("isError"@, JsonV::Bool(true))]);
    }
    r
}

/// The refusal for a call whose tool is unknown or missing.
pub open spec fn unknown_tool_msg(name: Seq<char>) -> Seq<char> {
    if name.len() == 0 {
        "tool name is required"@
    } else {
        "Unknown tool: "@ + name
    }
}

pub fn unknown_tool(name: &str) -> (r: Json)
    ensures
        jv(r) == spec_tool_err(unknown_tool_msg(name@)),
{
    if !crate::text::filled(name) {
        tool_err("tool name is required")
    } else {
        let mut m = chars_of("Unknown tool: ");
        append_str(&mut m, name);
        let ms = string_of(m.as_slice());
        tool_err(ms.as_str())
    }
}

// ---------------------------------------------------------------- arguments

/// The caps a call asks for: a string, or strings in an array joined by
/// commas; none when empty; refused as `parse_caps` refuses.
pub open spec fn raw_caps(args: Json) -> Seq<char> {
    match member(args, "cap"@) {
        Some(Json::Str(s)) => trim(s@),
        Some(Json::Array(xs)) => join(strings_of(xs@), ","@),
        _ => seq![],
    }
}

/// The strings among values, in order.
pub open spec fn strings_of(xs: Seq<Json>) -> Seq<Seq<char>>
    decreases xs.len(),
{
    if xs.len() == 0 {
        seq![]
    } else {
        let r = strings_of(xs.drop_last());
        match xs.last() {
            Json::Str(s) => r.push(s@),
            _ => r,
        }
    }
}

fn strings_of_exec(xs: &Vec<Json>) -> (r: Vec<Vec<char>>)
    ensures
        r.deep_view() == strings_of(xs@),
{
    let mut out: Vec<Vec<char>> = Vec::new();
    let mut i: usize = 0;
    assert(xs@.take(0) =~= seq![]);
    while i < xs.len()
        invariant
            i <= xs.len(),
            out.deep_view() == strings_of(xs@.take(i as int)),
        decreases xs.len() - i,
    {
        assert(xs@.take(i + 1).drop_last() =~= xs@.take(i as int));
        match &xs[i] {
            Json::Str(s) => push_piece(&mut out, chars_of(s.as_str())),
            _ => {},
        }
        i += 1;
    }
    assert(xs@.take(xs.len() as int) =~= xs@);
    out
}

pub fn cap_from_args(args: &Json) -> (r: Result<Option<Caps>, String>)
    ensures
        raw_caps(*args).len() == 0 ==> r == Ok::<Option<Caps>, String>(None),
        raw_caps(*args).len() > 0 ==> match spec_parse_caps(raw_caps(*args)) {
            Ok(c) => r == Ok::<Option<Caps>, String>(Some(c)),
            Err(m) => r matches Err(e) && e@ == m,
        },
{
    let raw: Vec<char> = match get_member(args, "cap") {
        Some(Json::Str(s)) => trim_vec(&chars_of(s.as_str())),
        Some(Json::Array(xs)) => join_vecs(&strings_of_exec(xs), &chars_of(",")),
        _ => Vec::new(),
    };
    if raw.len() == 0 {
        return Ok(None);
    }
    let rs = string_of(raw.as_slice());
    match parse_caps(rs.as_str()) {
        Ok(c) => Ok(Some(c)),
        Err(e) => {
            let m = e.message();
            proof {
                assert(spec_message(e) == (e->Msg_0)@);
            }
            Err(m)
        },
    }
}

/// The show a call opens first: its `path`, trimmed, when not blank.
pub open spec fn path_arg(args: Json) -> Option<Seq<char>> {
    match text_of(member(args, "path"@)) {
        Some(p) => if trim(p).len() > 0 {
            Some(trim(p))
        } else {
            None
        },
        None => None,
    }
}

pub fn path_of(args: &Json) -> (r: Option<String>)
    ensures
        match r {
            Some(p) => path_arg(*args) == Some(p@),
            None => path_arg(*args) is None,
        },
{
    match text_exec(get_member(args, "path")) {
        Some(p) => {
            let t = trim_vec(&chars_of(p.as_str()));
            if t.len() > 0 {
                Some(string_of(t.as_slice()))
            } else {
                None
            }
        },
        None => None,
    }
}

/// A list argument: a string split on commas, or the strings of an array
/// each split on commas; pieces trimmed, blanks dropped. None when absent,
/// null or of another type.
pub open spec fn spec_str_list(args: Json, k: Seq<char>) -> Option<Seq<Seq<char>>> {
    match member(args, k) {
        Some(Json::Str(s)) => Some(pieces(seq![s@])),
        Some(Json::Array(xs)) => Some(pieces(strings_of(xs@))),
        _ => None,
    }
}

/// A string split on commas, trimmed, blanks dropped.
pub open spec fn split_trim(s: Seq<char>) -> Seq<Seq<char>> {
    split_on(s, ","@).map_values(|p: Seq<char>| trim(p)).filter(|p: Seq<char>| p.len() > 0)
}

/// Each string split on commas, trimmed, blanks dropped, in order.
pub open spec fn pieces(ss: Seq<Seq<char>>) -> Seq<Seq<char>>
    decreases ss.len(),
{
    if ss.len() == 0 {
        seq![]
    } else {
        pieces(ss.drop_last()) + split_trim(ss.last())
    }
}

fn pieces_of(out: &mut Vec<String>, s: &Vec<char>)
    ensures
        strings_view(final(out)@) == strings_view(old(out)@) + split_trim(s@),
{
    proof {
        reveal_strlit(",");
    }
    let parts = split_vec(s, &chars_of(","));
    let ghost base = strings_view(out@);
    let ghost tr = split_on(s@, ","@).map_values(|p: Seq<char>| trim(p));
    let mut i: usize = 0;
    assert(tr.take(0) =~= seq![]);
    assert(tr.take(0).filter(|p: Seq<char>| p.len() > 0) =~= seq![]) by {
        reveal(Seq::filter);
    }
    assert(strings_view(out@) =~= base + tr.take(0).filter(|p: Seq<char>| p.len() > 0));
    while i < parts.len()
        invariant
            i <= parts.len(),
            parts.deep_view() == split_on(s@, ","@),
            tr == split_on(s@, ","@).map_values(|p: Seq<char>| trim(p)),
            strings_view(out@) == base + tr.take(i as int).filter(|p: Seq<char>| p.len() > 0),
        decreases parts.len() - i,
    {
        assert(tr.take(i + 1).drop_last() =~= tr.take(i as int));
        assert(parts.deep_view()[i as int] == parts@[i as int]@);
        proof {
            reveal(Seq::filter);
        }
        let t = trim_vec(&parts[i]);
        if t.len() > 0 {
            let ghost pre = out@;
            out.push(string_of(t.as_slice()));
            assert(strings_view(out@) =~= strings_view(pre).push(t@));
        }
        i += 1;
    }
    assert(tr.take(parts.len() as int) =~= tr);
    assert(strings_view(out@) == base + split_trim(s@));
}

pub fn list_from_str(s: &String) -> (r: Vec<String>)
    ensures
        strings_view(r@) == pieces(seq![s@]),
{
    let mut out: Vec<String> = Vec::new();
    assert(strings_view(out@) =~= seq![]);
    pieces_of(&mut out, &chars_of(s.as_str()));
    assert(seq![s@].drop_last() =~= Seq::<Seq<char>>::empty());
    assert(seq![s@].last() == s@);
    assert(pieces(Seq::<Seq<char>>::empty()) == Seq::<Seq<char>>::empty());
    assert(pieces(seq![s@]) =~= split_trim(s@));
    assert(strings_view(out@) =~= split_trim(s@));
    out
}

#[verifier::rlimit(40)]
fn list_from_array(xs: &Vec<Json>) -> (r: Vec<String>)
    ensures
        strings_view(r@) == pieces(strings_of(xs@)),
{
    let ss = strings_of_exec(xs);
    let ghost sv = ss.deep_view();
    let mut out: Vec<String> = Vec::new();
    let mut i: usize = 0;
    assert(sv.take(0) =~= seq![]);
    assert(strings_view(out@) =~= seq![]);
    while i < ss.len()
        invariant
            i <= ss.len(),
            sv == ss.deep_view(),
            strings_view(out@) == pieces(sv.take(i as int)),
        decreases ss.len() - i,
    {
        assert(sv.take(i + 1).drop_last() =~= sv.take(i as int));
        assert(sv[i as int] == ss@[i as int]@);
        pieces_of(&mut out, &ss[i]);
        i += 1;
    }
    assert(sv.take(ss.len() as int) =~= sv);
    out
}

pub fn str_list(args: &Json, k: &str) -> (r: Option<Vec<String>>)
    ensures
        match r {
            Some(v) => spec_str_list(*args, k@) == Some(strings_view(v@)),
            None => spec_str_list(*args, k@) is None,
        },
{
    match get_member(args, k) {
        Some(Json::Str(s)) => Some(list_from_str(s)),
        Some(Json::Array(xs)) => Some(list_from_array(xs)),
        _ => None,
    }
}

} // verus!
