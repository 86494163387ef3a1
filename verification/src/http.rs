//! The optional HTTP twin of the MCP door: the same tool names, bound to
//! loopback by default. Here are the bind, the routing of a request and the
//! reading of its head; sockets are the caller's part.

use vstd::prelude::*;
use crate::json::{Json, JsonV, jv, jv_members};
use crate::show::{NAME, VERSION};
use crate::text::{
    chars_of, string_of, str_eq, trim, trim_vec, upper, upper_vec, lower, lower_vec, starts_with, starts_with_vec,
    contains, contains_str, has_char, has_char_vec, seq_eq, sub_vec, split_on, split_vec, spec_parse_u64, parse_u64,
    append_str, append_vec, dec, dec_vec, strings_view,
};

verus! {

pub const DEFAULT_BIND: &'static str = "127.0.0.1:8787";

pub fn default_bind() -> (r: &'static str)
    ensures
        r@ == DEFAULT_BIND@,
{
    DEFAULT_BIND
}

/// The address to bind: the one given (trimmed) unless blank, else loopback.
pub fn resolve_bind(bind: Option<&str>) -> (r: String)
    ensures
        r@ == match bind {
            Some(b) => if trim(b@).len() > 0 {
                trim(b@)
            } else {
                DEFAULT_BIND@
            },
            None => DEFAULT_BIND@,
        },
{
    match bind {
        Some(b) => {
            let t = trim_vec(&chars_of(b));
            if t.len() > 0 {
                return string_of(t.as_slice());
            }
        },
        None => {},
    }
    string_of(chars_of(DEFAULT_BIND).as_slice())
}

/// The path without its leading slashes.
pub open spec fn strip_slashes(p: Seq<char>) -> Seq<char>
    decreases p.len(),
{
    if p.len() > 0 && p[0] == '/' {
        strip_slashes(p.drop_first())
    } else {
        p
    }
}

/// The tool a POST path names: the path without leading slashes or a
/// `tools/` prefix, when it is one segment, holds no `..`, and starts with
/// `lot_`.
pub open spec fn spec_tool_name(path: Seq<char>) -> Option<Seq<char>> {
    let p0 = strip_slashes(path);
    let p = if starts_with(p0, "tools/"@) {
        p0.skip(6)
    } else {
        p0
    };
    if p.len() == 0 || has_char(p, '/') || contains(p, ".."@) {
        None
    } else if starts_with(p, "lot_"@) {
        Some(p)
    } else {
        None
    }
}

pub fn tool_name_from_path(path: &str) -> (r: Option<String>)
    ensures
        match r {
            Some(n) => spec_tool_name(path@) == Some(n@),
            None => spec_tool_name(path@) is None,
        },
{
    proof {
        reveal_strlit("tools/");
    }
    let s = chars_of(path);
    let mut i: usize = 0;
    assert(s@.skip(0) =~= s@);
    while i < s.len() && s[i] == '/'
        invariant
            i <= s.len(),
            strip_slashes(s@) == strip_slashes(s@.skip(i as int)),
        decreases s.len() - i,
    {
        assert(s@.skip(i as int)[0] == '/');
        assert(s@.skip(i as int).drop_first() =~= s@.skip(i + 1));
        i += 1;
    }
    assert(i == s.len() || s@.skip(i as int)[0] != '/');
    let p0 = sub_vec(&s, i, s.len());
    assert(p0@ =~= s@.skip(i as int));
    let p = if starts_with_vec(&p0, &chars_of("tools/")) {
        let q = sub_vec(&p0, 6, p0.len());
        assert(q@ =~= p0@.skip(6));
        q
    } else {
        p0
    };
    if p.len() == 0 || has_char_vec(&p, '/') || contains_str(&p, "..") {
        return None;
    }
    if starts_with_vec(&p, &chars_of("lot_")) {
        Some(string_of(p.as_slice()))
    } else {
        None
    }
}

/// What a request is routed to.
#[derive(Debug, PartialEq, Eq)]
pub enum Route {
    OpenApi,
    Root,
    /// A known tool, run with the body as arguments.
    Tool(String),
    /// 404: the tool, or the path when it names none.
    UnknownTool(String),
    /// 405.
    NotAllowed,
}

/// The path of a request target: up to the first `?`, `/` when empty.
pub open spec fn spec_route_path(target: Seq<char>) -> Seq<char> {
    let p = split_on(target, "?"@)[0];
    if p.len() == 0 {
        "/"@
    } else {
        p
    }
}

pub open spec fn route_view(r: Route) -> (int, Seq<char>) {
    match r {
        Route::OpenApi => (0, seq![]),
        Route::Root => (1, seq![]),
        Route::Tool(n) => (2, n@),
        Route::UnknownTool(n) => (3, n@),
        Route::NotAllowed => (4, seq![]),
    }
}

/// The route of a request: GET `/openapi.json` and GET `/`; POST to a known
/// tool; an unknown tool is 404; any other method 405.
pub open spec fn spec_route_view(method: Seq<char>, target: Seq<char>, tools: Seq<Seq<char>>) -> (int, Seq<char>) {
    let m = upper(method);
    let p = spec_route_path(target);
    if m == "GET"@ && p == "/openapi.json"@ {
        (0, seq![])
    } else if m == "GET"@ && p == "/"@ {
        (1, seq![])
    } else if m == "POST"@ {
        match spec_tool_name(p) {
            Some(n) => if tools.contains(n) {
                (2, n)
            } else {
                (3, n)
            },
            None => (3, p),
        }
    } else {
        (4, seq![])
    }
}

fn known(tools: &Vec<String>, n: &String) -> (r: bool)
    ensures
        r == strings_view(tools@).contains(n@),
{
    let mut i: usize = 0;
    while i < tools.len()
        invariant
            i <= tools.len(),
            forall|j: int| 0 <= j < i ==> (#[trigger] tools@[j])@ != n@,
        decreases tools.len() - i,
    {
        if str_eq(tools[i].as_str(), n.as_str()) {
            assert(strings_view(tools@)[i as int] == n@);
            return true;
        }
        i += 1;
    }
    proof {
        if strings_view(tools@).contains(n@) {
            let j = choose|j: int| 0 <= j < strings_view(tools@).len() && strings_view(tools@)[j] == n@;
            assert(tools@[j]@ == n@);
        }
    }
    false
}

/// Routes a request by method and target, against the known tool names.
pub fn route(method: &str, target: &str, tools: &Vec<String>) -> (r: Route)
    ensures
        route_view(r) == spec_route_view(method@, target@, strings_view(tools@)),
{
    proof {
        reveal_strlit("?");
    }
    let m = upper_vec(&chars_of(method));
    let parts = split_vec(&chars_of(target), &chars_of("?"));
    assert(split_on(target@, "?"@).len() >= 1);
    assert(parts.deep_view().len() == parts@.len());
    assert(parts.deep_view()[0] == parts@[0]@);
    let p = if parts[0].len() == 0 {
        chars_of("/")
    } else {
        sub_vec(&parts[0], 0, parts[0].len())
    };
    assert(p@ =~= spec_route_path(target@));
    if seq_eq(&m, &chars_of("GET")) && seq_eq(&p, &chars_of("/openapi.json")) {
        return Route::OpenApi;
    }
    if seq_eq(&m, &chars_of("GET")) && seq_eq(&p, &chars_of("/")) {
        return Route::Root;
    }
    if seq_eq(&m, &chars_of("POST")) {
        let ps = string_of(p.as_slice());
        return match tool_name_from_path(ps.as_str()) {
            Some(n) => if known(tools, &n) {
                Route::Tool(n)
            } else {
                Route::UnknownTool(n)
            },
            None => Route::UnknownTool(ps),
        };
    }
    Route::NotAllowed
}

/// Where the head of a request ends: the first `\r\n\r\n`.
pub open spec fn head_end(buf: Seq<u8>) -> int
    decreases buf.len(),
{
    if buf.len() < 4 {
        -1
    } else if buf[0] == 13 && buf[1] == 10 && buf[2] == 13 && buf[3] == 10 {
        0
    } else {
        let r = head_end(buf.drop_first());
        if r < 0 {
            -1
        } else {
            r + 1
        }
    }
}

pub fn find_headers_end(buf: &[u8]) -> (r: Option<usize>)
    ensures
        match r {
            Some(k) => k as int == head_end(buf@),
            None => head_end(buf@) == -1,
        },
{
    let mut i: usize = 0;
    assert(buf@.skip(0) =~= buf@);
    while i < buf.len() && buf.len() - i >= 4
        invariant
            i <= buf.len(),
            head_end(buf@) == (if head_end(buf@.skip(i as int)) < 0 {
                -1
            } else {
                head_end(buf@.skip(i as int)) + i
            }),
        decreases buf.len() - i,
    {
        let ghost t = buf@.skip(i as int);
        assert(t[0] == buf@[i as int] && t[1] == buf@[i + 1] && t[2] == buf@[i + 2] && t[3] == buf@[i + 3]);
        if buf[i] == 13 && buf[i + 1] == 10 && buf[i + 2] == 13 && buf[i + 3] == 10 {
            return Some(i);
        }
        assert(t.drop_first() =~= buf@.skip(i + 1));
        i += 1;
    }
    assert(buf@.skip(i as int).len() < 4);
    None
}

/// The status line's reason for the statuses the twin answers.
pub open spec fn spec_reason(status: u16) -> Seq<char> {
    if status == 200 {
        "OK"@
    } else if status == 400 {
        "Bad Request"@
    } else if status == 404 {
        "Not Found"@
    } else if status == 405 {
        "Method Not Allowed"@
    } else {
        "OK"@
    }
}

pub fn reason(status: u16) -> (r: &'static str)
    ensures
        r@ == spec_reason(status),
{
    if status == 200 {
        "OK"
    } else if status == 400 {
        "Bad Request"
    } else if status == 404 {
        "Not Found"
    } else if status == 405 {
        "Method Not Allowed"
    } else {
        "OK"
    }
}

/// The head of a response.
pub open spec fn spec_response_head(status: u16, len: nat) -> Seq<char> {
    "HTTP/1.1 "@ + dec(status as nat) + " "@ + spec_reason(status) + "\r\nContent-Type: application/json\r\nContent-Length: "@
        + dec(len) + "\r\nConnection: close\r\n\r\n"@
}

pub fn response_head(status: u16, len: usize) -> (r: String)
    ensures
        r@ == spec_response_head(status, len as nat),
{
    let mut v = chars_of("HTTP/1.1 ");
    append_vec(&mut v, &dec_vec(status as u64));
    append_str(&mut v, " ");
    append_str(&mut v, reason(status));
    append_str(&mut v, "\r\nContent-Type: application/json\r\nContent-Length: ");
    append_vec(&mut v, &crate::text::dec_wide(len as u128));
    append_str(&mut v, "\r\nConnection: close\r\n\r\n");
    string_of(v.as_slice())
}

/// The body length a request head declares: the last `content-length`
/// header (any case) that parses, else 0; at most a million bytes.
pub open spec fn declared_len(lines: Seq<Seq<char>>) -> nat
    decreases lines.len(),
{
    if lines.len() == 0 {
        0
    } else {
        let l = lower(lines.last());
        if starts_with(l, "content-length:"@) {
            match spec_parse_u64(trim(l.skip(15))) {
                Some(n) => if n <= usize::MAX {
                    n
                } else {
                    0
                },
                None => 0,
            }
        } else {
            declared_len(lines.drop_last())
        }
    }
}

pub open spec fn capped(n: nat) -> nat {
    if n > 1_000_000 {
        1_000_000
    } else {
        n
    }
}

/// The method and target of a request line: its first two words, else
/// `GET` and `/`.
pub open spec fn spec_request_line(line: Seq<char>) -> (Seq<char>, Seq<char>) {
    let ws = crate::text::words(line);
    (if ws.len() > 0 { ws[0] } else { "GET"@ }, if ws.len() > 1 { ws[1] } else { "/"@ })
}

/// A request head: method, target and body length to read.
pub open spec fn spec_request_head(head: Seq<char>) -> (Seq<char>, Seq<char>, nat) {
    let ls = split_on(head, "\r\n"@);
    let (m, t) = spec_request_line(ls[0]);
    (m, t, capped(declared_len(ls.drop_first())))
}

pub fn request_head(head: &str) -> (r: (String, String, usize))
    ensures
        (r.0@, r.1@, r.2 as nat) == spec_request_head(head@),
{
    proof {
        reveal_strlit("\r\n");
        reveal_strlit("content-length:");
    }
    let ls = split_vec(&chars_of(head), &chars_of("\r\n"));
    let ghost lv = ls.deep_view();
    assert(split_on(head@, "\r\n"@).len() >= 1);
    assert(lv.len() == ls@.len());
    assert(lv[0] == ls@[0]@);
    let ws = crate::text::words_vec(&ls[0]);
    let m = if ws.len() > 0 {
        string_of(ws[0].as_slice())
    } else {
        string_of(chars_of("GET").as_slice())
    };
    let t = if ws.len() > 1 {
        string_of(ws[1].as_slice())
    } else {
        string_of(chars_of("/").as_slice())
    };
    proof {
        if ws.len() > 0 {
            assert(ws.deep_view()[0] == ws@[0]@);
        }
        if ws.len() > 1 {
            assert(ws.deep_view()[1] == ws@[1]@);
        }
    }
    let mut n: u64 = 0;
    let mut found = false;
    let mut i = ls.len();
    let ghost rest = lv.drop_first();
    assert(rest.take(i - 1) =~= rest);
    while i > 1 && !found
        invariant
            1 <= i <= ls.len(),
            lv == ls.deep_view(),
            rest == lv.drop_first(),
            found ==> n as nat == declared_len(rest),
            !found ==> n == 0,
            !found ==> declared_len(rest) == declared_len(rest.take(i - 1)),
            n <= usize::MAX,
        decreases i, if found { 0int } else { 1int },
    {
        let ghost pre = rest.take(i - 1);
        assert(pre.last() == ls@[i - 1]@);
        assert(pre.drop_last() =~= rest.take(i - 2));
        let l = lower_vec(&ls[i - 1]);
        if starts_with_vec(&l, &chars_of("content-length:")) {
            proof {
                reveal_strlit("content-length:");
            }
            assert("content-length:"@.len() == 15);
            let tail = sub_vec(&l, 15, l.len());
            assert(tail@ =~= l@.skip(15));
            let v = trim_vec(&tail);
            n = match parse_u64(&v) {
                Some(k) => if k as u128 <= usize::MAX as u128 {
                    k
                } else {
                    0
                },
                None => 0,
            };
            found = true;
        } else {
            i -= 1;
        }
    }
    proof {
        if !found {
            assert(rest.take(0) =~= seq![]);
        }
    }
    let len = if n > 1_000_000 {
        1_000_000usize
    } else {
        n as usize
    };
    assert(n as nat == declared_len(rest));
    assert(len as nat == capped(declared_len(rest)));
    assert((m@, t@) == spec_request_line(lv[0]));
    (m, t, len)
}

/// The door card of `GET /`.
pub open spec fn root_card() -> JsonV {
    JsonV::Object(
        seq![
            ("ok"@, JsonV::Bool(true)),
            ("name"@, JsonV::Str(NAME@)),
            ("version"@, JsonV::Str(VERSION@)),
            ("door"@, JsonV::Str("http"@)),
            ("openapi"@, JsonV::Str("/openapi.json"@)),
        ],
    )
}

fn member_str(k: &str, v: &str) -> (r: (String, Json))
    ensures
        r.0@ == k@,
        jv(r.1) == JsonV::Str(v@),
{
    (string_of(chars_of(k).as_slice()), Json::Str(string_of(chars_of(v).as_slice())))
}

pub fn root_json() -> (r: Json)
    ensures
        jv(r) == root_card(),
{
    let mut ms: Vec<(String, Json)> = Vec::new();
    ms.push((string_of(chars_of("ok").as_slice()), Json::Bool(true)));
    ms.push(member_str("name", NAME));
    ms.push(member_str("version", VERSION));
    ms.push(member_str("door", "http"));
    ms.push(member_str("openapi", "/openapi.json"));
    let ghost want = seq![
        ("ok"@, JsonV::Bool(true)),
        ("name"@, JsonV::Str(NAME@)),
        ("version"@, JsonV::Str(VERSION@)),
        ("door"@, JsonV::Str("http"@)),
        ("openapi"@, JsonV::Str("/openapi.json"@)),
    ];
    assert(jv_members(ms@) =~= want) by {
        reveal_with_fuel(jv_members, 6);
    }
    let r = Json::Object(ms);
    proof {
        assert(root_card()->Object_0 =~= want);
    }
    r
}

/// An error answer of the twin: `ok: false` and the message.
pub open spec fn error_body(m: Seq<char>) -> JsonV {
    JsonV::Object(seq![("ok"@, JsonV::Bool(false)), ("error"@, JsonV::Str(m))])
}

pub fn error_json(m: &str) -> (r: Json)
    ensures
        jv(r) == error_body(m@),
{
    let mut ms: Vec<(String, Json)> = Vec::new();
    ms.push((string_of(chars_of("ok").as_slice()), Json::Bool(false)));
    ms.push(member_str("error", m));
    let ghost want = seq![("ok"@, JsonV::Bool(false)), ("error"@, JsonV::Str(m@))];
    assert(jv_members(ms@) =~= want) by {
        reveal_with_fuel(jv_members, 3);
    }
    let r = Json::Object(ms);
    proof {
        assert(error_body(m@)->Object_0 =~= want);
    }
    r
}

/// The status of a tool's answer: 400 when it flags an error, else 200.
pub fn tool_status(out: &Json) -> (r: u16)
    ensures
        r == (if crate::json::member(*out, "isError"@) == Some(Json::Bool(true)) { 400u16 } else { 200u16 }),
{
    match crate::json::get_member(out, "isError") {
        Some(Json::Bool(true)) => 400,
        _ => 200,
    }
}

} // verus!
