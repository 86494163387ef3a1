//! Who is writing: `LOT_AGENT`, `--agent` or the MCP `agent` field. No agent
//! means a human, who claims nothing.

use vstd::prelude::*;
use crate::text::{chars_of, string_of, trim, trim_vec, eq_icase, eq_icase_vec};

verus! {

/// An agent id: the trimmed text, or none when it is blank.
pub open spec fn spec_normalize(raw: Seq<char>) -> Option<Seq<char>> {
    if trim(raw).len() == 0 {
        None
    } else {
        Some(trim(raw))
    }
}

pub open spec fn opt_view(o: Option<String>) -> Option<Seq<char>> {
    match o {
        Some(s) => Some(s@),
        None => None,
    }
}

pub fn normalize(raw: &str) -> (r: Option<String>)
    ensures
        opt_view(r) == spec_normalize(raw@),
{
    let t = trim_vec(&chars_of(raw));
    if t.len() == 0 {
        None
    } else {
        Some(string_of(t.as_slice()))
    }
}

/// Two agent ids name the same agent: equal once trimmed, ignoring ASCII case.
pub fn same(a: &str, b: &str) -> (r: bool)
    ensures
        r == eq_icase(trim(a@), trim(b@)),
{
    eq_icase_vec(&trim_vec(&chars_of(a)), &trim_vec(&chars_of(b)))
}

/// The agent override that the process carries; it is kept normalized.
pub struct AgentScope {
    pub over: Option<String>,
}

impl AgentScope {
    pub fn new() -> (r: AgentScope)
        ensures
            r.over is None,
    {
        AgentScope { over: None }
    }
}

fn normalize_opt(id: Option<String>) -> (r: Option<String>)
    ensures
        opt_view(r) == match id {
            Some(s) => spec_normalize(s@),
            None => None,
        },
{
    match id {
        Some(s) => normalize(s.as_str()),
        None => None,
    }
}

pub fn set_agent(scope: &mut AgentScope, id: Option<String>)
    ensures
        opt_view(final(scope).over) == match id {
            Some(s) => spec_normalize(s@),
            None => None,
        },
{
    scope.over = normalize_opt(id);
}

pub fn clear_agent(scope: &mut AgentScope)
    ensures
        final(scope).over is None,
{
    scope.over = None;
}

/// The agent in force: the override if any, else `LOT_AGENT` (`env`), each
/// normalized.
pub open spec fn spec_current(over: Option<Seq<char>>, env: Option<Seq<char>>) -> Option<Seq<char>> {
    match over {
        Some(s) => spec_normalize(s),
        None => match env {
            Some(e) => spec_normalize(e),
            None => None,
        },
    }
}

pub fn current(scope: &AgentScope, env: Option<&str>) -> (r: Option<String>)
    ensures
        opt_view(r) == spec_current(opt_view(scope.over), match env {
            Some(e) => Some(e@),
            None => None,
        }),
{
    match &scope.over {
        Some(s) => normalize(s.as_str()),
        None => match env {
            Some(e) => normalize(e),
            None => None,
        },
    }
}

/// Runs `f` with `id` (normalized) as the override, then puts the previous
/// override back.
pub fn with_agent<T, F: FnOnce(&AgentScope) -> T>(
    scope: &mut AgentScope,
    id: Option<String>,
    f: F,
) -> (r: T)
    requires
        forall|s: &AgentScope|
            opt_view(s.over) == match id {
                Some(x) => spec_normalize(x@),
                None => None,
            } ==> #[trigger] call_requires(f, (s,)),
    ensures
        final(scope).over == old(scope).over,
        exists|s: &AgentScope|
            opt_view(s.over) == match id {
                Some(x) => spec_normalize(x@),
                None => None,
            } && #[trigger] call_ensures(f, (s,), r),
{
    let mut prev = normalize_opt(id);
    std::mem::swap(&mut prev, &mut scope.over);
    let out = f(&*scope);
    scope.over = prev;
    out
}

} // verus!
