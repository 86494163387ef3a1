//! Cooperative cancel for long tools (stills, finish, draft). A cancel
//! notification arms a flag; a tool that finds it armed answers `cancelled —`
//! and writes no media. The flag and the request in flight are a value the
//! server keeps; running work on a helper thread is the caller's part.

use vstd::prelude::*;
use crate::error::{ShowError, msg, fails_with, is_msg};
use crate::json::{Json, JsonV, jv, json_eq, copy_json, member, get_member, opt_json};
use crate::text::{chars_of, str_eq, all_digits, dec_value, parse_u64};

verus! {

pub const CANCELLED_MSG: &'static str = "cancelled —";

/// The cancel flag of the serving thread, and the request in flight (with
/// its id, if it has one). The request in flight shares the thread's flag.
#[derive(Debug)]
pub struct CancelState {
    pub cancelled: bool,
    pub in_flight: Option<Option<Json>>,
}

pub open spec fn opt_jv(v: Option<Json>) -> Option<JsonV> {
    match v {
        Some(x) => Some(jv(x)),
        None => None,
    }
}

impl CancelState {
    pub open spec fn flight_view(self) -> Option<Option<JsonV>> {
        match self.in_flight {
            Some(id) => Some(opt_jv(id)),
            None => None,
        }
    }

    /// No request in flight, nothing cancelled.
    pub fn new() -> (r: CancelState)
        ensures
            !r.cancelled,
            r.in_flight is None,
    {
        CancelState { cancelled: false, in_flight: None }
    }

    pub fn is_cancelled(&self) -> (r: bool)
        ensures
            r == self.cancelled,
    {
        self.cancelled
    }

    /// `cancelled —` once the flag is armed.
    pub fn check(&self) -> (r: Result<(), ShowError>)
        ensures
            self.cancelled ==> fails_with(r, "cancelled —"@),
            !self.cancelled ==> r is Ok,
    {
        if self.cancelled {
            Err(cancelled_err())
        } else {
            Ok(())
        }
    }

    /// Starts a request; a cancel armed before it carries over.
    pub fn begin_request(&mut self, id: Option<&Json>)
        ensures
            final(self).cancelled == old(self).cancelled,
            final(self).flight_view() == Some(match id { Some(x) => Some(jv(*x)), None => None }),
    {
        let kept = match id {
            Some(x) => Some(copy_json(x)),
            None => None,
        };
        self.in_flight = Some(kept);
    }

    /// Ends the request: a fresh flag, nothing in flight.
    pub fn end_request(&mut self)
        ensures
            !final(self).cancelled,
            final(self).in_flight is None,
    {
        self.cancelled = false;
        self.in_flight = None;
    }

    pub fn clear(&mut self)
        ensures
            !final(self).cancelled,
            final(self).in_flight is None,
    {
        self.end_request();
    }

    /// Arms cancel. No id cancels this thread (and the request in flight); an
    /// id cancels only the request in flight whose id matches it.
    pub fn request_cancel(&mut self, request_id: Option<&Json>)
        ensures
            final(self).in_flight == old(self).in_flight,
            final(self).cancelled == spec_cancel_arms(
                old(self).cancelled,
                old(self).in_flight,
                match request_id { Some(x) => Some(*x), None => None },
            ),
    {
        match request_id {
            None => {
                self.cancelled = true;
            },
            Some(id) => {
                let hit = match &self.in_flight {
                    Some(Some(cur)) => ids_match(cur, id),
                    _ => false,
                };
                if hit {
                    self.cancelled = true;
                }
            },
        }
    }

    /// Arms cancel from a `notifications/cancelled` message: its
    /// `params.requestId`, else its `requestId`.
    pub fn from_notification(&mut self, note: &Json)
        ensures
            final(self).in_flight == old(self).in_flight,
            final(self).cancelled == spec_cancel_arms(old(self).cancelled, old(self).in_flight, notification_id(*note)),
    {
        let id = match get_member(note, "params") {
            Some(p) => get_member(p, "requestId"),
            None => None,
        };
        let id = match id {
            Some(x) => Some(x),
            None => get_member(note, "requestId"),
        };
        self.request_cancel(id);
    }
}

/// The id a cancel notification names.
pub open spec fn notification_id(note: Json) -> Option<Json> {
    let inner = match member(note, "params"@) {
        Some(p) => member(p, "requestId"@),
        None => None,
    };
    match inner {
        Some(x) => Some(x),
        None => member(note, "requestId"@),
    }
}

/// The flag after a cancel request: armed by a request without id, or by one
/// whose id matches the request in flight; else as it was.
pub open spec fn spec_cancel_arms(cancelled: bool, flight: Option<Option<Json>>, id: Option<Json>) -> bool {
    match id {
        None => true,
        Some(i) => match flight {
            Some(Some(cur)) => if spec_ids_match(cur, i) {
                true
            } else {
                cancelled
            },
            _ => cancelled,
        },
    }
}

pub fn cancelled_err() -> (e: ShowError)
    ensures
        is_msg(e, "cancelled —"@),
{
    msg(CANCELLED_MSG)
}

/// `Number::as_i64` on a number's text: an integer within `i64`.
pub open spec fn json_i64(t: Seq<char>) -> Option<int> {
    if t.len() > 0 && t[0] == '-' {
        let d = t.drop_first();
        if d.len() > 0 && all_digits(d) && dec_value(d) <= 0x8000_0000_0000_0000 {
            Some(-(dec_value(d) as int))
        } else {
            None
        }
    } else if t.len() > 0 && all_digits(t) && dec_value(t) <= i64::MAX {
        Some(dec_value(t) as int)
    } else {
        None
    }
}

fn json_i64_exec(t: &String) -> (r: Option<i128>)
    ensures
        match (r, json_i64(t@)) {
            (Some(a), Some(b)) => a as int == b,
            (None, None) => true,
            _ => false,
        },
{
    let s = chars_of(t.as_str());
    if s.len() > 0 && s[0] == '-' {
        let mut d: Vec<char> = Vec::new();
        let mut i: usize = 1;
        while i < s.len()
            invariant
                1 <= i <= s.len(),
                s@ == t@,
                d@ == s@.subrange(1, i as int),
            decreases s.len() - i,
        {
            d.push(s[i]);
            i += 1;
        }
        assert(d@ =~= t@.drop_first());
        if d.len() == 0 || !crate::breakdown::all_digits_vec(&d) {
            return None;
        }
        match parse_u64(&d) {
            Some(n) => if n <= 0x8000_0000_0000_0000u64 {
                Some(-(n as i128))
            } else {
                None
            },
            None => None,
        }
    } else {
        if s.len() == 0 || !crate::breakdown::all_digits_vec(&s) {
            return None;
        }
        match parse_u64(&s) {
            Some(n) => if n <= 0x7fff_ffff_ffff_ffffu64 {
                Some(n as i128)
            } else {
                None
            },
            None => None,
        }
    }
}

/// Whether a cancel's id names the request in flight: the same JSON, the
/// same integer, the same string, or a number and a string with its text.
pub open spec fn spec_ids_match(a: Json, b: Json) -> bool {
    if jv(a) == jv(b) {
        true
    } else {
        match (a, b) {
            (Json::Number(x), Json::Number(y)) => json_i64(x@) is Some && json_i64(x@) == json_i64(y@),
            (Json::Str(x), Json::Str(y)) => x@ == y@,
            (Json::Number(x), Json::Str(y)) => x@ == y@,
            (Json::Str(x), Json::Number(y)) => x@ == y@,
            _ => false,
        }
    }
}

pub fn ids_match(a: &Json, b: &Json) -> (r: bool)
    ensures
        r == spec_ids_match(*a, *b),
{
    if json_eq(a, b) {
        return true;
    }
    match (a, b) {
        (Json::Number(x), Json::Number(y)) => {
            match (json_i64_exec(x), json_i64_exec(y)) {
                (Some(p), Some(q)) => p == q,
                _ => false,
            }
        },
        (Json::Str(x), Json::Str(y)) => str_eq(x.as_str(), y.as_str()),
        (Json::Number(x), Json::Str(y)) => str_eq(x.as_str(), y.as_str()),
        (Json::Str(x), Json::Number(y)) => str_eq(x.as_str(), y.as_str()),
        _ => false,
    }
}

/// A cancel with another request's id leaves the flag as it was.
pub proof fn lemma_other_id_does_not_cancel(cancelled: bool, cur: Json, other: Json)
    requires
        !spec_ids_match(cur, other),
    ensures
        spec_cancel_arms(cancelled, Some(Some(cur)), Some(other)) == cancelled,
{
}

/// A cancel with the id of the request in flight always arms the flag, as
/// does a cancel without id.
pub proof fn lemma_own_id_cancels(cancelled: bool, flight: Option<Option<Json>>, cur: Json)
    ensures
        spec_cancel_arms(cancelled, Some(Some(cur)), Some(cur)),
        spec_cancel_arms(cancelled, flight, None),
{
}

} // verus!
