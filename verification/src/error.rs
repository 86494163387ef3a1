//! The one error type of the kernel.

use vstd::prelude::*;
use crate::text::{append_str, append_vec, chars_of, dec, dec_vec, string_of};

verus! {

#[derive(Debug, Clone, PartialEq, Eq)]
pub enum ShowError {
    /// An I/O failure, as its message.
    Io(String),
    /// A JSON failure, as its message.
    Json(String),
    /// `show.json` already exists in this directory.
    Exists(String),
    /// The directory has no `show.json`.
    NotAShow(String),
    /// `show.json` has another schema version.
    Schema(u32),
    /// Any refusal, worded for a human or an agent.
    Msg(String),
}

/// The error is a message with exactly this text.
pub open spec fn is_msg(e: ShowError, m: Seq<char>) -> bool {
    e matches ShowError::Msg(x) && x@ == m
}

/// The call failed with a message of exactly this text.
pub open spec fn fails_with<T>(r: Result<T, ShowError>, m: Seq<char>) -> bool {
    match r {
        Err(e) => is_msg(e, m),
        Ok(_) => false,
    }
}

pub open spec fn spec_message(e: ShowError) -> Seq<char> {
    match e {
        ShowError::Io(s) => s@,
        ShowError::Json(s) => s@,
        ShowError::Exists(p) => "show already exists: "@ + p@,
        ShowError::NotAShow(p) => "not a show.lot (missing show.json): "@ + p@,
        ShowError::Schema(n) => "unsupported show schema "@ + dec(n as nat) + " (want 1)"@,
        ShowError::Msg(s) => s@,
    }
}

impl ShowError {
    /// The human-readable text of the error.
    pub fn message(&self) -> (r: String)
        ensures
            r@ == spec_message(*self),
    {
        match self {
            ShowError::Io(s) => s.clone(),
            ShowError::Json(s) => s.clone(),
            ShowError::Exists(p) => {
                let mut v = chars_of("show already exists: ");
                append_str(&mut v, p.as_str());
                string_of(&v)
            },
            ShowError::NotAShow(p) => {
                let mut v = chars_of("not a show.lot (missing show.json): ");
                append_str(&mut v, p.as_str());
                string_of(&v)
            },
            ShowError::Schema(n) => {
                let mut v = chars_of("unsupported show schema ");
                append_vec(&mut v, &dec_vec(*n as u64));
                append_str(&mut v, " (want 1)");
                string_of(&v)
            },
            ShowError::Msg(s) => s.clone(),
        }
    }
}

/// A refusal with a fixed text.
pub fn msg(s: &str) -> (e: ShowError)
    ensures
        is_msg(e, s@),
{
    ShowError::Msg(string_of(&chars_of(s)))
}

/// A refusal: fixed text followed by a value.
pub fn msg2(a: &str, b: &str) -> (e: ShowError)
    ensures
        is_msg(e, a@ + b@),
{
    let mut v = chars_of(a);
    append_str(&mut v, b);
    ShowError::Msg(string_of(&v))
}

/// A refusal: fixed text, a value, fixed text.
pub fn msg3(a: &str, b: &str, c: &str) -> (e: ShowError)
    ensures
        is_msg(e, a@ + b@ + c@),
{
    let mut v = chars_of(a);
    append_str(&mut v, b);
    append_str(&mut v, c);
    ShowError::Msg(string_of(&v))
}

} // verus!
