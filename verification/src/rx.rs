//! Calls into the `regex` crate and into std's Unicode case tables. What they
//! return is named here; the verified parser is exact over these names.

use vstd::prelude::*;

verus! {

/// The capture groups (group 0 first) of the leftmost match of `pattern` in
/// `text`, as `regex::Regex::captures` reports them; `None` when nothing
/// matches or the pattern is refused by `Regex::new`.
pub uninterp spec fn regex_captures(pattern: Seq<char>, text: Seq<char>) -> Option<
    Seq<Option<Seq<char>>>,
>;

/// `text` with every non-overlapping match of `pattern` replaced by `rep`,
/// `$n` group references expanded (`Regex::replace_all`); `text` itself when the pattern is refused.
pub uninterp spec fn regex_replace_all(pattern: Seq<char>, text: Seq<char>, rep: Seq<char>) -> Seq<
    char,
>;

/// `text` with the leftmost match of `pattern` replaced by `rep`, `$n`
/// group references expanded (`Regex::replace`); `text` itself when the pattern is refused.
pub uninterp spec fn regex_replace_first(pattern: Seq<char>, text: Seq<char>, rep: Seq<char>) -> Seq<
    char,
>;

/// Unicode upper case of a whole string (`str::to_uppercase`).
pub uninterp spec fn unicode_upper(s: Seq<char>) -> Seq<char>;

/// Unicode lower case of a whole string (`str::to_lowercase`).
pub uninterp spec fn unicode_lower(s: Seq<char>) -> Seq<char>;

/// The Unicode `Alphabetic` property (`char::is_alphabetic`).
pub uninterp spec fn unicode_alphabetic(c: char) -> bool;

/// The Unicode `Uppercase` property (`char::is_uppercase`).
pub uninterp spec fn unicode_uppercase(c: char) -> bool;

pub open spec fn groups_view(v: Seq<Option<String>>) -> Seq<Option<Seq<char>>> {
    Seq::new(
        v.len(),
        |i: int|
            match v[i] {
                Some(s) => Some(s@),
                None => None,
            },
    )
}

/// Wraps `Regex::new(pattern)` followed by `Regex::captures(text)`: the groups
/// of the leftmost match, each as an owned string. The contract claims only
/// that the result is what `regex_captures` names for these two strings.
#[verifier::external_body]
pub fn captures(pattern: &str, text: &str) -> (r: Option<Vec<Option<String>>>)
    ensures
        r matches Some(v) ==> regex_captures(pattern@, text@) == Some(groups_view(v@)),
        r is None ==> regex_captures(pattern@, text@) is None,
{
    let re = match regex::Regex::new(pattern) {
        Ok(re) => re,
        Err(_) => return None,
    };
    re.captures(text).map(|c| c.iter().map(|m| m.map(|m| m.as_str().to_string())).collect())
}

/// Wraps `Regex::new(pattern)` followed by `Regex::replace_all(text, rep)`,
/// with `$n` group references in `rep` expanded. The contract claims only that the result
/// is what `regex_replace_all` names.
#[verifier::external_body]
pub fn replace_all(pattern: &str, text: &str, rep: &str) -> (r: String)
    ensures
        r@ == regex_replace_all(pattern@, text@, rep@),
{
    match regex::Regex::new(pattern) {
        Ok(re) => re.replace_all(text, rep).into_owned(),
        Err(_) => text.to_string(),
    }
}

/// Wraps `Regex::new(pattern)` followed by `Regex::replace(text, rep)`, with
/// `$n` group references in `rep` expanded. The contract claims only that the
/// result is what `regex_replace_first` names.
#[verifier::external_body]
pub fn replace_first(pattern: &str, text: &str, rep: &str) -> (r: String)
    ensures
        r@ == regex_replace_first(pattern@, text@, rep@),
{
    match regex::Regex::new(pattern) {
        Ok(re) => re.replace(text, rep).into_owned(),
        Err(_) => text.to_string(),
    }
}

/// Wraps `str::to_uppercase`; claims only that the result is `unicode_upper`
/// of the input.
#[verifier::external_body]
pub fn to_upper(s: &str) -> (r: String)
    ensures
        r@ == unicode_upper(s@),
{
    s.to_uppercase()
}

/// Wraps `str::to_lowercase`; claims only that the result is `unicode_lower`
/// of the input.
#[verifier::external_body]
pub fn to_lower(s: &str) -> (r: String)
    ensures
        r@ == unicode_lower(s@),
{
    s.to_lowercase()
}

/// Wraps `char::is_alphabetic`.
#[verifier::external_body]
pub fn is_alphabetic(c: char) -> (r: bool)
    ensures
        r == unicode_alphabetic(c),
{
    c.is_alphabetic()
}

/// Wraps `char::is_uppercase`.
#[verifier::external_body]
pub fn is_uppercase(c: char) -> (r: bool)
    ensures
        r == unicode_uppercase(c),
{
    c.is_uppercase()
}

} // verus!
