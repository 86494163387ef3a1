//! Calls into `std::path`. What a path's last component is, is named here;
//! making a path absolute reads the working directory, so only that it keeps
//! a plain last component is claimed of that result.

use vstd::prelude::*;
use crate::text::{lower, trim_end};

verus! {

/// The last normal component of a path (`Path::file_name`).
pub uninterp spec fn path_file_name(path: Seq<char>) -> Option<Seq<char>>;

/// The last normal component of a path without its extension (`Path::file_stem`).
pub uninterp spec fn path_file_stem(path: Seq<char>) -> Option<Seq<char>>;

pub open spec fn opt_chars(o: Option<String>) -> Option<Seq<char>> {
    match o {
        Some(s) => Some(s@),
        None => None,
    }
}

/// Wraps `Path::file_name`; the contract claims only that the result is what
/// `path_file_name` names for this path.
#[verifier::external_body]
pub fn file_name_of(path: &str) -> (r: Option<String>)
    ensures
        opt_chars(r) == path_file_name(path@),
{
    std::path::Path::new(path).file_name().and_then(|s| s.to_str()).map(|s| s.to_string())
}

/// Wraps `Path::file_stem`; the contract claims only that the result is what
/// `path_file_stem` names for this path.
#[verifier::external_body]
pub fn file_stem_of(path: &str) -> (r: Option<String>)
    ensures
        opt_chars(r) == path_file_stem(path@),
{
    std::path::Path::new(path).file_stem().and_then(|s| s.to_str()).map(|s| s.to_string())
}

/// A file name up to its first `.` or `:`.
pub open spec fn name_head(n: Seq<char>) -> Seq<char>
    decreases n.len(),
{
    if n.len() == 0 || n[0] == '.' || n[0] == ':' {
        seq![]
    } else {
        seq![n[0]] + name_head(n.drop_first())
    }
}

/// A name that Windows reads as a device (`CON`, `PRN`, `AUX`, `NUL`,
/// `CONIN$`, `CONOUT$`, `COM0`-`COM9`, `LPT0`-`LPT9`, the last two also with
/// a superscript digit), in any case, with spaces after it and with anything
/// after a `.` or a `:`.
pub open spec fn dos_device(n: Seq<char>) -> bool {
    let h = lower(trim_end(name_head(n)));
    ||| h == "con"@
    ||| h == "prn"@
    ||| h == "aux"@
    ||| h == "nul"@
    ||| h == "conin$"@
    ||| h == "conout$"@
    ||| (h.len() == 4 && (h.take(3) == "com"@ || h.take(3) == "lpt"@) && (('0' <= h[3] && h[3] <= '9')
        || h[3] == '\u{b9}' || h[3] == '\u{b2}' || h[3] == '\u{b3}'))
}

/// A last component that making a path absolute leaves as it is on every
/// platform: Windows strips a trailing `.` or space, and turns a device name
/// into a device path.
pub open spec fn plain_name(n: Seq<char>) -> bool {
    n.len() > 0 && n.last() != '.' && n.last() != ' ' && !dos_device(n)
}

/// Wraps `std::path::absolute`, falling back to the path itself when it
/// fails. The result depends on the working directory, so it gets no name;
/// what holds of every outcome is that a plain last component (`plain_name`)
/// is kept. Of other names, and of the directories in front, nothing is
/// claimed: on Windows the last component can change, and the result starts
/// with a drive letter or `\\` rather than `/`.
#[verifier::external_body]
pub fn absolute_of(path: &str) -> (r: String)
    ensures
        (match path_file_name(path@) {
            Some(n) => plain_name(n) ==> path_file_name(r@) == Some(n),
            None => true,
        }),
{
    let p = std::path::Path::new(path);
    std::path::absolute(p).unwrap_or_else(|_| p.to_path_buf()).to_string_lossy().into_owned()
}

} // verus!
