//! The jail: what a show may read is its own tree and the declared media
//! roots, never another show's. Paths are resolved on disk by the program
//! around the library; the verdict is made here.

use vstd::prelude::*;
use crate::error::{ShowError, fails_with, msg3};
use crate::text::{chars_of, string_of, str_eq, trim, trim_vec, split_on, split_vec, strings_view, push_piece};

verus! {

/// The media roots of `LOT_MEDIA_ROOTS` (`env`): the `:`-separated entries,
/// trimmed, blanks dropped.
pub open spec fn spec_media_roots(env: Option<Seq<char>>) -> Seq<Seq<char>> {
    match env {
        Some(raw) => roots_of(split_on(raw, ":"@)),
        None => seq![],
    }
}

pub open spec fn roots_of(ps: Seq<Seq<char>>) -> Seq<Seq<char>>
    decreases ps.len(),
{
    if ps.len() == 0 {
        seq![]
    } else {
        let r = roots_of(ps.drop_last());
        if trim(ps.last()).len() > 0 {
            r.push(trim(ps.last()))
        } else {
            r
        }
    }
}

pub fn media_roots(env: Option<&str>) -> (r: Vec<String>)
    ensures
        strings_view(r@) == spec_media_roots(match env {
            Some(e) => Some(e@),
            None => None,
        }),
{
    let raw = match env {
        Some(e) => e,
        None => {
            let out: Vec<String> = Vec::new();
            assert(strings_view(out@) =~= seq![]);
            return out;
        },
    };
    let colon = chars_of(":");
    proof {
        reveal_strlit(":");
    }
    let ps = split_vec(&chars_of(raw), &colon);
    let mut out: Vec<String> = Vec::new();
    let mut i: usize = 0;
    while i < ps.len()
        invariant
            i <= ps.len(),
            strings_view(out@) == roots_of(ps.deep_view().take(i as int)),
        decreases ps.len() - i,
    {
        assert(ps.deep_view()[i as int] == ps@[i as int]@);
        let t = trim_vec(&ps[i]);
        let ghost pre = out@;
        if t.len() > 0 {
            out.push(string_of(t.as_slice()));
            assert(strings_view(out@) =~= strings_view(pre).push(t@));
        }
        i += 1;
        assert(ps.deep_view().take(i as int).drop_last() =~= ps.deep_view().take(i - 1));
    }
    assert(ps.deep_view().take(i as int) =~= ps.deep_view());
    out
}

/// What the jail knows of a path, found on disk: whether it lies under the
/// show, whether media roots are declared and whether it lies under one, and
/// the show directory that encloses it, if any.
pub struct JailFacts {
    pub in_show: bool,
    pub roots_declared: bool,
    pub in_a_root: bool,
    pub enclosing: Option<String>,
}

pub open spec fn other_show_msg(other: Seq<char>) -> Seq<char> {
    "jailed — other show: "@ + other + ". Did not read it."@
}

pub open spec fn outside_msg(abs: Seq<char>) -> Seq<char> {
    "jailed — "@ + abs + " is outside the show and LOT_MEDIA_ROOTS"@
}

/// The jail's verdict on the absolute path `abs` for the show at `show`:
/// inside the show is allowed; with media roots declared, a path under one
/// is allowed unless it belongs to another show, and anything else is
/// refused; without roots, only another show's path is refused.
pub open spec fn spec_jail(abs: Seq<char>, show: Seq<char>, f: JailFacts) -> Result<Seq<char>, Seq<char>> {
    let other = match f.enclosing {
        Some(o) => if o@ != show {
            Some(o@)
        } else {
            None
        },
        None => None,
    };
    if f.in_show {
        Ok(abs)
    } else if f.roots_declared && !f.in_a_root {
        Err(outside_msg(abs))
    } else {
        match other {
            Some(o) => Err(other_show_msg(o)),
            None => Ok(abs),
        }
    }
}

pub fn allow_source(abs: &str, show: &str, f: &JailFacts) -> (r: Result<String, ShowError>)
    ensures
        match (r, spec_jail(abs@, show@, *f)) {
            (Ok(a), Ok(b)) => a@ == b,
            (Err(e), Err(m)) => fails_with(Err::<(), ShowError>(e), m),
            _ => false,
        },
{
    if f.in_show {
        return Ok(string_of(chars_of(abs).as_slice()));
    }
    if f.roots_declared && !f.in_a_root {
        return Err(msg3("jailed — ", abs, " is outside the show and LOT_MEDIA_ROOTS"));
    }
    match &f.enclosing {
        Some(o) => {
            if !str_eq(o.as_str(), show) {
                return Err(msg3("jailed — other show: ", o.as_str(), ". Did not read it."));
            }
        },
        None => {},
    }
    Ok(string_of(chars_of(abs).as_slice()))
}

/// Law: the jail never hands out another show's file: whatever it allows is
/// inside this show, or not enclosed by a different show.
pub proof fn lemma_jail_keeps_other_shows_out(abs: Seq<char>, show: Seq<char>, f: JailFacts)
    requires
        spec_jail(abs, show, f) is Ok,
    ensures
        f.in_show || match f.enclosing {
            Some(o) => o@ == show,
            None => true,
        },
{
}

} // verus!
