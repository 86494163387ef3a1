//! The show lock: one writer at a time. A second agent is told who holds the
//! lock (`locked_by`) and nothing is written over.

use vstd::prelude::*;
use crate::agent::{normalize, same, spec_normalize, opt_view};
use crate::error::{ShowError, fails_with};
use crate::show::{Show, bump, spec_bumped};
use crate::text::{chars_of, string_of, trim, eq_icase, eq_icase_vec, append_str};

verus! {

/// What a write may do about the lock.
#[derive(Debug, Clone, PartialEq, Eq)]
pub enum LockCheck {
    /// Write; the lock is the writer's own or there is none.
    Clear,
    /// Write, and the lock may be claimed for this agent.
    Claim(String),
}

pub open spec fn opt_str(o: Option<&str>) -> Option<Seq<char>> {
    match o {
        Some(s) => Some(s@),
        None => None,
    }
}

pub open spec fn did_not_write(holder: Seq<char>) -> Seq<char> {
    "locked_by: "@ + holder + " — did not write"@
}

/// The lock check for the agent `me` (already normalized, or none for a human).
pub open spec fn spec_check(locked_by: Option<Seq<char>>, me: Option<Seq<char>>) -> Result<
    Option<Seq<char>>,
    Seq<char>,
> {
    let holder = match locked_by {
        Some(s) => spec_normalize(s),
        None => None,
    };
    match (holder, me) {
        (Some(h), Some(id)) => if eq_icase(trim(h), trim(id)) {
            Ok(None)
        } else {
            Err(did_not_write(h))
        },
        (Some(h), None) => Err(did_not_write(h)),
        (None, Some(id)) => Ok(Some(id)),
        (None, None) => Ok(None),
    }
}

pub fn check(show: &Show, me: Option<&str>) -> (r: Result<LockCheck, ShowError>)
    ensures
        match (r, spec_check(opt_view(show.locked_by), opt_str(me))) {
            (Ok(LockCheck::Clear), Ok(None)) => true,
            (Ok(LockCheck::Claim(id)), Ok(Some(j))) => id@ == j,
            (Err(e), Err(m)) => fails_with(Err::<(), ShowError>(e), m),
            _ => false,
        },
{
    let holder = match &show.locked_by {
        Some(s) => normalize(s.as_str()),
        None => None,
    };
    match holder {
        Some(h) => {
            if let Some(id) = me {
                if same(h.as_str(), id) {
                    return Ok(LockCheck::Clear);
                }
            }
            let mut m = chars_of("locked_by: ");
            append_str(&mut m, h.as_str());
            append_str(&mut m, " — did not write");
            Err(ShowError::Msg(string_of(m.as_slice())))
        },
        None => match me {
            Some(id) => Ok(LockCheck::Claim(string_of(chars_of(id).as_slice()))),
            None => Ok(LockCheck::Clear),
        },
    }
}

/// Who claims the lock: the agent, or `human`.
pub open spec fn claimant(me: Option<Seq<char>>) -> Seq<char> {
    match me {
        Some(id) => id,
        None => "human"@,
    }
}

/// Takes the show lock for `me` (or `human`). Holding it already is no
/// change; another holder refuses. Returns whether the show changed.
pub fn lock_apply(show: &mut Show, me: Option<&str>, now: &str) -> (r: Result<bool, ShowError>)
    requires
        old(show).rev < u64::MAX,
    ensures
        match old(show).locked_by {
            Some(h) => if eq_icase(trim(h@), trim(claimant(opt_str(me)))) {
                r == Ok::<bool, ShowError>(false) && *final(show) == *old(show)
            } else {
                *final(show) == *old(show) && fails_with(r, did_not_write(h@))
            },
            None => r == Ok::<bool, ShowError>(true) && opt_view(final(show).locked_by) == Some(
                claimant(opt_str(me)),
            ) && opt_view(final(show).locked_at) == Some(now@) && spec_bumped(
                Show { locked_by: final(show).locked_by, locked_at: final(show).locked_at, ..*old(show) },
                *final(show),
                now@,
            ),
        },
{
    let id = match me {
        Some(s) => string_of(chars_of(s).as_slice()),
        None => string_of(chars_of("human").as_slice()),
    };
    match &show.locked_by {
        Some(holder) => {
            if same(holder.as_str(), id.as_str()) {
                return Ok(false);
            }
            let mut m = chars_of("locked_by: ");
            append_str(&mut m, holder.as_str());
            append_str(&mut m, " — did not write");
            return Err(ShowError::Msg(string_of(m.as_slice())));
        },
        None => {},
    }
    show.locked_by = Some(id);
    show.locked_at = Some(string_of(chars_of(now).as_slice()));
    bump(show, now);
    Ok(true)
}

pub open spec fn unlock_refused(holder: Seq<char>) -> Seq<char> {
    "locked_by: "@ + holder + " — unlock needs the holder or --force"@
}

/// Whether `me` is the holder (a human matches `human`).
pub open spec fn is_holder(holder: Seq<char>, me: Option<Seq<char>>) -> bool {
    match me {
        Some(id) => eq_icase(trim(id), trim(holder)),
        None => eq_icase(holder, "human"@),
    }
}

/// Releases the show lock: the holder may, anyone may with `force`; no lock
/// is no change. Returns whether the show changed.
pub fn unlock_apply(show: &mut Show, me: Option<&str>, force: bool, now: &str) -> (r: Result<
    bool,
    ShowError,
>)
    requires
        old(show).rev < u64::MAX,
    ensures
        match old(show).locked_by {
            None => r == Ok::<bool, ShowError>(false) && *final(show) == *old(show),
            Some(h) => if is_holder(h@, opt_str(me)) || force {
                r == Ok::<bool, ShowError>(true) && spec_bumped(
                    Show { locked_by: None, locked_at: None, ..*old(show) },
                    *final(show),
                    now@,
                )
            } else {
                *final(show) == *old(show) && fails_with(r, unlock_refused(h@))
            },
        },
{
    let holder = match &show.locked_by {
        Some(h) => string_of(chars_of(h.as_str()).as_slice()),
        None => {
            return Ok(false);
        },
    };
    let mine = match me {
        Some(id) => same(id, holder.as_str()),
        None => eq_icase_vec(&chars_of(holder.as_str()), &chars_of("human")),
    };
    if !mine && !force {
        let mut m = chars_of("locked_by: ");
        append_str(&mut m, holder.as_str());
        append_str(&mut m, " — unlock needs the holder or --force");
        return Err(ShowError::Msg(string_of(m.as_slice())));
    }
    show.locked_by = None;
    show.locked_at = None;
    bump(show, now);
    Ok(true)
}

/// Law: whoever took the lock may release it without `force`; so on a show
/// without a lock, `lock_apply` then `unlock_apply` by the same agent leaves
/// it without a lock again.
pub proof fn lemma_locker_may_unlock(me: Option<Seq<char>>)
    ensures
        is_holder(claimant(me), me),
{
}

} // verus!
