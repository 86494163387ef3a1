//! The per-show spend and render budget. No cap is no limit; a reached cap
//! stops the call before anything is spent.

use vstd::prelude::*;
use crate::error::{ShowError, fails_with, msg};
use crate::show::{Show, Budget, bump, spec_bumped};
use crate::text::{chars_of, string_of, dec, dec_vec, append_str, append_vec};

verus! {

pub open spec fn spend_cap_msg(used: u32, cap: u32) -> Seq<char> {
    "show spend cap — "@ + dec(used as nat) + "/"@ + dec(cap as nat) + ". Did not call Grok."@
}

pub open spec fn render_cap_msg(used: u32, cap: u32) -> Seq<char> {
    "show render cap — "@ + dec(used as nat) + "/"@ + dec(cap as nat) + ". Did not call Comfy."@
}

fn cap_msg(head: &str, used: u32, cap: u32, tail: &str) -> (r: ShowError)
    ensures
        r matches ShowError::Msg(m) && m@ == head@ + dec(used as nat) + "/"@ + dec(cap as nat) + tail@,
{
    let mut m = chars_of(head);
    append_vec(&mut m, &dec_vec(used as u64));
    append_str(&mut m, "/");
    append_vec(&mut m, &dec_vec(cap as u64));
    append_str(&mut m, tail);
    ShowError::Msg(string_of(m.as_slice()))
}

/// Refuses a paid generation once the spend cap is reached.
pub fn require_spend(show: &Show) -> (r: Result<(), ShowError>)
    ensures
        match show.budget.spend_cap {
            Some(cap) => if show.budget.spend_used >= cap {
                fails_with(r, spend_cap_msg(show.budget.spend_used, cap))
            } else {
                r is Ok
            },
            None => r is Ok,
        },
{
    if let Some(cap) = show.budget.spend_cap {
        if show.budget.spend_used >= cap {
            return Err(cap_msg("show spend cap — ", show.budget.spend_used, cap, ". Did not call Grok."));
        }
    }
    Ok(())
}

/// Refuses a local render once the render cap is reached.
pub fn require_render(show: &Show) -> (r: Result<(), ShowError>)
    ensures
        match show.budget.render_cap {
            Some(cap) => if show.budget.render_used >= cap {
                fails_with(r, render_cap_msg(show.budget.render_used, cap))
            } else {
                r is Ok
            },
            None => r is Ok,
        },
{
    if let Some(cap) = show.budget.render_cap {
        if show.budget.render_used >= cap {
            return Err(
                cap_msg("show render cap — ", show.budget.render_used, cap, ". Did not call Comfy."),
            );
        }
    }
    Ok(())
}

pub open spec fn sat_inc(n: u32) -> u32 {
    if n < u32::MAX {
        (n + 1) as u32
    } else {
        n
    }
}

/// Counts one paid generation (saturating).
pub fn record_spend(show: &mut Show)
    ensures
        *final(show) == (Show { budget: Budget { spend_used: sat_inc(old(show).budget.spend_used), ..old(show).budget }, ..*old(show) }),
{
    show.budget.spend_used = show.budget.spend_used.saturating_add(1);
}

/// Counts one local render (saturating).
pub fn record_render(show: &mut Show)
    ensures
        *final(show) == (Show { budget: Budget { render_used: sat_inc(old(show).budget.render_used), ..old(show).budget }, ..*old(show) }),
{
    show.budget.render_used = show.budget.render_used.saturating_add(1);
}

pub open spec fn budget_needs_msg() -> Seq<char> {
    "budget needs --spend N, --render N, or --clear-spend / --clear-render"@
}

/// The cap after a `budget` call: cleared, else set, else kept.
pub open spec fn new_cap(old: Option<u32>, set: Option<u32>, clear: bool) -> Option<u32> {
    if clear {
        None
    } else {
        match set {
            Some(n) => Some(n),
            None => old,
        }
    }
}

/// Sets or clears the caps; what was used is kept.
pub fn set_budget(
    show: &mut Show,
    spend: Option<u32>,
    render: Option<u32>,
    clear_spend: bool,
    clear_render: bool,
    now: &str,
) -> (r: Result<(), ShowError>)
    requires
        old(show).rev < u64::MAX,
    ensures
        spend is None && render is None && !clear_spend && !clear_render ==> fails_with(r, budget_needs_msg())
            && *final(show) == *old(show),
        !(spend is None && render is None && !clear_spend && !clear_render) ==> {
            &&& r is Ok
            &&& final(show).budget == (Budget {
                spend_cap: new_cap(old(show).budget.spend_cap, spend, clear_spend),
                render_cap: new_cap(old(show).budget.render_cap, render, clear_render),
                ..old(show).budget
            })
            &&& spec_bumped(Show { budget: final(show).budget, ..*old(show) }, *final(show), now@)
        },
{
    if spend.is_none() && render.is_none() && !clear_spend && !clear_render {
        return Err(msg("budget needs --spend N, --render N, or --clear-spend / --clear-render"));
    }
    if clear_spend {
        show.budget.spend_cap = None;
    } else if let Some(n) = spend {
        show.budget.spend_cap = Some(n);
    }
    if clear_render {
        show.budget.render_cap = None;
    } else if let Some(n) = render {
        show.budget.render_cap = Some(n);
    }
    bump(show, now);
    Ok(())
}

/// Law: a spend cap stops spending. Starting from any budget, as long as each
/// paid call is allowed by `require_spend` before `record_spend` counts it,
/// at most `cap` calls are counted: a show whose count reached the cap is
/// refused, and an allowed call keeps the count at or below the cap.
pub proof fn lemma_spend_cap_holds(used: u32, cap: u32)
    requires
        used < cap,
    ensures
        sat_inc(used) <= cap,
{
}

} // verus!
