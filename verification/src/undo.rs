//! Undo the last mutation from the event log: the show comes back from the
//! journal of the revision before it, with no prior snapshot needed.

use vstd::prelude::*;
use crate::audit::{EventMeta, meta_view};
use crate::error::{ShowError, fails_with, is_msg, msg, msg2};
use crate::json::{Json, JsonV, jv, jv_members};
use crate::text::{chars_of, string_of, str_eq, append_str, append_vec, dec, dec_vec};

verus! {

/// The newest event that an undo can look at: the last that is not a
/// snapshot.
pub open spec fn last_undoable_index(evs: Seq<EventMeta>) -> int
    decreases evs.len(),
{
    if evs.len() == 0 {
        -1
    } else if evs.last().kind@ != "show.snapshot"@ {
        evs.len() - 1
    } else {
        last_undoable_index(evs.drop_last())
    }
}

pub fn last_undoable(evs: &Vec<EventMeta>) -> (r: Option<usize>)
    ensures
        match r {
            Some(k) => k as int == last_undoable_index(evs@),
            None => last_undoable_index(evs@) == -1,
        },
{
    let mut i = evs.len();
    assert(evs@.take(i as int) =~= evs@);
    while i > 0
        invariant
            i <= evs.len(),
            last_undoable_index(evs@) == last_undoable_index(evs@.take(i as int)),
        decreases i,
    {
        let ghost t = evs@.take(i as int);
        assert(t.last() == evs@[i - 1]);
        if !str_eq(evs[i - 1].kind.as_str(), "show.snapshot") {
            return Some(i - 1);
        }
        assert(t.drop_last() =~= evs@.take(i - 1));
        i -= 1;
    }
    None
}

pub open spec fn nothing_msg() -> Seq<char> {
    "nothing to undo —"@
}

/// The revision to go back to: the one before the event's. There is
/// nothing to undo without an event, after a create or an undo, or at the
/// first revision.
pub open spec fn spec_undo_target(ev: Option<EventMeta>) -> Result<u64, Seq<char>> {
    match ev {
        None => Err(nothing_msg()),
        Some(e) => if e.kind@ == "create"@ || e.kind@ == "show.undo"@ || e.rev <= 1 {
            Err(nothing_msg())
        } else {
            Ok((e.rev - 1) as u64)
        },
    }
}

pub fn undo_target(ev: Option<&EventMeta>) -> (r: Result<u64, ShowError>)
    ensures
        match spec_undo_target(match ev { Some(e) => Some(*e), None => None }) {
            Ok(p) => r matches Ok(q) && q == p,
            Err(m) => fails_with(r, m),
        },
{
    match ev {
        None => Err(msg("nothing to undo —")),
        Some(e) => {
            if str_eq(e.kind.as_str(), "create") || str_eq(e.kind.as_str(), "show.undo") || e.rev <= 1 {
                Err(msg("nothing to undo —"))
            } else {
                Ok(e.rev - 1)
            }
        },
    }
}

/// The refusal when the journal lacks the revision.
pub fn no_journal(prev: u64) -> (e: ShowError)
    ensures
        is_msg(e, "nothing to undo — no journal for rev "@ + dec(prev as nat)),
{
    let mut v = chars_of("nothing to undo — no journal for rev ");
    append_vec(&mut v, &dec_vec(prev));
    ShowError::Msg(string_of(v.as_slice()))
}

/// The event an undo logs: the event undone, its kind and its revision.
pub open spec fn spec_undo_extra(ev: EventMeta) -> JsonV {
    JsonV::Object(
        seq![
            ("undid"@, JsonV::Str(ev.id@)),
            ("undid_kind"@, JsonV::Str(ev.kind@)),
            ("from_rev"@, JsonV::Number(dec(ev.rev as nat))),
        ],
    )
}

pub fn undo_extra(ev: &EventMeta) -> (r: Json)
    ensures
        jv(r) == spec_undo_extra(*ev),
{
    let mut ms: Vec<(String, Json)> = Vec::new();
    ms.push((string_of(chars_of("undid").as_slice()), Json::Str(string_of(chars_of(ev.id.as_str()).as_slice()))));
    ms.push(
        (string_of(chars_of("undid_kind").as_slice()), Json::Str(string_of(chars_of(ev.kind.as_str()).as_slice()))),
    );
    ms.push((string_of(chars_of("from_rev").as_slice()), Json::Number(string_of(dec_vec(ev.rev).as_slice()))));
    let ghost want = seq![
        ("undid"@, JsonV::Str(ev.id@)),
        ("undid_kind"@, JsonV::Str(ev.kind@)),
        ("from_rev"@, JsonV::Number(dec(ev.rev as nat))),
    ];
    assert(jv_members(ms@) =~= want) by {
        reveal_with_fuel(jv_members, 4);
    }
    let r = Json::Object(ms);
    proof {
        assert(spec_undo_extra(*ev)->Object_0 =~= want);
    }
    r
}

/// A create, an undo, or the first revision can never be undone.
pub proof fn lemma_nothing_before_create(e: EventMeta)
    requires
        e.kind@ == "create"@ || e.kind@ == "show.undo"@ || e.rev <= 1,
    ensures
        spec_undo_target(Some(e)) == Err::<u64, Seq<char>>(nothing_msg()),
{
}

/// An undo goes back exactly one revision from the event it undoes.
pub proof fn lemma_undo_goes_back_one(e: EventMeta)
    requires
        spec_undo_target(Some(e)) is Ok,
    ensures
        spec_undo_target(Some(e)) == Ok::<u64, Seq<char>>((e.rev - 1) as u64),
        e.rev >= 2,
{
}

} // verus!
