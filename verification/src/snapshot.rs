//! Show snapshots and their restore: a later draft never eats an earlier
//! snapshot, and a restore moves the revision forward. Copying files is the
//! caller's part; here are the manifest, the listing and the show that a
//! restore brings back.

use vstd::prelude::*;
use crate::error::{ShowError, fails_with, is_msg, msg, msg2};
use crate::json::{Json, JsonV, jv, jv_members};
use crate::show::{Show, Budget, SHOW_SCHEMA, bump, spec_bumped};
use crate::text::{
    chars_of, string_of, append_str, append_vec, dec, dec_vec, join, join_vecs, push_piece, starts_with,
    starts_with_vec, spec_parse_u64, parse_u64, sub_vec,
};

verus! {

broadcast use vstd::seq_lib::group_to_multiset_ensures;

/// The directory of a snapshot: `rev-` and the revision.
pub fn snapshot_dir_name(rev: u64) -> (r: String)
    ensures
        r@ == "rev-"@ + dec(rev as nat),
{
    let mut v = chars_of("rev-");
    append_vec(&mut v, &dec_vec(rev));
    string_of(v.as_slice())
}

/// What a snapshot records of its show: revision, show id, name, phase and time.
pub open spec fn spec_manifest(show: Show) -> JsonV {
    JsonV::Object(
        seq![
            ("rev"@, JsonV::Number(dec(show.rev as nat))),
            ("show_id"@, JsonV::Str(show.id@)),
            ("name"@, JsonV::Str(show.name@)),
            ("phase"@, JsonV::Str(show.phase@)),
            ("at"@, JsonV::Str(show.updated_at@)),
        ],
    )
}

fn pair_str(k: &str, v: &str) -> (r: (String, Json))
    ensures
        r.0@ == k@,
        jv(r.1) == JsonV::Str(v@),
{
    (string_of(chars_of(k).as_slice()), Json::Str(string_of(chars_of(v).as_slice())))
}

fn pair_num(k: &str, n: u64) -> (r: (String, Json))
    ensures
        r.0@ == k@,
        jv(r.1) == JsonV::Number(dec(n as nat)),
{
    (string_of(chars_of(k).as_slice()), Json::Number(string_of(dec_vec(n).as_slice())))
}

pub fn snapshot_manifest(show: &Show) -> (r: Json)
    ensures
        jv(r) == spec_manifest(*show),
{
    let mut ms: Vec<(String, Json)> = Vec::new();
    ms.push(pair_num("rev", show.rev));
    ms.push(pair_str("show_id", show.id.as_str()));
    ms.push(pair_str("name", show.name.as_str()));
    ms.push(pair_str("phase", show.phase.as_str()));
    ms.push(pair_str("at", show.updated_at.as_str()));
    let ghost want = seq![
        ("rev"@, JsonV::Number(dec(show.rev as nat))),
        ("show_id"@, JsonV::Str(show.id@)),
        ("name"@, JsonV::Str(show.name@)),
        ("phase"@, JsonV::Str(show.phase@)),
        ("at"@, JsonV::Str(show.updated_at@)),
    ];
    assert(jv_members(ms@) =~= want) by {
        reveal_with_fuel(jv_members, 6);
    }
    let r = Json::Object(ms);
    proof {
        assert(spec_manifest(*show)->Object_0 =~= want);
    }
    r
}

/// The event a snapshot logs: its revision and where it went.
pub open spec fn spec_snapshot_extra(rev: u64, path: Seq<char>) -> JsonV {
    JsonV::Object(seq![("rev"@, JsonV::Number(dec(rev as nat))), ("path"@, JsonV::Str(path))])
}

pub fn snapshot_extra(rev: u64, path: &str) -> (r: Json)
    ensures
        jv(r) == spec_snapshot_extra(rev, path@),
{
    let mut ms: Vec<(String, Json)> = Vec::new();
    ms.push(pair_num("rev", rev));
    ms.push(pair_str("path", path));
    let ghost want = seq![("rev"@, JsonV::Number(dec(rev as nat))), ("path"@, JsonV::Str(path@))];
    assert(jv_members(ms@) =~= want) by {
        reveal_with_fuel(jv_members, 3);
    }
    let r = Json::Object(ms);
    proof {
        assert(spec_snapshot_extra(rev, path@)->Object_0 =~= want);
    }
    r
}

/// The event a restore logs: the revision restored and the new one.
pub open spec fn spec_restore_extra(from: u64, now_rev: u64) -> JsonV {
    JsonV::Object(seq![("from_rev"@, JsonV::Number(dec(from as nat))), ("now_rev"@, JsonV::Number(dec(now_rev as nat)))])
}

pub fn restore_extra(from: u64, now_rev: u64) -> (r: Json)
    ensures
        jv(r) == spec_restore_extra(from, now_rev),
{
    let mut ms: Vec<(String, Json)> = Vec::new();
    ms.push(pair_num("from_rev", from));
    ms.push(pair_num("now_rev", now_rev));
    let ghost want = seq![("from_rev"@, JsonV::Number(dec(from as nat))), ("now_rev"@, JsonV::Number(dec(now_rev as nat)))];
    assert(jv_members(ms@) =~= want) by {
        reveal_with_fuel(jv_members, 3);
    }
    let r = Json::Object(ms);
    proof {
        assert(spec_restore_extra(from, now_rev)->Object_0 =~= want);
    }
    r
}

// ---------------------------------------------------------------- listing

/// The revision a snapshot directory holds: `rev-` and a number, when its
/// `show.json` is there.
pub open spec fn rev_of(name: Seq<char>, has_show: bool) -> Option<nat> {
    if has_show && starts_with(name, "rev-"@) {
        spec_parse_u64(name.skip(4))
    } else {
        None
    }
}

pub open spec fn revs_found(ds: Seq<(String, bool)>) -> Seq<u64>
    decreases ds.len(),
{
    if ds.len() == 0 {
        seq![]
    } else {
        let r = revs_found(ds.drop_last());
        match rev_of(ds.last().0@, ds.last().1) {
            Some(n) => r.push(n as u64),
            None => r,
        }
    }
}

pub open spec fn sorted(s: Seq<u64>) -> bool {
    forall|i: int, j: int| 0 <= i <= j < s.len() ==> s[i] <= s[j]
}

/// The revisions with a snapshot, from the directory entries (name, whether
/// its `show.json` is a file), in ascending order.
pub fn list_revs(entries: &Vec<(String, bool)>) -> (r: Vec<u64>)
    ensures
        sorted(r@),
        r@.to_multiset() == revs_found(entries@).to_multiset(),
{
    let mut found: Vec<u64> = Vec::new();
    let mut i: usize = 0;
    assert(entries@.take(0) =~= seq![]);
    while i < entries.len()
        invariant
            i <= entries.len(),
            found@ == revs_found(entries@.take(i as int)),
        decreases entries.len() - i,
    {
        assert(entries@.take(i + 1).drop_last() =~= entries@.take(i as int));
        let name = chars_of(entries[i].0.as_str());
        proof {
            reveal_strlit("rev-");
        }
        if entries[i].1 && starts_with_vec(&name, &chars_of("rev-")) {
            let rest = sub_vec(&name, 4, name.len());
            assert(rest@ =~= name@.skip(4));
            match parse_u64(&rest) {
                Some(n) => found.push(n),
                None => {},
            }
        }
        i += 1;
    }
    assert(entries@.take(entries.len() as int) =~= entries@);
    sort_revs(found)
}

/// The numbers in ascending order.
pub fn sort_revs(v: Vec<u64>) -> (r: Vec<u64>)
    ensures
        sorted(r@),
        r@.to_multiset() == v@.to_multiset(),
{
    let ghost all = v@;
    let mut rest = v;
    let mut out: Vec<u64> = Vec::new();
    while rest.len() > 0
        invariant
            sorted(out@),
            out@.to_multiset().add(rest@.to_multiset()) == all.to_multiset(),
            forall|i: int, j: int| 0 <= i < out@.len() && 0 <= j < rest@.len() ==> out@[i] <= rest@[j],
        decreases rest.len(),
    {
        let mut m: usize = 0;
        let mut k: usize = 1;
        while k < rest.len()
            invariant
                1 <= k <= rest.len(),
                m < rest.len(),
                forall|j: int| 0 <= j < k ==> rest@[m as int] <= rest@[j],
            decreases rest.len() - k,
        {
            if rest[k] < rest[m] {
                m = k;
            }
            k += 1;
        }
        let ghost before = rest@;
        let x = rest.remove(m);
        let ghost pre = out@;
        out.push(x);
        assert(before.remove(m as int) == rest@);
        assert(x == before[m as int]);
        assert(out@ == pre.push(x));
        assert(out@.to_multiset() == pre.to_multiset().insert(x));
        assert(rest@.to_multiset() == before.to_multiset().remove(x));
        assert(out@.to_multiset().add(rest@.to_multiset()) =~= pre.to_multiset().add(before.to_multiset()));
        assert forall|i: int, j: int| 0 <= i < out@.len() && 0 <= j < rest@.len() implies out@[i] <= rest@[j] by {
            if j < m {
                assert(rest@[j] == before[j]);
            } else {
                assert(rest@[j] == before[j + 1]);
            }
        }
    }
    assert(rest@.to_multiset() =~= vstd::multiset::Multiset::empty());
    assert(out@.to_multiset().add(vstd::multiset::Multiset::empty()) =~= out@.to_multiset());
    out
}

/// The revisions as listed in a refusal: `none`, or joined by `, `.
pub open spec fn listed(revs: Seq<u64>) -> Seq<char> {
    if revs.len() == 0 {
        "none"@
    } else {
        join(Seq::new(revs.len(), |i: int| dec(revs[i] as nat)), ", "@)
    }
}

pub fn listed_exec(revs: &Vec<u64>) -> (r: String)
    ensures
        r@ == listed(revs@),
{
    if revs.len() == 0 {
        return string_of(chars_of("none").as_slice());
    }
    let mut parts: Vec<Vec<char>> = Vec::new();
    let mut i: usize = 0;
    while i < revs.len()
        invariant
            i <= revs.len(),
            parts.deep_view() == Seq::new(i as nat, |k: int| dec(revs@[k] as nat)),
        decreases revs.len() - i,
    {
        push_piece(&mut parts, dec_vec(revs[i]));
        i += 1;
        assert(parts.deep_view() =~= Seq::new(i as nat, |k: int| dec(revs@[k] as nat)));
    }
    string_of(join_vecs(&parts, &chars_of(", ")).as_slice())
}

pub open spec fn no_snapshot_msg(rev: u64, have: Seq<u64>) -> Seq<char> {
    "no snapshot for rev "@ + dec(rev as nat) + " (have: "@ + listed(have) + ")"@
}

/// The refusal when a revision has no snapshot.
pub fn no_snapshot(rev: u64, have: &Vec<u64>) -> (e: ShowError)
    ensures
        is_msg(e, no_snapshot_msg(rev, have@)),
{
    let mut v = chars_of("no snapshot for rev ");
    append_vec(&mut v, &dec_vec(rev));
    append_str(&mut v, " (have: ");
    let l = listed_exec(have);
    append_str(&mut v, l.as_str());
    append_str(&mut v, ")");
    ShowError::Msg(string_of(v.as_slice()))
}

// ---------------------------------------------------------------- bringing a show back

/// The show a restore or an undo brings back: the saved one, with the
/// current lock and budget, the draft path as the copy left it, and the
/// current revision moved one forward.
pub open spec fn reinstated(saved: Show, current: Show, draft: Option<Option<String>>, r: Show, now: Seq<char>) -> bool {
    let w = match draft {
        Some(d) => crate::show::Writer { draft_path: d, ..saved.writer },
        None => saved.writer,
    };
    spec_bumped(
        Show {
            writer: w,
            locked_by: current.locked_by,
            locked_at: current.locked_at,
            budget: current.budget,
            rev: current.rev,
            ..saved
        },
        r,
        now,
    )
}

fn copy_budget(b: &Budget) -> (r: Budget)
    ensures
        r == *b,
{
    Budget { spend_cap: b.spend_cap, spend_used: b.spend_used, render_cap: b.render_cap, render_used: b.render_used }
}

/// Brings a saved show back over the current one: refused when its schema
/// is not 1, or when it is another show (`mismatch`). `draft` is what the
/// copy did to the fountain: `Some(path)` when it was put back, `Some(None)`
/// when it was removed, `None` when nothing changed.
pub fn reinstate(
    saved: Show,
    current: &Show,
    draft: Option<Option<String>>,
    mismatch: &str,
    now: &str,
) -> (r: Result<Show, ShowError>)
    requires
        current.rev < u64::MAX,
    ensures
        saved.schema != SHOW_SCHEMA ==> (r matches Err(e) && e == ShowError::Schema(saved.schema)),
        saved.schema == SHOW_SCHEMA && saved.id@ != current.id@ ==> fails_with(r, mismatch@),
        saved.schema == SHOW_SCHEMA && saved.id@ == current.id@ ==> (r matches Ok(s) && reinstated(saved, *current, draft, s, now@)),
{
    if saved.schema != SHOW_SCHEMA {
        return Err(ShowError::Schema(saved.schema));
    }
    if !str_eq_text(&saved.id, &current.id) {
        return Err(msg(mismatch));
    }
    let mut s = saved;
    match draft {
        Some(d) => {
            s.writer.draft_path = d;
        },
        None => {},
    }
    s.locked_by = crate::text::copy_opt(&current.locked_by);
    s.locked_at = crate::text::copy_opt(&current.locked_at);
    s.budget = copy_budget(&current.budget);
    s.rev = current.rev;
    bump(&mut s, now);
    Ok(s)
}

fn str_eq_text(a: &String, b: &String) -> (r: bool)
    ensures
        r == (a@ == b@),
{
    crate::text::str_eq(a.as_str(), b.as_str())
}

/// A restore never moves the revision back: the show it brings back is one
/// revision past the current one.
pub proof fn lemma_restore_moves_forward(saved: Show, current: Show, draft: Option<Option<String>>, r: Show, now: Seq<char>)
    requires
        reinstated(saved, current, draft, r, now),
        current.rev < u64::MAX,
    ensures
        r.rev == current.rev + 1,
        r.locked_by == current.locked_by,
        r.budget == current.budget,
        r.id == saved.id,
{
}

} // verus!
