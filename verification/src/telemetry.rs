//! Local usage counts. Off unless switched on; counts of verb kinds only, never
//! text. The store lives on disk; reading and writing it is the caller's part.

use vstd::prelude::*;
use crate::slate::{key_index, lemma_key_index, put};
use crate::text::{
    chars_of, string_of, str_eq, trim, trim_vec, lower, lower_vec, contains, contains_str,
    is_ascii_alnum, seq_eq,
};

verus! {

/// The environment variable that switches counting on or off over the store.
pub const ENV: &'static str = "LOT_TELEMETRY";

/// What `telemetry` answers: whether counting is on, and the counts.
#[derive(Debug)]
pub struct Report {
    pub ok: bool,
    pub enabled: bool,
    pub counts: Vec<(String, u64)>,
}

/// The stored switch and counts.
#[derive(Debug)]
pub struct Store {
    pub enabled: bool,
    pub counts: Vec<(String, u64)>,
}

pub open spec fn counts_view(cs: Seq<(String, u64)>) -> Seq<(Seq<char>, u64)> {
    Seq::new(cs.len(), |i: int| (cs[i].0@, cs[i].1))
}

pub open spec fn kind_char(c: char) -> bool {
    is_ascii_alnum(c) || c == '.' || c == '_' || c == '-'
}

/// A kind that may be stored: trimmed, 1 to 64 characters of ASCII letters,
/// digits, `.`, `_` and `-`, and naming no prompt, fountain, script or frame.
pub open spec fn spec_sanitize_kind(kind: Seq<char>) -> Option<Seq<char>> {
    let k = trim(kind);
    if k.len() == 0 || k.len() > 64 {
        None
    } else if exists|i: int| 0 <= i < k.len() && !kind_char(#[trigger] k[i]) {
        None
    } else if contains(lower(k), "prompt"@) || contains(lower(k), "fountain"@)
        || contains(lower(k), "script"@) || contains(lower(k), "frame"@) {
        None
    } else {
        Some(k)
    }
}

/// Every stored key is a clean kind, and no key is stored twice.
pub open spec fn store_wf(cs: Seq<(Seq<char>, u64)>) -> bool {
    &&& forall|i: int| 0 <= i < cs.len() ==> spec_sanitize_kind(#[trigger] cs[i].0) == Some(cs[i].0)
    &&& forall|i: int, j: int| 0 <= i < j < cs.len() ==> (#[trigger] cs[i]).0 != (#[trigger] cs[j]).0
}

/// The count stored for a kind (0 when none is).
pub open spec fn count_of(cs: Seq<(Seq<char>, u64)>, k: Seq<char>) -> nat {
    if key_index(cs, k) >= 0 {
        cs[key_index(cs, k)].1 as nat
    } else {
        0
    }
}

/// What `LOT_TELEMETRY` says: on for 1/true/on/yes, off for 0/false/off/no,
/// in any ASCII case and with whitespace around; nothing otherwise or unset.
pub open spec fn spec_env_override(raw: Option<Seq<char>>) -> Option<bool> {
    match raw {
        None => None,
        Some(r) => {
            let v = lower(trim(r));
            if v == "1"@ || v == "true"@ || v == "on"@ || v == "yes"@ {
                Some(true)
            } else if v == "0"@ || v == "false"@ || v == "off"@ || v == "no"@ {
                Some(false)
            } else {
                None
            }
        },
    }
}

pub fn env_override(raw: Option<&str>) -> (r: Option<bool>)
    ensures
        r == spec_env_override(match raw { Some(s) => Some(s@), None => None }),
{
    proof {
        reveal_strlit("1");
        reveal_strlit("true");
        reveal_strlit("on");
        reveal_strlit("yes");
        reveal_strlit("0");
        reveal_strlit("false");
        reveal_strlit("off");
        reveal_strlit("no");
    }
    match raw {
        None => None,
        Some(s) => {
            let v = lower_vec(&trim_vec(&chars_of(s)));
            if seq_eq(&v, &chars_of("1")) || seq_eq(&v, &chars_of("true")) || seq_eq(&v, &chars_of("on"))
                || seq_eq(&v, &chars_of("yes")) {
                Some(true)
            } else if seq_eq(&v, &chars_of("0")) || seq_eq(&v, &chars_of("false")) || seq_eq(
                &v,
                &chars_of("off"),
            ) || seq_eq(&v, &chars_of("no")) {
                Some(false)
            } else {
                None
            }
        },
    }
}

fn all_kind_chars(k: &Vec<char>) -> (r: bool)
    ensures
        r == forall|i: int| 0 <= i < k@.len() ==> kind_char(#[trigger] k@[i]),
{
    let mut i: usize = 0;
    while i < k.len()
        invariant
            i <= k.len(),
            forall|j: int| 0 <= j < i ==> kind_char(#[trigger] k@[j]),
        decreases k.len() - i,
    {
        let c = k[i];
        if !(('a' <= c && c <= 'z') || ('A' <= c && c <= 'Z') || ('0' <= c && c <= '9') || c == '.'
            || c == '_' || c == '-') {
            assert(!kind_char(k@[i as int]));
            return false;
        }
        i += 1;
    }
    true
}

/// The kind as it would be stored, if it may be.
pub fn sanitize_kind(kind: &str) -> (r: Option<String>)
    ensures
        match r {
            Some(s) => spec_sanitize_kind(kind@) == Some(s@),
            None => spec_sanitize_kind(kind@) is None,
        },
{
    let k = trim_vec(&chars_of(kind));
    if k.len() == 0 || k.len() > 64 {
        return None;
    }
    if !all_kind_chars(&k) {
        return None;
    }
    let low = lower_vec(&k);
    proof {
        reveal_strlit("prompt");
        reveal_strlit("fountain");
        reveal_strlit("script");
        reveal_strlit("frame");
    }
    if contains_str(&low, "prompt") || contains_str(&low, "fountain") || contains_str(&low, "script")
        || contains_str(&low, "frame") {
        return None;
    }
    Some(string_of(k.as_slice()))
}

/// Whether counting is on: the environment decides when it says, else the store.
pub open spec fn spec_enabled(over: Option<bool>, stored: bool) -> bool {
    match over {
        Some(b) => b,
        None => stored,
    }
}

pub fn enabled(over: Option<bool>, store: &Store) -> (r: bool)
    ensures
        r == spec_enabled(over, store.enabled),
{
    match over {
        Some(b) => b,
        None => store.enabled,
    }
}

/// The counts whose keys are clean kinds, in their order; what a loaded or a
/// saved store keeps.
pub open spec fn clean_counts(cs: Seq<(Seq<char>, u64)>) -> Seq<(Seq<char>, u64)> {
    cs.filter(|p: (Seq<char>, u64)| spec_sanitize_kind(p.0) == Some(p.0))
}

/// A store as read from disk, with any key that is not a clean kind dropped.
/// Keys are distinct as read (they were a map).
pub fn clean_store(store: Store) -> (r: Store)
    ensures
        r.enabled == store.enabled,
        counts_view(r.counts@) == clean_counts(counts_view(store.counts@)),
{
    let ghost cv = counts_view(store.counts@);
    let mut out: Vec<(String, u64)> = Vec::new();
    let mut i: usize = 0;
    while i < store.counts.len()
        invariant
            i <= store.counts.len(),
            cv == counts_view(store.counts@),
            counts_view(out@) == clean_counts(cv.take(i as int)),
        decreases store.counts.len() - i,
    {
        proof {
            assert(cv.take(i + 1).drop_last() =~= cv.take(i as int));
            reveal(Seq::filter);
        }
        let ok = match sanitize_kind(store.counts[i].0.as_str()) {
            Some(s) => seq_eq(&chars_of(s.as_str()), &chars_of(store.counts[i].0.as_str())),
            None => false,
        };
        if ok {
            let k = string_of(chars_of(store.counts[i].0.as_str()).as_slice());
            let n = store.counts[i].1;
            let ghost pre = out@;
            out.push((k, n));
            assert(counts_view(out@) =~= counts_view(pre).push(cv[i as int]));
        }
        i += 1;
    }
    assert(cv.take(store.counts.len() as int) =~= cv);
    Store { enabled: store.enabled, counts: out }
}

fn copy_counts(cs: &Vec<(String, u64)>) -> (r: Vec<(String, u64)>)
    ensures
        counts_view(r@) == counts_view(cs@),
{
    let mut out: Vec<(String, u64)> = Vec::new();
    let mut i: usize = 0;
    while i < cs.len()
        invariant
            i <= cs.len(),
            out.len() == i,
            counts_view(out@) == counts_view(cs@).take(i as int),
        decreases cs.len() - i,
    {
        let k = string_of(chars_of(cs[i].0.as_str()).as_slice());
        let ghost pre = out@;
        out.push((k, cs[i].1));
        assert(out@ == pre.push((k, cs@[i as int].1)));
        assert(counts_view(out@) =~= counts_view(cs@).take(i + 1)) by {
            assert forall|j: int| 0 <= j < i + 1 implies #[trigger] counts_view(out@)[j] == counts_view(cs@).take(i + 1)[j] by {
                if j < i {
                    assert(out@[j] == pre[j]);
                    assert(counts_view(pre)[j] == counts_view(cs@).take(i as int)[j]);
                }
            }
        }
        i += 1;
    }
    assert(counts_view(cs@).take(cs.len() as int) =~= counts_view(cs@));
    out
}

/// The report on a store: whether counting is on, and what is counted.
pub fn get(over: Option<bool>, store: &Store) -> (r: Report)
    ensures
        r.ok,
        r.enabled == spec_enabled(over, store.enabled),
        counts_view(r.counts@) == counts_view(store.counts@),
{
    Report { ok: true, enabled: enabled(over, store), counts: copy_counts(&store.counts) }
}

/// Switches counting on or off; the counts stay.
pub fn set(store: &mut Store, on: bool)
    ensures
        final(store).enabled == on,
        final(store).counts@ == old(store).counts@,
{
    store.enabled = on;
}

/// The counts after one use of `kind` is recorded: unchanged when counting is
/// off or the kind may not be stored, else that kind's count one higher.
pub open spec fn spec_record(
    cs: Seq<(Seq<char>, u64)>,
    on: bool,
    kind: Seq<char>,
) -> Seq<(Seq<char>, u64)> {
    if !on {
        cs
    } else {
        match spec_sanitize_kind(kind) {
            None => cs,
            Some(k) => put(cs, k, (count_of(cs, k) + 1) as u64),
        }
    }
}

/// Records one use of a verb kind when counting is on. Only the kind's name
/// is kept, never other text.
pub fn record(store: &mut Store, over: Option<bool>, kind: &str)
    requires
        spec_sanitize_kind(kind@) matches Some(k) ==> count_of(counts_view(old(store).counts@), k) < u64::MAX,
    ensures
        final(store).enabled == old(store).enabled,
        counts_view(final(store).counts@) == spec_record(
            counts_view(old(store).counts@),
            spec_enabled(over, old(store).enabled),
            kind@,
        ),
{
    if !enabled(over, store) {
        return;
    }
    let k = match sanitize_kind(kind) {
        Some(k) => k,
        None => return,
    };
    let ghost cv = counts_view(store.counts@);
    proof {
        lemma_key_index(cv, k@);
    }
    let mut i: usize = 0;
    while i < store.counts.len()
        invariant
            i <= store.counts.len(),
            cv == counts_view(store.counts@),
            store.counts@ == old(store).counts@,
            store.enabled == old(store).enabled,
            spec_sanitize_kind(kind@) == Some(k@),
            spec_enabled(over, old(store).enabled),
            count_of(cv, k@) < u64::MAX,
            forall|j: int| 0 <= j < i ==> (#[trigger] cv[j]).0 != k@,
            -1 <= key_index(cv, k@) < cv.len(),
            key_index(cv, k@) >= 0 ==> cv[key_index(cv, k@)].0 == k@,
            key_index(cv, k@) < 0 ==> forall|j: int| 0 <= j < cv.len() ==> (#[trigger] cv[j]).0 != k@,
            forall|j: int| 0 <= j < key_index(cv, k@) ==> (#[trigger] cv[j]).0 != k@,
        decreases store.counts.len() - i,
    {
        if str_eq(store.counts[i].0.as_str(), k.as_str()) {
            assert(cv[i as int].0 == k@);
            assert(key_index(cv, k@) == i as int);
            let n = store.counts[i].1 + 1;
            let key = string_of(chars_of(k.as_str()).as_slice());
            store.counts.set(i, (key, n));
            assert(counts_view(store.counts@) =~= put(cv, k@, (count_of(cv, k@) + 1) as u64));
            return;
        }
        assert(cv[i as int].0 != k@);
        i += 1;
    }
    store.counts.push((k, 1));
    assert(counts_view(store.counts@) =~= put(cv, k@, (count_of(cv, k@) + 1) as u64));
}

/// Counting off leaves the counts as they are, whatever is recorded.
pub proof fn lemma_off_records_nothing(cs: Seq<(Seq<char>, u64)>, kind: Seq<char>)
    ensures
        spec_record(cs, false, kind) == cs,
{
}

/// The environment's "off" wins over a stored "on".
pub proof fn lemma_env_off_wins(stored: bool)
    ensures
        !spec_enabled(Some(false), stored),
{
}

/// Recording keeps a store clean: every key a clean kind, none twice. So no
/// prompt, script or other text ever reaches the store through it.
pub proof fn lemma_record_keeps_store_clean(cs: Seq<(Seq<char>, u64)>, on: bool, kind: Seq<char>)
    requires
        store_wf(cs),
    ensures
        store_wf(spec_record(cs, on, kind)),
{
    if on {
        match spec_sanitize_kind(kind) {
            None => {},
            Some(k) => {
                lemma_key_index(cs, k);
                lemma_sanitize_idempotent(kind);
                let r = spec_record(cs, on, kind);
                if key_index(cs, k) >= 0 {
                    assert forall|i: int| 0 <= i < r.len() implies spec_sanitize_kind(#[trigger] r[i].0) == Some(r[i].0) by {
                        if i != key_index(cs, k) {
                            assert(r[i] == cs[i]);
                        }
                    }
                    assert forall|i: int, j: int| 0 <= i < j < r.len() implies (#[trigger] r[i]).0 != (#[trigger] r[j]).0 by {
                        assert(r[i].0 == cs[i].0);
                        assert(r[j].0 == cs[j].0);
                    }
                } else {
                    assert forall|i: int| 0 <= i < r.len() implies spec_sanitize_kind(#[trigger] r[i].0) == Some(r[i].0) by {
                        if i < cs.len() {
                            assert(r[i] == cs[i]);
                        }
                    }
                    assert forall|i: int, j: int| 0 <= i < j < r.len() implies (#[trigger] r[i]).0 != (#[trigger] r[j]).0 by {
                        if j < cs.len() {
                            assert(r[i] == cs[i]);
                            assert(r[j] == cs[j]);
                        } else {
                            assert(r[i] == cs[i]);
                        }
                    }
                }
            },
        }
    }
}

/// A clean kind stays as it is when cleaned again.
pub proof fn lemma_sanitize_idempotent(kind: Seq<char>)
    ensures
        spec_sanitize_kind(kind) matches Some(k) ==> spec_sanitize_kind(k) == Some(k),
{
    if let Some(k) = spec_sanitize_kind(kind) {
        crate::text::lemma_trim_len(k);
        lemma_trim_clean(k);
    }
}

proof fn lemma_trim_clean(k: Seq<char>)
    requires
        k.len() > 0,
        forall|i: int| 0 <= i < k.len() ==> kind_char(#[trigger] k[i]),
    ensures
        trim(k) == k,
{
    assert(!crate::text::is_ws(k[0]));
    assert(!crate::text::is_ws(k.last()));
    assert(crate::text::trim_start(k) == k);
    assert(crate::text::trim_end(k) == k);
}

} // verus!
