//! Summaries of a show for the doors and the film-bay window: the breakdown
//! (characters and locations in order, without repeats), the wall, and the
//! picture cards.

use vstd::prelude::*;
use crate::json::{Json, JsonV, jv, jv_seq, jv_members};
use crate::model::{Scene, Shot, Beat};
use crate::order::{strictly_sorted, insert_sorted};
use crate::show::Show;
use crate::text::{chars_of, string_of, trim, trim_vec, lower, lower_vec, dec, strings_view, split_vec, filled};

verus! {

pub open spec fn count_jv(n: nat) -> JsonV {
    JsonV::Number(dec(n))
}

pub(crate) fn count_json(n: usize) -> (r: Json)
    ensures
        jv(r) == count_jv(n as nat),
{
    Json::Number(string_of(crate::text::dec_wide(n as u128).as_slice()))
}

pub(crate) fn sj(s: &str) -> (r: Json)
    ensures
        jv(r) == JsonV::Str(s@),
{
    Json::Str(string_of(chars_of(s).as_slice()))
}

pub(crate) fn kv(k: &str, v: Json) -> (r: (String, Json))
    ensures
        r.0@ == k@,
        r.1 == v,
{
    (string_of(chars_of(k).as_slice()), v)
}

pub open spec fn opt_str_jv(o: Option<String>) -> JsonV {
    match o {
        Some(s) => JsonV::Str(s@),
        None => JsonV::Null,
    }
}

pub(crate) fn opt_json(o: &Option<String>) -> (r: Json)
    ensures
        jv(r) == opt_str_jv(*o),
{
    match o {
        Some(s) => sj(s.as_str()),
        None => Json::Null,
    }
}

pub open spec fn strs_jv(ss: Seq<Seq<char>>) -> JsonV {
    JsonV::Array(Seq::new(ss.len(), |i: int| JsonV::Str(ss[i])))
}

fn strs_json(ss: &Vec<Vec<char>>) -> (r: Json)
    ensures
        jv(r) == strs_jv(ss.deep_view()),
{
    let mut out: Vec<Json> = Vec::new();
    let mut i: usize = 0;
    while i < ss.len()
        invariant
            i <= ss.len(),
            jv_seq(out@) == Seq::new(i as nat, |k: int| JsonV::Str(ss.deep_view()[k])),
        decreases ss.len() - i,
    {
        let ghost pre = out@;
        let x = Json::Str(string_of(ss[i].as_slice()));
        assert(ss.deep_view()[i as int] == ss@[i as int]@);
        assert(jv(x) == JsonV::Str(ss.deep_view()[i as int]));
        out.push(x);
        assert(out@.drop_last() =~= pre);
        assert(jv_seq(out@) == jv_seq(pre).push(jv(x)));
        i += 1;
        assert(jv_seq(out@) =~= Seq::new(i as nat, |k: int| JsonV::Str(ss.deep_view()[k])));
    }
    Json::Array(out)
}

// ---------------------------------------------------------------- breakdown

/// Every character named in a scene.
pub open spec fn all_characters(scenes: Seq<Scene>) -> Set<Seq<char>> {
    Set::new(|c: Seq<char>| exists|i: int, j: int| 0 <= i < scenes.len() && 0 <= j < scenes[i].characters@.len()
        && (#[trigger] scenes[i].characters@[j])@ == c)
}

/// The place of a scene: its master location, else its location (none when
/// both are empty).
pub open spec fn place_of(sc: Scene) -> Option<Seq<char>> {
    if sc.master@.len() > 0 {
        Some(sc.master@)
    } else if sc.location@.len() > 0 {
        Some(sc.location@)
    } else {
        None
    }
}

pub open spec fn all_places(scenes: Seq<Scene>) -> Set<Seq<char>> {
    Set::new(|c: Seq<char>| exists|i: int| 0 <= i < scenes.len() && place_of(#[trigger] scenes[i]) == Some(c))
}

pub open spec fn scene_nums(scenes: Seq<Scene>) -> Seq<Seq<char>> {
    Seq::new(scenes.len(), |i: int| scenes[i].num@)
}

/// The breakdown summary, given the characters and locations in order.
pub open spec fn summary_jv(show: Show, chars: Seq<Seq<char>>, locs: Seq<Seq<char>>) -> JsonV {
    JsonV::Object(
        seq![
            ("phase"@, JsonV::Str(show.phase@)),
            ("scenes"@, count_jv(show.scenes@.len())),
            ("shots"@, count_jv(show.shots@.len())),
            ("characters"@, strs_jv(chars)),
            ("locations"@, strs_jv(locs)),
            ("scene_nums"@, strs_jv(scene_nums(show.scenes@))),
        ],
    )
}

pub open spec fn named_in(cs: Seq<String>, j: int, c: Seq<char>) -> bool {
    exists|q: int| 0 <= q < j && (#[trigger] cs[q])@ == c
}

/// The characters of every scene, in order, each once.
pub fn sorted_characters(scenes: &Vec<Scene>) -> (r: Vec<Vec<char>>)
    ensures
        strictly_sorted(r.deep_view()),
        r.deep_view().to_set() == all_characters(scenes@),
{
    let mut out: Vec<Vec<char>> = Vec::new();
    assert(out.deep_view().to_set() =~= Set::empty());
    let mut i: usize = 0;
    while i < scenes.len()
        invariant
            i <= scenes.len(),
            strictly_sorted(out.deep_view()),
            out.deep_view().to_set() == all_characters(scenes@.take(i as int)),
        decreases scenes.len() - i,
    {
        let cs = &scenes[i].characters;
        let ghost base = all_characters(scenes@.take(i as int));
        let mut j: usize = 0;
        while j < cs.len()
            invariant
                i < scenes.len(),
                cs == scenes@[i as int].characters,
                j <= cs.len(),
                base == all_characters(scenes@.take(i as int)),
                strictly_sorted(out.deep_view()),
                forall|c: Seq<char>| #[trigger] out.deep_view().to_set().contains(c) <==> (base.contains(c) || named_in(cs@, j as int, c)),
            decreases cs.len() - j,
        {
            let ghost x = cs@[j as int]@;
            insert_sorted(&mut out, chars_of(cs[j].as_str()));
            assert forall|c: Seq<char>| #[trigger] out.deep_view().to_set().contains(c) <==> (base.contains(c) || named_in(cs@, j + 1, c)) by {
                if named_in(cs@, j + 1, c) {
                    let q = choose|q: int| 0 <= q < j + 1 && (#[trigger] cs@[q])@ == c;
                    if q < j {
                        assert(named_in(cs@, j as int, c));
                    }
                }
                if named_in(cs@, j as int, c) {
                    let q = choose|q: int| 0 <= q < j && (#[trigger] cs@[q])@ == c;
                    assert(named_in(cs@, j + 1, c));
                }
                if c == x {
                    assert(cs@[j as int]@ == c);
                    assert(named_in(cs@, j + 1, c));
                }
            }
            j += 1;
        }
        assert(out.deep_view().to_set() =~= all_characters(scenes@.take(i + 1))) by {
            assert forall|c: Seq<char>| all_characters(scenes@.take(i + 1)).contains(c) <==> (base.contains(c) || named_in(cs@, cs@.len() as int, c)) by {
                if all_characters(scenes@.take(i + 1)).contains(c) {
                    let (a, b) = choose|a: int, b: int| 0 <= a < scenes@.take(i + 1).len() && 0 <= b
                        < scenes@.take(i + 1)[a].characters@.len() && (#[trigger] scenes@.take(i + 1)[a].characters@[b])@
                        == c;
                    if a < i {
                        assert(scenes@.take(i as int)[a] == scenes@.take(i + 1)[a]);
                        assert(scenes@.take(i as int)[a].characters@[b]@ == c);
                    } else {
                        assert(cs@[b]@ == c);
                    }
                }
                if base.contains(c) {
                    let (a, b) = choose|a: int, b: int| 0 <= a < scenes@.take(i as int).len() && 0 <= b
                        < scenes@.take(i as int)[a].characters@.len() && (#[trigger] scenes@.take(
                        i as int,
                    )[a].characters@[b])@ == c;
                    assert(scenes@.take(i + 1)[a] == scenes@.take(i as int)[a]);
                    assert(scenes@.take(i + 1)[a].characters@[b]@ == c);
                }
                if named_in(cs@, cs@.len() as int, c) {
                    let q = choose|q: int| 0 <= q < cs@.len() && (#[trigger] cs@[q])@ == c;
                    assert(scenes@.take(i + 1)[i as int] == scenes@[i as int]);
                    assert(scenes@.take(i + 1)[i as int].characters@[q]@ == c);
                }
            }
        }
        i += 1;
    }
    assert(scenes@.take(scenes.len() as int) =~= scenes@);
    out
}

/// The places of every scene, in order, each once.
pub fn sorted_places(scenes: &Vec<Scene>) -> (r: Vec<Vec<char>>)
    ensures
        strictly_sorted(r.deep_view()),
        r.deep_view().to_set() == all_places(scenes@),
{
    let mut out: Vec<Vec<char>> = Vec::new();
    assert(out.deep_view().to_set() =~= Set::empty());
    let mut i: usize = 0;
    while i < scenes.len()
        invariant
            i <= scenes.len(),
            strictly_sorted(out.deep_view()),
            out.deep_view().to_set() == all_places(scenes@.take(i as int)),
        decreases scenes.len() - i,
    {
        let sc = &scenes[i];
        let ghost before = out.deep_view().to_set();
        if filled(sc.master.as_str()) {
            insert_sorted(&mut out, chars_of(sc.master.as_str()));
        } else if filled(sc.location.as_str()) {
            insert_sorted(&mut out, chars_of(sc.location.as_str()));
        }
        assert(out.deep_view().to_set() =~= all_places(scenes@.take(i + 1))) by {
            assert forall|c: Seq<char>| all_places(scenes@.take(i + 1)).contains(c) <==> out.deep_view().to_set().contains(c) by {
                if all_places(scenes@.take(i + 1)).contains(c) {
                    let a = choose|a: int| 0 <= a < scenes@.take(i + 1).len() && place_of(#[trigger] scenes@.take(i + 1)[a]) == Some(c);
                    if a < i {
                        assert(scenes@.take(i as int)[a] == scenes@.take(i + 1)[a]);
                        assert(all_places(scenes@.take(i as int)).contains(c));
                    }
                }
                if before.contains(c) {
                    let a = choose|a: int| 0 <= a < scenes@.take(i as int).len() && place_of(#[trigger] scenes@.take(i as int)[a]) == Some(c);
                    assert(scenes@.take(i + 1)[a] == scenes@.take(i as int)[a]);
                }
                if place_of(*sc) == Some(c) {
                    assert(scenes@.take(i + 1)[i as int] == *sc);
                }
            }
        }
        i += 1;
    }
    assert(scenes@.take(scenes.len() as int) =~= scenes@);
    out
}

/// `breakdown_summary`: the phase, the counts, the characters and
/// locations (in order, each once) and the scene numbers.
pub fn breakdown_summary(show: &Show) -> (r: Json)
    ensures
        exists|cs: Seq<Seq<char>>, ls: Seq<Seq<char>>|
            strictly_sorted(cs) && cs.to_set() == all_characters(show.scenes@) && strictly_sorted(ls) && ls.to_set()
                == all_places(show.scenes@) && jv(r) == summary_jv(*show, cs, ls),
{
    let cs = sorted_characters(&show.scenes);
    let ls = sorted_places(&show.scenes);
    let mut nums: Vec<Vec<char>> = Vec::new();
    let mut i: usize = 0;
    while i < show.scenes.len()
        invariant
            i <= show.scenes.len(),
            nums.deep_view() == scene_nums(show.scenes@.take(i as int)),
        decreases show.scenes.len() - i,
    {
        let ghost pre = nums.deep_view();
        crate::text::push_piece(&mut nums, chars_of(show.scenes[i].num.as_str()));
        assert(nums.deep_view() =~= pre.push(show.scenes@[i as int].num@));
        assert(scene_nums(show.scenes@.take(i + 1)) =~= scene_nums(show.scenes@.take(i as int)).push(
            show.scenes@[i as int].num@,
        ));
        i += 1;
    }
    assert(show.scenes@.take(show.scenes.len() as int) =~= show.scenes@);
    let mut ms: Vec<(String, Json)> = Vec::new();
    ms.push(kv("phase", sj(show.phase.as_str())));
    ms.push(kv("scenes", count_json(show.scenes.len())));
    ms.push(kv("shots", count_json(show.shots.len())));
    ms.push(kv("characters", strs_json(&cs)));
    ms.push(kv("locations", strs_json(&ls)));
    ms.push(kv("scene_nums", strs_json(&nums)));
    let ghost want = seq![
        ("phase"@, JsonV::Str(show.phase@)),
        ("scenes"@, count_jv(show.scenes@.len())),
        ("shots"@, count_jv(show.shots@.len())),
        ("characters"@, strs_jv(cs.deep_view())),
        ("locations"@, strs_jv(ls.deep_view())),
        ("scene_nums"@, strs_jv(scene_nums(show.scenes@))),
    ];
    assert(jv_members(ms@) =~= want) by {
        reveal_with_fuel(jv_members, 7);
    }
    let r = Json::Object(ms);
    proof {
        assert(summary_jv(*show, cs.deep_view(), ls.deep_view())->Object_0 =~= want);
    }
    r
}

// ---------------------------------------------------------------- wall and picture

pub open spec fn beat_jv(b: Beat) -> JsonV {
    JsonV::Object(seq![("id"@, JsonV::Str(b.id@)), ("act"@, JsonV::Str(b.act@)), ("text"@, JsonV::Str(b.text@))])
}

pub open spec fn beats_jv(w: Seq<Beat>) -> Seq<JsonV> {
    Seq::new(w.len(), |i: int| beat_jv(w[i]))
}

/// `wall_summary`: the number of beats and the beat cards.
pub open spec fn spec_wall_summary(show: Show) -> JsonV {
    JsonV::Object(seq![("beats"@, count_jv(show.wall@.len())), ("cards"@, JsonV::Array(beats_jv(show.wall@)))])
}

fn beat_json(b: &Beat) -> (r: Json)
    ensures
        jv(r) == beat_jv(*b),
{
    let mut ms: Vec<(String, Json)> = Vec::new();
    ms.push(kv("id", sj(b.id.as_str())));
    ms.push(kv("act", sj(b.act.as_str())));
    ms.push(kv("text", sj(b.text.as_str())));
    let ghost want = seq![("id"@, JsonV::Str(b.id@)), ("act"@, JsonV::Str(b.act@)), ("text"@, JsonV::Str(b.text@))];
    assert(jv_members(ms@) =~= want) by {
        reveal_with_fuel(jv_members, 4);
    }
    let r = Json::Object(ms);
    proof {
        assert(beat_jv(*b)->Object_0 =~= want);
    }
    r
}

pub fn wall_summary(show: &Show) -> (r: Json)
    ensures
        jv(r) == spec_wall_summary(*show),
{
    let mut cards: Vec<Json> = Vec::new();
    let mut i: usize = 0;
    while i < show.wall.len()
        invariant
            i <= show.wall.len(),
            jv_seq(cards@) == beats_jv(show.wall@.take(i as int)),
        decreases show.wall.len() - i,
    {
        let ghost pre = cards@;
        cards.push(beat_json(&show.wall[i]));
        assert(cards@.drop_last() =~= pre);
        assert(beats_jv(show.wall@.take(i + 1)) =~= beats_jv(show.wall@.take(i as int)).push(beat_jv(show.wall@[i as int])));
        i += 1;
    }
    assert(show.wall@.take(show.wall.len() as int) =~= show.wall@);
    let mut ms: Vec<(String, Json)> = Vec::new();
    ms.push(kv("beats", count_json(show.wall.len())));
    ms.push(kv("cards", Json::Array(cards)));
    let ghost want = seq![("beats"@, count_jv(show.wall@.len())), ("cards"@, JsonV::Array(beats_jv(show.wall@)))];
    assert(jv_members(ms@) =~= want) by {
        reveal_with_fuel(jv_members, 3);
    }
    let r = Json::Object(ms);
    proof {
        assert(spec_wall_summary(*show)->Object_0 =~= want);
    }
    r
}

pub open spec fn count_locked(ss: Seq<Shot>) -> nat
    decreases ss.len(),
{
    if ss.len() == 0 {
        0
    } else {
        count_locked(ss.drop_last()) + if ss.last().locked {
            1nat
        } else {
            0nat
        }
    }
}

pub open spec fn count_refs(ss: Seq<Shot>) -> nat
    decreases ss.len(),
{
    if ss.len() == 0 {
        0
    } else {
        count_refs(ss.drop_last()) + if ss.last().ref_path is Some {
            1nat
        } else {
            0nat
        }
    }
}

pub open spec fn picture_card(s: Shot) -> JsonV {
    JsonV::Object(
        seq![
            ("id"@, JsonV::Str(s.id@)),
            ("num"@, JsonV::Str(s.num@)),
            ("name"@, JsonV::Str(s.name@)),
            ("locked"@, JsonV::Bool(s.locked)),
            ("ref"@, opt_str_jv(s.ref_path)),
            ("size"@, JsonV::Str(s.size@)),
            ("desc"@, JsonV::Str(s.desc@)),
        ],
    )
}

pub open spec fn picture_cards(ss: Seq<Shot>) -> Seq<JsonV> {
    Seq::new(ss.len(), |i: int| picture_card(ss[i]))
}

/// `picture_summary`: the shots, how many are locked and have a ref, and
/// each shot's card.
pub open spec fn spec_picture_summary(show: Show) -> JsonV {
    JsonV::Object(
        seq![
            ("shots"@, count_jv(show.shots@.len())),
            ("locked"@, count_jv(count_locked(show.shots@))),
            ("refs"@, count_jv(count_refs(show.shots@))),
            ("cards"@, JsonV::Array(picture_cards(show.shots@))),
        ],
    )
}

fn picture_card_json(s: &Shot) -> (r: Json)
    ensures
        jv(r) == picture_card(*s),
{
    let mut ms: Vec<(String, Json)> = Vec::new();
    ms.push(kv("id", sj(s.id.as_str())));
    ms.push(kv("num", sj(s.num.as_str())));
    ms.push(kv("name", sj(s.name.as_str())));
    ms.push(kv("locked", Json::Bool(s.locked)));
    ms.push(kv("ref", opt_json(&s.ref_path)));
    ms.push(kv("size", sj(s.size.as_str())));
    ms.push(kv("desc", sj(s.desc.as_str())));
    let ghost want = seq![
        ("id"@, JsonV::Str(s.id@)),
        ("num"@, JsonV::Str(s.num@)),
        ("name"@, JsonV::Str(s.name@)),
        ("locked"@, JsonV::Bool(s.locked)),
        ("ref"@, opt_str_jv(s.ref_path)),
        ("size"@, JsonV::Str(s.size@)),
        ("desc"@, JsonV::Str(s.desc@)),
    ];
    assert(jv_members(ms@) =~= want) by {
        reveal_with_fuel(jv_members, 8);
    }
    let r = Json::Object(ms);
    proof {
        assert(picture_card(*s)->Object_0 =~= want);
    }
    r
}

pub fn picture_summary(show: &Show) -> (r: Json)
    ensures
        jv(r) == spec_picture_summary(*show),
{
    let mut cards: Vec<Json> = Vec::new();
    let mut locked: usize = 0;
    let mut refs: usize = 0;
    let mut i: usize = 0;
    while i < show.shots.len()
        invariant
            i <= show.shots.len(),
            jv_seq(cards@) == picture_cards(show.shots@.take(i as int)),
            locked as nat == count_locked(show.shots@.take(i as int)),
            refs as nat == count_refs(show.shots@.take(i as int)),
            locked <= i,
            refs <= i,
        decreases show.shots.len() - i,
    {
        let ghost pre = cards@;
        let s = &show.shots[i];
        cards.push(picture_card_json(s));
        assert(cards@.drop_last() =~= pre);
        assert(picture_cards(show.shots@.take(i + 1)) =~= picture_cards(show.shots@.take(i as int)).push(
            picture_card(show.shots@[i as int]),
        ));
        assert(show.shots@.take(i + 1).drop_last() =~= show.shots@.take(i as int));
        if s.locked {
            locked += 1;
        }
        if s.ref_path.is_some() {
            refs += 1;
        }
        i += 1;
    }
    assert(show.shots@.take(show.shots.len() as int) =~= show.shots@);
    let mut ms: Vec<(String, Json)> = Vec::new();
    ms.push(kv("shots", count_json(show.shots.len())));
    ms.push(kv("locked", count_json(locked)));
    ms.push(kv("refs", count_json(refs)));
    ms.push(kv("cards", Json::Array(cards)));
    let ghost want = seq![
        ("shots"@, count_jv(show.shots@.len())),
        ("locked"@, count_jv(count_locked(show.shots@))),
        ("refs"@, count_jv(count_refs(show.shots@))),
        ("cards"@, JsonV::Array(picture_cards(show.shots@))),
    ];
    assert(jv_members(ms@) =~= want) by {
        reveal_with_fuel(jv_members, 5);
    }
    let r = Json::Object(ms);
    proof {
        assert(spec_picture_summary(*show)->Object_0 =~= want);
    }
    r
}

// ---------------------------------------------------------------- window helpers

/// The section the window shows: the one asked (else the fallback),
/// trimmed and lowercased; the fallback lowercased when that is blank.
pub open spec fn spec_section_phase(raw: Option<Seq<char>>, fallback: Seq<char>) -> Seq<char> {
    let t = lower(trim(match raw {
        Some(r) => r,
        None => fallback,
    }));
    if t.len() == 0 {
        lower(fallback)
    } else {
        t
    }
}

pub fn section_phase(raw: Option<&str>, fallback: &str) -> (r: String)
    ensures
        r@ == spec_section_phase(match raw { Some(s) => Some(s@), None => None }, fallback@),
{
    let src = match raw {
        Some(r) => r,
        None => fallback,
    };
    let t = lower_vec(&trim_vec(&chars_of(src)));
    if t.len() == 0 {
        string_of(lower_vec(&chars_of(fallback)).as_slice())
    } else {
        string_of(t.as_slice())
    }
}

/// A comma list from a text box: pieces trimmed, blanks dropped; none when
/// nothing is left.
pub open spec fn spec_csv_list(raw: Option<Seq<char>>) -> Option<Seq<Seq<char>>> {
    match raw {
        None => None,
        Some(r) => if crate::mcp::split_trim(r).len() == 0 {
            None
        } else {
            Some(crate::mcp::split_trim(r))
        },
    }
}

pub fn csv_list(raw: Option<&str>) -> (r: Option<Vec<String>>)
    ensures
        match r {
            Some(v) => spec_csv_list(match raw { Some(s) => Some(s@), None => None }) == Some(strings_view(v@)),
            None => spec_csv_list(match raw { Some(s) => Some(s@), None => None }) is None,
        },
{
    match raw {
        None => None,
        Some(s) => {
            let st = string_of(chars_of(s).as_slice());
            let v = crate::mcp::list_from_str(&st);
            proof {
                assert(seq![s@].drop_last() =~= Seq::<Seq<char>>::empty());
                assert(crate::mcp::pieces(Seq::<Seq<char>>::empty()) == Seq::<Seq<char>>::empty());
                assert(crate::mcp::pieces(seq![s@]) =~= crate::mcp::split_trim(s@));
            }
            if v.len() == 0 {
                None
            } else {
                Some(v)
            }
        },
    }
}

} // verus!
