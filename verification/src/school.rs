//! The School exam pack, headless. Rubrics are data; a score never blocks an
//! export.

use vstd::prelude::*;
use crate::caps::{Caps, Cap, require, holds, need_message};
use crate::error::{ShowError, is_msg, fails_with, msg, msg2};
use crate::model::{Scene, Shot};
use crate::show::{Show, SchoolStatus, bump, spec_bumped};
use crate::text::{
    chars_of, string_of, str_eq, trim, trim_vec, lower, lower_vec, contains, contains_vec, join,
    join_vecs, strings_view, strings_chars, append_vec, append_str, filled,
};

verus! {

/// A rubric of the pack.
#[derive(Debug, Clone, PartialEq, Eq)]
pub struct Rubric {
    pub id: String,
    pub track: String,
    pub rule: String,
    pub counter_example: String,
    pub apply: String,
    pub cite: String,
}

/// One rubric applied to a scene and its shots.
#[derive(Debug, Clone, PartialEq, Eq)]
pub struct Score {
    pub id: String,
    pub pass: bool,
    pub rule: String,
    pub counter_example: String,
    pub apply: String,
    pub cite: String,
}

#[derive(Debug, Clone, PartialEq, Eq)]
pub struct ScoreReport {
    pub ok: bool,
    pub fixture: Option<String>,
    pub scene: Option<String>,
    pub scores: Vec<Score>,
}

#[derive(Debug, Clone, PartialEq, Eq)]
pub struct ExamReport {
    pub ok: bool,
    pub passed: bool,
    pub fixture: Option<String>,
    pub show_id: Option<String>,
    pub scores: Vec<Score>,
}

/// A worked example of the pack: a scene and its shots.
#[derive(Debug, Clone, PartialEq, Eq)]
pub struct Fixture {
    pub id: String,
    pub scene: Scene,
    pub shots: Vec<Shot>,
}

/// The rubrics and the two fixtures (`no-want`, `axis-fail`) of the pack.
#[derive(Debug, Clone, PartialEq, Eq)]
pub struct SchoolPack {
    pub rubrics: Vec<Rubric>,
    pub no_want: Fixture,
    pub axis_fail: Fixture,
}

// ------------------------------------------------------------ want vs need

/// What the want rubric reads of a scene: synopsis, text and characters,
/// lower-cased.
pub open spec fn want_blob(sc: Scene) -> Seq<char> {
    lower(
        sc.synopsis@ + seq![' '] + sc.text@ + seq![' '] + join(strings_view(sc.characters@), seq![' ']),
    )
}

pub open spec fn want_marker(b: Seq<char>) -> bool {
    contains(b, "want"@) || contains(b, "need"@) || contains(b, "must"@) || contains(b, "gotta"@)
        || contains(b, "have to"@) || contains(b, "will not"@) || contains(b, "won't"@) || contains(
        b,
        "don't"@,
    )
}

/// The scene states a want: no "nobody wants" / "no one wants" / "no want",
/// and a want word, or someone on screen.
pub open spec fn spec_want_pass(sc: Scene) -> bool {
    let b = want_blob(sc);
    if contains(b, "nobody wants"@) || contains(b, "no one wants"@) || contains(b, "no want"@) {
        false
    } else {
        want_marker(b) || sc.characters@.len() > 0
    }
}

fn has(b: &Vec<char>, p: &str) -> (r: bool)
    ensures
        r == contains(b@, p@),
{
    contains_vec(b, &chars_of(p))
}

pub fn want_pass(sc: &Scene) -> (r: bool)
    ensures
        r == spec_want_pass(*sc),
{
    let mut v = chars_of(sc.synopsis.as_str());
    v.push(' ');
    append_str(&mut v, sc.text.as_str());
    v.push(' ');
    let sp = chars_of(" ");
    proof {
        reveal_strlit(" ");
    }
    assert(sp@ =~= seq![' ']);
    append_vec(&mut v, &join_vecs(&strings_chars(&sc.characters), &sp));
    let b = lower_vec(&v);
    assert(b@ =~= want_blob(*sc));
    if has(&b, "nobody wants") || has(&b, "no one wants") || has(&b, "no want") {
        return false;
    }
    has(&b, "want") || has(&b, "need") || has(&b, "must") || has(&b, "gotta") || has(&b, "have to")
        || has(&b, "will not") || has(&b, "won't") || has(&b, "don't") || sc.characters.len() > 0
}

// ------------------------------------------------------------ the axis

/// The screen direction a description names, if any.
pub open spec fn spec_screen_dir(text: Seq<char>) -> Option<Seq<char>> {
    let t = lower(text);
    if contains(t, "camera left"@) || contains(t, "screen left"@) {
        Some("left"@)
    } else if contains(t, "camera right"@) || contains(t, "screen right"@) {
        Some("right"@)
    } else {
        None
    }
}

pub fn screen_dir(text: &str) -> (r: Option<&'static str>)
    ensures
        match (r, spec_screen_dir(text@)) {
            (Some(d), Some(e)) => d@ == e,
            (None, None) => true,
            _ => false,
        },
{
    let t = lower_vec(&chars_of(text));
    if has(&t, "camera left") || has(&t, "screen left") {
        Some("left")
    } else if has(&t, "camera right") || has(&t, "screen right") {
        Some("right")
    } else {
        None
    }
}

pub open spec fn shot_dir(s: Shot) -> Option<Seq<char>> {
    match spec_screen_dir(s.desc@) {
        Some(d) => Some(d),
        None => spec_screen_dir(s.angle@),
    }
}

pub open spec fn is_reverse(s: Shot) -> bool {
    contains(lower(s.angle@), "reverse"@)
}

pub open spec fn crosses(s: Shot) -> bool {
    let d = lower(s.desc@ + seq![' '] + s.angle@);
    contains(d, "crossed axis"@) || contains(d, "crosses the axis"@)
}

/// Walks the shots in order: a reverse right after a set-up must not keep
/// the set-up's screen direction.
pub open spec fn axis_scan(shots: Seq<Shot>, prev: Option<Seq<char>>, setup: bool) -> bool
    decreases shots.len(),
{
    if shots.len() == 0 {
        true
    } else {
        let s = shots[0];
        let dir = shot_dir(s);
        let rev = is_reverse(s);
        if rev && setup && prev is Some && dir is Some && prev == dir {
            false
        } else {
            match dir {
                Some(d) => axis_scan(shots.drop_first(), Some(d), !rev),
                None => axis_scan(shots.drop_first(), prev, setup),
            }
        }
    }
}

/// The shots keep the axis: none says it crosses, and no reverse repeats the
/// set-up's screen direction.
pub open spec fn spec_axis_pass(shots: Seq<Shot>) -> bool {
    (forall|i: int| 0 <= i < shots.len() ==> !crosses(#[trigger] shots[i])) && axis_scan(
        shots,
        None,
        false,
    )
}

fn crosses_exec(s: &Shot) -> (r: bool)
    ensures
        r == crosses(*s),
{
    let mut v = chars_of(s.desc.as_str());
    v.push(' ');
    append_str(&mut v, s.angle.as_str());
    let d = lower_vec(&v);
    assert(d@ =~= lower(s.desc@ + seq![' '] + s.angle@));
    has(&d, "crossed axis") || has(&d, "crosses the axis")
}

fn shot_dir_exec(s: &Shot) -> (r: Option<&'static str>)
    ensures
        match (r, shot_dir(*s)) {
            (Some(d), Some(e)) => d@ == e,
            (None, None) => true,
            _ => false,
        },
{
    match screen_dir(s.desc.as_str()) {
        Some(d) => Some(d),
        None => screen_dir(s.angle.as_str()),
    }
}

/// The axis rubric over the shots at positions `idx`.
pub fn axis_pass_at(shots: &Vec<Shot>, idx: &Vec<usize>) -> (r: bool)
    requires
        forall|i: int| 0 <= i < idx@.len() ==> (#[trigger] idx@[i]) < shots@.len(),
    ensures
        r == spec_axis_pass(picked(shots@, idx@)),
{
    let ghost ps = picked(shots@, idx@);
    let mut i: usize = 0;
    while i < idx.len()
        invariant
            i <= idx.len(),
            ps == picked(shots@, idx@),
            forall|k: int| 0 <= k < idx@.len() ==> (#[trigger] idx@[k]) < shots@.len(),
            forall|j: int| 0 <= j < i ==> !crosses(#[trigger] ps[j]),
        decreases idx.len() - i,
    {
        if crosses_exec(&shots[idx[i]]) {
            assert(crosses(ps[i as int]));
            return false;
        }
        i += 1;
    }
    let mut prev: Option<&'static str> = None;
    let mut setup = false;
    let mut k: usize = 0;
    assert(ps.skip(0) =~= ps);
    while k < idx.len()
        invariant
            k <= idx.len(),
            ps == picked(shots@, idx@),
            forall|q: int| 0 <= q < idx@.len() ==> (#[trigger] idx@[q]) < shots@.len(),
            forall|j: int| 0 <= j < ps.len() ==> !crosses(#[trigger] ps[j]),
            axis_scan(ps, None, false) == axis_scan(
                ps.skip(k as int),
                match prev {
                    Some(p) => Some(p@),
                    None => None,
                },
                setup,
            ),
        decreases idx.len() - k,
    {
        let ghost rest = ps.skip(k as int);
        assert(rest[0] == ps[k as int]);
        assert(rest.drop_first() =~= ps.skip(k + 1));
        let s = &shots[idx[k]];
        let dir = shot_dir_exec(s);
        let rev = has(&lower_vec(&chars_of(s.angle.as_str())), "reverse");
        if rev && setup {
            match (prev, dir) {
                (Some(a), Some(b)) => {
                    if str_eq(a, b) {
                        return false;
                    }
                },
                _ => {},
            }
        }
        match dir {
            Some(d) => {
                prev = Some(d);
                setup = !rev;
            },
            None => {},
        }
        k += 1;
    }
    true
}

/// The axis rubric over all the shots.
pub fn axis_pass(shots: &Vec<Shot>) -> (r: bool)
    ensures
        r == spec_axis_pass(shots@),
{
    let idx = all_positions(shots.len());
    assert(picked(shots@, idx@) =~= shots@);
    axis_pass_at(shots, &idx)
}

// ------------------------------------------------------------ scoring

pub open spec fn spec_score_pass(r: Rubric, scene: Option<Scene>, shots: Seq<Shot>) -> bool {
    if r.id@ == "want-vs-need"@ {
        match scene {
            Some(sc) => spec_want_pass(sc),
            None => false,
        }
    } else if r.id@ == "axis"@ {
        spec_axis_pass(shots)
    } else {
        true
    }
}

/// Score `s` applies rubric `r` with the verdict `pass`.
pub open spec fn scored(s: Score, r: Rubric, pass: bool) -> bool {
    s.id == r.id && s.pass == pass && s.rule == r.rule && s.counter_example == r.counter_example
        && s.apply == r.apply && s.cite == r.cite
}

/// Every rubric of the pack applied to the scene and shots, in the pack's
/// order.
pub fn score_world(rubrics: &Vec<Rubric>, scene: Option<&Scene>, shots: &Vec<Shot>, idx: &Vec<usize>) -> (r: Vec<Score>)
    requires
        forall|i: int| 0 <= i < idx@.len() ==> (#[trigger] idx@[i]) < shots@.len(),
    ensures
        r@.len() == rubrics@.len(),
        forall|i: int|
            0 <= i < r@.len() ==> scored(
                #[trigger] r@[i],
                rubrics@[i],
                spec_score_pass(
                    rubrics@[i],
                    match scene {
                        Some(s) => Some(*s),
                        None => None,
                    },
                    picked(shots@, idx@),
                ),
            ),
{
    let ghost sc = match scene {
        Some(s) => Some(*s),
        None => None,
    };
    let mut out: Vec<Score> = Vec::new();
    let mut i: usize = 0;
    while i < rubrics.len()
        invariant
            i <= rubrics.len(),
            sc == match scene {
                Some(s) => Some(*s),
                None => None,
            },
            out@.len() == i,
            forall|j: int|
                0 <= j < i ==> scored(#[trigger] out@[j], rubrics@[j], spec_score_pass(rubrics@[j], sc, picked(shots@, idx@))),
            forall|q: int| 0 <= q < idx@.len() ==> (#[trigger] idx@[q]) < shots@.len(),
        decreases rubrics.len() - i,
    {
        let r = &rubrics[i];
        let pass = if str_eq(r.id.as_str(), "want-vs-need") {
            match scene {
                Some(s) => want_pass(s),
                None => false,
            }
        } else if str_eq(r.id.as_str(), "axis") {
            axis_pass_at(shots, idx)
        } else {
            true
        };
        out.push(
            Score {
                id: r.id.clone(),
                pass,
                rule: r.rule.clone(),
                counter_example: r.counter_example.clone(),
                apply: r.apply.clone(),
                cite: r.cite.clone(),
            },
        );
        i += 1;
    }
    out
}

proof fn lemma_fixture_ids_differ()
    ensures
        "no-want"@ != "axis-fail"@,
{
    reveal_strlit("no-want");
    reveal_strlit("axis-fail");
    assert("no-want"@.len() != "axis-fail"@.len());
}

pub open spec fn no_fixture(id: Seq<char>) -> Seq<char> {
    "no fixture — "@ + id
}

/// The fixture a (trimmed) id names: `no-want` or `axis-fail`.
pub fn load_fixture<'a>(pack: &'a SchoolPack, id: &str) -> (r: Result<&'a Fixture, ShowError>)
    ensures
        trim(id@) == "no-want"@ ==> r == Ok::<&Fixture, ShowError>(&pack.no_want),
        trim(id@) == "axis-fail"@ ==> r == Ok::<&Fixture, ShowError>(&pack.axis_fail),
        trim(id@) != "no-want"@ && trim(id@) != "axis-fail"@ ==> fails_with(r, no_fixture(trim(id@))),
{
    let t = string_of(trim_vec(&chars_of(id)).as_slice());
    proof {
        lemma_fixture_ids_differ();
    }
    if str_eq(t.as_str(), "no-want") {
        Ok(&pack.no_want)
    } else if str_eq(t.as_str(), "axis-fail") {
        Ok(&pack.axis_fail)
    } else {
        Err(msg2("no fixture — ", t.as_str()))
    }
}

pub open spec fn scene_named(sc: Scene, key: Seq<char>) -> bool {
    sc.id@ == key || sc.num@ == key
}

pub open spec fn scene_index(scenes: Seq<Scene>, key: Seq<char>) -> int
    decreases scenes.len(),
{
    if scenes.len() == 0 {
        -1
    } else if scene_named(scenes[0], key) {
        0
    } else {
        let r = scene_index(scenes.drop_first(), key);
        if r < 0 {
            -1
        } else {
            r + 1
        }
    }
}

pub proof fn lemma_scene_index(scenes: Seq<Scene>, key: Seq<char>)
    ensures
        -1 <= scene_index(scenes, key) < scenes.len(),
        scene_index(scenes, key) >= 0 ==> scene_named(scenes[scene_index(scenes, key)], key),
        scene_index(scenes, key) < 0 ==> forall|j: int|
            0 <= j < scenes.len() ==> !scene_named(#[trigger] scenes[j], key),
        forall|j: int| 0 <= j < scene_index(scenes, key) ==> !scene_named(#[trigger] scenes[j], key),
    decreases scenes.len(),
{
    if scenes.len() > 0 {
        lemma_scene_index(scenes.drop_first(), key);
        assert forall|j: int| 1 <= j < scenes.len() implies scenes[j] == scenes.drop_first()[j - 1] by {}
    }
}

pub open spec fn opt_trimmed(o: Option<&str>) -> Option<Seq<char>> {
    match o {
        Some(s) => if trim(s@).len() > 0 {
            Some(trim(s@))
        } else {
            None
        },
        None => None,
    }
}

/// The index of the scene to score, or -1.
pub open spec fn picked_index(scenes: Seq<Scene>, scene: Option<&str>) -> int {
    match opt_trimmed(scene) {
        Some(key) => scene_index(scenes, key),
        None => if scenes.len() > 0 {
            0
        } else {
            -1
        },
    }
}

/// Which scene to score: the one whose id or number is the (trimmed) key,
/// else the first scene, else none. `Ok(Some(i))` is an index into `scenes`.
pub fn pick_scene(show: &Show, scene: Option<&str>) -> (r: Result<Option<usize>, ShowError>)
    ensures
        -1 <= picked_index(show.scenes@, scene) < show.scenes@.len(),
        match r {
            Ok(Some(i)) => i as int == picked_index(show.scenes@, scene),
            Ok(None) => picked_index(show.scenes@, scene) == -1 && opt_trimmed(scene) is None,
            Err(e) => picked_index(show.scenes@, scene) == -1 && opt_trimmed(scene) is Some
                && is_msg(e, "unknown scene: "@ + opt_trimmed(scene)->Some_0),
        },
        opt_trimmed(scene) is Some && picked_index(show.scenes@, scene) == -1 ==> r is Err,
{
    match scene {
        Some(s) => {
            let key = string_of(trim_vec(&chars_of(s)).as_slice());
            if filled(key.as_str()) {
                proof {
                    lemma_scene_index(show.scenes@, key@);
                }
                let mut i: usize = 0;
                while i < show.scenes.len()
                    invariant
                        i <= show.scenes.len(),
                        key@ == trim(s@),
                        trim(s@).len() > 0,
                        scene == Some(s),
                        forall|j: int| 0 <= j < i ==> !scene_named(#[trigger] show.scenes@[j], key@),
                        -1 <= scene_index(show.scenes@, key@) < show.scenes@.len(),
                        scene_index(show.scenes@, key@) >= 0 ==> scene_named(
                            show.scenes@[scene_index(show.scenes@, key@)],
                            key@,
                        ),
                        scene_index(show.scenes@, key@) < 0 ==> forall|j: int|
                            0 <= j < show.scenes.len() ==> !scene_named(#[trigger] show.scenes@[j], key@),
                        forall|j: int|
                            0 <= j < scene_index(show.scenes@, key@) ==> !scene_named(
                                #[trigger] show.scenes@[j],
                                key@,
                            ),
                    decreases show.scenes.len() - i,
                {
                    if str_eq(show.scenes[i].id.as_str(), key.as_str()) || str_eq(
                        show.scenes[i].num.as_str(),
                        key.as_str(),
                    ) {
                        assert(scene_named(show.scenes@[i as int], key@));
                        assert(scene_index(show.scenes@, key@) == i as int);
                        return Ok(Some(i));
                    }
                    i += 1;
                }
                return Err(msg2("unknown scene: ", key.as_str()));
            }
        },
        None => {},
    }
    if show.scenes.len() > 0 {
        Ok(Some(0))
    } else {
        Ok(None)
    }
}

/// The shots scored with a scene: its own, and those bound to no scene.
pub open spec fn scene_shots(shots: Seq<Shot>, scene_id: Seq<char>) -> Seq<Shot>
    decreases shots.len(),
{
    if shots.len() == 0 {
        seq![]
    } else {
        let s = shots.last();
        let rest = scene_shots(shots.drop_last(), scene_id);
        if s.scene_id@ == scene_id || s.scene_id@.len() == 0 {
            rest.push(s)
        } else {
            rest
        }
    }
}

/// The shots at the given positions, in that order.
pub open spec fn picked(shots: Seq<Shot>, idx: Seq<usize>) -> Seq<Shot> {
    Seq::new(idx.len(), |i: int| shots[idx[i] as int])
}

fn shots_for(shots: &Vec<Shot>, scene_id: &str) -> (r: Vec<usize>)
    ensures
        forall|i: int| 0 <= i < r@.len() ==> (#[trigger] r@[i]) < shots@.len(),
        picked(shots@, r@) == scene_shots(shots@, scene_id@),
{
    let mut out: Vec<usize> = Vec::new();
    let mut i: usize = 0;
    while i < shots.len()
        invariant
            i <= shots.len(),
            forall|k: int| 0 <= k < out@.len() ==> (#[trigger] out@[k]) < i,
            picked(shots@, out@) == scene_shots(shots@.take(i as int), scene_id@),
        decreases shots.len() - i,
    {
        let s = &shots[i];
        let ghost pre = out@;
        if str_eq(s.scene_id.as_str(), scene_id) || !filled(s.scene_id.as_str()) {
            out.push(i);
            assert(picked(shots@, out@) =~= picked(shots@, pre).push(shots@[i as int]));
        }
        i += 1;
        assert(shots@.take(i as int).drop_last() =~= shots@.take(i - 1));
        assert(shots@.take(i as int).last() == shots@[i - 1]);
    }
    assert(shots@.take(i as int) =~= shots@);
    out
}

fn all_positions(n: usize) -> (r: Vec<usize>)
    ensures
        r@.len() == n,
        forall|i: int| 0 <= i < n ==> (#[trigger] r@[i]) == i,
{
    let mut out: Vec<usize> = Vec::new();
    let mut i: usize = 0;
    while i < n
        invariant
            i <= n,
            out@.len() == i,
            forall|k: int| 0 <= k < i ==> (#[trigger] out@[k]) == k,
        decreases n - i,
    {
        out.push(i);
        i += 1;
    }
    out
}

/// The scores of a report, each rubric of the pack applied to `scene` and `shots`.
pub open spec fn scores_for(
    scores: Seq<Score>,
    rubrics: Seq<Rubric>,
    scene: Option<Scene>,
    shots: Seq<Shot>,
) -> bool {
    scores.len() == rubrics.len() && forall|i: int|
        0 <= i < scores.len() ==> scored(#[trigger] scores[i], rubrics[i], spec_score_pass(rubrics[i], scene, shots))
}

pub open spec fn no_show_msg() -> Seq<char> {
    "no current show — lot create or lot open"@
}

/// What scoring gives: a fixture of the pack (when `fixture` names one),
/// else a scene of the current show with its shots; the `read` capability
/// is needed.
pub open spec fn score_outcome(
    have: Caps,
    pack: SchoolPack,
    show: Option<&Show>,
    scene: Option<&str>,
    fixture: Option<&str>,
    r: Result<ScoreReport, ShowError>,
) -> bool {
    &&& (!holds(have, Cap::Read) ==> fails_with(r, need_message(have, Cap::Read)))
    &&& (holds(have, Cap::Read) ==> match opt_trimmed(fixture) {
            Some(fid) => if fid == "no-want"@ || fid == "axis-fail"@ {
                let fx = if fid == "no-want"@ {
                    pack.no_want
                } else {
                    pack.axis_fail
                };
                r matches Ok(rep) && rep.ok && rep.fixture == Some(fx.id) && rep.scene == Some(
                    fx.scene.id,
                ) && scores_for(rep.scores@, pack.rubrics@, Some(fx.scene), fx.shots@)
            } else {
                fails_with(r, no_fixture(fid))
            },
            None => match show {
                None => fails_with(r, no_show_msg()),
                Some(sh) => {
                    let k = picked_index(sh.scenes@, scene);
                    if opt_trimmed(scene) is Some && k < 0 {
                        fails_with(r, "unknown scene: "@ + opt_trimmed(scene)->Some_0)
                    } else if k >= 0 {
                        let sc = sh.scenes@[k];
                        r matches Ok(rep) && rep.ok && rep.fixture is None && rep.scene == Some(sc.id)
                            && scores_for(rep.scores@, pack.rubrics@, Some(sc), scene_shots(sh.shots@, sc.id@))
                    } else {
                        r matches Ok(rep) && rep.ok && rep.fixture is None && rep.scene is None
                            && scores_for(rep.scores@, pack.rubrics@, None, sh.shots@)
                    }
                },
            },
        })
}

/// Scores a fixture of the pack (when `fixture` names one), else a scene of
/// the current show with its shots. Needs the `read` capability.
pub fn school_score(
    have: Caps,
    pack: &SchoolPack,
    show: Option<&Show>,
    scene: Option<&str>,
    fixture: Option<&str>,
) -> (r: Result<ScoreReport, ShowError>)
    ensures
        score_outcome(have, *pack, show, scene, fixture, r),
{
    match require(have, Cap::Read) {
        Ok(()) => {},
        Err(e) => return Err(e),
    }
    match fixture {
        Some(f) => {
            if filled(string_of(trim_vec(&chars_of(f)).as_slice()).as_str()) {
                let fx = match load_fixture(pack, f) {
                    Ok(x) => x,
                    Err(e) => return Err(e),
                };
                let all = all_positions(fx.shots.len());
                assert(picked(fx.shots@, all@) =~= fx.shots@);
                let scores = score_world(&pack.rubrics, Some(&fx.scene), &fx.shots, &all);
                assert(scores_for(scores@, pack.rubrics@, Some(fx.scene), fx.shots@));
                return Ok(
                    ScoreReport {
                        ok: true,
                        fixture: Some(fx.id.clone()),
                        scene: Some(fx.scene.id.clone()),
                        scores,
                    },
                );
            }
        },
        None => {},
    }
    let sh = match show {
        Some(s) => s,
        None => return Err(msg("no current show — lot create or lot open")),
    };
    let choice = match pick_scene(sh, scene) {
        Ok(p) => p,
        Err(e) => return Err(e),
    };
    match choice {
        Some(k) => {
            let sc = &sh.scenes[k];
            let idx = shots_for(&sh.shots, sc.id.as_str());
            let scores = score_world(&pack.rubrics, Some(sc), &sh.shots, &idx);
            assert(scores_for(scores@, pack.rubrics@, Some(*sc), scene_shots(sh.shots@, sc.id@)));
            Ok(ScoreReport { ok: true, fixture: None, scene: Some(sc.id.clone()), scores })
        },
        None => {
            let all = all_positions(sh.shots.len());
            assert(picked(sh.shots@, all@) =~= sh.shots@);
            let scores = score_world(&pack.rubrics, None, &sh.shots, &all);
            assert(scores_for(scores@, pack.rubrics@, None, sh.shots@));
            Ok(ScoreReport { ok: true, fixture: None, scene: None, scores })
        },
    }
}

pub open spec fn all_pass(scores: Seq<Score>) -> bool {
    scores.len() > 0 && forall|i: int| 0 <= i < scores.len() ==> (#[trigger] scores[i]).pass
}

/// The exam made of a scoring outcome: its refusal as it is, else its
/// scores and fixture, passed when there is a score and every score passes.
pub open spec fn exam_from(
    s: Result<ScoreReport, ShowError>,
    show: Option<&Show>,
    fixture: Option<&str>,
    r: Result<ExamReport, ShowError>,
) -> bool {
    match s {
        Ok(rep) => r matches Ok(x) && x.ok && x.scores@ == rep.scores@ && x.fixture == rep.fixture
            && x.passed == all_pass(x.scores@) && x.show_id == (if fixture is Some {
            None
        } else {
            match show {
                Some(sh) => Some(sh.id),
                None => None,
            }
        }),
        Err(e) => r == Err::<ExamReport, ShowError>(e),
    }
}

/// An exam: the scores of `school_score` (the whole show, or the fixture),
/// passed when there is a score and every score passes.
pub fn school_exam(have: Caps, pack: &SchoolPack, show: Option<&Show>, fixture: Option<&str>) -> (r:
    Result<ExamReport, ShowError>)
    ensures
        exists|s: Result<ScoreReport, ShowError>| score_outcome(have, *pack, show, None, fixture, s) && exam_from(
            s,
            show,
            fixture,
            r,
        ),
        r matches Ok(x) ==> x.ok && x.passed == all_pass(x.scores@) && (fixture is Some ==> x.show_id is None)
            && (fixture is None ==> x.show_id == match show {
                Some(s) => Some(s.id),
                None => None,
            }),
        holds(have, Cap::Read) ==> match opt_trimmed(fixture) {
            Some(fid) => fid != "no-want"@ && fid != "axis-fail"@ ==> fails_with(r, no_fixture(fid)),
            None => true,
        },
        !holds(have, Cap::Read) ==> fails_with(r, need_message(have, Cap::Read)),
{
    let outcome = school_score(have, pack, show, None, fixture);
    let ghost so = outcome;
    let score = match outcome {
        Ok(s) => s,
        Err(e) => {
            assert(exam_from(so, show, fixture, Err(e)));
            return Err(e);
        },
    };
    let mut passed = score.scores.len() > 0;
    let mut i: usize = 0;
    while i < score.scores.len()
        invariant
            i <= score.scores.len(),
            passed == (score.scores@.len() > 0 && forall|j: int| 0 <= j < i ==> (#[trigger] score.scores@[j]).pass),
        decreases score.scores.len() - i,
    {
        passed = passed && score.scores[i].pass;
        i += 1;
    }
    let show_id = if fixture.is_some() {
        None
    } else {
        match show {
            Some(s) => Some(s.id.clone()),
            None => None,
        }
    };
    let r = Ok(ExamReport { ok: true, passed, fixture: score.fixture, show_id, scores: score.scores });
    assert(exam_from(so, show, fixture, r));
    r
}

// ------------------------------------------------------------ settings

pub open spec fn spec_normalize_path(id: Seq<char>) -> Result<Seq<char>, Seq<char>> {
    if id == "director"@ || id == "writer"@ || id == "editor"@ || id == "producer"@ || id
        == "filmmaker"@ {
        Ok(id)
    } else if id == "dp"@ || id == "camera"@ || id == "dp-camera"@ {
        Ok("dp"@)
    } else {
        Err("unknown school path — "@ + id)
    }
}

pub open spec fn spec_normalize_level(id: Seq<char>) -> Result<Seq<char>, Seq<char>> {
    if id == "beginner"@ || id == "intermediate"@ || id == "working"@ {
        Ok(id)
    } else {
        Err("unknown school level — "@ + id)
    }
}

pub open spec fn spec_normalize_help(id: Seq<char>) -> Result<Seq<char>, Seq<char>> {
    if id == "mute"@ || id == "nudge"@ || id == "coach"@ || id == "walkthrough"@ {
        Ok(id)
    } else {
        Err("unknown school amount — "@ + id)
    }
}

pub open spec fn same_result(r: Result<String, ShowError>, s: Result<Seq<char>, Seq<char>>) -> bool {
    match (r, s) {
        (Ok(a), Ok(b)) => a@ == b,
        (Err(e), Err(m)) => is_msg(e, m),
        _ => false,
    }
}

/// A School path; `dp`, `camera` and `dp-camera` are one path, `dp`.
pub fn normalize_path(id: &str) -> (r: Result<String, ShowError>)
    ensures
        same_result(r, spec_normalize_path(id@)),
{
    if str_eq(id, "director") || str_eq(id, "writer") || str_eq(id, "editor") || str_eq(
        id,
        "producer",
    ) || str_eq(id, "filmmaker") {
        Ok(string_of(chars_of(id).as_slice()))
    } else if str_eq(id, "dp") || str_eq(id, "camera") || str_eq(id, "dp-camera") {
        Ok(string_of(chars_of("dp").as_slice()))
    } else {
        Err(msg2("unknown school path — ", id))
    }
}

pub fn normalize_level(id: &str) -> (r: Result<String, ShowError>)
    ensures
        same_result(r, spec_normalize_level(id@)),
{
    if str_eq(id, "beginner") || str_eq(id, "intermediate") || str_eq(id, "working") {
        Ok(string_of(chars_of(id).as_slice()))
    } else {
        Err(msg2("unknown school level — ", id))
    }
}

pub fn normalize_help(id: &str) -> (r: Result<String, ShowError>)
    ensures
        same_result(r, spec_normalize_help(id@)),
{
    if str_eq(id, "mute") || str_eq(id, "nudge") || str_eq(id, "coach") || str_eq(id, "walkthrough") {
        Ok(string_of(chars_of(id).as_slice()))
    } else {
        Err(msg2("unknown school amount — ", id))
    }
}

fn normalize_opt(
    raw: Option<&str>,
    which: u8,
) -> (r: Result<Option<String>, ShowError>)
    requires
        which < 3,
    ensures
        match opt_trimmed(raw) {
            None => r == Ok::<Option<String>, ShowError>(None),
            Some(t) => {
                let s = if which == 0 {
                    spec_normalize_path(t)
                } else if which == 1 {
                    spec_normalize_level(t)
                } else {
                    spec_normalize_help(t)
                };
                match (r, s) {
                    (Ok(Some(a)), Ok(b)) => a@ == b,
                    (Err(e), Err(m)) => is_msg(e, m),
                    _ => false,
                }
            },
        },
{
    match raw {
        Some(x) => {
            let t = string_of(trim_vec(&chars_of(x)).as_slice());
            if !filled(t.as_str()) {
                return Ok(None);
            }
            let n = if which == 0 {
                normalize_path(t.as_str())
            } else if which == 1 {
                normalize_level(t.as_str())
            } else {
                normalize_help(t.as_str())
            };
            match n {
                Ok(v) => Ok(Some(v)),
                Err(e) => Err(e),
            }
        },
        None => Ok(None),
    }
}

/// The School settings after a `school set`: each given field replaced, the
/// rest kept.
pub open spec fn school_after(
    old: SchoolStatus,
    enabled: Option<bool>,
    path: Option<Seq<char>>,
    level: Option<Seq<char>>,
    help: Option<Seq<char>>,
    new: SchoolStatus,
) -> bool {
    &&& new.enabled == match enabled {
        Some(on) => on,
        None => old.enabled,
    }
    &&& match path {
        Some(p) => new.path matches Some(x) && x@ == p,
        None => new.path == old.path,
    }
    &&& match level {
        Some(l) => new.level matches Some(x) && x@ == l,
        None => new.level == old.level,
    }
    &&& match help {
        Some(h) => new.help matches Some(x) && x@ == h,
        None => new.help == old.help,
    }
}

/// Changes the School settings. Blank fields are left alone; an unknown path,
/// level or amount refuses the whole change. The revision is bumped.
pub fn school_set(
    show: &mut Show,
    enabled: Option<bool>,
    path: Option<&str>,
    level: Option<&str>,
    amount: Option<&str>,
    now: &str,
) -> (r: Result<(), ShowError>)
    requires
        old(show).rev < u64::MAX,
    ensures
        ({
            let p = match opt_trimmed(path) {
                Some(t) => Some(spec_normalize_path(t)),
                None => None,
            };
            let l = match opt_trimmed(level) {
                Some(t) => Some(spec_normalize_level(t)),
                None => None,
            };
            let h = match opt_trimmed(amount) {
                Some(t) => Some(spec_normalize_help(t)),
                None => None,
            };
            match (p, l, h) {
                (Some(Err(m)), _, _) => fails_with(r, m) && *final(show) == *old(show),
                (_, Some(Err(m)), _) => fails_with(r, m) && *final(show) == *old(show),
                (_, _, Some(Err(m))) => fails_with(r, m) && *final(show) == *old(show),
                _ => {
                    &&& r is Ok
                    &&& school_after(
                        old(show).school,
                        enabled,
                        match p {
                            Some(Ok(v)) => Some(v),
                            _ => None,
                        },
                        match l {
                            Some(Ok(v)) => Some(v),
                            _ => None,
                        },
                        match h {
                            Some(Ok(v)) => Some(v),
                            _ => None,
                        },
                        final(show).school,
                    )
                    &&& spec_bumped(Show { school: final(show).school, ..*old(show) }, *final(show), now@)
                },
            }
        }),
{
    let p = match normalize_opt(path, 0) {
        Ok(v) => v,
        Err(e) => return Err(e),
    };
    let l = match normalize_opt(level, 1) {
        Ok(v) => v,
        Err(e) => return Err(e),
    };
    let h = match normalize_opt(amount, 2) {
        Ok(v) => v,
        Err(e) => return Err(e),
    };
    if let Some(on) = enabled {
        show.school.enabled = on;
    }
    if let Some(v) = p {
        show.school.path = Some(v);
    }
    if let Some(v) = l {
        show.school.level = Some(v);
    }
    if let Some(v) = h {
        show.school.help = Some(v);
    }
    bump(show, now);
    Ok(())
}

} // verus!
