//! Breakdown (scenes → master shots), the Wall of beats, and Picture locks.

use vstd::prelude::*;
use crate::error::{fails_with, is_msg, msg, msg2, ShowError};
use crate::model::{
    find_shot, first_shot_index, lemma_first_shot_index, shot_num_from_scene, spec_shot_num, Beat,
    MediaItem, Scene, Shot,
};
use crate::parse::{scenes_view, ParsedScript};
use crate::show::{bump, spec_bumped, Show};
use crate::text::{
    all_digits, append_str, append_vec, chars_of, dec, dec_value, dec_vec, is_digit, parse_u32,
    seq_eq, starts_with, starts_with_vec, string_of, sub_vec, trim, trim_string, trim_vec,
    trim_start, trim_end, is_ws, lemma_dec_digits,
};

verus! {

// ---------------------------------------------------------------- shots

/// A shot with only its identity set.
pub fn blank_shot(id: String, num: String, name: String, scene_id: String) -> (r: Shot)
    ensures
        r.id == id && r.num == num && r.name == name && r.scene_id == scene_id,
        r.size@.len() == 0 && r.angle@.len() == 0 && r.move_kind@.len() == 0,
        r.lens@.len() == 0 && r.desc@.len() == 0 && r.prompt@.len() == 0,
        !r.locked,
        r.prompt_targets@.len() == 0 && r.loras@.len() == 0 && r.stage_marks@.len() == 0,
        r.ref_path is None && r.still_path is None && r.plate_path is None,
        r.motion_mode is None && r.motion_move@.len() == 0 && r.motion_notes@.len() == 0,
        r.motion_duration is None && r.motion_fps is None,
{
    Shot {
        id,
        num,
        name,
        scene_id,
        size: String::new(),
        angle: String::new(),
        move_kind: String::new(),
        lens: String::new(),
        desc: String::new(),
        prompt: String::new(),
        locked: false,
        prompt_targets: Vec::new(),
        loras: Vec::new(),
        stage_marks: Vec::new(),
        ref_path: None,
        still_path: None,
        plate_path: None,
        motion_mode: None,
        motion_move: String::new(),
        motion_notes: String::new(),
        motion_duration: None,
        motion_fps: None,
    }
}

/// The master shot of the `i`-th scene.
pub open spec fn is_master_shot(sc: Scene, i: nat, sh: Shot) -> bool {
    let num = spec_shot_num(sc.num@, i);
    &&& sh.num@ == num
    &&& sh.id@ == "sh-"@ + num
    &&& sh.name@ == sc.slug@
    &&& sh.scene_id@ == sc.id@
    &&& sh.size@ == "WIDE"@
    &&& sh.desc@ == "Master — "@ + sc.slug@
    &&& sh.angle@.len() == 0 && sh.move_kind@.len() == 0 && sh.lens@.len() == 0
    &&& sh.prompt@.len() == 0 && !sh.locked
    &&& sh.prompt_targets@.len() == 0 && sh.loras@.len() == 0 && sh.stage_marks@.len() == 0
    &&& sh.ref_path is None && sh.still_path is None && sh.plate_path is None
    &&& sh.motion_mode is None && sh.motion_move@.len() == 0 && sh.motion_notes@.len() == 0
    &&& sh.motion_duration is None && sh.motion_fps is None
}

/// One WIDE master shot per scene, numbered from the scene number.
pub fn default_shots(scenes: &Vec<Scene>) -> (r: Vec<Shot>)
    ensures
        r@.len() == scenes@.len(),
        forall|i: int| 0 <= i < scenes@.len() ==> is_master_shot(scenes@[i], i as nat, #[trigger] r@[i]),
{
    let mut out: Vec<Shot> = Vec::new();
    let mut i: usize = 0;
    while i < scenes.len()
        invariant
            i <= scenes.len(),
            out@.len() == i,
            forall|j: int| 0 <= j < i ==> is_master_shot(scenes@[j], j as nat, #[trigger] out@[j]),
        decreases scenes.len() - i,
    {
        let sc = &scenes[i];
        let num = shot_num_from_scene(sc.num.as_str(), i);
        let mut id = chars_of("sh-");
        append_str(&mut id, num.as_str());
        let mut desc = chars_of("Master — ");
        append_str(&mut desc, sc.slug.as_str());
        let mut sh = blank_shot(string_of(&id), num, sc.slug.clone(), sc.id.clone());
        sh.size = string_of(&chars_of("WIDE"));
        sh.desc = string_of(&desc);
        out.push(sh);
        i += 1;
    }
    out
}

pub open spec fn no_scenes_msg() -> Seq<char> {
    "breakdown found no scenes — need INT./EXT. sluglines"@
}

/// Takes a parsed script into the show: scenes, one master shot each, phase
/// `breakdown`. An untitled show takes the script's title.
pub fn apply_parsed(show: &mut Show, parsed: ParsedScript, now: &str) -> (r: Result<(), ShowError>)
    requires
        old(show).rev < u64::MAX,
    ensures
        parsed.scenes@.len() == 0 ==> fails_with(r, no_scenes_msg()) && *final(show) == *old(show),
        parsed.scenes@.len() > 0 ==> r is Ok && final(show).scenes@ == parsed.scenes@
            && final(show).shots@.len() == parsed.scenes@.len() && (forall|i: int|
            0 <= i < parsed.scenes@.len() ==> is_master_shot(
                parsed.scenes@[i],
                i as nat,
                #[trigger] final(show).shots@[i],
            )) && final(show).phase@ == "breakdown"@ && final(show).name@ == (if (old(show).name@ == "untitled"@ || old(show).name@.len() == 0) && parsed.title@.len() > 0 {
            parsed.title@
        } else {
            old(show).name@
        }) && spec_bumped(
            Show {
                scenes: final(show).scenes,
                shots: final(show).shots,
                phase: final(show).phase,
                name: final(show).name,
                ..*old(show)
            },
            *final(show),
            now@,
        ),
{
    if parsed.scenes.len() == 0 {
        return Err(msg("breakdown found no scenes — need INT./EXT. sluglines"));
    }
    let nm = chars_of(show.name.as_str());
    let untitled = seq_eq(&nm, &chars_of("untitled"));
    if (untitled || nm.len() == 0) && chars_of(parsed.title.as_str()).len() > 0 {
        show.name = parsed.title;
    }
    let shots = default_shots(&parsed.scenes);
    show.scenes = parsed.scenes;
    show.shots = shots;
    show.phase = string_of(&chars_of("breakdown"));
    bump(show, now);
    Ok(())
}

// ---------------------------------------------------------------- wall

pub open spec fn beat_prefix() -> Seq<char> {
    "beat-"@
}

/// `u32::from_str`: an optional `+`, then one or more ASCII digits, no overflow.
pub open spec fn spec_parse_u32(s: Seq<char>) -> Option<nat> {
    let d = if s.len() > 0 && s[0] == '+' {
        s.drop_first()
    } else {
        s
    };
    if d.len() > 0 && all_digits(d) && dec_value(d) <= u32::MAX {
        Some(dec_value(d))
    } else {
        None
    }
}

/// The number of a `beat-N` id, when it has one.
pub open spec fn beat_num(id: Seq<char>) -> Option<nat> {
    if starts_with(id, beat_prefix()) {
        spec_parse_u32(id.skip(5))
    } else {
        None
    }
}

/// Largest `beat-N` number on the wall (0 when none).
pub open spec fn beat_max(w: Seq<Beat>) -> nat
    decreases w.len(),
{
    if w.len() == 0 {
        0
    } else {
        let m = beat_max(w.drop_last());
        match beat_num(w.last().id@) {
            Some(n) => if n > m {
                n
            } else {
                m
            },
            None => m,
        }
    }
}

pub open spec fn spec_next_beat_id(w: Seq<Beat>) -> Seq<char> {
    beat_prefix() + dec(beat_max(w) + 1)
}

pub fn all_digits_vec(s: &Vec<char>) -> (r: bool)
    ensures
        r == all_digits(s@),
{
    let mut i: usize = 0;
    while i < s.len()
        invariant
            i <= s.len(),
            forall|j: int| 0 <= j < i ==> is_digit(#[trigger] s@[j]),
        decreases s.len() - i,
    {
        if !('0' <= s[i] && s[i] <= '9') {
            return false;
        }
        i += 1;
    }
    true
}

/// `str::parse::<u32>`.
pub fn parse_u32_str(s: &Vec<char>) -> (r: Option<u32>)
    ensures
        match r {
            Some(v) => spec_parse_u32(s@) == Some(v as nat),
            None => spec_parse_u32(s@) is None,
        },
{
    let d = if s.len() > 0 && s[0] == '+' {
        let t = sub_vec(s, 1, s.len());
        assert(t@ =~= s@.drop_first());
        t
    } else {
        sub_vec(s, 0, s.len())
    };
    assert(d@ =~= (if s@.len() > 0 && s@[0] == '+' {
        s@.drop_first()
    } else {
        s@
    }));
    if d.len() == 0 || !all_digits_vec(&d) {
        return None;
    }
    parse_u32(&d)
}

pub fn beat_num_exec(id: &str) -> (r: Option<u32>)
    ensures
        match r {
            Some(v) => beat_num(id@) == Some(v as nat),
            None => beat_num(id@) is None,
        },
{
    let v = chars_of(id);
    let p = chars_of("beat-");
    proof {
        reveal_strlit("beat-");
    }
    if !starts_with_vec(&v, &p) {
        return None;
    }
    let rest = sub_vec(&v, 5, v.len());
    assert(rest@ =~= v@.skip(5));
    parse_u32_str(&rest)
}

/// `beat-(max + 1)`.
pub fn next_beat_id(wall: &Vec<Beat>) -> (r: String)
    requires
        beat_max(wall@) < u32::MAX,
    ensures
        r@ == spec_next_beat_id(wall@),
{
    let mut max: u32 = 0;
    let mut i: usize = 0;
    while i < wall.len()
        invariant
            i <= wall.len(),
            max as nat == beat_max(wall@.take(i as int)),
        decreases wall.len() - i,
    {
        proof {
            assert(wall@.take(i + 1).drop_last() =~= wall@.take(i as int));
        }
        match beat_num_exec(wall[i].id.as_str()) {
            Some(n) => {
                if n > max {
                    max = n;
                }
            },
            None => {},
        }
        i += 1;
    }
    assert(wall@.take(i as int) =~= wall@);
    let mut v = chars_of("beat-");
    append_vec(&mut v, &dec_vec((max as u64) + 1));
    string_of(&v)
}

pub open spec fn beat_matches(b: Beat, id: Seq<char>) -> bool {
    b.id@ == id || b.id@ == beat_prefix() + id
}

pub open spec fn beat_index(w: Seq<Beat>, id: Seq<char>) -> int
    decreases w.len(),
{
    if w.len() == 0 {
        -1
    } else if beat_matches(w[0], id) {
        0
    } else {
        let r = beat_index(w.drop_first(), id);
        if r < 0 {
            -1
        } else {
            r + 1
        }
    }
}

pub proof fn lemma_beat_index(w: Seq<Beat>, id: Seq<char>)
    ensures
        -1 <= beat_index(w, id) < w.len(),
        beat_index(w, id) >= 0 ==> beat_matches(w[beat_index(w, id)], id),
        forall|j: int|
            0 <= j < w.len() && (j < beat_index(w, id) || beat_index(w, id) < 0) ==> !beat_matches(
                #[trigger] w[j],
                id,
            ),
    decreases w.len(),
{
    if w.len() > 0 && !beat_matches(w[0], id) {
        lemma_beat_index(w.drop_first(), id);
        assert forall|j: int|
            0 <= j < w.len() && (j < beat_index(w, id) || beat_index(w, id) < 0) implies !beat_matches(
            #[trigger] w[j],
            id,
        ) by {
            if j > 0 {
                assert(w[j] == w.drop_first()[j - 1]);
            }
        }
    }
}

/// Where beat `raw` (an id, or the number after `beat-`) sits on the wall.
pub open spec fn spec_find_beat(w: Seq<Beat>, raw: Seq<char>) -> Result<int, Seq<char>> {
    let id = trim(raw);
    if id.len() == 0 {
        Err("unknown beat: "@)
    } else {
        let k = beat_index(w, id);
        if k < 0 {
            Err("unknown beat: "@ + id)
        } else {
            Ok(k)
        }
    }
}

pub fn find_beat(wall: &Vec<Beat>, id: &str) -> (r: Result<usize, ShowError>)
    ensures
        match (r, spec_find_beat(wall@, id@)) {
            (Ok(i), Ok(k)) => i as int == k && k < wall@.len(),
            (Err(e), Err(m)) => is_msg(e, m),
            _ => false,
        },
{
    let t = trim_vec(&chars_of(id));
    if t.len() == 0 {
        return Err(msg("unknown beat: "));
    }
    let mut full = chars_of("beat-");
    append_vec(&mut full, &t);
    let mut i: usize = 0;
    assert(wall@.skip(0) =~= wall@);
    proof {
        lemma_beat_index(wall@, t@);
    }
    while i < wall.len()
        invariant
            i <= wall.len(),
            full@ == beat_prefix() + t@,
            t@ == trim(id@),
            t@.len() > 0,
            beat_index(wall@, t@) == if beat_index(wall@.skip(i as int), t@) < 0 {
                -1
            } else {
                beat_index(wall@.skip(i as int), t@) + i
            },
        decreases wall.len() - i,
    {
        assert(wall@.skip(i as int)[0] == wall@[i as int]);
        let b = chars_of(wall[i].id.as_str());
        if seq_eq(&b, &t) || seq_eq(&b, &full) {
            assert(beat_matches(wall@[i as int], t@));
            assert(beat_index(wall@.skip(i as int), t@) == 0);
            return Ok(i);
        }
        assert(wall@.skip(i as int).drop_first() =~= wall@.skip(i + 1));
        i += 1;
    }
    let ts = string_of(&t);
    Err(msg2("unknown beat: ", ts.as_str()))
}

pub open spec fn no_beat_msg() -> Seq<char> {
    "no beat —"@
}

/// The wall changed to `w` and the phase is `wall`; the revision was bumped.
pub open spec fn spec_wall_changed(old: Show, new: Show, w: Seq<Beat>, now: Seq<char>) -> bool {
    &&& new.wall@ == w
    &&& new.phase@ == "wall"@
    &&& spec_bumped(Show { wall: new.wall, phase: new.phase, ..old }, new, now)
}

/// Adds a beat at the end of the wall with the next `beat-N` id; returns it.
pub fn wall_add(show: &mut Show, act: Option<&str>, text: &str, now: &str) -> (r: Result<
    String,
    ShowError,
>)
    requires
        old(show).rev < u64::MAX,
        beat_max(old(show).wall@) < u32::MAX,
    ensures
        trim(text@).len() == 0 ==> fails_with(r, no_beat_msg()) && *final(show) == *old(show),
        trim(text@).len() > 0 ==> (r matches Ok(id) && id@ == spec_next_beat_id(old(show).wall@)
            && spec_wall_changed(
            *old(show),
            *final(show),
            old(show).wall@.push(
                Beat {
                    id: final(show).wall@.last().id,
                    act: final(show).wall@.last().act,
                    text: final(show).wall@.last().text,
                },
            ),
            now@,
        ) && final(show).wall@.last().id@ == id@ && final(show).wall@.last().text@ == trim(text@)
            && final(show).wall@.last().act@ == (match act {
            Some(a) => trim(a@),
            None => seq![],
        })),
{
    let t = trim_vec(&chars_of(text));
    if t.len() == 0 {
        return Err(msg("no beat —"));
    }
    let id = next_beat_id(&show.wall);
    let a = match act {
        Some(a) => trim_string(a),
        None => String::new(),
    };
    show.wall.push(Beat { id: id.clone(), act: a, text: string_of(&t) });
    show.phase = string_of(&chars_of("wall"));
    bump(show, now);
    Ok(id)
}

pub open spec fn update_needs_msg() -> Seq<char> {
    "wall update needs --text or --act"@
}

/// Edits a beat's text and/or act; returns its id.
pub fn wall_update(
    show: &mut Show,
    id: &str,
    text: Option<&str>,
    act: Option<&str>,
    now: &str,
) -> (r: Result<String, ShowError>)
    requires
        old(show).rev < u64::MAX,
    ensures
        r is Err ==> *final(show) == *old(show),
        spec_find_beat(old(show).wall@, id@) matches Err(m) ==> fails_with(r, m),
        spec_find_beat(old(show).wall@, id@) matches Ok(k) ==> {
            &&& (text matches Some(t) && trim(t@).len() == 0) ==> fails_with(r, no_beat_msg())
            &&& (text is None && act is None) ==> fails_with(r, update_needs_msg())
            &&& (!(text matches Some(t) && trim(t@).len() == 0) && !(text is None && act is None))
                ==> {
                let b = old(show).wall@[k];
                &&& r matches Ok(rid) && rid == b.id
                &&& spec_wall_changed(
                    *old(show),
                    *final(show),
                    old(show).wall@.update(k, final(show).wall@[k]),
                    now@,
                )
                &&& final(show).wall@[k].id == b.id
                &&& final(show).wall@[k].text@ == (match text {
                    Some(t) => trim(t@),
                    None => b.text@,
                })
                &&& final(show).wall@[k].act@ == (match act {
                    Some(a) => trim(a@),
                    None => b.act@,
                })
            }
        },
{
    let i = find_beat(&show.wall, id)?;
    let t = match text {
        Some(t) => {
            let tv = trim_vec(&chars_of(t));
            if tv.len() == 0 {
                return Err(msg("no beat —"));
            }
            Some(string_of(&tv))
        },
        None => None,
    };
    let a = match act {
        Some(a) => Some(trim_string(a)),
        None => None,
    };
    if t.is_none() && a.is_none() {
        return Err(msg("wall update needs --text or --act"));
    }
    let old_b = &show.wall[i];
    let nb = Beat {
        id: old_b.id.clone(),
        text: match t {
            Some(x) => x,
            None => old_b.text.clone(),
        },
        act: match a {
            Some(x) => x,
            None => old_b.act.clone(),
        },
    };
    let rid = nb.id.clone();
    show.wall.set(i, nb);
    show.phase = string_of(&chars_of("wall"));
    bump(show, now);
    Ok(rid)
}

/// Removes a beat; returns the removed beat.
pub fn wall_remove(show: &mut Show, id: &str, now: &str) -> (r: Result<Beat, ShowError>)
    requires
        old(show).rev < u64::MAX,
    ensures
        r is Err ==> *final(show) == *old(show),
        spec_find_beat(old(show).wall@, id@) matches Err(m) ==> fails_with(r, m),
        spec_find_beat(old(show).wall@, id@) matches Ok(k) ==> (r matches Ok(b) && b == old(show).wall@[k] && spec_wall_changed(*old(show), *final(show), old(show).wall@.remove(k), now@)),
{
    let i = find_beat(&show.wall, id)?;
    let b = show.wall.remove(i);
    show.phase = string_of(&chars_of("wall"));
    bump(show, now);
    Ok(b)
}

pub open spec fn reorder_needs_msg() -> Seq<char> {
    "wall reorder needs one of --before, --after, or --index"@
}

/// Position a moved beat takes.
pub open spec fn spec_reorder_dest(
    w: Seq<Beat>,
    from: int,
    before: Option<Seq<char>>,
    after: Option<Seq<char>>,
    index: Option<usize>,
) -> Result<int, Seq<char>> {
    match before {
        Some(bid) => match spec_find_beat(w, bid) {
            Ok(t) => Ok(
                if from < t {
                    t - 1
                } else {
                    t
                },
            ),
            Err(m) => Err(m),
        },
        None => match after {
            Some(aid) => match spec_find_beat(w, aid) {
                Ok(t) => Ok(
                    if from <= t {
                        t
                    } else {
                        t + 1
                    },
                ),
                Err(m) => Err(m),
            },
            None => {
                let i = match index {
                    Some(i) => i as int,
                    None => 0,
                };
                Ok(
                    if i < w.len() - 1 {
                        i
                    } else {
                        w.len() - 1
                    },
                )
            },
        },
    }
}

/// `w` with the beat at `from` moved to `dest`.
pub open spec fn spec_moved(w: Seq<Beat>, from: int, dest: int) -> Seq<Beat> {
    if from == dest {
        w
    } else {
        w.remove(from).insert(dest, w[from])
    }
}

pub open spec fn opt_view_str(o: Option<&str>) -> Option<Seq<char>> {
    match o {
        Some(s) => Some(s@),
        None => None,
    }
}

pub open spec fn named_count(before: Option<&str>, after: Option<&str>, index: Option<usize>) -> int {
    (if before is Some {
        1int
    } else {
        0int
    }) + (if after is Some {
        1int
    } else {
        0int
    }) + (if index is Some {
        1int
    } else {
        0int
    })
}

/// Moves beat `id` before / after another beat, or to an index (clamped to the
/// wall); exactly one of the three must be given. Returns the new position.
pub fn wall_reorder(
    show: &mut Show,
    id: &str,
    before: Option<&str>,
    after: Option<&str>,
    index: Option<usize>,
    now: &str,
) -> (r: Result<usize, ShowError>)
    requires
        old(show).rev < u64::MAX,
    ensures
        r is Err ==> *final(show) == *old(show),
        spec_find_beat(old(show).wall@, id@) matches Err(m) ==> fails_with(r, m),
        spec_find_beat(old(show).wall@, id@) matches Ok(from) ==> {
            &&& named_count(before, after, index) != 1 ==> fails_with(r, reorder_needs_msg())
            &&& named_count(before, after, index) == 1 ==> match spec_reorder_dest(
                old(show).wall@,
                from,
                opt_view_str(before),
                opt_view_str(after),
                index,
            ) {
                Err(m) => fails_with(r, m),
                Ok(dest) => r matches Ok(d) && d as int == dest && 0 <= dest < old(show).wall@.len() && spec_wall_changed(
                    *old(show),
                    *final(show),
                    spec_moved(old(show).wall@, from, dest),
                    now@,
                ),
            }
        },
{
    let from = find_beat(&show.wall, id)?;
    let named = (if before.is_some() {
        1usize
    } else {
        0
    }) + (if after.is_some() {
        1usize
    } else {
        0
    }) + (if index.is_some() {
        1usize
    } else {
        0
    });
    if named != 1 {
        return Err(msg("wall reorder needs one of --before, --after, or --index"));
    }
    let dest = match before {
        Some(b) => {
            let t = find_beat(&show.wall, b)?;
            if from < t {
                t - 1
            } else {
                t
            }
        },
        None => match after {
            Some(a) => {
                let t = find_beat(&show.wall, a)?;
                if from <= t {
                    t
                } else {
                    t + 1
                }
            },
            None => {
                let i = match index {
                    Some(i) => i,
                    None => 0,
                };
                let last = show.wall.len() - 1;
                if i < last {
                    i
                } else {
                    last
                }
            },
        },
    };
    if from != dest {
        let beat = show.wall.remove(from);
        show.wall.insert(dest, beat);
    }
    show.phase = string_of(&chars_of("wall"));
    bump(show, now);
    Ok(dest)
}

// ---------------------------------------------------------------- picture

pub open spec fn unknown_shot_msg(num: Seq<char>) -> Seq<char> {
    "unknown shot: "@ + num
}

/// Locks or unlocks a shot (a lock moves the phase to `picture`); returns the
/// shot's number. The shot keeps its name.
pub fn picture_lock(show: &mut Show, shot_num: &str, locked: bool, now: &str) -> (r: Result<
    String,
    ShowError,
>)
    requires
        old(show).rev < u64::MAX,
    ensures
        first_shot_index(old(show).shots@, shot_num@) < 0 ==> fails_with(
            r,
            unknown_shot_msg(shot_num@),
        ) && *final(show) == *old(show),
        first_shot_index(old(show).shots@, shot_num@) >= 0 ==> {
            let k = first_shot_index(old(show).shots@, shot_num@);
            &&& r matches Ok(n) && n == old(show).shots@[k].num
            &&& final(show).shots@ == old(show).shots@.update(
                k,
                Shot { locked, ..old(show).shots@[k] },
            )
            &&& locked ==> final(show).phase@ == "picture"@
            &&& !locked ==> final(show).phase == old(show).phase
            &&& spec_bumped(
                Show { shots: final(show).shots, phase: final(show).phase, ..*old(show) },
                *final(show),
                now@,
            )
        },
{
    proof {
        lemma_first_shot_index(show.shots@, shot_num@);
    }
    let k = match find_shot(&show.shots, shot_num) {
        Some(k) => k,
        None => return Err(msg2("unknown shot: ", shot_num)),
    };
    let ghost before = show.shots@[k as int];
    let mut sh = show.shots.remove(k);
    sh.locked = locked;
    let num = sh.num.clone();
    show.shots.insert(k, sh);
    assert(show.shots@ =~= old(show).shots@.update(k as int, Shot { locked, ..before }));
    if locked {
        show.phase = string_of(&chars_of("picture"));
    }
    bump(show, now);
    Ok(num)
}

/// `picture_lock(.., false)`.
pub fn picture_unlock(show: &mut Show, shot_num: &str, now: &str) -> (r: Result<String, ShowError>)
    requires
        old(show).rev < u64::MAX,
    ensures
        first_shot_index(old(show).shots@, shot_num@) < 0 ==> fails_with(
            r,
            unknown_shot_msg(shot_num@),
        ) && *final(show) == *old(show),
        first_shot_index(old(show).shots@, shot_num@) >= 0 ==> {
            let k = first_shot_index(old(show).shots@, shot_num@);
            &&& r matches Ok(n) && n == old(show).shots@[k].num
            &&& final(show).shots@ == old(show).shots@.update(
                k,
                Shot { locked: false, ..old(show).shots@[k] },
            )
            &&& final(show).phase == old(show).phase
            &&& spec_bumped(Show { shots: final(show).shots, ..*old(show) }, *final(show), now@)
        },
{
    picture_lock(show, shot_num, false, now)
}

pub open spec fn media_has_path(media: Seq<MediaItem>, path: Seq<char>) -> bool {
    exists|i: int| 0 <= i < media.len() && media[i].path@ == path
}

pub fn media_has_path_exec(media: &Vec<MediaItem>, path: &str) -> (r: bool)
    ensures
        r == media_has_path(media@, path@),
{
    let mut i: usize = 0;
    while i < media.len()
        invariant
            i <= media.len(),
            forall|j: int| 0 <= j < i ==> media@[j].path@ != path@,
        decreases media.len() - i,
    {
        if crate::text::str_eq(media[i].path.as_str(), path) {
            return true;
        }
        i += 1;
    }
    false
}

/// Records a reference still copied to `path` for a shot: `ref_path`, the note
/// as the shot's description and the size, when given; the ref joins the media
/// list once; phase `picture`. Returns the shot's number.
pub fn picture_ref(
    show: &mut Show,
    shot_num: &str,
    path: &str,
    note: Option<&str>,
    size: Option<&str>,
    now: &str,
) -> (r: Result<String, ShowError>)
    requires
        old(show).rev < u64::MAX,
    ensures
        first_shot_index(old(show).shots@, shot_num@) < 0 ==> fails_with(
            r,
            unknown_shot_msg(shot_num@),
        ) && *final(show) == *old(show),
        first_shot_index(old(show).shots@, shot_num@) >= 0 ==> {
            let k = first_shot_index(old(show).shots@, shot_num@);
            let o = old(show).shots@[k];
            let n = final(show).shots@[k];
            &&& r matches Ok(x) && x == o.num
            &&& final(show).shots@ == old(show).shots@.update(k, n)
            &&& n == (Shot { ref_path: n.ref_path, desc: n.desc, size: n.size, ..o })
            &&& n.ref_path matches Some(p) && p@ == path@
            &&& n.desc@ == (match note {
                Some(t) if trim(t@).len() > 0 => trim(t@),
                _ => o.desc@,
            })
            &&& n.size@ == (match size {
                Some(t) if trim(t@).len() > 0 => trim(t@),
                _ => o.size@,
            })
            &&& media_has_path(old(show).media@, path@) ==> final(show).media == old(show).media
            &&& !media_has_path(old(show).media@, path@) ==> final(show).media@.drop_last() == old(show).media@ && final(show).media@.last() == (MediaItem {
                path: final(show).media@.last().path,
                sha256: final(show).media@.last().sha256,
                kind: final(show).media@.last().kind,
                duration_ms: None,
            }) && final(show).media@.last().path@ == path@ && final(show).media@.last().kind@
                == "ref"@ && final(show).media@.last().sha256@.len() == 0 && final(show).media@.len() == old(show).media@.len() + 1
            &&& final(show).phase@ == "picture"@
            &&& spec_bumped(
                Show {
                    shots: final(show).shots,
                    media: final(show).media,
                    phase: final(show).phase,
                    ..*old(show)
                },
                *final(show),
                now@,
            )
        },
{
    proof {
        lemma_first_shot_index(show.shots@, shot_num@);
    }
    let k = match find_shot(&show.shots, shot_num) {
        Some(k) => k,
        None => return Err(msg2("unknown shot: ", shot_num)),
    };
    let mut sh = show.shots.remove(k);
    let ghost o = sh;
    sh.ref_path = Some(string_of(&chars_of(path)));
    match note {
        Some(t) => {
            let tv = trim_vec(&chars_of(t));
            if tv.len() > 0 {
                sh.desc = string_of(&tv);
            }
        },
        None => {},
    }
    match size {
        Some(t) => {
            let tv = trim_vec(&chars_of(t));
            if tv.len() > 0 {
                sh.size = string_of(&tv);
            }
        },
        None => {},
    }
    let num = sh.num.clone();
    show.shots.insert(k, sh);
    assert(show.shots@ =~= old(show).shots@.update(k as int, show.shots@[k as int]));
    if !media_has_path_exec(&show.media, path) {
        show.media.push(
            MediaItem {
                path: string_of(&chars_of(path)),
                sha256: String::new(),
                kind: string_of(&chars_of("ref")),
                duration_ms: None,
            },
        );
    }
    show.phase = string_of(&chars_of("picture"));
    bump(show, now);
    Ok(num)
}


/// Every `beat-N` number on the wall is at most `beat_max`.
pub proof fn lemma_beat_max_bounds(w: Seq<Beat>)
    ensures
        forall|j: int| 0 <= j < w.len() ==> (#[trigger] beat_num(w[j].id@) matches Some(n) ==> n <= beat_max(w)),
    decreases w.len(),
{
    if w.len() > 0 {
        lemma_beat_max_bounds(w.drop_last());
        assert forall|j: int| 0 <= j < w.len() implies (#[trigger] beat_num(w[j].id@) matches Some(n) ==> n <= beat_max(w)) by {
            if j < w.len() - 1 {
                assert(w[j] == w.drop_last()[j]);
            }
        }
    }
}

/// The id `wall add` gives is its own trimmed form, and the number in it is
/// one past the wall's largest.
proof fn lemma_next_beat_id_shape(w: Seq<Beat>)
    requires
        beat_max(w) < u32::MAX,
    ensures
        trim(spec_next_beat_id(w)) == spec_next_beat_id(w),
        beat_num(spec_next_beat_id(w)) == Some(beat_max(w) + 1),
{
    let n: nat = beat_max(w) + 1;
    let id = spec_next_beat_id(w);
    lemma_dec_digits(n);
    reveal_strlit("beat-");
    assert(id.len() > 5);
    assert(id[0] == 'b');
    assert(!is_ws(id[0]));
    assert(trim_start(id) == id);
    assert(id.last() == dec(n).last());
    assert(is_digit(dec(n)[dec(n).len() - 1]));
    assert(!is_ws(id.last()));
    assert(trim_end(id) == id);
    assert(id.subrange(0, 5) =~= beat_prefix());
    assert(id.skip(5) =~= dec(n));
    assert(dec(n)[0] != '+') by {
        assert(is_digit(dec(n)[0]));
    }
}

/// Removing the beat that `wall add` has just added, by the id it returned,
/// gives the wall back as it was. A wall on which an older beat is already
/// named `beat-` followed by the new id (so that the id finds that beat
/// first) is left out.
pub proof fn lemma_wall_add_then_remove(w: Seq<Beat>, b: Beat)
    requires
        beat_max(w) < u32::MAX,
        b.id@ == spec_next_beat_id(w),
        forall|j: int| 0 <= j < w.len() ==> #[trigger] w[j].id@ != beat_prefix() + spec_next_beat_id(w),
    ensures
        spec_find_beat(w.push(b), b.id@) == Ok::<int, Seq<char>>(w.len() as int),
        w.push(b).remove(w.len() as int) == w,
{
    let id = spec_next_beat_id(w);
    let w2 = w.push(b);
    lemma_next_beat_id_shape(w);
    lemma_beat_max_bounds(w);
    assert forall|j: int| 0 <= j < w.len() implies !beat_matches(#[trigger] w2[j], id) by {
        assert(w2[j] == w[j]);
        if w[j].id@ == id {
            assert(beat_num(w[j].id@) == Some(beat_max(w) + 1));
        }
    }
    assert(beat_matches(w2[w.len() as int], id));
    lemma_beat_index(w2, id);
    reveal_strlit("beat-");
    assert(id.len() > 0);
    assert(beat_index(w2, id) == w.len());
    assert(w2.remove(w.len() as int) =~= w);
}

/// A reorder moves one beat and keeps the others: the wall after it is as
/// long, holds the same beats as often each, and the moved beat stands at
/// its new place.
pub proof fn lemma_reorder_keeps_beats(w: Seq<Beat>, from: int, dest: int)
    requires
        0 <= from < w.len(),
        0 <= dest < w.len(),
    ensures
        spec_moved(w, from, dest).len() == w.len(),
        spec_moved(w, from, dest).to_multiset() == w.to_multiset(),
        spec_moved(w, from, dest)[dest] == w[from],
{
    broadcast use vstd::seq_lib::group_to_multiset_ensures;
    if from != dest {
        let x = w[from];
        let w2 = w.remove(from);
        let w3 = w2.insert(dest, x);
        assert(w3.remove(dest) =~= w2);
        assert(w3[dest] == x);
        assert(w3.to_multiset().remove(x) == w2.to_multiset());
        assert(w2.to_multiset() == w.to_multiset().remove(x));
        assert(w3.contains(x));
        assert(w.contains(x));
        assert(w3.to_multiset().count(x) > 0);
        assert(w.to_multiset().count(x) > 0);
        assert(w3.to_multiset() =~= w.to_multiset());
    }
}

} // verus!
