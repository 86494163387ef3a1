//! Import from the older suite's files: cork boards, canvases, blockouts,
//! storyboard references, slate projects and circle-take logs. The source is
//! kept; nothing is invented (no glTF, OpenPose or PNG). Reading the file,
//! checking media on disk and copying the source are the caller's part.

use vstd::prelude::*;
use crate::error::{ShowError, fails_with, is_msg, msg, msg2};
use crate::json::{
    Json, JsonV, jv, member, text_of, items_of, get_member, text_exec, items_exec, opt_json, json_parse,
    parse_json,
};
use crate::parse::{json_u64, json_u64_exec};
use crate::model::{
    Shot, Beat, Take, StageMark, SlateLora, PromptTarget, first_shot_index, lemma_first_shot_index, find_shot,
    spec_shot_num, shot_num_from_scene,
};
use crate::show::{Show, bump, spec_bumped};
use crate::slate::{targets_text, loras_text, key_index, lemma_key_index, put, put_target};
use crate::stage::{MarkText, marks_text};
use crate::text::{
    chars_of, string_of, str_eq, trim, trim_vec, lower, lower_vec, ends_with, ends_with_vec, contains,
    contains_str, seq_eq, dec, dec_vec, is_digit,
};

verus! {

// ---------------------------------------------------------------- reading rows

pub open spec fn strs_view(ks: Seq<&str>) -> Seq<Seq<char>> {
    Seq::new(ks.len(), |i: int| ks[i]@)
}

/// The first of `keys` whose value is an array, in the value itself.
pub open spec fn arr_in(v: Json, keys: Seq<Seq<char>>) -> Option<Seq<Json>>
    decreases keys.len(),
{
    if keys.len() == 0 {
        None
    } else {
        match items_of(member(v, keys[0])) {
            Some(xs) => Some(xs),
            None => arr_in(v, keys.drop_first()),
        }
    }
}

/// The first of `keys` whose value is an array, in the value or else in its
/// `state`.
pub open spec fn spec_first_array(v: Json, keys: Seq<Seq<char>>) -> Option<Seq<Json>> {
    match arr_in(v, keys) {
        Some(xs) => Some(xs),
        None => match member(v, "state"@) {
            Some(s) => arr_in(s, keys),
            None => None,
        },
    }
}

fn arr_in_exec<'a>(v: &'a Json, keys: &[&str]) -> (r: Option<&'a Vec<Json>>)
    ensures
        match r {
            Some(xs) => arr_in(*v, strs_view(keys@)) == Some(xs@),
            None => arr_in(*v, strs_view(keys@)) is None,
        },
{
    let ghost ks = strs_view(keys@);
    assert(ks.skip(0) =~= ks);
    let mut i: usize = 0;
    while i < keys.len()
        invariant
            i <= keys.len(),
            ks == strs_view(keys@),
            arr_in(*v, ks) == arr_in(*v, ks.skip(i as int)),
        decreases keys.len() - i,
    {
        let ghost rest = ks.skip(i as int);
        assert(rest[0] == keys@[i as int]@);
        assert(rest.drop_first() =~= ks.skip(i + 1));
        match items_exec(get_member(v, keys[i])) {
            Some(xs) => return Some(xs),
            None => {},
        }
        i += 1;
    }
    assert(ks.skip(i as int).len() == 0);
    None
}

pub fn first_array<'a>(v: &'a Json, keys: &[&str]) -> (r: Option<&'a Vec<Json>>)
    ensures
        match r {
            Some(xs) => spec_first_array(*v, strs_view(keys@)) == Some(xs@),
            None => spec_first_array(*v, strs_view(keys@)) is None,
        },
{
    match arr_in_exec(v, keys) {
        Some(xs) => Some(xs),
        None => match get_member(v, "state") {
            Some(s) => arr_in_exec(s, keys),
            None => None,
        },
    }
}

/// The first of `keys` with a non-blank string (trimmed) or a whole number
/// (as decimal digits); empty when none has.
pub open spec fn spec_first_str(v: Json, keys: Seq<Seq<char>>) -> Seq<char>
    decreases keys.len(),
{
    if keys.len() == 0 {
        seq![]
    } else {
        let x = member(v, keys[0]);
        match text_of(x) {
            Some(s) if trim(s).len() > 0 => trim(s),
            _ => match json_u64(x) {
                Some(n) => dec(n),
                None => spec_first_str(v, keys.drop_first()),
            },
        }
    }
}

pub fn first_str(v: &Json, keys: &[&str]) -> (r: String)
    ensures
        r@ == spec_first_str(*v, strs_view(keys@)),
{
    let ghost ks = strs_view(keys@);
    assert(ks.skip(0) =~= ks);
    let mut i: usize = 0;
    while i < keys.len()
        invariant
            i <= keys.len(),
            ks == strs_view(keys@),
            spec_first_str(*v, ks) == spec_first_str(*v, ks.skip(i as int)),
        decreases keys.len() - i,
    {
        let ghost rest = ks.skip(i as int);
        assert(rest[0] == keys@[i as int]@);
        assert(rest.drop_first() =~= ks.skip(i + 1));
        let x = get_member(v, keys[i]);
        match text_exec(x) {
            Some(s) => {
                let t = trim_vec(&chars_of(s.as_str()));
                if t.len() > 0 {
                    return string_of(t.as_slice());
                }
            },
            None => {},
        }
        match json_u64_exec(x) {
            Some(n) => return string_of(dec_vec(n).as_slice()),
            None => {},
        }
        i += 1;
    }
    assert(ks.skip(i as int).len() == 0);
    String::new()
}

/// `s`, or `fallback` when `s` is empty.
pub open spec fn or_else(s: Seq<char>, fallback: Seq<char>) -> Seq<char> {
    if s.len() == 0 {
        fallback
    } else {
        s
    }
}

fn or_else_exec(s: String, fallback: &str) -> (r: String)
    ensures
        r@ == or_else(s@, fallback@),
{
    if !crate::text::filled(s.as_str()) {
        string_of(chars_of(fallback).as_slice())
    } else {
        s
    }
}

/// A row's shot number: none when blank; renumbered like a scene's when it
/// has a digit, else kept as written.
pub open spec fn spec_shot_num_of(row: Json, fallback: nat) -> Seq<char> {
    let raw = spec_first_str(row, seq!["num"@, "shot"@, "shot_num"@, "id"@]);
    if raw.len() == 0 {
        seq![]
    } else if exists|i: int| 0 <= i < raw.len() && is_digit(#[trigger] raw[i]) {
        crate::model::spec_shot_num(raw, fallback)
    } else {
        raw
    }
}

fn has_digit(s: &Vec<char>) -> (r: bool)
    ensures
        r == exists|i: int| 0 <= i < s@.len() && is_digit(#[trigger] s@[i]),
{
    let mut i: usize = 0;
    while i < s.len()
        invariant
            i <= s.len(),
            forall|j: int| 0 <= j < i ==> !is_digit(#[trigger] s@[j]),
        decreases s.len() - i,
    {
        if '0' <= s[i] && s[i] <= '9' {
            assert(is_digit(s@[i as int]));
            return true;
        }
        i += 1;
    }
    false
}

pub fn shot_num_of(row: &Json, fallback: usize) -> (r: String)
    requires
        fallback < usize::MAX,
    ensures
        r@ == spec_shot_num_of(*row, fallback as nat),
{
    let keys: &[&str] = &["num", "shot", "shot_num", "id"];
    assert(strs_view(keys@) =~= seq!["num"@, "shot"@, "shot_num"@, "id"@]);
    let raw = first_str(row, keys);
    if !crate::text::filled(raw.as_str()) {
        return raw;
    }
    if has_digit(&chars_of(raw.as_str())) {
        crate::model::shot_num_from_scene(raw.as_str(), fallback)
    } else {
        raw
    }
}

/// A blockout that only holds 3D data.
pub open spec fn spec_looks_3d_only(v: Json) -> bool {
    member(v, "gltf"@) is Some || member(v, "meshes"@) is Some || member(v, "glb"@) is Some
        || member(v, "depth"@) is Some
}

pub fn looks_3d_only(v: &Json) -> (r: bool)
    ensures
        r == spec_looks_3d_only(*v),
{
    get_member(v, "gltf").is_some() || get_member(v, "meshes").is_some() || get_member(v, "glb").is_some()
        || get_member(v, "depth").is_some()
}

// ---------------------------------------------------------------- kinds

/// The kind an `app` field names (trimmed, lowercased); an unknown name is
/// kept as it is.
pub open spec fn spec_kind_from_app(app: Seq<char>) -> Seq<char> {
    let a = lower(trim(app));
    if a == "scriptbreak"@ || a == "script-break"@ {
        "scriptbreak"@
    } else if a == "cork-board"@ || a == "corkboard"@ || a == "cork_board"@ {
        "cork-board"@
    } else if a == "master-canvas"@ || a == "canvas"@ || a == "picture"@ {
        "canvas"@
    } else if a == "blockout"@ || a == "block-out"@ {
        "blockout"@
    } else if a == "sbref"@ || a == "storyboard-reference"@ || a == "board"@ {
        "sbref"@
    } else if a == "slate"@ {
        "slate"@
    } else if a == "circle-take"@ || a == "ctake"@ || a == "dailies"@ {
        "ctake"@
    } else {
        a
    }
}

fn is(v: &Vec<char>, s: &str) -> (r: bool)
    ensures
        r == (v@ == s@),
{
    seq_eq(v, &chars_of(s))
}

fn lit(s: &str) -> (r: String)
    ensures
        r@ == s@,
{
    string_of(chars_of(s).as_slice())
}

pub fn kind_from_app(app: &str) -> (r: String)
    ensures
        r@ == spec_kind_from_app(app@),
{
    let a = lower_vec(&trim_vec(&chars_of(app)));
    if is(&a, "scriptbreak") || is(&a, "script-break") {
        lit("scriptbreak")
    } else if is(&a, "cork-board") || is(&a, "corkboard") || is(&a, "cork_board") {
        lit("cork-board")
    } else if is(&a, "master-canvas") || is(&a, "canvas") || is(&a, "picture") {
        lit("canvas")
    } else if is(&a, "blockout") || is(&a, "block-out") {
        lit("blockout")
    } else if is(&a, "sbref") || is(&a, "storyboard-reference") || is(&a, "board") {
        lit("sbref")
    } else if is(&a, "slate") {
        lit("slate")
    } else if is(&a, "circle-take") || is(&a, "ctake") || is(&a, "dailies") {
        lit("ctake")
    } else {
        string_of(a.as_slice())
    }
}

/// The kind of an import, from its file name first, then from its JSON.
pub open spec fn spec_detect(filename: Seq<char>, raw: Seq<char>) -> Seq<char> {
    let low = lower(filename);
    if ends_with(low, ".scriptbreak"@) {
        "scriptbreak"@
    } else if ends_with(low, ".fountain"@) || ends_with(low, ".txt"@) {
        "script"@
    } else if ends_with(low, ".cork-board.json"@) || contains(low, "cork-board"@) {
        "cork-board"@
    } else if ends_with(low, ".blockout"@) {
        "blockout"@
    } else if ends_with(low, ".sbref"@) {
        "sbref"@
    } else if ends_with(low, ".ctake"@) {
        "ctake"@
    } else {
        match json_parse(raw) {
            None => "unknown"@,
            Some(v) => match text_of(member(v, "app"@)) {
                Some(app) => spec_kind_from_app(app),
                None => if (match member(v, "state"@) {
                    Some(s) => member(s, "scenes"@) is Some,
                    None => false,
                }) || contains(raw, "scriptbreak"@) {
                    "scriptbreak"@
                } else if member(v, "cards"@) is Some || member(v, "beats"@) is Some {
                    "cork-board"@
                } else if member(v, "takes"@) is Some || member(v, "clips"@) is Some {
                    "ctake"@
                } else if member(v, "prompt_targets"@) is Some || (low == "project.json"@ && member(
                    v,
                    "shots"@,
                ) is Some) {
                    "slate"@
                } else if member(v, "marks"@) is Some || member(v, "blockout"@) is Some {
                    "blockout"@
                } else if member(v, "stills"@) is Some || member(v, "boards"@) is Some {
                    "sbref"@
                } else if member(v, "shots"@) is Some {
                    "canvas"@
                } else {
                    "unknown"@
                },
            },
        }
    }
}

fn has(v: &Json, k: &str) -> (r: bool)
    ensures
        r == (member(*v, k@) is Some),
{
    get_member(v, k).is_some()
}

fn detect_json(v: &Json, low: &Vec<char>, raw: &str) -> (r: String)
    ensures
        r@ == (match text_of(member(*v, "app"@)) {
            Some(app) => spec_kind_from_app(app),
            None => if (match member(*v, "state"@) {
                Some(s) => member(s, "scenes"@) is Some,
                None => false,
            }) || contains(raw@, "scriptbreak"@) {
                "scriptbreak"@
            } else if member(*v, "cards"@) is Some || member(*v, "beats"@) is Some {
                "cork-board"@
            } else if member(*v, "takes"@) is Some || member(*v, "clips"@) is Some {
                "ctake"@
            } else if member(*v, "prompt_targets"@) is Some || (low@ == "project.json"@ && member(*v, "shots"@) is Some) {
                "slate"@
            } else if member(*v, "marks"@) is Some || member(*v, "blockout"@) is Some {
                "blockout"@
            } else if member(*v, "stills"@) is Some || member(*v, "boards"@) is Some {
                "sbref"@
            } else if member(*v, "shots"@) is Some {
                "canvas"@
            } else {
                "unknown"@
            },
        }),
{
    match text_exec(get_member(v, "app")) {
        Some(app) => return kind_from_app(app.as_str()),
        None => {},
    }
    let scenes = match get_member(v, "state") {
        Some(s) => has(s, "scenes"),
        None => false,
    };
    if scenes || contains_str(&chars_of(raw), "scriptbreak") {
        lit("scriptbreak")
    } else if has(v, "cards") || has(v, "beats") {
        lit("cork-board")
    } else if has(v, "takes") || has(v, "clips") {
        lit("ctake")
    } else if has(v, "prompt_targets") || (is(low, "project.json") && has(v, "shots")) {
        lit("slate")
    } else if has(v, "marks") || has(v, "blockout") {
        lit("blockout")
    } else if has(v, "stills") || has(v, "boards") {
        lit("sbref")
    } else if has(v, "shots") {
        lit("canvas")
    } else {
        lit("unknown")
    }
}

proof fn lemma_last_two(s: Seq<char>, p: Seq<char>)
    requires
        ends_with(s, p),
        p.len() >= 2,
    ensures
        s[s.len() - 1] == p[p.len() - 1],
        s[s.len() - 2] == p[p.len() - 2],
{
    assert(s.subrange(s.len() - p.len(), s.len() as int)[p.len() - 1] == s[s.len() - 1]);
    assert(s.subrange(s.len() - p.len(), s.len() as int)[p.len() - 2] == s[s.len() - 2]);
}

/// A file is known by its extension, in any ASCII case, whatever it holds:
/// `*.scriptbreak` is a ScriptBreak file; `*.fountain` and `*.txt` are
/// screenplays; `*.cork-board.json` is a cork board; `*.blockout`,
/// `*.sbref` and `*.ctake` are Blockout, storyboard and take files unless
/// the name also says `cork-board`.
pub proof fn lemma_detect_by_name(filename: Seq<char>, raw: Seq<char>)
    ensures
        ends_with(lower(filename), ".scriptbreak"@) ==> spec_detect(filename, raw) == "scriptbreak"@,
        ends_with(lower(filename), ".fountain"@) ==> spec_detect(filename, raw) == "script"@,
        ends_with(lower(filename), ".txt"@) ==> spec_detect(filename, raw) == "script"@,
        ends_with(lower(filename), ".cork-board.json"@) ==> spec_detect(filename, raw) == "cork-board"@,
        ends_with(lower(filename), ".blockout"@) && !contains(lower(filename), "cork-board"@) ==> spec_detect(
            filename,
            raw,
        ) == "blockout"@,
        ends_with(lower(filename), ".sbref"@) && !contains(lower(filename), "cork-board"@) ==> spec_detect(
            filename,
            raw,
        ) == "sbref"@,
        ends_with(lower(filename), ".ctake"@) && !contains(lower(filename), "cork-board"@) ==> spec_detect(
            filename,
            raw,
        ) == "ctake"@,
{
    reveal_strlit(".scriptbreak");
    reveal_strlit(".fountain");
    reveal_strlit(".txt");
    reveal_strlit(".cork-board.json");
    reveal_strlit(".blockout");
    reveal_strlit(".sbref");
    reveal_strlit(".ctake");
    let low = lower(filename);
    if ends_with(low, ".scriptbreak"@) {
        lemma_last_two(low, ".scriptbreak"@);
    }
    if ends_with(low, ".fountain"@) {
        lemma_last_two(low, ".fountain"@);
    }
    if ends_with(low, ".txt"@) {
        lemma_last_two(low, ".txt"@);
    }
    if ends_with(low, ".cork-board.json"@) {
        lemma_last_two(low, ".cork-board.json"@);
    }
    if ends_with(low, ".blockout"@) {
        lemma_last_two(low, ".blockout"@);
    }
    if ends_with(low, ".sbref"@) {
        lemma_last_two(low, ".sbref"@);
    }
    if ends_with(low, ".ctake"@) {
        lemma_last_two(low, ".ctake"@);
    }
}

pub fn detect(filename: &str, raw: &str) -> (r: String)
    ensures
        r@ == spec_detect(filename@, raw@),
{
    let low = lower_vec(&chars_of(filename));
    if ends_with_vec(&low, &chars_of(".scriptbreak")) {
        return lit("scriptbreak");
    }
    if ends_with_vec(&low, &chars_of(".fountain")) || ends_with_vec(&low, &chars_of(".txt")) {
        return lit("script");
    }
    if ends_with_vec(&low, &chars_of(".cork-board.json")) || contains_str(&low, "cork-board") {
        return lit("cork-board");
    }
    if ends_with_vec(&low, &chars_of(".blockout")) {
        return lit("blockout");
    }
    if ends_with_vec(&low, &chars_of(".sbref")) {
        return lit("sbref");
    }
    if ends_with_vec(&low, &chars_of(".ctake")) {
        return lit("ctake");
    }
    match parse_json(raw) {
        Ok(v) => detect_json(&v, &low, raw),
        Err(_) => lit("unknown"),
    }
}

// ---------------------------------------------------------------- shots as text

/// A shot as text: every field, strings as characters.
pub struct ShotV {
    pub id: Seq<char>,
    pub num: Seq<char>,
    pub name: Seq<char>,
    pub scene_id: Seq<char>,
    pub size: Seq<char>,
    pub angle: Seq<char>,
    pub move_kind: Seq<char>,
    pub lens: Seq<char>,
    pub desc: Seq<char>,
    pub prompt: Seq<char>,
    pub locked: bool,
    pub targets: Seq<(Seq<char>, Seq<char>)>,
    pub loras: Seq<(Seq<char>, (Seq<char>, Seq<char>))>,
    pub marks: Seq<MarkText>,
    pub ref_path: Option<Seq<char>>,
    pub still_path: Option<Seq<char>>,
    pub plate_path: Option<Seq<char>>,
    pub motion_mode: Option<Seq<char>>,
    pub motion_move: Seq<char>,
    pub motion_notes: Seq<char>,
    pub motion_duration: Option<Seq<char>>,
    pub motion_fps: Option<Seq<char>>,
}

pub open spec fn ov(o: Option<String>) -> Option<Seq<char>> {
    match o {
        Some(s) => Some(s@),
        None => None,
    }
}

pub open spec fn shot_v(s: Shot) -> ShotV {
    ShotV {
        id: s.id@,
        num: s.num@,
        name: s.name@,
        scene_id: s.scene_id@,
        size: s.size@,
        angle: s.angle@,
        move_kind: s.move_kind@,
        lens: s.lens@,
        desc: s.desc@,
        prompt: s.prompt@,
        locked: s.locked,
        targets: targets_text(s.prompt_targets@),
        loras: loras_text(s.loras@),
        marks: marks_text(s.stage_marks@),
        ref_path: ov(s.ref_path),
        still_path: ov(s.still_path),
        plate_path: ov(s.plate_path),
        motion_mode: ov(s.motion_mode),
        motion_move: s.motion_move@,
        motion_notes: s.motion_notes@,
        motion_duration: ov(s.motion_duration),
        motion_fps: ov(s.motion_fps),
    }
}

pub open spec fn shots_v(ss: Seq<Shot>) -> Seq<ShotV> {
    Seq::new(ss.len(), |i: int| shot_v(ss[i]))
}

/// A new shot: its id and number, all else empty.
pub open spec fn blank_v(id: Seq<char>, num: Seq<char>) -> ShotV {
    ShotV {
        id,
        num,
        name: seq![],
        scene_id: seq![],
        size: seq![],
        angle: seq![],
        move_kind: seq![],
        lens: seq![],
        desc: seq![],
        prompt: seq![],
        locked: false,
        targets: seq![],
        loras: seq![],
        marks: seq![],
        ref_path: None,
        still_path: None,
        plate_path: None,
        motion_mode: None,
        motion_move: seq![],
        motion_notes: seq![],
        motion_duration: None,
        motion_fps: None,
    }
}

pub open spec fn first_v(ss: Seq<ShotV>, num: Seq<char>) -> int
    decreases ss.len(),
{
    if ss.len() == 0 {
        -1
    } else if crate::model::spec_shot_nums_match(ss[0].num, num) {
        0
    } else {
        let r = first_v(ss.drop_first(), num);
        if r < 0 {
            -1
        } else {
            r + 1
        }
    }
}

proof fn lemma_first_v(ss: Seq<Shot>, num: Seq<char>)
    ensures
        first_v(shots_v(ss), num) == first_shot_index(ss, num),
    decreases ss.len(),
{
    if ss.len() > 0 {
        assert(shots_v(ss).drop_first() =~= shots_v(ss.drop_first()));
        lemma_first_v(ss.drop_first(), num);
    }
}

/// The shots with the one numbered `num` found, or a blank one added at the
/// end (id `sh-` and its position from 1, number as a scene's); and where it is.
pub open spec fn upsert_v(ss: Seq<ShotV>, num: Seq<char>) -> (Seq<ShotV>, int) {
    let k = first_v(ss, num);
    if k >= 0 {
        (ss, k)
    } else {
        (ss.push(blank_v("sh-"@ + dec((ss.len() + 1) as nat), spec_shot_num(num, ss.len()))), ss.len() as int)
    }
}

proof fn lemma_replace(old: Seq<Shot>, k: int, sh: Shot)
    requires
        0 <= k < old.len(),
    ensures
        shots_v(old.update(k, sh)) == shots_v(old).update(k, shot_v(sh)),
{
    assert(shots_v(old.update(k, sh)) =~= shots_v(old).update(k, shot_v(sh)));
}

fn blank_shot(id: String, num: String) -> (r: Shot)
    ensures
        shot_v(r) == blank_v(id@, num@),
{
    let r = Shot {
        id,
        num,
        name: String::new(),
        scene_id: String::new(),
        size: String::new(),
        angle: String::new(),
        move_kind: String::new(),
        lens: String::new(),
        desc: String::new(),
        prompt: String::new(),
        locked: false,
        prompt_targets: Vec::new(),
        loras: Vec::new(),
        stage_marks: Vec::new(),
        ref_path: None,
        still_path: None,
        plate_path: None,
        motion_mode: None,
        motion_move: String::new(),
        motion_notes: String::new(),
        motion_duration: None,
        motion_fps: None,
    };
    assert(targets_text(r.prompt_targets@) =~= seq![]);
    assert(loras_text(r.loras@) =~= seq![]);
    assert(marks_text(r.stage_marks@) =~= seq![]);
    r
}

/// Finds the shot numbered `num`, or adds a blank one; returns where it is.
fn upsert_shot(shots: &mut Vec<Shot>, num: &str) -> (k: usize)
    requires
        old(shots)@.len() < usize::MAX,
    ensures
        shots_v(final(shots)@) == upsert_v(shots_v(old(shots)@), num@).0,
        k as int == upsert_v(shots_v(old(shots)@), num@).1,
        k < final(shots)@.len(),
        final(shots)@.len() <= old(shots)@.len() + 1,
{
    proof {
        lemma_first_shot_index(shots@, num@);
        lemma_first_v(shots@, num@);
    }
    match find_shot(shots, num) {
        Some(k) => k,
        None => {
            let i = shots.len();
            let mut id = chars_of("sh-");
            crate::text::append_vec(&mut id, &dec_vec((i + 1) as u64));
            let sh = blank_shot(string_of(id.as_slice()), shot_num_from_scene(num, i));
            let ghost pre = shots@;
            shots.push(sh);
            assert(shots_v(shots@) =~= shots_v(pre).push(shot_v(sh)));
            i
        },
    }
}

/// A shot's camera from a row: size, angle, lens and move, each where the
/// row has one.
pub open spec fn camera_v(s: ShotV, row: Json) -> ShotV {
    let size = spec_first_str(row, seq!["size"@, "shot_size"@]);
    let angle = spec_first_str(row, seq!["angle"@]);
    let lens = spec_first_str(row, seq!["lens"@]);
    let mv = spec_first_str(row, seq!["move"@, "move_kind"@]);
    ShotV {
        size: or_else(size, s.size),
        angle: or_else(angle, s.angle),
        lens: or_else(lens, s.lens),
        move_kind: or_else(mv, s.move_kind),
        ..s
    }
}

fn first_str1(v: &Json, key: &str) -> (r: String)
    ensures
        r@ == spec_first_str(*v, seq![key@]),
{
    let ks: [&str; 1] = [key];
    assert(strs_view(ks@) =~= seq![key@]);
    first_str(v, ks.as_slice())
}

fn apply_camera(shots: &mut Vec<Shot>, k: usize, row: &Json)
    requires
        k < old(shots)@.len(),
    ensures
        shots_v(final(shots)@) == shots_v(old(shots)@).update(k as int, camera_v(shots_v(old(shots)@)[k as int], *row)),
    final(shots)@.len() == old(shots)@.len(),
{
    let ks_size: &[&str] = &["size", "shot_size"];
    assert(strs_view(ks_size@) =~= seq!["size"@, "shot_size"@]);
    let ks_move: &[&str] = &["move", "move_kind"];
    assert(strs_view(ks_move@) =~= seq!["move"@, "move_kind"@]);
    let size = first_str(row, ks_size);
    let angle = first_str1(row, "angle");
    let lens = first_str1(row, "lens");
    let mv = first_str(row, ks_move);
    let ghost s0 = shots@;
    let mut sh = shots.remove(k);
    if crate::text::filled(size.as_str()) {
        sh.size = size;
    }
    if crate::text::filled(angle.as_str()) {
        sh.angle = angle;
    }
    if crate::text::filled(lens.as_str()) {
        sh.lens = lens;
    }
    if crate::text::filled(mv.as_str()) {
        sh.move_kind = mv;
    }
    shots.insert(k, sh);
    assert(shots@ =~= s0.update(k as int, sh));
    proof {
        lemma_replace(s0, k as int, sh);
    }
    assert(shot_v(sh) == camera_v(shot_v(s0[k as int]), *row));
}

// ---------------------------------------------------------------- canvas

/// `locked` (else `lock`) as a boolean; false otherwise.
pub open spec fn row_flag(row: Json, a: Seq<char>, b: Seq<char>) -> bool {
    let x = match member(row, a) {
        Some(x) => Some(x),
        None => member(row, b),
    };
    x == Some(Json::Bool(true))
}

fn row_flag_exec(row: &Json, a: &str, b: &str) -> (r: bool)
    ensures
        r == row_flag(*row, a@, b@),
{
    let x = match get_member(row, a) {
        Some(x) => Some(x),
        None => get_member(row, b),
    };
    match x {
        Some(Json::Bool(t)) => *t,
        _ => false,
    }
}

/// One canvas row: its shot (found or added) gets the row's name unless that
/// is its number, the lock when the row is locked, and the camera.
pub open spec fn canvas_step(ss: Seq<ShotV>, row: Json) -> (Seq<ShotV>, nat) {
    let num = spec_shot_num_of(row, ss.len());
    if num.len() == 0 {
        (ss, 0)
    } else {
        let (t, k) = upsert_v(ss, num);
        let name = spec_first_str(row, seq!["name"@, "title"@, "slug"@, "label"@]);
        let s0 = t[k];
        let s1 = if name.len() > 0 && name != s0.num {
            ShotV { name, ..s0 }
        } else {
            s0
        };
        let s2 = if row_flag(row, "locked"@, "lock"@) {
            ShotV { locked: true, ..s1 }
        } else {
            s1
        };
        (t.update(k, camera_v(s2, row)), 1)
    }
}

pub open spec fn canvas_fold(ss: Seq<ShotV>, rows: Seq<Json>) -> (Seq<ShotV>, nat)
    decreases rows.len(),
{
    if rows.len() == 0 {
        (ss, 0)
    } else {
        let (a, n) = canvas_fold(ss, rows.drop_last());
        let (b, m) = canvas_step(a, rows.last());
        (b, n + m)
    }
}

fn set_name(shots: &mut Vec<Shot>, k: usize, name: String)
    requires
        k < old(shots)@.len(),
    ensures
        shots_v(final(shots)@) == shots_v(old(shots)@).update(k as int, ShotV { name: name@, ..shots_v(old(shots)@)[k as int] }),
    final(shots)@.len() == old(shots)@.len(),
{
    let ghost s0 = shots@;
    let mut sh = shots.remove(k);
    sh.name = name;
    shots.insert(k, sh);
    assert(shots@ =~= s0.update(k as int, sh));
    proof {
        lemma_replace(s0, k as int, sh);
    }
}

fn set_locked(shots: &mut Vec<Shot>, k: usize)
    requires
        k < old(shots)@.len(),
    ensures
        shots_v(final(shots)@) == shots_v(old(shots)@).update(k as int, ShotV { locked: true, ..shots_v(old(shots)@)[k as int] }),
    final(shots)@.len() == old(shots)@.len(),
{
    let ghost s0 = shots@;
    let mut sh = shots.remove(k);
    sh.locked = true;
    shots.insert(k, sh);
    assert(shots@ =~= s0.update(k as int, sh));
    proof {
        lemma_replace(s0, k as int, sh);
    }
}

/// The counter of a row: what `{key: n}` reports.
pub open spec fn count_json(key: Seq<char>, n: nat) -> JsonV {
    JsonV::Object(seq![(key, JsonV::Number(dec(n)))])
}

fn count_exec(key: &str, n: u64) -> (r: Json)
    ensures
        jv(r) == count_json(key@, n as nat),
{
    let mut ms: Vec<(String, Json)> = Vec::new();
    ms.push((lit(key), Json::Number(string_of(dec_vec(n).as_slice()))));
    assert(crate::json::jv_members(ms@) =~= seq![(key@, JsonV::Number(dec(n as nat)))]) by {
        reveal_with_fuel(crate::json::jv_members, 2);
    }
    Json::Object(ms)
}

pub open spec fn rows_or_empty(v: Json, keys: Seq<Seq<char>>) -> Seq<Json> {
    match spec_first_array(v, keys) {
        Some(xs) => xs,
        None => seq![],
    }
}

fn canvas_row(shots: &mut Vec<Shot>, row: &Json) -> (n: u64)
    requires
        old(shots)@.len() + 1 < usize::MAX,
    ensures
        shots_v(final(shots)@) == canvas_step(shots_v(old(shots)@), *row).0,
        n as nat == canvas_step(shots_v(old(shots)@), *row).1,
        final(shots)@.len() <= old(shots)@.len() + 1,
        n == 0 ==> *final(shots) == *old(shots),
        n <= 1,
{
    let ghost sv = shots_v(shots@);
    let num = shot_num_of(row, shots.len());
    if !crate::text::filled(num.as_str()) {
        return 0;
    }
    let ks_name: &[&str] = &["name", "title", "slug", "label"];
    assert(strs_view(ks_name@) =~= seq!["name"@, "title"@, "slug"@, "label"@]);
    let name = first_str(row, ks_name);
    let locked = row_flag_exec(row, "locked", "lock");
    let k = upsert_shot(shots, num.as_str());
    let ghost t = shots_v(shots@);
    if crate::text::filled(name.as_str()) && !str_eq(name.as_str(), shots[k].num.as_str()) {
        set_name(shots, k, name);
    }
    if locked {
        set_locked(shots, k);
    }
    apply_camera(shots, k, row);
    assert(shots_v(shots@) =~= canvas_step(sv, *row).0);
    1
}

pub open spec fn canvas_keys() -> Seq<Seq<char>> {
    seq!["shots"@, "cards"@, "items"@]
}

pub open spec fn canvas_done(o: Show, f: Show, v: Json, r: Result<Json, ShowError>) -> bool {
    {
            let rows = spec_first_array(v, canvas_keys());
            let (ss, n) = canvas_fold(shots_v(o.shots@), rows_or_empty(v, canvas_keys()));
            if rows is None || n == 0 {
                fails_with(r, "canvas has no shots — did not invent cards"@) && f == o
            } else {
                &&& r matches Ok(j) && jv(j) == count_json("shots"@, n)
                &&& shots_v(f.shots@) == ss
                &&& f.phase@ == "picture"@
                &&& f == Show { shots: f.shots, phase: f.phase, ..o }
            }
    }
}

/// A canvas import: each row's shot found or added, named, locked and given
/// its camera; the phase becomes `picture`. Refused without rows, or when no
/// row has a shot number.
pub fn import_canvas(show: &mut Show, v: &Json) -> (r: Result<Json, ShowError>)
    requires
        old(show).shots@.len() + rows_or_empty(*v, canvas_keys()).len() + 1 < usize::MAX,
    ensures
        canvas_done(*old(show), *final(show), *v, r),
        final(show).rev == old(show).rev && final(show).updated_at == old(show).updated_at,
{
    let ks: &[&str] = &["shots", "cards", "items"];
    assert(strs_view(ks@) =~= canvas_keys());
    let rows = match first_array(v, ks) {
        Some(a) => a,
        None => return Err(msg("canvas has no shots — did not invent cards")),
    };
    let ghost sv0 = shots_v(show.shots@);
    let ghost show0 = *show;
    let mut n: u64 = 0;
    let mut i: usize = 0;
    assert(rows@.take(0) =~= seq![]);
    while i < rows.len()
        invariant
            i <= rows.len(),
            rows@ == rows_or_empty(*v, canvas_keys()),
            show0.shots@.len() + rows@.len() + 1 < usize::MAX,
            show.shots@.len() <= show0.shots@.len() + i,
            n <= i,
            shots_v(show.shots@) == canvas_fold(sv0, rows@.take(i as int)).0,
            n as nat == canvas_fold(sv0, rows@.take(i as int)).1,
            sv0 == shots_v(show0.shots@),
            *show == (Show { shots: show.shots, ..show0 }),
            n == 0 ==> show.shots == show0.shots,
        decreases rows.len() - i,
    {
        assert(rows@.take(i + 1).drop_last() =~= rows@.take(i as int));
        let m = canvas_row(&mut show.shots, &rows[i]);
        n = n + m;
        i += 1;
    }
    assert(rows@.take(rows.len() as int) =~= rows@);
    if n == 0 {
        return Err(msg("canvas has no shots — did not invent cards"));
    }
    show.phase = lit("picture");
    Ok(count_exec("shots", n))
}

// ---------------------------------------------------------------- cork board

pub open spec fn beats_v(w: Seq<Beat>) -> Seq<(Seq<char>, Seq<char>, Seq<char>)> {
    Seq::new(w.len(), |i: int| (w[i].id@, w[i].act@, w[i].text@))
}

/// One card: a beat with its text (the first of text, title, body, note,
/// beat) and act, unless the text is blank or already on the wall.
pub open spec fn wall_step(w: Seq<(Seq<char>, Seq<char>, Seq<char>)>, card: Json) -> (Seq<(Seq<char>, Seq<char>, Seq<char>)>, nat) {
    let text = spec_first_str(card, seq!["text"@, "title"@, "body"@, "note"@, "beat"@]);
    if text.len() == 0 || exists|j: int| 0 <= j < w.len() && (#[trigger] w[j]).2 == text {
        (w, 0)
    } else {
        (
            w.push(("beat-"@ + dec((w.len() + 1) as nat), spec_first_str(card, seq!["act"@, "column"@, "lane"@]), text)),
            1,
        )
    }
}

pub open spec fn wall_fold(w: Seq<(Seq<char>, Seq<char>, Seq<char>)>, cards: Seq<Json>) -> (Seq<(Seq<char>, Seq<char>, Seq<char>)>, nat)
    decreases cards.len(),
{
    if cards.len() == 0 {
        (w, 0)
    } else {
        let (a, n) = wall_fold(w, cards.drop_last());
        let (b, m) = wall_step(a, cards.last());
        (b, n + m)
    }
}

pub open spec fn wall_keys() -> Seq<Seq<char>> {
    seq!["cards"@, "beats"@, "items"@]
}

fn wall_card(wall: &mut Vec<Beat>, card: &Json) -> (n: u64)
    ensures
        beats_v(final(wall)@) == wall_step(beats_v(old(wall)@), *card).0,
        n as nat == wall_step(beats_v(old(wall)@), *card).1,
        n <= 1,
        n == 0 ==> *final(wall) == *old(wall),
{
    let ghost w = beats_v(wall@);
    let ks: &[&str] = &["text", "title", "body", "note", "beat"];
    assert(strs_view(ks@) =~= seq!["text"@, "title"@, "body"@, "note"@, "beat"@]);
    let text = first_str(card, ks);
    if !crate::text::filled(text.as_str()) {
        return 0;
    }
    let mut j: usize = 0;
    while j < wall.len()
        invariant
            j <= wall.len(),
            w == beats_v(wall@),
            *wall == *old(wall),
            text@ == spec_first_str(*card, seq!["text"@, "title"@, "body"@, "note"@, "beat"@]),
            text@.len() > 0,
            forall|q: int| 0 <= q < j ==> (#[trigger] w[q]).2 != text@,
        decreases wall.len() - j,
    {
        if str_eq(wall[j].text.as_str(), text.as_str()) {
            assert(w[j as int].2 == text@);
            return 0;
        }
        j += 1;
    }
    let ka: &[&str] = &["act", "column", "lane"];
    assert(strs_view(ka@) =~= seq!["act"@, "column"@, "lane"@]);
    let act = first_str(card, ka);
    let id = crate::text::next_id("beat-", wall.len());
    let ghost pre = wall@;
    wall.push(Beat { id, act, text });
    assert(beats_v(wall@) =~= wall_step(w, *card).0);
    1
}

pub open spec fn wall_done(o: Show, f: Show, v: Json, r: Result<Json, ShowError>) -> bool {
    {
            let rows = spec_first_array(v, wall_keys());
            let (w, n) = wall_fold(beats_v(o.wall@), rows_or_empty(v, wall_keys()));
            if rows is None || (n == 0 && o.wall@.len() == 0) {
                fails_with(r, "cork-board has no cards — did not invent beats"@) && f == o
            } else {
                &&& r matches Ok(j) && jv(j) == count_json("beats"@, n)
                &&& beats_v(f.wall@) == w
                &&& f.phase@ == "wall"@
                &&& f == Show { wall: f.wall, phase: f.phase, ..o }
            }
    }
}

/// A cork-board import: each card a beat, in order, with no text twice; the
/// phase becomes `wall`. Refused without cards, or when nothing was added
/// to an empty wall.
pub fn import_wall(show: &mut Show, v: &Json) -> (r: Result<Json, ShowError>)
    ensures
        wall_done(*old(show), *final(show), *v, r),
        final(show).rev == old(show).rev && final(show).updated_at == old(show).updated_at,
{
    let ks: &[&str] = &["cards", "beats", "items"];
    assert(strs_view(ks@) =~= wall_keys());
    let rows = match first_array(v, ks) {
        Some(a) => a,
        None => return Err(msg("cork-board has no cards — did not invent beats")),
    };
    let ghost w0 = beats_v(show.wall@);
    let ghost show0 = *show;
    let mut n: u64 = 0;
    let mut i: usize = 0;
    assert(rows@.take(0) =~= seq![]);
    while i < rows.len()
        invariant
            i <= rows.len(),
            rows@ == rows_or_empty(*v, wall_keys()),
            n <= i,
            beats_v(show.wall@) == wall_fold(w0, rows@.take(i as int)).0,
            n as nat == wall_fold(w0, rows@.take(i as int)).1,
            w0 == beats_v(show0.wall@),
            *show == (Show { wall: show.wall, ..show0 }),
            n == 0 ==> show.wall == show0.wall,
        decreases rows.len() - i,
    {
        assert(rows@.take(i + 1).drop_last() =~= rows@.take(i as int));
        let m = wall_card(&mut show.wall, &rows[i]);
        n = n + m;
        i += 1;
    }
    assert(rows@.take(rows.len() as int) =~= rows@);
    if n == 0 && show.wall.len() == 0 {
        return Err(msg("cork-board has no cards — did not invent beats"));
    }
    show.phase = lit("wall");
    Ok(count_exec("beats", n))
}

// ---------------------------------------------------------------- marks

/// One mark from a row: who (the first of who, name), mark (mark, label),
/// x, z, kind (else `actor`) and notes; skipped without who, or when the
/// same who, mark, x and z are already there. Ids run `mk-1`, `mk-2`, ...
pub open spec fn mark_step(ms: Seq<MarkText>, m: Json) -> (Seq<MarkText>, nat) {
    let who = spec_first_str(m, seq!["who"@, "name"@]);
    let mark = spec_first_str(m, seq!["mark"@, "label"@]);
    let x = spec_first_str(m, seq!["x"@]);
    let z = spec_first_str(m, seq!["z"@]);
    if who.len() == 0 {
        (ms, 0)
    } else if exists|j: int|
        0 <= j < ms.len() && (#[trigger] ms[j]).1 == who && ms[j].3 == mark && ms[j].4 == x && ms[j].5 == z {
        (ms, 0)
    } else {
        (
            ms.push(
                (
                    "mk-"@ + dec((ms.len() + 1) as nat),
                    who,
                    or_else(spec_first_str(m, seq!["kind"@]), "actor"@),
                    mark,
                    x,
                    z,
                    spec_first_str(m, seq!["notes"@]),
                ),
            ),
            1,
        )
    }
}

pub open spec fn marks_fold(ms: Seq<MarkText>, arr: Seq<Json>) -> (Seq<MarkText>, nat)
    decreases arr.len(),
{
    if arr.len() == 0 {
        (ms, 0)
    } else {
        let (a, n) = marks_fold(ms, arr.drop_last());
        let (b, k) = mark_step(a, arr.last());
        (b, n + k)
    }
}

fn push_one_mark(marks: &mut Vec<StageMark>, m: &Json) -> (added: bool)
    ensures
        marks_text(final(marks)@) == mark_step(marks_text(old(marks)@), *m).0,
        added == (mark_step(marks_text(old(marks)@), *m).1 == 1),
        mark_step(marks_text(old(marks)@), *m).1 <= 1,
{
    let ghost mv = marks_text(marks@);
    let kw: &[&str] = &["who", "name"];
    assert(strs_view(kw@) =~= seq!["who"@, "name"@]);
    let km: &[&str] = &["mark", "label"];
    assert(strs_view(km@) =~= seq!["mark"@, "label"@]);
    let who = first_str(m, kw);
    if !crate::text::filled(who.as_str()) {
        return false;
    }
    let mark = first_str(m, km);
    let x = first_str1(m, "x");
    let z = first_str1(m, "z");
    let mut j: usize = 0;
    while j < marks.len()
        invariant
            j <= marks.len(),
            mv == marks_text(marks@),
            *marks == *old(marks),
            who@ == spec_first_str(*m, seq!["who"@, "name"@]),
            mark@ == spec_first_str(*m, seq!["mark"@, "label"@]),
            x@ == spec_first_str(*m, seq!["x"@]),
            z@ == spec_first_str(*m, seq!["z"@]),
            who@.len() > 0,
            forall|q: int|
                0 <= q < j ==> !((#[trigger] mv[q]).1 == who@ && mv[q].3 == mark@ && mv[q].4 == x@ && mv[q].5 == z@),
        decreases marks.len() - j,
    {
        if str_eq(marks[j].who.as_str(), who.as_str()) && str_eq(marks[j].mark.as_str(), mark.as_str())
            && str_eq(marks[j].x.as_str(), x.as_str()) && str_eq(marks[j].z.as_str(), z.as_str()) {
            assert(mv[j as int].1 == who@);
            return false;
        }
        j += 1;
    }
    let kind = or_else_exec(first_str1(m, "kind"), "actor");
    let notes = first_str1(m, "notes");
    let id = crate::text::next_id("mk-", marks.len());
    let ghost pre = marks@;
    marks.push(StageMark { id, who, kind, mark, x, z, notes });
    assert(marks_text(marks@) =~= mark_step(mv, *m).0);
    true
}

fn push_marks_from(marks: &mut Vec<StageMark>, arr: &Vec<Json>) -> (n: u64)
    ensures
        marks_text(final(marks)@) == marks_fold(marks_text(old(marks)@), arr@).0,
        n as nat == marks_fold(marks_text(old(marks)@), arr@).1,
        n <= arr@.len(),
{
    let ghost m0 = marks_text(marks@);
    let ghost l0 = marks@.len();
    let mut n: u64 = 0;
    let mut i: usize = 0;
    assert(arr@.take(0) =~= seq![]);
    while i < arr.len()
        invariant
            i <= arr.len(),
            n <= i,
            marks_text(marks@) == marks_fold(m0, arr@.take(i as int)).0,
            n as nat == marks_fold(m0, arr@.take(i as int)).1,
        decreases arr.len() - i,
    {
        assert(arr@.take(i + 1).drop_last() =~= arr@.take(i as int));
        if push_one_mark(marks, &arr[i]) {
            n = n + 1;
        }
        i += 1;
    }
    assert(arr@.take(arr.len() as int) =~= arr@);
    n
}

fn marks_into(shots: &mut Vec<Shot>, k: usize, arr: &Vec<Json>) -> (n: u64)
    requires
        k < old(shots)@.len(),
    ensures
        final(shots)@.len() == old(shots)@.len(),
        shots_v(final(shots)@) == shots_v(old(shots)@).update(
            k as int,
            ShotV { marks: marks_fold(shots_v(old(shots)@)[k as int].marks, arr@).0, ..shots_v(old(shots)@)[k as int] },
        ),
        n as nat == marks_fold(shots_v(old(shots)@)[k as int].marks, arr@).1,
        n <= arr@.len(),
        n <= usize::MAX,
{
    let ghost s0 = shots@;
    assert(arr@.len() == arr.len());
    let mut sh = shots.remove(k);
    let n = push_marks_from(&mut sh.stage_marks, arr);
    shots.insert(k, sh);
    assert(shots@ =~= s0.update(k as int, sh));
    proof {
        lemma_replace(s0, k as int, sh);
    }
    n
}

// ---------------------------------------------------------------- blockout

pub open spec fn row_marks(ms: Seq<MarkText>, row: Json) -> (Seq<MarkText>, nat) {
    match spec_first_array(row, seq!["marks"@, "stage_marks"@]) {
        Some(a) => marks_fold(ms, a),
        None => (ms, 0),
    }
}

/// One blockout row: its shot (found or added) takes the row's camera, then
/// its `camera` object's, then the row's marks.
pub open spec fn blockout_step(ss: Seq<ShotV>, row: Json) -> (Seq<ShotV>, nat) {
    let num = spec_shot_num_of(row, ss.len());
    if num.len() == 0 {
        (ss, 0)
    } else {
        let (t, k) = upsert_v(ss, num);
        let s1 = camera_v(t[k], row);
        let s2 = match member(row, "camera"@) {
            Some(c) => camera_v(s1, c),
            None => s1,
        };
        let (ms, c) = row_marks(s2.marks, row);
        (t.update(k, ShotV { marks: ms, ..s2 }), c)
    }
}

pub open spec fn blockout_fold(ss: Seq<ShotV>, rows: Seq<Json>) -> (Seq<ShotV>, nat)
    decreases rows.len(),
{
    if rows.len() == 0 {
        (ss, 0)
    } else {
        let (a, n) = blockout_fold(ss, rows.drop_last());
        let (b, m) = blockout_step(a, rows.last());
        (b, n + m)
    }
}

/// The marks listed at the top: on the shot named by `shot` (else `num`,
/// else `01`), found or added.
pub open spec fn top_marks(ss: Seq<ShotV>, v: Json) -> (Seq<ShotV>, nat) {
    match spec_first_array(v, seq!["marks"@]) {
        Some(arr) => {
            let num = or_else(spec_first_str(v, seq!["shot"@, "num"@]), "01"@);
            let (t, k) = upsert_v(ss, num);
            let (ms, c) = marks_fold(t[k].marks, arr);
            (t.update(k, ShotV { marks: ms, ..t[k] }), c)
        },
        None => (ss, 0),
    }
}

pub open spec fn no_marks_msg() -> Seq<char> {
    "no 2D marks — Blockout 3D stays in Blockout. Did not invent glTF."@
}

pub open spec fn any_staged(ss: Seq<ShotV>) -> bool {
    exists|i: int| 0 <= i < ss.len() && ((#[trigger] ss[i]).marks.len() > 0 || ss[i].size.len() > 0)
}

/// A blockout import: the shots' rows, then the top-level marks. Refused
/// when it holds only 3D data, or when no mark came in and no shot has
/// marks or a size.
pub open spec fn spec_blockout(ss: Seq<ShotV>, v: Json) -> Result<(Seq<ShotV>, nat), Seq<char>> {
    if spec_looks_3d_only(v) && spec_first_array(v, seq!["shots"@, "marks"@, "cameras"@]) is None {
        Err(no_marks_msg())
    } else {
        let (a, n) = match spec_first_array(v, seq!["shots"@]) {
            Some(rows) => blockout_fold(ss, rows),
            None => (ss, 0),
        };
        let (b, m) = top_marks(a, v);
        if n + m == 0 && !any_staged(b) {
            Err(no_marks_msg())
        } else {
            Ok((b, n + m))
        }
    }
}

fn blockout_row(shots: &mut Vec<Shot>, row: &Json) -> (n: u64)
    requires
        old(shots)@.len() + 1 < usize::MAX,
    ensures
        shots_v(final(shots)@) == blockout_step(shots_v(old(shots)@), *row).0,
        n as nat == blockout_step(shots_v(old(shots)@), *row).1,
        n <= usize::MAX,
        final(shots)@.len() <= old(shots)@.len() + 1,
{
    let ghost sv = shots_v(shots@);
    let num = shot_num_of(row, shots.len());
    if !crate::text::filled(num.as_str()) {
        return 0;
    }
    let k = upsert_shot(shots, num.as_str());
    apply_camera(shots, k, row);
    match get_member(row, "camera") {
        Some(c) => apply_camera(shots, k, c),
        None => {},
    }
    let ks: &[&str] = &["marks", "stage_marks"];
    assert(strs_view(ks@) =~= seq!["marks"@, "stage_marks"@]);
    let n = match first_array(row, ks) {
        Some(a) => marks_into(shots, k, a),
        None => 0,
    };
    assert(shots_v(shots@) =~= blockout_step(sv, *row).0);
    n
}

fn any_staged_exec(shots: &Vec<Shot>) -> (r: bool)
    ensures
        r == any_staged(shots_v(shots@)),
{
    let ghost sv = shots_v(shots@);
    let mut i: usize = 0;
    while i < shots.len()
        invariant
            i <= shots.len(),
            sv == shots_v(shots@),
            forall|j: int| 0 <= j < i ==> !((#[trigger] sv[j]).marks.len() > 0 || sv[j].size.len() > 0),
        decreases shots.len() - i,
    {
        if shots[i].stage_marks.len() > 0 || crate::text::filled(shots[i].size.as_str()) {
            assert(sv[i as int].marks.len() > 0 || sv[i as int].size.len() > 0);
            return true;
        }
        i += 1;
    }
    false
}

pub open spec fn blockout_done(o: Show, f: Show, v: Json, r: Result<Json, ShowError>) -> bool {
    match spec_blockout(shots_v(o.shots@), v) {
            Err(m) => fails_with(r, m),
            Ok((ss, n)) => {
                &&& r matches Ok(j) && jv(j) == count_json("marks"@, n)
                &&& shots_v(f.shots@) == ss
                &&& f.phase@ == "stage"@
                &&& f == Show { shots: f.shots, phase: f.phase, ..o }
            },
    }
}

pub fn import_blockout(show: &mut Show, v: &Json) -> (r: Result<Json, ShowError>)
    requires
        old(show).shots@.len() + rows_or_empty(*v, seq!["shots"@]).len() + 2 < usize::MAX,
    ensures
        blockout_done(*old(show), *final(show), *v, r),
        final(show).rev == old(show).rev && final(show).updated_at == old(show).updated_at,
{
    let k3: &[&str] = &["shots", "marks", "cameras"];
    assert(strs_view(k3@) =~= seq!["shots"@, "marks"@, "cameras"@]);
    if looks_3d_only(v) && first_array(v, k3).is_none() {
        return Err(msg("no 2D marks — Blockout 3D stays in Blockout. Did not invent glTF."));
    }
    let ghost sv0 = shots_v(show.shots@);
    let ghost show0 = *show;
    let ks: [&str; 1] = ["shots"];
    assert(strs_view(ks@) =~= seq!["shots"@]);
    let mut n: u128 = 0;
    match first_array(v, ks.as_slice()) {
        Some(rows) => {
            let mut i: usize = 0;
            assert(rows@.take(0) =~= seq![]);
            while i < rows.len()
                invariant
                    i <= rows.len(),
                    rows@ == rows_or_empty(*v, seq!["shots"@]),
                    show0.shots@.len() + rows@.len() + 2 < usize::MAX,
                    show.shots@.len() <= show0.shots@.len() + i,
                    n <= i * 0x1_0000_0000_0000_0000u128,
                    shots_v(show.shots@) == blockout_fold(sv0, rows@.take(i as int)).0,
                    n as nat == blockout_fold(sv0, rows@.take(i as int)).1,
                    *show == (Show { shots: show.shots, ..show0 }),
                decreases rows.len() - i,
            {
                assert(rows@.take(i + 1).drop_last() =~= rows@.take(i as int));
                let m = blockout_row(&mut show.shots, &rows[i]);
                n = n + m as u128;
                i += 1;
            }
            assert(rows@.take(rows.len() as int) =~= rows@);
        },
        None => {},
    }
    let ghost after_rows = shots_v(show.shots@);
    let km: [&str; 1] = ["marks"];
    assert(strs_view(km@) =~= seq!["marks"@]);
    let mut m: u64 = 0;
    match first_array(v, km.as_slice()) {
        Some(arr) => {
            let kn: &[&str] = &["shot", "num"];
            assert(strs_view(kn@) =~= seq!["shot"@, "num"@]);
            let num = or_else_exec(first_str(v, kn), "01");
            let k = upsert_shot(&mut show.shots, num.as_str());
            m = marks_into(&mut show.shots, k, arr);
        },
        None => {},
    }
    assert(shots_v(show.shots@) == top_marks(after_rows, *v).0);
    assert(m <= usize::MAX);
    let total: u128 = n + m as u128;
    if total == 0 && !any_staged_exec(&show.shots) {
        return Err(msg("no 2D marks — Blockout 3D stays in Blockout. Did not invent glTF."));
    }
    show.phase = lit("stage");
    Ok(count_wide("marks", total))
}

fn count_wide(key: &str, n: u128) -> (r: Json)
    ensures
        jv(r) == count_json(key@, n as nat),
{
    let mut ms: Vec<(String, Json)> = Vec::new();
    ms.push((lit(key), Json::Number(string_of(crate::text::dec_wide(n).as_slice()))));
    assert(crate::json::jv_members(ms@) =~= seq![(key@, JsonV::Number(dec(n as nat)))]) by {
        reveal_with_fuel(crate::json::jv_members, 2);
    }
    Json::Object(ms)
}

// ---------------------------------------------------------------- storyboard references

pub open spec fn opt_at(xs: Seq<Option<String>>, i: int) -> Option<Seq<char>> {
    if 0 <= i < xs.len() {
        ov(xs[i])
    } else {
        None
    }
}

/// One board: its shot (found or added) gets the row's prompt (the first of
/// prompt, canon, text) and the row's still, when the caller found one.
pub open spec fn sbref_step(ss: Seq<ShotV>, row: Json, still: Option<Seq<char>>) -> (Seq<ShotV>, nat) {
    let num = spec_shot_num_of(row, ss.len());
    if num.len() == 0 {
        (ss, 0)
    } else {
        let (t, k) = upsert_v(ss, num);
        let prompt = spec_first_str(row, seq!["prompt"@, "canon"@, "text"@]);
        let s1 = ShotV { prompt: or_else(prompt, t[k].prompt), ..t[k] };
        let s2 = match still {
            Some(p) => ShotV { still_path: Some(p), ..s1 },
            None => s1,
        };
        (t.update(k, s2), 1)
    }
}

/// The boards folded in order; row `i` has the still `stills[i]`.
pub open spec fn sbref_fold(ss: Seq<ShotV>, rows: Seq<Json>, stills: Seq<Option<String>>) -> (Seq<ShotV>, nat)
    decreases rows.len(),
{
    if rows.len() == 0 {
        (ss, 0)
    } else {
        let (a, n) = sbref_fold(ss, rows.drop_last(), stills);
        let (b, m) = sbref_step(a, rows.last(), opt_at(stills, rows.len() - 1));
        (b, n + m)
    }
}

pub open spec fn sbref_keys() -> Seq<Seq<char>> {
    seq!["shots"@, "boards"@, "stills"@, "items"@]
}

fn set_prompt_still(shots: &mut Vec<Shot>, k: usize, prompt: String, still: Option<String>)
    requires
        k < old(shots)@.len(),
    ensures
        final(shots)@.len() == old(shots)@.len(),
        shots_v(final(shots)@) == shots_v(old(shots)@).update(
            k as int,
            ({
                let s1 = ShotV { prompt: or_else(prompt@, shots_v(old(shots)@)[k as int].prompt), ..shots_v(old(shots)@)[k as int] };
                match ov(still) {
                    Some(p) => ShotV { still_path: Some(p), ..s1 },
                    None => s1,
                }
            }),
        ),
{
    let ghost s0 = shots@;
    let mut sh = shots.remove(k);
    if crate::text::filled(prompt.as_str()) {
        sh.prompt = prompt;
    }
    match still {
        Some(p) => {
            sh.still_path = Some(p);
        },
        None => {},
    }
    shots.insert(k, sh);
    assert(shots@ =~= s0.update(k as int, sh));
    proof {
        lemma_replace(s0, k as int, sh);
    }
}

fn copy_opt_at(xs: &Vec<Option<String>>, i: usize) -> (r: Option<String>)
    ensures
        ov(r) == opt_at(xs@, i as int),
{
    if i < xs.len() {
        crate::text::copy_opt(&xs[i])
    } else {
        None
    }
}

pub open spec fn sbref_done(o: Show, f: Show, v: Json, stills: Seq<Option<String>>, r: Result<Json, ShowError>) -> bool {
    {
            let rows = spec_first_array(v, sbref_keys());
            let (ss, n) = sbref_fold(shots_v(o.shots@), rows_or_empty(v, sbref_keys()), stills);
            if rows is None || n == 0 {
                fails_with(r, "sbref has no boards — did not invent a still"@) && f == o
            } else {
                &&& r matches Ok(j) && jv(j) == count_json("shots"@, n)
                &&& shots_v(f.shots@) == ss
                &&& f.phase@ == "board"@
                &&& f == Show { shots: f.shots, phase: f.phase, ..o }
            }
    }
}

/// A storyboard-reference import: each board's shot gets its prompt and its
/// still (`stills[i]` for row `i`: the jailed file the caller found, if
/// any); the phase becomes `board`. Refused without boards, or when no row
/// has a shot number.
pub fn import_sbref(show: &mut Show, v: &Json, stills: &Vec<Option<String>>) -> (r: Result<Json, ShowError>)
    requires
        old(show).shots@.len() + rows_or_empty(*v, sbref_keys()).len() + 1 < usize::MAX,
    ensures
        sbref_done(*old(show), *final(show), *v, stills@, r),
        final(show).rev == old(show).rev && final(show).updated_at == old(show).updated_at,
{
    let ks: &[&str] = &["shots", "boards", "stills", "items"];
    assert(strs_view(ks@) =~= sbref_keys());
    let rows = match first_array(v, ks) {
        Some(a) => a,
        None => return Err(msg("sbref has no boards — did not invent a still")),
    };
    let ghost sv0 = shots_v(show.shots@);
    let ghost show0 = *show;
    let mut n: u64 = 0;
    let mut i: usize = 0;
    assert(rows@.take(0) =~= seq![]);
    while i < rows.len()
        invariant
            i <= rows.len(),
            rows@ == rows_or_empty(*v, sbref_keys()),
            show0.shots@.len() + rows@.len() + 1 < usize::MAX,
            show.shots@.len() <= show0.shots@.len() + i,
            n <= i,
            shots_v(show.shots@) == sbref_fold(sv0, rows@.take(i as int), stills@).0,
            n as nat == sbref_fold(sv0, rows@.take(i as int), stills@).1,
            *show == (Show { shots: show.shots, ..show0 }),
            n == 0 ==> show.shots == show0.shots,
        decreases rows.len() - i,
    {
        assert(rows@.take(i + 1).drop_last() =~= rows@.take(i as int));
        let row = &rows[i];
        let num = shot_num_of(row, show.shots.len());
        if crate::text::filled(num.as_str()) {
            let kp: &[&str] = &["prompt", "canon", "text"];
            assert(strs_view(kp@) =~= seq!["prompt"@, "canon"@, "text"@]);
            let prompt = first_str(row, kp);
            let still = copy_opt_at(stills, i);
            let k = upsert_shot(&mut show.shots, num.as_str());
            set_prompt_still(&mut show.shots, k, prompt, still);
            n = n + 1;
        }
        i += 1;
    }
    assert(rows@.take(rows.len() as int) =~= rows@);
    if n == 0 {
        return Err(msg("sbref has no boards — did not invent a still"));
    }
    show.phase = lit("board");
    Ok(count_exec("shots", n))
}

// ---------------------------------------------------------------- slate projects

/// The default target a slate project names (`target`, else
/// `default_target`), trimmed; none when blank.
pub open spec fn slate_target_of(v: Json) -> Option<Seq<char>> {
    let x = match member(v, "target"@) {
        Some(x) => Some(x),
        None => member(v, "default_target"@),
    };
    match text_of(x) {
        Some(s) => if trim(s).len() > 0 {
            Some(trim(s))
        } else {
            None
        },
        None => None,
    }
}

/// The per-target rewrites of a row put in, in order: each string value
/// that is not blank, under its key.
pub open spec fn targets_put(ts: Seq<(Seq<char>, Seq<char>)>, ms: Seq<(String, Json)>) -> Seq<(Seq<char>, Seq<char>)>
    decreases ms.len(),
{
    if ms.len() == 0 {
        ts
    } else {
        let a = targets_put(ts, ms.drop_last());
        match ms.last().1 {
            Json::Str(s) => if trim(s@).len() > 0 {
                put(a, ms.last().0@, s@)
            } else {
                a
            },
            _ => a,
        }
    }
}

/// The LoRAs of a row added, in order: each with an id (the first of id,
/// name) not yet there, its weight (else `1.0`) and model.
pub open spec fn loras_add(ls: Seq<(Seq<char>, (Seq<char>, Seq<char>))>, arr: Seq<Json>) -> Seq<(Seq<char>, (Seq<char>, Seq<char>))>
    decreases arr.len(),
{
    if arr.len() == 0 {
        ls
    } else {
        let a = loras_add(ls, arr.drop_last());
        let l = arr.last();
        let id = spec_first_str(l, seq!["id"@, "name"@]);
        if id.len() == 0 || exists|j: int| 0 <= j < a.len() && (#[trigger] a[j]).0 == id {
            a
        } else {
            a.push((id, (or_else(spec_first_str(l, seq!["weight"@]), "1.0"@), spec_first_str(l, seq!["model"@]))))
        }
    }
}

pub open spec fn row_targets(row: Json) -> Seq<(String, Json)> {
    let x = match member(row, "targets"@) {
        Some(x) => Some(x),
        None => member(row, "prompt_targets"@),
    };
    match x {
        Some(Json::Object(ms)) => ms@,
        _ => seq![],
    }
}

pub open spec fn row_loras(row: Json) -> Seq<Json> {
    match member(row, "loras"@) {
        Some(Json::Array(ls)) => ls@,
        _ => seq![],
    }
}

/// One shot of a slate project: its prompt, its per-target rewrites and its
/// LoRAs.
pub open spec fn slate_step(ss: Seq<ShotV>, row: Json) -> (Seq<ShotV>, nat) {
    let num = spec_shot_num_of(row, ss.len());
    if num.len() == 0 {
        (ss, 0)
    } else {
        let (t, k) = upsert_v(ss, num);
        let prompt = spec_first_str(row, seq!["prompt"@, "canon"@, "text"@]);
        let s1 = ShotV { prompt: or_else(prompt, t[k].prompt), ..t[k] };
        let s2 = ShotV { targets: targets_put(s1.targets, row_targets(row)), ..s1 };
        let s3 = ShotV { loras: loras_add(s2.loras, row_loras(row)), ..s2 };
        (t.update(k, s3), 1)
    }
}

pub open spec fn slate_fold(ss: Seq<ShotV>, rows: Seq<Json>) -> (Seq<ShotV>, nat)
    decreases rows.len(),
{
    if rows.len() == 0 {
        (ss, 0)
    } else {
        let (a, n) = slate_fold(ss, rows.drop_last());
        let (b, m) = slate_step(a, rows.last());
        (b, n + m)
    }
}

fn put_targets_from(ts: &mut Vec<PromptTarget>, ms: &Vec<(String, Json)>)
    ensures
        targets_text(final(ts)@) == targets_put(targets_text(old(ts)@), ms@),
{
    let ghost t0 = targets_text(ts@);
    let mut i: usize = 0;
    assert(ms@.take(0) =~= seq![]);
    while i < ms.len()
        invariant
            i <= ms.len(),
            targets_text(ts@) == targets_put(t0, ms@.take(i as int)),
        decreases ms.len() - i,
    {
        assert(ms@.take(i + 1).drop_last() =~= ms@.take(i as int));
        match &ms[i].1 {
            Json::Str(s) => {
                if trim_vec(&chars_of(s.as_str())).len() > 0 {
                    put_target(ts, ms[i].0.as_str(), s.as_str());
                }
            },
            _ => {},
        }
        i += 1;
    }
    assert(ms@.take(ms.len() as int) =~= ms@);
}

fn add_loras_from(ls: &mut Vec<SlateLora>, arr: &Vec<Json>)
    ensures
        loras_text(final(ls)@) == loras_add(loras_text(old(ls)@), arr@),
{
    let ghost l0 = loras_text(ls@);
    let mut i: usize = 0;
    assert(arr@.take(0) =~= seq![]);
    while i < arr.len()
        invariant
            i <= arr.len(),
            loras_text(ls@) == loras_add(l0, arr@.take(i as int)),
        decreases arr.len() - i,
    {
        assert(arr@.take(i + 1).drop_last() =~= arr@.take(i as int));
        let l = &arr[i];
        let ki: &[&str] = &["id", "name"];
        assert(strs_view(ki@) =~= seq!["id"@, "name"@]);
        let id = first_str(l, ki);
        if crate::text::filled(id.as_str()) {
            let ghost cur = loras_text(ls@);
            let mut j: usize = 0;
            let mut seen = false;
            while j < ls.len()
                invariant
                    j <= ls.len(),
                    cur == loras_text(ls@),
                    !seen ==> forall|q: int| 0 <= q < j ==> (#[trigger] cur[q]).0 != id@,
                    seen ==> exists|q: int| 0 <= q < cur.len() && (#[trigger] cur[q]).0 == id@,
                decreases ls.len() - j,
            {
                if !seen && str_eq(ls[j].id.as_str(), id.as_str()) {
                    assert(cur[j as int].0 == id@);
                    seen = true;
                }
                j += 1;
            }
            if !seen {
                let weight = or_else_exec(first_str1(l, "weight"), "1.0");
                let model = first_str1(l, "model");
                let ghost pre = ls@;
                ls.push(SlateLora { id, weight, model });
                assert(loras_text(ls@) =~= loras_text(pre).push((id@, (weight@, model@))));
            }
        }
        i += 1;
    }
    assert(arr@.take(arr.len() as int) =~= arr@);
}

fn slate_edit(shots: &mut Vec<Shot>, k: usize, row: &Json, prompt: String)
    requires
        k < old(shots)@.len(),
    ensures
        final(shots)@.len() == old(shots)@.len(),
        shots_v(final(shots)@) == shots_v(old(shots)@).update(
            k as int,
            ({
                let s0 = shots_v(old(shots)@)[k as int];
                let s1 = ShotV { prompt: or_else(prompt@, s0.prompt), ..s0 };
                let s2 = ShotV { targets: targets_put(s1.targets, row_targets(*row)), ..s1 };
                ShotV { loras: loras_add(s2.loras, row_loras(*row)), ..s2 }
            }),
        ),
{
    let ghost s0 = shots@;
    let mut sh = shots.remove(k);
    if crate::text::filled(prompt.as_str()) {
        sh.prompt = prompt;
    }
    let tx = match get_member(row, "targets") {
        Some(x) => Some(x),
        None => get_member(row, "prompt_targets"),
    };
    match tx {
        Some(Json::Object(ms)) => put_targets_from(&mut sh.prompt_targets, ms),
        _ => {
            assert(row_targets(*row) =~= seq![]);
        },
    }
    match get_member(row, "loras") {
        Some(Json::Array(ls)) => add_loras_from(&mut sh.loras, ls),
        _ => {
            assert(row_loras(*row) =~= seq![]);
        },
    }
    shots.insert(k, sh);
    assert(shots@ =~= s0.update(k as int, sh));
    proof {
        lemma_replace(s0, k as int, sh);
    }
}

pub open spec fn slate_keys() -> Seq<Seq<char>> {
    seq!["shots"@, "items"@]
}

pub open spec fn slate_done(o: Show, f: Show, v: Json, r: Result<Json, ShowError>) -> bool {
    {
            let rows = spec_first_array(v, slate_keys());
            let (ss, n) = slate_fold(shots_v(o.shots@), rows_or_empty(v, slate_keys()));
            if rows is None || n == 0 {
                fails_with(r, "slate has no shots — did not invent a prompt"@) && f == o
            } else {
                &&& r matches Ok(j) && jv(j) == count_json("shots"@, n)
                &&& shots_v(f.shots@) == ss
                &&& ov(f.slate.default_target) == match slate_target_of(v) {
                    Some(t) => Some(t),
                    None => ov(o.slate.default_target),
                }
                &&& f.slate.loras == o.slate.loras
                &&& f.phase@ == "slate"@
                &&& f == Show {
                    shots: f.shots,
                    slate: f.slate,
                    phase: f.phase,
                    ..o
                }
            }
    }
}

/// A slate-project import: the default target it names, and each shot's
/// prompt, rewrites and LoRAs; the phase becomes `slate`. Refused without
/// shots, or when no row has a shot number.
pub fn import_slate(show: &mut Show, v: &Json) -> (r: Result<Json, ShowError>)
    requires
        old(show).shots@.len() + rows_or_empty(*v, slate_keys()).len() + 1 < usize::MAX,
    ensures
        slate_done(*old(show), *final(show), *v, r),
        final(show).rev == old(show).rev && final(show).updated_at == old(show).updated_at,
{
    let ks: &[&str] = &["shots", "items"];
    assert(strs_view(ks@) =~= slate_keys());
    let rows = match first_array(v, ks) {
        Some(a) => a,
        None => return Err(msg("slate has no shots — did not invent a prompt")),
    };
    let ghost sv0 = shots_v(show.shots@);
    let ghost show0 = *show;
    let mut n: u64 = 0;
    let mut i: usize = 0;
    assert(rows@.take(0) =~= seq![]);
    while i < rows.len()
        invariant
            i <= rows.len(),
            rows@ == rows_or_empty(*v, slate_keys()),
            show0.shots@.len() + rows@.len() + 1 < usize::MAX,
            show.shots@.len() <= show0.shots@.len() + i,
            n <= i,
            shots_v(show.shots@) == slate_fold(sv0, rows@.take(i as int)).0,
            n as nat == slate_fold(sv0, rows@.take(i as int)).1,
            *show == (Show { shots: show.shots, ..show0 }),
            n == 0 ==> show.shots == show0.shots,
        decreases rows.len() - i,
    {
        assert(rows@.take(i + 1).drop_last() =~= rows@.take(i as int));
        let row = &rows[i];
        let num = shot_num_of(row, show.shots.len());
        if crate::text::filled(num.as_str()) {
            let kp: &[&str] = &["prompt", "canon", "text"];
            assert(strs_view(kp@) =~= seq!["prompt"@, "canon"@, "text"@]);
            let prompt = first_str(row, kp);
            let k = upsert_shot(&mut show.shots, num.as_str());
            slate_edit(&mut show.shots, k, row, prompt);
            n = n + 1;
        }
        i += 1;
    }
    assert(rows@.take(rows.len() as int) =~= rows@);
    if n == 0 {
        return Err(msg("slate has no shots — did not invent a prompt"));
    }
    let tx = match get_member(v, "target") {
        Some(x) => Some(x),
        None => get_member(v, "default_target"),
    };
    match text_exec(tx) {
        Some(t) => {
            let tt = trim_vec(&chars_of(t.as_str()));
            if tt.len() > 0 {
                show.slate.default_target = Some(string_of(tt.as_slice()));
            }
        },
        None => {},
    }
    show.phase = lit("slate");
    Ok(count_exec("shots", n))
}

// ---------------------------------------------------------------- circle-take logs

/// What the caller found on disk for a row: the media path as resolved (the
/// path as written, or next to the source when only that exists) and the
/// length it read, in whole milliseconds.
#[derive(Debug)]
pub struct RowMedia {
    pub path: Option<String>,
    pub duration_ms: Option<u64>,
}

pub type TakeV = (Seq<char>, Seq<char>, Seq<char>, Seq<char>, Seq<char>, Option<u64>, bool);

pub open spec fn take_v(t: Take) -> TakeV {
    (t.id@, t.shot_id@, t.path@, t.filename@, t.sha256@, t.duration_ms, t.circled)
}

pub open spec fn takes_v(ts: Seq<Take>) -> Seq<TakeV> {
    Seq::new(ts.len(), |i: int| take_v(ts[i]))
}

pub open spec fn is_sep(c: char) -> bool {
    c == '/' || c == '\\'
}

/// What follows the last `/` or `\` of a path (all of it without one).
pub open spec fn after_sep(p: Seq<char>) -> Seq<char>
    decreases p.len(),
{
    if p.len() == 0 {
        seq![]
    } else if is_sep(p.last()) {
        seq![]
    } else {
        after_sep(p.drop_last()).push(p.last())
    }
}

fn after_sep_exec(p: &Vec<char>) -> (r: Vec<char>)
    ensures
        r@ == after_sep(p@),
{
    let mut i = p.len();
    assert(p@.take(i as int) =~= p@);
    assert(p@ + p@.subrange(i as int, p@.len() as int) =~= p@);
    while i > 0
        invariant
            i <= p.len(),
            after_sep(p@) == after_sep(p@.take(i as int)) + p@.subrange(i as int, p@.len() as int),
            forall|j: int| i <= j < p@.len() ==> !is_sep(#[trigger] p@[j]),
        decreases i,
    {
        let ghost t = p@.take(i as int);
        assert(t.drop_last() =~= p@.take(i - 1));
        if p[i - 1] == '/' || p[i - 1] == '\\' {
            assert(after_sep(t) == Seq::<char>::empty());
            assert(p@.subrange(i as int, p@.len() as int) =~= after_sep(p@));
            return crate::text::sub_vec(p, i, p.len());
        }
        assert(after_sep(t) == after_sep(p@.take(i - 1)).push(p@[i - 1]));
        assert(after_sep(p@.take(i - 1)).push(p@[i - 1]) + p@.subrange(i as int, p@.len() as int)
            =~= after_sep(p@.take(i - 1)) + p@.subrange(i - 1, p@.len() as int));
        i -= 1;
    }
    assert(p@.take(0) =~= seq![]);
    assert(p@.subrange(0, p@.len() as int) =~= p@);
    crate::text::sub_vec(p, 0, p.len())
}

pub open spec fn media_at(media: Seq<RowMedia>, i: int) -> (Option<Seq<char>>, Option<u64>) {
    if 0 <= i < media.len() {
        (ov(media[i].path), media[i].duration_ms)
    } else {
        (None, None)
    }
}

pub open spec fn prefix_msg(filename: Seq<char>) -> Seq<char> {
    "filename must start with a shot number: "@ + filename
}

/// One take row: its file name (the first of filename, name, else the last
/// part of its path); its shot, by the name's leading digits (found or
/// added); skipped when the same sha256, or the same name at the same path,
/// is already there. Ids run `tk-1`, `tk-2`, ... unless the row has one.
pub open spec fn ctake_step(
    ss: Seq<ShotV>,
    ts: Seq<TakeV>,
    row: Json,
    m: (Option<Seq<char>>, Option<u64>),
) -> Result<(Seq<ShotV>, Seq<TakeV>, nat), Seq<char>> {
    let f = spec_first_str(row, seq!["filename"@, "name"@]);
    let filename = if f.len() > 0 {
        f
    } else {
        after_sep(spec_first_str(row, seq!["path"@, "file"@]))
    };
    if filename.len() == 0 {
        Ok((ss, ts, 0))
    } else {
        match crate::model::spec_filename_shot_prefix(filename) {
            None => Err(prefix_msg(filename)),
            Some(prefix) => {
                let (t, k) = upsert_v(ss, prefix);
                let path = match m.0 {
                    Some(p) => p,
                    None => spec_first_str(row, seq!["path"@, "file"@]),
                };
                let sha = spec_first_str(row, seq!["sha256"@, "sha"@]);
                if exists|j: int|
                    0 <= j < ts.len() && ((sha.len() > 0 && (#[trigger] ts[j]).4 == sha) || (ts[j].3 == filename
                        && ts[j].2 == path)) {
                    Ok((t, ts, 0))
                } else {
                    let id = or_else(spec_first_str(row, seq!["id"@]), "tk-"@ + dec((ts.len() + 1) as nat));
                    Ok((t, ts.push((id, t[k].id, path, filename, sha, m.1, row_flag(row, "circled"@, "circle"@))), 1))
                }
            },
        }
    }
}

pub open spec fn ctake_fold(
    ss: Seq<ShotV>,
    ts: Seq<TakeV>,
    rows: Seq<Json>,
    media: Seq<RowMedia>,
) -> Result<(Seq<ShotV>, Seq<TakeV>, nat), Seq<char>>
    decreases rows.len(),
{
    if rows.len() == 0 {
        Ok((ss, ts, 0))
    } else {
        match ctake_fold(ss, ts, rows.drop_last(), media) {
            Err(e) => Err(e),
            Ok((a, b, n)) => match ctake_step(a, b, rows.last(), media_at(media, rows.len() - 1)) {
                Err(e) => Err(e),
                Ok((c, d, m)) => Ok((c, d, n + m)),
            },
        }
    }
}

proof fn lemma_ctake_err_sticks(ss: Seq<ShotV>, ts: Seq<TakeV>, rows: Seq<Json>, media: Seq<RowMedia>, j: int)
    requires
        0 <= j <= rows.len(),
        ctake_fold(ss, ts, rows.take(j), media) is Err,
    ensures
        ctake_fold(ss, ts, rows, media) == ctake_fold(ss, ts, rows.take(j), media),
    decreases rows.len() - j,
{
    if j < rows.len() {
        assert(rows.take(j + 1).drop_last() =~= rows.take(j));
        lemma_ctake_err_sticks(ss, ts, rows, media, j + 1);
    } else {
        assert(rows.take(j) =~= rows);
    }
}

pub open spec fn ctake_keys() -> Seq<Seq<char>> {
    seq!["takes"@, "clips"@, "items"@]
}

fn take_dup(takes: &Vec<Take>, sha: &String, filename: &String, path: &String) -> (r: bool)
    ensures
        r == exists|j: int|
            0 <= j < takes@.len() && ((sha@.len() > 0 && (#[trigger] takes_v(takes@)[j]).4 == sha@) || (
            takes_v(takes@)[j].3 == filename@ && takes_v(takes@)[j].2 == path@)),
{
    let ghost tv = takes_v(takes@);
    let mut j: usize = 0;
    while j < takes.len()
        invariant
            j <= takes.len(),
            tv == takes_v(takes@),
            forall|q: int|
                0 <= q < j ==> !((sha@.len() > 0 && (#[trigger] tv[q]).4 == sha@) || (tv[q].3 == filename@ && tv[q].2 == path@)),
        decreases takes.len() - j,
    {
        if (crate::text::filled(sha.as_str()) && str_eq(takes[j].sha256.as_str(), sha.as_str())) || (str_eq(
            takes[j].filename.as_str(),
            filename.as_str(),
        ) && str_eq(takes[j].path.as_str(), path.as_str())) {
            assert((sha@.len() > 0 && tv[j as int].4 == sha@) || (tv[j as int].3 == filename@ && tv[j as int].2 == path@));
            return true;
        }
        j += 1;
    }
    false
}

fn media_at_exec(media: &Vec<RowMedia>, i: usize) -> (r: (Option<String>, Option<u64>))
    ensures
        (ov(r.0), r.1) == media_at(media@, i as int),
{
    if i < media.len() {
        (crate::text::copy_opt(&media[i].path), media[i].duration_ms)
    } else {
        (None, None)
    }
}

fn ctake_row(show: &mut Show, row: &Json, m: (Option<String>, Option<u64>)) -> (r: Result<u64, ShowError>)
    requires
        old(show).shots@.len() + 1 < usize::MAX,
    ensures
        *final(show) == (Show { shots: final(show).shots, takes: final(show).takes, ..*old(show) }),
        match ctake_step(shots_v(old(show).shots@), takes_v(old(show).takes@), *row, (ov(m.0), m.1)) {
            Err(e) => fails_with(r, e),
            Ok((ss, ts, n)) => {
                &&& r matches Ok(k) && k as nat == n
                &&& shots_v(final(show).shots@) == ss
                &&& takes_v(final(show).takes@) == ts
                &&& *final(show) == Show { shots: final(show).shots, takes: final(show).takes, ..*old(show) }
                &&& final(show).shots@.len() <= old(show).shots@.len() + 1
                &&& n <= 1
            },
        },
{
    let kf: &[&str] = &["filename", "name"];
    assert(strs_view(kf@) =~= seq!["filename"@, "name"@]);
    let kp: &[&str] = &["path", "file"];
    assert(strs_view(kp@) =~= seq!["path"@, "file"@]);
    let f = first_str(row, kf);
    let filename = if crate::text::filled(f.as_str()) {
        f
    } else {
        let p = first_str(row, kp);
        string_of(after_sep_exec(&chars_of(p.as_str())).as_slice())
    };
    if !crate::text::filled(filename.as_str()) {
        return Ok(0);
    }
    let prefix = match crate::model::filename_shot_prefix(filename.as_str()) {
        Some(p) => p,
        None => return Err(msg2("filename must start with a shot number: ", filename.as_str())),
    };
    let k = upsert_shot(&mut show.shots, prefix.as_str());
    let path = match m.0 {
        Some(p) => p,
        None => first_str(row, kp),
    };
    let ks: &[&str] = &["sha256", "sha"];
    assert(strs_view(ks@) =~= seq!["sha256"@, "sha"@]);
    let sha = first_str(row, ks);
    if take_dup(&show.takes, &sha, &filename, &path) {
        return Ok(0);
    }
    let id = or_else_exec(first_str1(row, "id"), "");
    let id = if crate::text::filled(id.as_str()) {
        id
    } else {
        crate::text::next_id("tk-", show.takes.len())
    };
    proof {
        reveal_strlit("");
    }
    let shot_id = string_of(chars_of(show.shots[k].id.as_str()).as_slice());
    let circled = row_flag_exec(row, "circled", "circle");
    let ghost pre = show.takes@;
    show.takes.push(Take { id, shot_id, path, filename, sha256: sha, duration_ms: m.1, circled });
    assert(takes_v(show.takes@) =~= takes_v(pre).push(take_v(show.takes@.last())));
    Ok(1)
}

pub open spec fn ctake_done(o: Show, f: Show, v: Json, media: Seq<RowMedia>, r: Result<Json, ShowError>) -> bool {
    &&& (spec_first_array(v, ctake_keys()) is None ==> fails_with(r, "ctake has no takes — did not invent a clip"@))
    &&& (spec_first_array(v, ctake_keys()) is Some ==> match ctake_fold(
            shots_v(o.shots@),
            takes_v(o.takes@),
            rows_or_empty(v, ctake_keys()),
            media,
        ) {
            Err(e) => fails_with(r, e),
            Ok((ss, ts, n)) => if n == 0 && o.takes@.len() == 0 {
                fails_with(r, "ctake has no takes — did not invent a clip"@)
            } else {
                &&& r matches Ok(j) && jv(j) == count_json("takes"@, n)
                &&& shots_v(f.shots@) == ss
                &&& takes_v(f.takes@) == ts
                &&& f.phase@ == "dailies"@
                &&& f == Show {
                    shots: f.shots,
                    takes: f.takes,
                    phase: f.phase,
                    ..o
                }
            },
        })
}

/// A circle-take import: each row a take on its shot, in order, with no
/// duplicate; the phase becomes `dailies`. Refused without rows, when a
/// file name does not start with a shot number, or when nothing came in and
/// the show has no takes.
pub fn import_ctake(show: &mut Show, v: &Json, media: &Vec<RowMedia>) -> (r: Result<Json, ShowError>)
    requires
        old(show).shots@.len() + rows_or_empty(*v, ctake_keys()).len() + 1 < usize::MAX,
    ensures
        ctake_done(*old(show), *final(show), *v, media@, r),
        final(show).rev == old(show).rev && final(show).updated_at == old(show).updated_at,
{
    let ks: &[&str] = &["takes", "clips", "items"];
    assert(strs_view(ks@) =~= ctake_keys());
    let rows = match first_array(v, ks) {
        Some(a) => a,
        None => return Err(msg("ctake has no takes — did not invent a clip")),
    };
    let ghost sv0 = shots_v(show.shots@);
    let ghost tv0 = takes_v(show.takes@);
    let ghost show0 = *show;
    let mut n: u64 = 0;
    let mut i: usize = 0;
    assert(rows@.take(0) =~= seq![]);
    while i < rows.len()
        invariant
            i <= rows.len(),
            rows@ == rows_or_empty(*v, ctake_keys()),
            show0.shots@.len() + rows@.len() + 1 < usize::MAX,
            show.shots@.len() <= show0.shots@.len() + i,
            n <= i,
            ctake_fold(sv0, tv0, rows@.take(i as int), media@) matches Ok((ss, ts, c)) && shots_v(show.shots@) == ss
                && takes_v(show.takes@) == ts && n as nat == c,
            *show == (Show { shots: show.shots, takes: show.takes, ..show0 }),
            n == 0 ==> show.takes@.len() == show0.takes@.len(),
            sv0 == shots_v(old(show).shots@),
            tv0 == takes_v(old(show).takes@),
            show0 == *old(show),
            spec_first_array(*v, ctake_keys()) is Some,
        decreases rows.len() - i,
    {
        assert(rows@.take(i + 1).drop_last() =~= rows@.take(i as int));
        let m = media_at_exec(media, i);
        let ghost before = *show;
        let c = match ctake_row(show, &rows[i], m) {
            Ok(c) => c,
            Err(e) => {
                proof {
                    assert(rows@.take(i + 1).last() == rows@[i as int]);
                    assert(ctake_fold(sv0, tv0, rows@.take(i + 1), media@) == ctake_step(
                        shots_v(before.shots@),
                        takes_v(before.takes@),
                        rows@[i as int],
                        media_at(media@, i as int),
                    ));
                    lemma_ctake_err_sticks(sv0, tv0, rows@, media@, i + 1);
                    let st = ctake_step(shots_v(before.shots@), takes_v(before.takes@), rows@[i as int], media_at(media@, i as int));
                    assert(st is Err);
                    assert(is_msg(e, st->Err_0));
                    assert(ctake_fold(sv0, tv0, rows@, media@) == st);
                }
                return Err(e);
            },
        };
        n = n + c;
        i += 1;
    }
    assert(rows@.take(rows.len() as int) =~= rows@);
    if n == 0 && show.takes.len() == 0 {
        return Err(msg("ctake has no takes — did not invent a clip"));
    }
    show.phase = lit("dailies");
    Ok(count_exec("takes", n))
}

// ---------------------------------------------------------------- one import

pub open spec fn unknown_import_msg() -> Seq<char> {
    "unknown import — not scriptbreak, cork-board, canvas, blockout, sbref, slate, or ctake"@
}

/// The JSON of an import; refused as an unknown import when it is no JSON.
pub fn import_value(raw: &str) -> (r: Result<Json, ShowError>)
    ensures
        match json_parse(raw@) {
            Some(v) => r matches Ok(x) && x == v,
            None => fails_with(r, unknown_import_msg()),
        },
{
    match parse_json(raw) {
        Ok(v) => Ok(v),
        Err(_) => Err(msg("unknown import — not scriptbreak, cork-board, canvas, blockout, sbref, slate, or ctake")),
    }
}

/// Room for every shot an import could add.
pub open spec fn import_fits(show: Show, v: Json) -> bool {
    &&& show.shots@.len() + rows_or_empty(v, canvas_keys()).len() + 2 < usize::MAX
    &&& show.shots@.len() + rows_or_empty(v, seq!["shots"@]).len() + 2 < usize::MAX
    &&& show.shots@.len() + rows_or_empty(v, sbref_keys()).len() + 2 < usize::MAX
    &&& show.shots@.len() + rows_or_empty(v, slate_keys()).len() + 2 < usize::MAX
    &&& show.shots@.len() + rows_or_empty(v, ctake_keys()).len() + 2 < usize::MAX
}

fn rows_len(v: &Json, keys: &[&str]) -> (r: usize)
    ensures
        r == rows_or_empty(*v, strs_view(keys@)).len(),
{
    match first_array(v, keys) {
        Some(a) => a.len(),
        None => 0,
    }
}

pub fn import_fits_exec(show: &Show, v: &Json) -> (r: bool)
    ensures
        r == import_fits(*show, *v),
{
    let k1: &[&str] = &["shots", "cards", "items"];
    assert(strs_view(k1@) =~= canvas_keys());
    let k2: &[&str] = &["shots"];
    assert(strs_view(k2@) =~= seq!["shots"@]);
    let k3: &[&str] = &["shots", "boards", "stills", "items"];
    assert(strs_view(k3@) =~= sbref_keys());
    let k4: &[&str] = &["shots", "items"];
    assert(strs_view(k4@) =~= slate_keys());
    let k5: &[&str] = &["takes", "clips", "items"];
    assert(strs_view(k5@) =~= ctake_keys());
    let n = show.shots.len() as u128;
    let lim = usize::MAX as u128;
    n + rows_len(v, k1) as u128 + 2 < lim && n + rows_len(v, k2) as u128 + 2 < lim && n + rows_len(v, k3) as u128 + 2
        < lim && n + rows_len(v, k4) as u128 + 2 < lim && n + rows_len(v, k5) as u128 + 2 < lim
}

/// What importing a file of a kind does to the show (before the revision
/// moves) and answers.
pub open spec fn kind_done(
    kind: Seq<char>,
    o: Show,
    f: Show,
    v: Json,
    stills: Seq<Option<String>>,
    media: Seq<RowMedia>,
    r: Result<Json, ShowError>,
) -> bool {
    if kind == "cork-board"@ {
        wall_done(o, f, v, r)
    } else if kind == "canvas"@ {
        canvas_done(o, f, v, r)
    } else if kind == "blockout"@ {
        blockout_done(o, f, v, r)
    } else if kind == "sbref"@ {
        sbref_done(o, f, v, stills, r)
    } else if kind == "slate"@ {
        slate_done(o, f, v, r)
    } else if kind == "ctake"@ {
        ctake_done(o, f, v, media, r)
    } else {
        fails_with(r, unknown_import_msg()) && f == o
    }
}

/// Imports the JSON of a file of `kind` (as `detect` names it) into the
/// show; on success the revision moves and the answer is what was added.
pub fn import_json(
    show: &mut Show,
    kind: &str,
    v: &Json,
    stills: &Vec<Option<String>>,
    media: &Vec<RowMedia>,
    now: &str,
) -> (r: Result<Json, ShowError>)
    requires
        old(show).rev < u64::MAX,
        import_fits(*old(show), *v),
    ensures
        kind_done(
            kind@,
            *old(show),
            Show { rev: old(show).rev, updated_at: old(show).updated_at, ..*final(show) },
            *v,
            stills@,
            media@,
            r,
        ),
        r is Ok ==> final(show).rev == old(show).rev + 1 && final(show).updated_at@ == now@,
        r is Err ==> final(show).rev == old(show).rev && final(show).updated_at == old(show).updated_at,
{
    let ghost o = *show;
    let r = if str_eq(kind, "cork-board") {
        import_wall(show, v)
    } else if str_eq(kind, "canvas") {
        import_canvas(show, v)
    } else if str_eq(kind, "blockout") {
        import_blockout(show, v)
    } else if str_eq(kind, "sbref") {
        import_sbref(show, v, stills)
    } else if str_eq(kind, "slate") {
        import_slate(show, v)
    } else if str_eq(kind, "ctake") {
        import_ctake(show, v, media)
    } else {
        Err(msg("unknown import — not scriptbreak, cork-board, canvas, blockout, sbref, slate, or ctake"))
    };
    let ghost mid = *show;
    assert(mid.rev == o.rev && mid.updated_at == o.updated_at);
    assert(mid == Show { rev: o.rev, updated_at: o.updated_at, ..mid });
    if r.is_ok() {
        bump(show, now);
        assert(Show { rev: o.rev, updated_at: o.updated_at, ..*show } == mid);
    }
    r
}

/// What a script import added: its scenes and shots.
pub open spec fn script_added(scenes: nat, shots: nat) -> JsonV {
    JsonV::Object(seq![("scenes"@, JsonV::Number(dec(scenes))), ("shots"@, JsonV::Number(dec(shots)))])
}

pub fn script_added_json(scenes: usize, shots: usize) -> (r: Json)
    ensures
        jv(r) == script_added(scenes as nat, shots as nat),
{
    let mut ms: Vec<(String, Json)> = Vec::new();
    ms.push((lit("scenes"), Json::Number(string_of(crate::text::dec_wide(scenes as u128).as_slice()))));
    ms.push((lit("shots"), Json::Number(string_of(crate::text::dec_wide(shots as u128).as_slice()))));
    assert(crate::json::jv_members(ms@) =~= seq![
        ("scenes"@, JsonV::Number(dec(scenes as nat))),
        ("shots"@, JsonV::Number(dec(shots as nat))),
    ]) by {
        reveal_with_fuel(crate::json::jv_members, 3);
    }
    Json::Object(ms)
}

/// What `lot import` reports: the kind, the source, whether it is still
/// there, and what was added.
#[derive(Debug)]
pub struct ImportReport {
    pub kind: String,
    pub source: String,
    pub kept: bool,
    pub added: Json,
}

/// The event an import logs: its kind, source and what it added.
pub open spec fn import_extra(kind: Seq<char>, source: Seq<char>, added: JsonV) -> JsonV {
    JsonV::Object(seq![("kind"@, JsonV::Str(kind)), ("source"@, JsonV::Str(source)), ("added"@, added)])
}

pub fn import_event_extra(kind: &str, source: &str, added: &Json) -> (r: Json)
    ensures
        jv(r) == import_extra(kind@, source@, jv(*added)),
{
    let mut ms: Vec<(String, Json)> = Vec::new();
    ms.push((lit("kind"), Json::Str(lit(kind))));
    ms.push((lit("source"), Json::Str(lit(source))));
    ms.push((lit("added"), crate::json::copy_json(added)));
    assert(crate::json::jv_members(ms@) =~= seq![
        ("kind"@, JsonV::Str(kind@)),
        ("source"@, JsonV::Str(source@)),
        ("added"@, jv(*added)),
    ]) by {
        reveal_with_fuel(crate::json::jv_members, 4);
    }
    Json::Object(ms)
}

} // verus!
