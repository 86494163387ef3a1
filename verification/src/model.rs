//! The show model: scenes, shots, takes, media, beats, the writer desk, and
//! the shot-number rules that bind dailies filenames to shots.

use vstd::prelude::*;
use crate::text::{
    chars_of, dec, dec2, dec2_vec, dec_value, digit_prefix, digit_prefix_vec, parse_u32, seq_eq,
    string_of, sub_vec, trim, trim_vec,
};

verus! {

#[derive(Debug, Clone, PartialEq, Eq)]
pub struct Scene {
    pub id: String,
    pub num: String,
    pub slug: String,
    pub int_ext: String,
    pub location: String,
    pub master: String,
    pub sub: String,
    pub area: String,
    pub tod: String,
    pub tod_bucket: String,
    pub eighths: u32,
    pub synopsis: String,
    pub text: String,
    pub characters: Vec<String>,
}

/// The mathematical view of a scene.
pub struct SceneV {
    pub id: Seq<char>,
    pub num: Seq<char>,
    pub slug: Seq<char>,
    pub int_ext: Seq<char>,
    pub location: Seq<char>,
    pub master: Seq<char>,
    pub sub: Seq<char>,
    pub area: Seq<char>,
    pub tod: Seq<char>,
    pub tod_bucket: Seq<char>,
    pub eighths: u32,
    pub synopsis: Seq<char>,
    pub text: Seq<char>,
    pub characters: Seq<Seq<char>>,
}

impl View for Scene {
    type V = SceneV;

    open spec fn view(&self) -> SceneV {
        SceneV {
            id: self.id@,
            num: self.num@,
            slug: self.slug@,
            int_ext: self.int_ext@,
            location: self.location@,
            master: self.master@,
            sub: self.sub@,
            area: self.area@,
            tod: self.tod@,
            tod_bucket: self.tod_bucket@,
            eighths: self.eighths,
            synopsis: self.synopsis@,
            text: self.text@,
            characters: self.characters.deep_view(),
        }
    }
}

/// A 2D floor mark on a shot.
#[derive(Debug, Clone, PartialEq, Eq)]
pub struct StageMark {
    pub id: String,
    pub who: String,
    pub kind: String,
    pub mark: String,
    pub x: String,
    pub z: String,
    pub notes: String,
}

/// A LoRA attached to the slate or to one shot.
#[derive(Debug, Clone, PartialEq, Eq)]
pub struct SlateLora {
    pub id: String,
    pub weight: String,
    pub model: String,
}

/// A per-target rewrite of the shot's canon prompt.
#[derive(Debug, Clone, PartialEq, Eq)]
pub struct PromptTarget {
    pub target: String,
    pub prompt: String,
}

#[derive(Debug, Clone, PartialEq, Eq)]
pub struct Shot {
    pub id: String,
    /// Ingest key, e.g. "01". Never overwritten by dailies filename.
    pub num: String,
    /// Human label (slug / coverage). Ingest must not rename this to "01".
    pub name: String,
    pub scene_id: String,
    pub size: String,
    pub angle: String,
    pub move_kind: String,
    pub lens: String,
    pub desc: String,
    /// Slate continuity prompt. Lives on the show.
    pub prompt: String,
    pub locked: bool,
    pub prompt_targets: Vec<PromptTarget>,
    pub loras: Vec<SlateLora>,
    pub stage_marks: Vec<StageMark>,
    pub ref_path: Option<String>,
    pub still_path: Option<String>,
    pub plate_path: Option<String>,
    pub motion_mode: Option<String>,
    pub motion_move: String,
    pub motion_notes: String,
    /// What a probe of the plate said of its length and frame rate, as text.
    pub motion_duration: Option<String>,
    pub motion_fps: Option<String>,
}

/// A dailies take. Durations are whole milliseconds.
#[derive(Debug, Clone, PartialEq, Eq)]
pub struct Take {
    pub id: String,
    pub shot_id: String,
    pub path: String,
    pub filename: String,
    pub sha256: String,
    pub duration_ms: Option<u64>,
    pub circled: bool,
}

#[derive(Debug, Clone, PartialEq, Eq)]
pub struct MediaItem {
    pub path: String,
    pub sha256: String,
    pub kind: String,
    pub duration_ms: Option<u64>,
}

#[derive(Debug, Clone, PartialEq, Eq)]
pub struct Beat {
    pub id: String,
    pub act: String,
    pub text: String,
}

pub open spec fn spec_default_phase() -> Seq<char> {
    seq!['w', 'r', 'i', 't', 'e', 'r']
}

/// The phase a show starts in.
pub fn default_phase_value() -> (r: String)
    ensures
        r@ == spec_default_phase(),
{
    let v: Vec<char> = vec!['w', 'r', 'i', 't', 'e', 'r'];
    string_of(&v)
}

/// Shot number for the `index`-th scene: the scene number's leading digits as a
/// two-digit number, or the 1-based index when those digits do not form a `u32`.
pub open spec fn spec_shot_num(num: Seq<char>, index: nat) -> Seq<char> {
    let d = digit_prefix(num);
    if d.len() > 0 && dec_value(d) <= u32::MAX {
        dec2(dec_value(d))
    } else {
        dec2(index + 1)
    }
}

pub fn shot_num_from_scene(num: &str, index: usize) -> (r: String)
    requires
        index < usize::MAX,
    ensures
        r@ == spec_shot_num(num@, index as nat),
{
    let v = chars_of(num);
    let d = digit_prefix_vec(&v);
    match parse_u32(&d) {
        Some(n) => string_of(&dec2_vec(n as u64)),
        None => string_of(&dec2_vec((index + 1) as u64)),
    }
}

/// Index of the last `c` in `s`.
pub open spec fn last_index_of(s: Seq<char>, c: char) -> int
    decreases s.len(),
{
    if s.len() == 0 {
        -1
    } else if s.last() == c {
        s.len() - 1
    } else {
        last_index_of(s.drop_last(), c)
    }
}

pub proof fn lemma_last_index_of(s: Seq<char>, c: char)
    ensures
        -1 <= last_index_of(s, c) < s.len(),
        last_index_of(s, c) >= 0 ==> s[last_index_of(s, c)] == c,
        forall|j: int| last_index_of(s, c) < j < s.len() ==> s[j] != c,
    decreases s.len(),
{
    if s.len() > 0 && s.last() != c {
        lemma_last_index_of(s.drop_last(), c);
        assert forall|j: int| last_index_of(s, c) < j < s.len() implies s[j] != c by {
            if j < s.len() - 1 {
                assert(s[j] == s.drop_last()[j]);
            }
        }
    }
}

/// The filename without its last extension (`rsplit_once('.')`).
pub open spec fn file_stem_dot(s: Seq<char>) -> Seq<char> {
    let k = last_index_of(s, '.');
    if k >= 0 {
        s.take(k)
    } else {
        s
    }
}

pub open spec fn spec_filename_shot_prefix(filename: Seq<char>) -> Option<Seq<char>> {
    let d = digit_prefix(file_stem_dot(filename));
    if d.len() == 0 {
        None
    } else {
        Some(d)
    }
}

pub fn last_index_vec(s: &Vec<char>, c: char) -> (r: Option<usize>)
    ensures
        r matches Some(k) ==> k as int == last_index_of(s@, c),
        r is None ==> last_index_of(s@, c) == -1,
{
    let mut i = s.len();
    assert(s@.take(i as int) =~= s@);
    while i > 0
        invariant
            i <= s.len(),
            last_index_of(s@, c) == last_index_of(s@.take(i as int), c),
        decreases i,
    {
        if s[i - 1] == c {
            return Some(i - 1);
        }
        assert(s@.take(i as int).drop_last() =~= s@.take(i - 1));
        i -= 1;
    }
    None
}

/// Leading digits of a filename stem (`01-foo.mp4` → `01`).
pub fn filename_shot_prefix(filename: &str) -> (r: Option<String>)
    ensures
        r matches Some(p) ==> spec_filename_shot_prefix(filename@) == Some(p@),
        r is None ==> spec_filename_shot_prefix(filename@) is None,
{
    let v = chars_of(filename);
    let stem = match last_index_vec(&v, '.') {
        Some(k) => {
            proof {
                lemma_last_index_of(v@, '.');
            }
            sub_vec(&v, 0, k)
        },
        None => v,
    };
    let d = digit_prefix_vec(&stem);
    if d.len() == 0 {
        None
    } else {
        Some(string_of(&d))
    }
}

pub open spec fn zero_prefix_len(s: Seq<char>) -> nat
    decreases s.len(),
{
    if s.len() > 0 && s[0] == '0' {
        1 + zero_prefix_len(s.drop_first())
    } else {
        0
    }
}

/// Shot key: trimmed, leading zeros dropped, `"0"` when nothing is left.
pub open spec fn shot_key(s: Seq<char>) -> Seq<char> {
    let t = trim(s);
    let u = t.skip(zero_prefix_len(t) as int);
    if u.len() == 0 {
        seq!['0']
    } else {
        u
    }
}

pub proof fn lemma_zero_prefix_len(s: Seq<char>)
    ensures
        zero_prefix_len(s) <= s.len(),
    decreases s.len(),
{
    if s.len() > 0 && s[0] == '0' {
        lemma_zero_prefix_len(s.drop_first());
    }
}

pub fn shot_key_vec(s: &Vec<char>) -> (r: Vec<char>)
    ensures
        r@ == shot_key(s@),
{
    let t = trim_vec(s);
    let mut i: usize = 0;
    assert(t@.skip(0) =~= t@);
    while i < t.len() && t[i] == '0'
        invariant
            i <= t.len(),
            zero_prefix_len(t@) == i + zero_prefix_len(t@.skip(i as int)),
        decreases t.len() - i,
    {
        assert(t@.skip(i as int).drop_first() =~= t@.skip(i + 1));
        i += 1;
    }
    let u = sub_vec(&t, i, t.len());
    assert(u@ =~= t@.skip(i as int));
    if u.len() == 0 {
        let z: Vec<char> = vec!['0'];
        assert(z@ =~= seq!['0']);
        z
    } else {
        u
    }
}

pub open spec fn spec_shot_nums_match(a: Seq<char>, b: Seq<char>) -> bool {
    shot_key(a) == shot_key(b)
}

/// `"01"` and `"1"` name the same shot.
pub fn shot_nums_match(shot_num: &str, prefix: &str) -> (r: bool)
    ensures
        r == spec_shot_nums_match(shot_num@, prefix@),
{
    let a = shot_key_vec(&chars_of(shot_num));
    let b = shot_key_vec(&chars_of(prefix));
    seq_eq(&a, &b)
}

/// First shot whose number matches `num`.
pub open spec fn first_shot_index(shots: Seq<Shot>, num: Seq<char>) -> int
    decreases shots.len(),
{
    if shots.len() == 0 {
        -1
    } else if spec_shot_nums_match(shots[0].num@, num) {
        0
    } else {
        let r = first_shot_index(shots.drop_first(), num);
        if r < 0 {
            -1
        } else {
            r + 1
        }
    }
}

pub proof fn lemma_first_shot_index(shots: Seq<Shot>, num: Seq<char>)
    ensures
        -1 <= first_shot_index(shots, num) < shots.len(),
        first_shot_index(shots, num) >= 0 ==> spec_shot_nums_match(
            shots[first_shot_index(shots, num)].num@,
            num,
        ),
        forall|j: int|
            0 <= j < shots.len() && (j < first_shot_index(shots, num) || first_shot_index(
                shots,
                num,
            ) < 0) ==> !spec_shot_nums_match(#[trigger] shots[j].num@, num),
    decreases shots.len(),
{
    if shots.len() > 0 && !spec_shot_nums_match(shots[0].num@, num) {
        lemma_first_shot_index(shots.drop_first(), num);
        assert forall|j: int|
            0 <= j < shots.len() && (j < first_shot_index(shots, num) || first_shot_index(
                shots,
                num,
            ) < 0) implies !spec_shot_nums_match(#[trigger] shots[j].num@, num) by {
            if j > 0 {
                assert(shots[j] == shots.drop_first()[j - 1]);
            }
        }
    }
}

/// Position of the first shot whose number matches `num`.
pub fn find_shot(shots: &Vec<Shot>, num: &str) -> (r: Option<usize>)
    ensures
        r matches Some(i) ==> i as int == first_shot_index(shots@, num@),
        r is None ==> first_shot_index(shots@, num@) == -1,
{
    let mut i: usize = 0;
    assert(shots@.skip(0) =~= shots@);
    while i < shots.len()
        invariant
            i <= shots.len(),
            first_shot_index(shots@, num@) == if first_shot_index(shots@.skip(i as int), num@)
                < 0 {
                -1
            } else {
                first_shot_index(shots@.skip(i as int), num@) + i
            },
        decreases shots.len() - i,
    {
        assert(shots@.skip(i as int)[0] == shots@[i as int]);
        if shot_nums_match(&shots[i].num, num) {
            return Some(i);
        }
        assert(shots@.skip(i as int).drop_first() =~= shots@.skip(i + 1));
        i += 1;
    }
    None
}

pub fn copy_mark(x: &StageMark) -> (r: StageMark)
    ensures
        r == *x,
{
    StageMark {
        id: x.id.clone(),
        who: x.who.clone(),
        kind: x.kind.clone(),
        mark: x.mark.clone(),
        x: x.x.clone(),
        z: x.z.clone(),
        notes: x.notes.clone(),
    }
}

pub fn copy_marks(v: &Vec<StageMark>) -> (r: Vec<StageMark>)
    ensures
        r@ == v@,
{
    let mut out: Vec<StageMark> = Vec::new();
    let mut i: usize = 0;
    while i < v.len()
        invariant
            i <= v.len(),
            out@ == v@.take(i as int),
        decreases v.len() - i,
    {
        out.push(copy_mark(&v[i]));
        i += 1;
        assert(out@ =~= v@.take(i as int));
    }
    assert(v@.take(i as int) =~= v@);
    out
}

pub fn copy_lora(x: &SlateLora) -> (r: SlateLora)
    ensures
        r == *x,
{
    SlateLora {
        id: x.id.clone(),
        weight: x.weight.clone(),
        model: x.model.clone(),
    }
}

pub fn copy_loras(v: &Vec<SlateLora>) -> (r: Vec<SlateLora>)
    ensures
        r@ == v@,
{
    let mut out: Vec<SlateLora> = Vec::new();
    let mut i: usize = 0;
    while i < v.len()
        invariant
            i <= v.len(),
            out@ == v@.take(i as int),
        decreases v.len() - i,
    {
        out.push(copy_lora(&v[i]));
        i += 1;
        assert(out@ =~= v@.take(i as int));
    }
    assert(v@.take(i as int) =~= v@);
    out
}

pub fn copy_target(x: &PromptTarget) -> (r: PromptTarget)
    ensures
        r == *x,
{
    PromptTarget {
        target: x.target.clone(),
        prompt: x.prompt.clone(),
    }
}

pub fn copy_targets(v: &Vec<PromptTarget>) -> (r: Vec<PromptTarget>)
    ensures
        r@ == v@,
{
    let mut out: Vec<PromptTarget> = Vec::new();
    let mut i: usize = 0;
    while i < v.len()
        invariant
            i <= v.len(),
            out@ == v@.take(i as int),
        decreases v.len() - i,
    {
        out.push(copy_target(&v[i]));
        i += 1;
        assert(out@ =~= v@.take(i as int));
    }
    assert(v@.take(i as int) =~= v@);
    out
}

} // verus!
