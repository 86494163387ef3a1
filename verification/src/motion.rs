//! Motion previs: plates, then marks, then an export. Pose, depth and
//! OpenPose stay in the Motion Previs studio; nothing here invents a bundle.
//! Copying plates, probing them and running an engine are the caller's part.

use vstd::prelude::*;
use crate::audit::{key_norm};
use crate::error::{ShowError, fails_with, is_msg, msg, msg2, msg3};
use crate::json::{Json, JsonV, jv, jv_seq, jv_members};
use crate::model::{Shot, MediaItem, PromptTarget, first_shot_index, lemma_first_shot_index, find_shot};
use crate::show::{Show, bump, spec_bumped};
use crate::slate::{others_kept, unknown_shot, targets_text};
use crate::text::{chars_of, string_of, str_eq, trim, trim_vec, seq_eq, filled, append_str, append_vec, dec, dec_vec};

verus! {

pub open spec fn unknown_mode_msg(raw: Seq<char>) -> Seq<char> {
    "unknown motion mode: "@ + raw + " (want camera_only | actor_motion | object_motion | full_scene)"@
}

/// The mode a key names: camera, actor, object or full-scene motion, each by
/// its id or a few plain words.
pub open spec fn motion_mode_id(key: Seq<char>) -> Option<Seq<char>> {
    if key == "camera_only"@ || key == "camera"@ || key == "cam"@ {
        Some("camera_only"@)
    } else if key == "actor_motion"@ || key == "actor"@ || key == "performance"@ || key == "pose"@ {
        Some("actor_motion"@)
    } else if key == "object_motion"@ || key == "object"@ || key == "vehicle"@ {
        Some("object_motion"@)
    } else if key == "full_scene"@ || key == "full"@ || key == "scene"@ {
        Some("full_scene"@)
    } else {
        None
    }
}

/// A motion mode as given (trimmed, any ASCII case, `-` or `_`): none when
/// blank or absent, refused when unknown.
pub open spec fn spec_resolve_motion_mode(raw: Option<Seq<char>>) -> Result<Option<Seq<char>>, Seq<char>> {
    match raw {
        None => Ok(None),
        Some(r) => {
            let t = trim(r);
            if t.len() == 0 {
                Ok(None)
            } else {
                match motion_mode_id(key_norm(t)) {
                    Some(id) => Ok(Some(id)),
                    None => Err(unknown_mode_msg(t)),
                }
            }
        },
    }
}

pub open spec fn opt_view(o: Option<&str>) -> Option<Seq<char>> {
    match o {
        Some(s) => Some(s@),
        None => None,
    }
}

pub open spec fn mode_matches(r: Result<Option<String>, ShowError>, want: Result<Option<Seq<char>>, Seq<char>>) -> bool {
    match (r, want) {
        (Ok(Some(a)), Ok(Some(b))) => a@ == b,
        (Ok(None), Ok(None)) => true,
        (Err(e), Err(m)) => is_msg(e, m),
        _ => false,
    }
}

fn is(v: &Vec<char>, s: &str) -> (r: bool)
    ensures
        r == (v@ == s@),
{
    seq_eq(v, &chars_of(s))
}

fn key_norm_of(t: &Vec<char>) -> (r: Vec<char>)
    ensures
        r@ == key_norm(t@),
{
    let mut out: Vec<char> = Vec::new();
    let mut i: usize = 0;
    while i < t.len()
        invariant
            i <= t.len(),
            out@ == key_norm(t@).take(i as int),
        decreases t.len() - i,
    {
        let c = crate::text::lower_c(t[i]);
        out.push(if c == '-' { '_' } else { c });
        assert(out@ =~= key_norm(t@).take(i + 1));
        i += 1;
    }
    assert(key_norm(t@).take(t.len() as int) =~= key_norm(t@));
    out
}

pub fn resolve_motion_mode(raw: Option<&str>) -> (r: Result<Option<String>, ShowError>)
    ensures
        mode_matches(r, spec_resolve_motion_mode(opt_view(raw))),
{
    let raw = match raw {
        Some(r) => r,
        None => return Ok(None),
    };
    let t = trim_vec(&chars_of(raw));
    if t.len() == 0 {
        return Ok(None);
    }
    let k = key_norm_of(&t);
    let id = if is(&k, "camera_only") || is(&k, "camera") || is(&k, "cam") {
        "camera_only"
    } else if is(&k, "actor_motion") || is(&k, "actor") || is(&k, "performance") || is(&k, "pose") {
        "actor_motion"
    } else if is(&k, "object_motion") || is(&k, "object") || is(&k, "vehicle") {
        "object_motion"
    } else if is(&k, "full_scene") || is(&k, "full") || is(&k, "scene") {
        "full_scene"
    } else {
        let ts = string_of(t.as_slice());
        return Err(msg3(
            "unknown motion mode: ",
            ts.as_str(),
            " (want camera_only | actor_motion | object_motion | full_scene)",
        ));
    };
    Ok(Some(string_of(chars_of(id).as_slice())))
}

pub open spec fn opt_filled(o: Option<&str>) -> Option<Seq<char>> {
    match o {
        Some(s) => if trim(s@).len() > 0 {
            Some(trim(s@))
        } else {
            None
        },
        None => None,
    }
}

fn opt_filled_exec(o: Option<&str>) -> (r: Option<String>)
    ensures
        match r {
            Some(s) => opt_filled(o) == Some(s@),
            None => opt_filled(o) is None,
        },
{
    match o {
        Some(s) => {
            let t = trim_vec(&chars_of(s));
            if t.len() > 0 {
                Some(string_of(t.as_slice()))
            } else {
                None
            }
        },
        None => None,
    }
}

pub open spec fn opt_str_view(o: Option<String>) -> Option<Seq<char>> {
    match o {
        Some(s) => Some(s@),
        None => None,
    }
}

/// The shot after marks: the mode, the move (also its camera move) and the
/// notes that were given replace what it had.
pub open spec fn marked(
    before: Shot,
    after: Shot,
    mode: Option<Seq<char>>,
    mv: Option<Seq<char>>,
    notes: Option<Seq<char>>,
) -> bool {
    &&& after == Shot {
        motion_mode: after.motion_mode,
        motion_move: after.motion_move,
        move_kind: after.move_kind,
        motion_notes: after.motion_notes,
        ..before
    }
    &&& opt_str_view(after.motion_mode) == match mode {
        Some(m) => Some(m),
        None => opt_str_view(before.motion_mode),
    }
    &&& after.motion_move@ == match mv {
        Some(m) => m,
        None => before.motion_move@,
    }
    &&& after.move_kind@ == match mv {
        Some(m) => m,
        None => before.move_kind@,
    }
    &&& after.motion_notes@ == match notes {
        Some(n) => n,
        None => before.motion_notes@,
    }
}

/// Camera or performance marks on a shot: a mode, a move, notes. The phase
/// becomes `motion`. The shot keeps its number and name.
pub fn motion_marks(
    show: &mut Show,
    shot_num: &str,
    move_kind: Option<&str>,
    notes: Option<&str>,
    mode: Option<&str>,
    now: &str,
) -> (r: Result<(), ShowError>)
    requires
        old(show).rev < u64::MAX,
    ensures
        ({
            let md = spec_resolve_motion_mode(opt_view(mode));
            let k = first_shot_index(old(show).shots@, shot_num@);
            if md is Err {
                fails_with(r, md->Err_0) && *final(show) == *old(show)
            } else if md == Ok::<Option<Seq<char>>, Seq<char>>(None) && opt_filled(move_kind) is None
                && opt_filled(notes) is None {
                fails_with(r, "motion marks need --move, --notes, or --mode"@) && *final(show) == *old(show)
            } else if k < 0 {
                fails_with(r, unknown_shot(shot_num@)) && *final(show) == *old(show)
            } else {
                &&& r is Ok
                &&& others_kept(old(show).shots@, final(show).shots@, k)
                &&& marked(old(show).shots@[k], final(show).shots@[k], md->Ok_0, opt_filled(move_kind), opt_filled(notes))
                &&& final(show).phase@ == "motion"@
                &&& spec_bumped(
                    Show { shots: final(show).shots, phase: final(show).phase, ..*old(show) },
                    *final(show),
                    now@,
                )
            }
        }),
{
    let m = resolve_motion_mode(mode)?;
    let mv = opt_filled_exec(move_kind);
    let ns = opt_filled_exec(notes);
    if m.is_none() && mv.is_none() && ns.is_none() {
        return Err(msg("motion marks need --move, --notes, or --mode"));
    }
    proof {
        lemma_first_shot_index(show.shots@, shot_num@);
    }
    let k = match find_shot(&show.shots, shot_num) {
        Some(k) => k,
        None => return Err(msg2("unknown shot: ", shot_num)),
    };
    let ghost before = show.shots@[k as int];
    let mut sh = show.shots.remove(k);
    match m {
        Some(x) => {
            sh.motion_mode = Some(x);
        },
        None => {},
    }
    match mv {
        Some(x) => {
            sh.motion_move = string_of(chars_of(x.as_str()).as_slice());
            sh.move_kind = x;
        },
        None => {},
    }
    match ns {
        Some(x) => {
            sh.motion_notes = x;
        },
        None => {},
    }
    let ghost after = sh;
    show.shots.insert(k, sh);
    assert(show.shots@[k as int] == after);
    assert(others_kept(old(show).shots@, show.shots@, k as int));
    show.phase = string_of(chars_of("motion").as_slice());
    bump(show, now);
    Ok(())
}

/// Where a plate is copied in `motion/`: the shot number, a dash, and the
/// file's name (`plate.mp4` when it has none).
pub fn plate_dest_name(num: &str, file_name: Option<&str>) -> (r: String)
    ensures
        r@ == num@ + "-"@ + match file_name {
            Some(f) => f@,
            None => "plate.mp4"@,
        },
{
    let mut v = chars_of(num);
    append_str(&mut v, "-");
    match file_name {
        Some(f) => append_str(&mut v, f),
        None => append_str(&mut v, "plate.mp4"),
    }
    string_of(v.as_slice())
}

/// The shot after a plate: its plate path and the probed length and rate,
/// and the mode when one was given.
pub open spec fn plated(
    before: Shot,
    after: Shot,
    path: Seq<char>,
    mode: Option<Seq<char>>,
    duration: Option<Seq<char>>,
    fps: Option<Seq<char>>,
) -> bool {
    &&& after == Shot {
        plate_path: after.plate_path,
        motion_mode: after.motion_mode,
        motion_duration: after.motion_duration,
        motion_fps: after.motion_fps,
        ..before
    }
    &&& opt_str_view(after.plate_path) == Some(path)
    &&& opt_str_view(after.motion_mode) == match mode {
        Some(m) => Some(m),
        None => opt_str_view(before.motion_mode),
    }
    &&& opt_str_view(after.motion_duration) == duration
    &&& opt_str_view(after.motion_fps) == fps
}

/// Records a plate copied for a shot: the shot points at it, the show's
/// media gains it (kind `plate`), the phase becomes `motion`.
pub fn motion_plate_record(
    show: &mut Show,
    shot_num: &str,
    mode: Option<String>,
    plate_path: &str,
    duration: Option<String>,
    fps: Option<String>,
    duration_ms: Option<u64>,
    now: &str,
) -> (r: Result<(), ShowError>)
    requires
        old(show).rev < u64::MAX,
    ensures
        ({
            let k = first_shot_index(old(show).shots@, shot_num@);
            if k < 0 {
                fails_with(r, unknown_shot(shot_num@)) && *final(show) == *old(show)
            } else {
                &&& r is Ok
                &&& others_kept(old(show).shots@, final(show).shots@, k)
                &&& plated(
                    old(show).shots@[k],
                    final(show).shots@[k],
                    plate_path@,
                    opt_str_view(mode),
                    opt_str_view(duration),
                    opt_str_view(fps),
                )
                &&& final(show).media@.len() == old(show).media@.len() + 1
                &&& final(show).media@.drop_last() == old(show).media@
                &&& final(show).media@.last().path@ == plate_path@
                &&& final(show).media@.last().sha256@.len() == 0
                &&& final(show).media@.last().kind@ == "plate"@
                &&& final(show).media@.last().duration_ms == duration_ms
                &&& final(show).phase@ == "motion"@
                &&& spec_bumped(
                    Show { shots: final(show).shots, media: final(show).media, phase: final(show).phase, ..*old(show) },
                    *final(show),
                    now@,
                )
            }
        }),
{
    proof {
        lemma_first_shot_index(show.shots@, shot_num@);
    }
    let k = match find_shot(&show.shots, shot_num) {
        Some(k) => k,
        None => return Err(msg2("unknown shot: ", shot_num)),
    };
    let mut sh = show.shots.remove(k);
    sh.plate_path = Some(string_of(chars_of(plate_path).as_slice()));
    match mode {
        Some(m) => {
            sh.motion_mode = Some(m);
        },
        None => {},
    }
    sh.motion_duration = duration;
    sh.motion_fps = fps;
    let ghost after = sh;
    show.shots.insert(k, sh);
    assert(show.shots@[k as int] == after);
    assert(others_kept(old(show).shots@, show.shots@, k as int));
    let ghost media0 = show.media@;
    show.media.push(
        MediaItem {
            path: string_of(chars_of(plate_path).as_slice()),
            sha256: String::new(),
            kind: string_of(chars_of("plate").as_slice()),
            duration_ms,
        },
    );
    assert(show.media@.drop_last() =~= media0);
    show.phase = string_of(chars_of("motion").as_slice());
    bump(show, now);
    Ok(())
}

// ---------------------------------------------------------------- export

pub open spec fn no_shots_msg() -> Seq<char> {
    "motion export needs shots (breakdown parse, then motion plate / marks)"@
}

pub open spec fn motion_notice() -> Seq<char> {
    "Plates and marks only. Pose / depth / OpenPose stay in Motion Previs Studio (Sam Wasserman). Lot does not invent a control bundle."@
}

pub open spec fn opt_str_jv(o: Option<String>) -> JsonV {
    match o {
        Some(s) => JsonV::Str(s@),
        None => JsonV::Null,
    }
}

pub open spec fn targets_jv(ts: Seq<PromptTarget>) -> JsonV {
    JsonV::Object(Seq::new(ts.len(), |i: int| (ts[i].target@, JsonV::Str(ts[i].prompt@))))
}

/// One shot's row in `motion/previs.json`.
pub open spec fn shot_row(s: Shot) -> JsonV {
    JsonV::Object(
        seq![
            ("num"@, JsonV::Str(s.num@)),
            ("name"@, JsonV::Str(s.name@)),
            ("plate"@, opt_str_jv(s.plate_path)),
            ("mode"@, opt_str_jv(s.motion_mode)),
            ("move"@, JsonV::Str(s.motion_move@)),
            ("notes"@, JsonV::Str(s.motion_notes@)),
            ("duration"@, opt_str_jv(s.motion_duration)),
            ("fps"@, opt_str_jv(s.motion_fps)),
            ("prompt"@, JsonV::Str(s.prompt@)),
            ("prompt_targets"@, targets_jv(s.prompt_targets@)),
        ],
    )
}

/// `motion/previs.json`: the show, its revision, the engine, the notice, the
/// studio's control file when it runs, and a row per shot.
pub open spec fn spec_previs_json(show: Show, studio: Option<Seq<char>>) -> JsonV {
    JsonV::Object(
        seq![
            ("show"@, JsonV::Str(show.name@)),
            ("rev"@, JsonV::Number(dec(show.rev as nat))),
            ("engine"@, JsonV::Str("lot-marks"@)),
            ("notice"@, JsonV::Str(motion_notice())),
            ("studio"@, match studio {
                Some(p) => JsonV::Object(seq![("ready"@, JsonV::Bool(true)), ("control"@, JsonV::Str(p))]),
                None => JsonV::Null,
            }),
            ("shots"@, JsonV::Array(shot_rows(show.shots@))),
        ],
    )
}

pub open spec fn shot_rows(ss: Seq<Shot>) -> Seq<JsonV> {
    Seq::new(ss.len(), |i: int| shot_row(ss[i]))
}

pub open spec fn when(c: bool, s: Seq<char>) -> Seq<char> {
    if c {
        s
    } else {
        seq![]
    }
}

/// One shot's card in `motion/prompt.md`.
pub open spec fn md_shot(s: Shot) -> Seq<char> {
    "## Shot "@ + s.num@ + "\n\n"@ + when(s.name@.len() > 0, "Name: "@ + s.name@ + "\n\n"@) + match s.motion_mode {
        Some(m) => "Mode: `"@ + m@ + "`\n\n"@,
        None => seq![],
    } + when(s.motion_move@.len() > 0, "Move: "@ + s.motion_move@ + "\n\n"@) + when(
        s.motion_notes@.len() > 0,
        "Notes: "@ + s.motion_notes@ + "\n\n"@,
    ) + match s.plate_path {
        Some(p) => "Plate: `"@ + p@ + "`\n\n"@,
        None => "Plate: _(none)_\n\n"@,
    } + when(s.prompt@.len() > 0, "Slate canon:\n\n"@ + s.prompt@ + "\n\n"@)
}

pub open spec fn md_shots(ss: Seq<Shot>) -> Seq<char>
    decreases ss.len(),
{
    if ss.len() == 0 {
        seq![]
    } else {
        md_shots(ss.drop_last()) + md_shot(ss.last())
    }
}

/// `motion/prompt.md`: the marks for generators.
pub open spec fn spec_motion_md(show: Show) -> Seq<char> {
    "# Motion Previs — "@ + show.name@ + "\n\n"@ + "Marks for generators. Not a MediaPipe / OpenPose export.\n\n"@
        + md_shots(show.shots@)
}

fn str_json(s: &str) -> (r: Json)
    ensures
        jv(r) == JsonV::Str(s@),
{
    Json::Str(string_of(chars_of(s).as_slice()))
}

fn opt_json(o: &Option<String>) -> (r: Json)
    ensures
        jv(r) == opt_str_jv(*o),
{
    match o {
        Some(s) => str_json(s.as_str()),
        None => Json::Null,
    }
}

fn pair(k: &str, v: Json) -> (r: (String, Json))
    ensures
        r.0@ == k@,
        r.1 == v,
{
    (string_of(chars_of(k).as_slice()), v)
}

fn targets_json(ts: &Vec<PromptTarget>) -> (r: Json)
    ensures
        jv(r) == targets_jv(ts@),
{
    let mut ms: Vec<(String, Json)> = Vec::new();
    let mut i: usize = 0;
    while i < ts.len()
        invariant
            i <= ts.len(),
            jv_members(ms@) == Seq::new(i as nat, |k: int| (ts@[k].target@, JsonV::Str(ts@[k].prompt@))),
        decreases ts.len() - i,
    {
        let ghost pre = ms@;
        ms.push(pair(ts[i].target.as_str(), str_json(ts[i].prompt.as_str())));
        assert(ms@.drop_last() =~= pre);
        i += 1;
        assert(jv_members(ms@) =~= Seq::new(i as nat, |k: int| (ts@[k].target@, JsonV::Str(ts@[k].prompt@))));
    }
    Json::Object(ms)
}

fn shot_row_json(s: &Shot) -> (r: Json)
    ensures
        jv(r) == shot_row(*s),
{
    let mut ms: Vec<(String, Json)> = Vec::new();
    ms.push(pair("num", str_json(s.num.as_str())));
    ms.push(pair("name", str_json(s.name.as_str())));
    ms.push(pair("plate", opt_json(&s.plate_path)));
    ms.push(pair("mode", opt_json(&s.motion_mode)));
    ms.push(pair("move", str_json(s.motion_move.as_str())));
    ms.push(pair("notes", str_json(s.motion_notes.as_str())));
    ms.push(pair("duration", opt_json(&s.motion_duration)));
    ms.push(pair("fps", opt_json(&s.motion_fps)));
    ms.push(pair("prompt", str_json(s.prompt.as_str())));
    ms.push(pair("prompt_targets", targets_json(&s.prompt_targets)));
    assert(jv_members(ms@) =~= seq![
        ("num"@, JsonV::Str(s.num@)),
        ("name"@, JsonV::Str(s.name@)),
        ("plate"@, opt_str_jv(s.plate_path)),
        ("mode"@, opt_str_jv(s.motion_mode)),
        ("move"@, JsonV::Str(s.motion_move@)),
        ("notes"@, JsonV::Str(s.motion_notes@)),
        ("duration"@, opt_str_jv(s.motion_duration)),
        ("fps"@, opt_str_jv(s.motion_fps)),
        ("prompt"@, JsonV::Str(s.prompt@)),
        ("prompt_targets"@, targets_jv(s.prompt_targets@)),
    ]) by {
        reveal_with_fuel(jv_members, 11);
    }
    Json::Object(ms)
}

/// `motion/previs.json` for a show; refused when it has no shots.
pub fn previs_json(show: &Show, studio: Option<&str>) -> (r: Result<Json, ShowError>)
    ensures
        show.shots@.len() == 0 ==> fails_with(r, no_shots_msg()),
        show.shots@.len() > 0 ==> (r matches Ok(j) && jv(j) == spec_previs_json(*show, opt_view(studio))),
{
    if show.shots.len() == 0 {
        return Err(msg("motion export needs shots (breakdown parse, then motion plate / marks)"));
    }
    let mut rows: Vec<Json> = Vec::new();
    let mut i: usize = 0;
    while i < show.shots.len()
        invariant
            i <= show.shots.len(),
            jv_seq(rows@) == Seq::new(i as nat, |k: int| shot_row(show.shots@[k])),
        decreases show.shots.len() - i,
    {
        let ghost pre = rows@;
        rows.push(shot_row_json(&show.shots[i]));
        assert(rows@.drop_last() =~= pre);
        i += 1;
        assert(jv_seq(rows@) =~= Seq::new(i as nat, |k: int| shot_row(show.shots@[k])));
    }
    let ghost sv = match opt_view(studio) {
        Some(p) => JsonV::Object(seq![("ready"@, JsonV::Bool(true)), ("control"@, JsonV::Str(p))]),
        None => JsonV::Null,
    };
    let studio_json = match studio {
        Some(p) => {
            let mut sm: Vec<(String, Json)> = Vec::new();
            sm.push(pair("ready", Json::Bool(true)));
            sm.push(pair("control", str_json(p)));
            assert(jv_members(sm@) =~= seq![("ready"@, JsonV::Bool(true)), ("control"@, JsonV::Str(p@))]) by {
                reveal_with_fuel(jv_members, 3);
            }
            Json::Object(sm)
        },
        None => Json::Null,
    };
    assert(jv(studio_json) == sv);
    assert(jv_seq(rows@) =~= shot_rows(show.shots@));
    let mut ms: Vec<(String, Json)> = Vec::new();
    ms.push(pair("show", str_json(show.name.as_str())));
    ms.push(pair("rev", Json::Number(string_of(dec_vec(show.rev).as_slice()))));
    ms.push(pair("engine", str_json("lot-marks")));
    ms.push(
        pair(
            "notice",
            str_json(
                "Plates and marks only. Pose / depth / OpenPose stay in Motion Previs Studio (Sam Wasserman). Lot does not invent a control bundle.",
            ),
        ),
    );
    ms.push(pair("studio", studio_json));
    ms.push(pair("shots", Json::Array(rows)));
    assert(jv_members(ms@) =~= seq![
        ("show"@, JsonV::Str(show.name@)),
        ("rev"@, JsonV::Number(dec(show.rev as nat))),
        ("engine"@, JsonV::Str("lot-marks"@)),
        ("notice"@, JsonV::Str(motion_notice())),
        ("studio"@, match opt_view(studio) {
            Some(p) => JsonV::Object(seq![("ready"@, JsonV::Bool(true)), ("control"@, JsonV::Str(p))]),
            None => JsonV::Null,
        }),
        ("shots"@, JsonV::Array(shot_rows(show.shots@))),
    ]) by {
        reveal_with_fuel(jv_members, 7);
    }
    let r = Json::Object(ms);
    proof {
        let want = seq![
            ("show"@, JsonV::Str(show.name@)),
            ("rev"@, JsonV::Number(dec(show.rev as nat))),
            ("engine"@, JsonV::Str("lot-marks"@)),
            ("notice"@, JsonV::Str(motion_notice())),
            ("studio"@, sv),
            ("shots"@, JsonV::Array(shot_rows(show.shots@))),
        ];
        let sp = spec_previs_json(*show, opt_view(studio));
        assert(sp->Object_0 =~= want);
        assert(spec_previs_json(*show, opt_view(studio)) == JsonV::Object(want));
        assert(jv_members(ms@) =~= want);
    }
    Ok(r)
}

fn labeled(c: bool, label: &str, x: &str, tail: &str) -> (r: Vec<char>)
    ensures
        r@ == when(c, label@ + x@ + tail@),
{
    if c {
        let mut v = chars_of(label);
        append_str(&mut v, x);
        append_str(&mut v, tail);
        v
    } else {
        Vec::new()
    }
}

fn md_shot_exec(s: &Shot) -> (r: Vec<char>)
    ensures
        r@ == md_shot(*s),
{
    let mut v = chars_of("## Shot ");
    append_str(&mut v, s.num.as_str());
    append_str(&mut v, "\n\n");
    let name = labeled(filled(s.name.as_str()), "Name: ", s.name.as_str(), "\n\n");
    let mode = match &s.motion_mode {
        Some(m) => labeled(true, "Mode: `", m.as_str(), "`\n\n"),
        None => Vec::new(),
    };
    let mv = labeled(filled(s.motion_move.as_str()), "Move: ", s.motion_move.as_str(), "\n\n");
    let notes = labeled(filled(s.motion_notes.as_str()), "Notes: ", s.motion_notes.as_str(), "\n\n");
    let plate = match &s.plate_path {
        Some(p) => labeled(true, "Plate: `", p.as_str(), "`\n\n"),
        None => chars_of("Plate: _(none)_\n\n"),
    };
    let canon = labeled(filled(s.prompt.as_str()), "Slate canon:\n\n", s.prompt.as_str(), "\n\n");
    let ghost head = v@;
    append_vec(&mut v, &name);
    append_vec(&mut v, &mode);
    append_vec(&mut v, &mv);
    append_vec(&mut v, &notes);
    append_vec(&mut v, &plate);
    append_vec(&mut v, &canon);
    assert(mode@ == match s.motion_mode {
        Some(m) => "Mode: `"@ + m@ + "`\n\n"@,
        None => seq![],
    });
    assert(plate@ == match s.plate_path {
        Some(p) => "Plate: `"@ + p@ + "`\n\n"@,
        None => "Plate: _(none)_\n\n"@,
    });
    assert(v@ =~= head + name@ + mode@ + mv@ + notes@ + plate@ + canon@);
    v
}

/// `motion/prompt.md` for a show.
pub fn motion_md(show: &Show) -> (r: String)
    ensures
        r@ == spec_motion_md(*show),
{
    let mut v = chars_of("# Motion Previs — ");
    append_str(&mut v, show.name.as_str());
    append_str(&mut v, "\n\n");
    append_str(&mut v, "Marks for generators. Not a MediaPipe / OpenPose export.\n\n");
    let ghost head = v@;
    let mut i: usize = 0;
    assert(show.shots@.take(0) =~= seq![]);
    while i < show.shots.len()
        invariant
            i <= show.shots.len(),
            v@ == head + md_shots(show.shots@.take(i as int)),
        decreases show.shots.len() - i,
    {
        assert(show.shots@.take(i + 1).drop_last() =~= show.shots@.take(i as int));
        let card = md_shot_exec(&show.shots[i]);
        append_vec(&mut v, &card);
        i += 1;
        assert(v@ =~= head + md_shots(show.shots@.take(i as int)));
    }
    assert(show.shots@.take(show.shots.len() as int) =~= show.shots@);
    string_of(v.as_slice())
}

/// After an export or analysis: the phase becomes `motion`.
pub fn motion_touched(show: &mut Show, now: &str)
    requires
        old(show).rev < u64::MAX,
    ensures
        final(show).phase@ == "motion"@,
        spec_bumped(Show { phase: final(show).phase, ..*old(show) }, *final(show), now@),
{
    show.phase = string_of(chars_of("motion").as_slice());
    bump(show, now);
}

// ---------------------------------------------------------------- analyze

pub open spec fn needs_plate_msg(num: Seq<char>) -> Seq<char> {
    "motion analyze needs a plate — lot motion plate --file --shot "@ + num
}

/// The shot to analyze and its plate: refused for an unknown shot or one
/// without a plate.
pub fn motion_analyze_plate(show: &Show, shot_num: &str) -> (r: Result<(usize, String), ShowError>)
    ensures
        ({
            let k = first_shot_index(show.shots@, shot_num@);
            if k < 0 {
                fails_with(r, unknown_shot(shot_num@))
            } else {
                match show.shots@[k].plate_path {
                    Some(p) => r matches Ok((i, q)) && i == k && q@ == p@,
                    None => fails_with(r, needs_plate_msg(shot_num@)),
                }
            }
        }),
{
    proof {
        lemma_first_shot_index(show.shots@, shot_num@);
    }
    let k = match find_shot(&show.shots, shot_num) {
        Some(k) => k,
        None => return Err(msg2("unknown shot: ", shot_num)),
    };
    match &show.shots[k].plate_path {
        Some(p) => Ok((k, string_of(chars_of(p.as_str()).as_slice()))),
        None => Err(msg2("motion analyze needs a plate — lot motion plate --file --shot ", shot_num)),
    }
}

pub open spec fn no_engine_msg() -> Seq<char> {
    "no motion engine — LOT_MOTION_CMD ran but wrote no bundle. Did not invent pose/depth."@
}

/// An engine run counts only when it succeeded and wrote a file.
pub fn motion_engine_outcome(success: bool, wrote: bool) -> (r: Result<(), ShowError>)
    ensures
        success && wrote ==> r is Ok,
        !(success && wrote) ==> fails_with(r, no_engine_msg()),
{
    if !success || !wrote {
        return Err(msg("no motion engine — LOT_MOTION_CMD ran but wrote no bundle. Did not invent pose/depth."));
    }
    Ok(())
}

/// The probed length and rate, recorded on the analyzed shot.
pub fn motion_probed(
    show: &mut Show,
    k: usize,
    duration: Option<String>,
    fps: Option<String>,
    now: &str,
)
    requires
        old(show).rev < u64::MAX,
        k < old(show).shots@.len(),
    ensures
        others_kept(old(show).shots@, final(show).shots@, k as int),
        final(show).shots@[k as int] == (Shot {
            motion_duration: final(show).shots@[k as int].motion_duration,
            motion_fps: final(show).shots@[k as int].motion_fps,
            ..old(show).shots@[k as int]
        }),
        opt_str_view(final(show).shots@[k as int].motion_duration) == opt_str_view(duration),
        opt_str_view(final(show).shots@[k as int].motion_fps) == opt_str_view(fps),
        final(show).phase@ == "motion"@,
        spec_bumped(
            Show { shots: final(show).shots, phase: final(show).phase, ..*old(show) },
            *final(show),
            now@,
        ),
{
    let mut sh = show.shots.remove(k);
    sh.motion_duration = duration;
    sh.motion_fps = fps;
    let ghost after = sh;
    show.shots.insert(k, sh);
    assert(show.shots@[k as int] == after);
    assert(others_kept(old(show).shots@, show.shots@, k as int));
    show.phase = string_of(chars_of("motion").as_slice());
    bump(show, now);
}

pub open spec fn studio_note(running: bool) -> Seq<char> {
    if running {
        "Motion Previs Studio is running. Use its MCP for pose/depth. Lot stored plate + marks only."@
    } else {
        "No LOT_MOTION_CMD and no Motion Previs Studio control.json. Marks / ffprobe only — no fake OpenPose."@
    }
}

/// What the analyze event records: the shot, the engine, and where its
/// output went, or (with no engine) the studio's control file and a note.
pub open spec fn spec_analyze_extra(num: Seq<char>, engine_out: Option<Seq<char>>, studio: Option<Seq<char>>) -> JsonV {
    match engine_out {
        Some(out) => JsonV::Object(
            seq![("shot"@, JsonV::Str(num)), ("engine"@, JsonV::Str("lot_motion_cmd"@)), ("out"@, JsonV::Str(out))],
        ),
        None => JsonV::Object(
            seq![
                ("shot"@, JsonV::Str(num)),
                ("engine"@, JsonV::Str("lot-marks"@)),
                ("studio"@, match studio {
                    Some(p) => JsonV::Str(p),
                    None => JsonV::Null,
                }),
                ("note"@, JsonV::Str(studio_note(studio is Some))),
            ],
        ),
    }
}

pub fn analyze_extra(num: &str, engine_out: Option<&str>, studio: Option<&str>) -> (r: Json)
    ensures
        jv(r) == spec_analyze_extra(num@, opt_view(engine_out), opt_view(studio)),
{
    let mut ms: Vec<(String, Json)> = Vec::new();
    ms.push(pair("shot", str_json(num)));
    match engine_out {
        Some(out) => {
            ms.push(pair("engine", str_json("lot_motion_cmd")));
            ms.push(pair("out", str_json(out)));
            assert(jv_members(ms@) =~= seq![
                ("shot"@, JsonV::Str(num@)),
                ("engine"@, JsonV::Str("lot_motion_cmd"@)),
                ("out"@, JsonV::Str(out@)),
            ]) by {
                reveal_with_fuel(jv_members, 4);
            }
        },
        None => {
            ms.push(pair("engine", str_json("lot-marks")));
            let st = match studio {
                Some(p) => str_json(p),
                None => Json::Null,
            };
            ms.push(pair("studio", st));
            let note = if studio.is_some() {
                str_json("Motion Previs Studio is running. Use its MCP for pose/depth. Lot stored plate + marks only.")
            } else {
                str_json(
                    "No LOT_MOTION_CMD and no Motion Previs Studio control.json. Marks / ffprobe only — no fake OpenPose.",
                )
            };
            ms.push(pair("note", note));
            assert(jv_members(ms@) =~= seq![
                ("shot"@, JsonV::Str(num@)),
                ("engine"@, JsonV::Str("lot-marks"@)),
                ("studio"@, match opt_view(studio) {
                    Some(p) => JsonV::Str(p),
                    None => JsonV::Null,
                }),
                ("note"@, JsonV::Str(studio_note(opt_view(studio) is Some))),
            ]) by {
                reveal_with_fuel(jv_members, 5);
            }
        },
    }
    let r = Json::Object(ms);
    proof {
        let want = match opt_view(engine_out) {
            Some(out) => seq![("shot"@, JsonV::Str(num@)), ("engine"@, JsonV::Str("lot_motion_cmd"@)), ("out"@, JsonV::Str(out))],
            None => seq![
                ("shot"@, JsonV::Str(num@)),
                ("engine"@, JsonV::Str("lot-marks"@)),
                ("studio"@, match opt_view(studio) {
                    Some(p) => JsonV::Str(p),
                    None => JsonV::Null,
                }),
                ("note"@, JsonV::Str(studio_note(opt_view(studio) is Some))),
            ],
        };
        let sp = spec_analyze_extra(num@, opt_view(engine_out), opt_view(studio));
        assert(sp->Object_0 =~= want);
        assert(sp == JsonV::Object(want));
        assert(jv_members(ms@) =~= want);
    }
    r
}

/// The motion engine setting, trimmed; none when unset or blank.
pub fn motion_cmd_setting(env: Option<&str>) -> (r: Option<String>)
    ensures
        match r {
            Some(s) => opt_filled(env) == Some(s@),
            None => opt_filled(env) is None,
        },
{
    opt_filled_exec(env)
}

/// A marked shot keeps its number and its name.
pub proof fn lemma_marks_keep_name(
    before: Shot,
    after: Shot,
    mode: Option<Seq<char>>,
    mv: Option<Seq<char>>,
    notes: Option<Seq<char>>,
)
    requires
        marked(before, after, mode, mv, notes),
    ensures
        after.num == before.num,
        after.name == before.name,
{
}

/// A plated shot keeps its number and its name.
pub proof fn lemma_plate_keeps_name(
    before: Shot,
    after: Shot,
    path: Seq<char>,
    mode: Option<Seq<char>>,
    duration: Option<Seq<char>>,
    fps: Option<Seq<char>>,
)
    requires
        plated(before, after, path, mode, duration, fps),
    ensures
        after.num == before.num,
        after.name == before.name,
{
}

} // verus!
