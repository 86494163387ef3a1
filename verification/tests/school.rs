use lot::caps::Caps;
use lot::model::{Scene, Shot};
use lot::school::{school_exam, school_score, Fixture, Rubric, SchoolPack};

fn scene(id: &str, synopsis: &str, text: &str, characters: &[&str]) -> Scene {
    Scene {
        id: id.into(),
        num: "1".into(),
        slug: "INT. TENT - NIGHT".into(),
        int_ext: "INT".into(),
        location: "TENT".into(),
        master: "TENT".into(),
        sub: String::new(),
        area: String::new(),
        tod: "NIGHT".into(),
        tod_bucket: "NIGHT".into(),
        eighths: 8,
        synopsis: synopsis.into(),
        text: text.into(),
        characters: characters.iter().map(|c| (*c).to_string()).collect(),
    }
}

fn shot(id: &str, desc: &str, angle: &str) -> Shot {
    Shot {
        id: id.into(),
        num: id.trim_start_matches("sh-").into(),
        name: "INT. TENT - NIGHT".into(),
        scene_id: "sc-1".into(),
        size: String::new(),
        angle: angle.into(),
        move_kind: String::new(),
        lens: String::new(),
        desc: desc.into(),
        prompt: String::new(),
        locked: false,
        prompt_targets: Vec::new(),
        loras: Vec::new(),
        stage_marks: Vec::new(),
        ref_path: None,
        still_path: None,
        plate_path: None,
        motion_mode: None,
        motion_move: String::new(),
        motion_notes: String::new(),
        motion_duration: None,
        motion_fps: None,
    }
}

fn rubric(id: &str, track: &str) -> Rubric {
    Rubric {
        id: id.into(),
        track: track.into(),
        rule: format!("{id}: the rule"),
        counter_example: format!("{id}: a counter example"),
        apply: format!("{id}: how to apply it"),
        cite: format!("{id}: a source"),
    }
}

/// The pack: the two rubrics, a scene in which nobody wants anything, and a
/// scene with a want whose reverse keeps the set-up's screen direction.
fn pack() -> SchoolPack {
    SchoolPack {
        rubrics: vec![rubric("want-vs-need", "writer"), rubric("axis", "director")],
        no_want: Fixture {
            id: "no-want".into(),
            scene: scene("sc-1", "Ada sits by the trunk. Nobody wants anything.", "Rain.", &[]),
            shots: Vec::new(),
        },
        axis_fail: Fixture {
            id: "axis-fail".into(),
            scene: scene("sc-1", "Ada wants the coat back.", "ADA\nGive it.", &["ADA", "BO"]),
            shots: vec![
                shot("sh-01", "Ada looks screen left", "over the shoulder"),
                shot("sh-02", "Bo looks screen left", "reverse"),
            ],
        },
    }
}

#[test]
fn score_no_want_fixture_fails_want_rubric() {
    let report = school_score(Caps::all(), &pack(), None, None, Some("no-want")).unwrap();
    let want = report
        .scores
        .iter()
        .find(|s| s.id == "want-vs-need")
        .expect("want-vs-need");
    assert!(!want.pass, "{:?}", report.scores);
    assert!(!want.rule.is_empty());
    assert!(!want.counter_example.is_empty());
    assert!(!want.apply.is_empty());
    assert!(!want.cite.is_empty());
}

#[test]
fn score_axis_fail_fixture_fails_axis_rubric() {
    let report = school_score(Caps::all(), &pack(), None, None, Some("axis-fail")).unwrap();
    let axis = report.scores.iter().find(|s| s.id == "axis").expect("axis");
    assert!(!axis.pass, "{:?}", report.scores);
    let want = report
        .scores
        .iter()
        .find(|s| s.id == "want-vs-need")
        .expect("want-vs-need");
    assert!(want.pass, "axis-fail fixture has a want");
}

#[test]
fn unknown_fixture_is_honest() {
    let err = school_exam(Caps::all(), &pack(), None, Some("not-a-fixture"))
        .unwrap_err()
        .message();
    assert!(err.contains("no fixture —"), "{err}");
}
