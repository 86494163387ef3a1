use lot::brain::strip_fences;
use lot::caps::{parse_caps, Cap, Caps};
use lot::dailies::{file_url, reel_name, timecode};
use lot::handoff::next_phase;
use lot::model::{filename_shot_prefix, shot_nums_match, Shot};
use lot::packs::{resolve_format, resolve_ids, IdKind, PackFile, PackItem};
use lot::version::{is_newer, version_info};

fn blank_shot(id: &str, num: &str, name: &str) -> Shot {
    Shot {
        id: id.into(),
        num: num.into(),
        name: name.into(),
        scene_id: String::new(),
        size: String::new(),
        angle: String::new(),
        move_kind: String::new(),
        lens: String::new(),
        desc: String::new(),
        prompt: String::new(),
        locked: false,
        prompt_targets: Vec::new(),
        loras: Vec::new(),
        stage_marks: Vec::new(),
        ref_path: None,
        still_path: None,
        plate_path: None,
        motion_mode: None,
        motion_move: String::new(),
        motion_notes: String::new(),
        motion_duration: None,
        motion_fps: None,
    }
}

fn pack(ids: &[&str]) -> PackFile {
    PackFile {
        reviewed: "2025-01-01".into(),
        disclaimer: "coverage influence, not endorsement".into(),
        items: ids
            .iter()
            .map(|id| PackItem {
                id: (*id).into(),
                label: None,
                name: None,
                notes: None,
                kind: None,
            })
            .collect(),
    }
}

#[test]
fn strip_fences_plain() {
    assert_eq!(strip_fences("FADE IN:"), "FADE IN:");
}

#[test]
fn strip_fences_md() {
    let s = "```fountain\nFADE IN:\n\nINT. ROOM - DAY\n```";
    assert!(strip_fences(s).starts_with("FADE IN:"));
}

#[test]
fn parse_and_imply() {
    let r = parse_caps("read").unwrap();
    assert!(r.allows(Cap::Read));
    assert!(!r.allows(Cap::Write));
    assert!(!r.allows(Cap::Spend));
    let w = parse_caps("write").unwrap();
    assert!(w.allows(Cap::Read) && w.allows(Cap::Write));
    assert!(!w.allows(Cap::Spend) && !w.allows(Cap::Render));
    let s = parse_caps("spend").unwrap();
    assert!(s.allows(Cap::Write) && s.allows(Cap::Spend));
    assert!(!s.allows(Cap::Render));
    let both = parse_caps("write,spend").unwrap();
    assert!(both.allows(Cap::Write) && both.allows(Cap::Spend));
    assert!(!both.allows(Cap::Render));
    assert!(parse_caps("all").unwrap() == Caps::all());
    assert!(parse_caps("nope").is_err());
}

#[test]
fn prefix_binds_without_renaming_shot() {
    assert_eq!(filename_shot_prefix("01-foo.mp4").as_deref(), Some("01"));
    assert!(shot_nums_match("01", "1"));
    assert!(shot_nums_match("01", "01"));
    let shot = blank_shot("sh-01", "01", "INT. TENT - NIGHT");
    assert_eq!(shot.name, "INT. TENT - NIGHT");
    assert!(shot_nums_match(&shot.num, "01"));
}

#[test]
fn timecode_is_24fps_ndf() {
    assert_eq!(timecode(0), "00:00:00:00");
    assert_eq!(timecode(24), "00:00:01:00");
    assert_eq!(timecode(48), "00:00:02:00");
    assert_eq!(timecode(24 * 60), "00:01:00:00");
    assert_eq!(reel_name("01-foo.mp4"), "01FOO   ");
    assert_eq!(reel_name(""), "AX      ");
}

#[test]
fn file_url_is_absolute_file_scheme() {
    let unix = file_url("/tmp/show/media/01-foo.mp4");
    assert!(unix.starts_with("file:///"), "{unix}");
    assert!(!unix.contains("localhost"));
    let win = file_url(r"C:\Users\thcab\lot\media\01-foo.mp4");
    assert!(win.starts_with("file:///"), "{win}");
    assert!(win.contains("C:"), "{win}");
}

#[test]
fn pipeline_order() {
    assert_eq!(next_phase("writer").as_deref(), Some("breakdown"));
    assert_eq!(next_phase("stems").as_deref(), Some("cut"));
    assert_eq!(next_phase("cut"), None);
    assert_eq!(next_phase("nope"), None);
}

#[test]
fn unknown_ids_name_the_kind() {
    let genres = pack(&["drama", "thriller"]);
    let living = pack(&["greta-gerwig"]);
    let canon = pack(&["akira-kurosawa"]);
    let err = resolve_ids(IdKind::Genre, &genres, &["not-a-genre".into()])
        .unwrap_err()
        .message();
    assert!(err.contains("unknown genre"), "{err}");
    let err = resolve_ids(IdKind::Living, &living, &["not-a-director".into()])
        .unwrap_err()
        .message();
    assert!(err.contains("unknown living"), "{err}");
    let err = resolve_ids(IdKind::Canon, &canon, &["not-a-director".into()])
        .unwrap_err()
        .message();
    assert!(err.contains("unknown canon"), "{err}");
}

#[test]
fn format_ids() {
    assert_eq!(resolve_format("30Min").unwrap(), "30min");
    assert!(resolve_format("webisode")
        .unwrap_err()
        .message()
        .contains("unknown format"));
}

#[test]
fn version_names_the_crate() {
    let v = version_info();
    assert!(v.ok);
    assert_eq!(v.name, "lot");
    assert!(!v.version.is_empty());
}

#[test]
fn is_newer_compares_semver() {
    assert!(is_newer("0.2.0", "0.1.0"));
    assert!(!is_newer("0.1.0", "0.1.0"));
    assert!(!is_newer("0.0.9", "0.1.0"));
}
