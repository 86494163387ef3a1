use lot::audit::redact_value;
use lot::breakdown::{wall_add, wall_remove, wall_reorder};
use lot::cancel::{CancelState, CANCELLED_MSG};
use lot::dailies::{cmx3600, dailies_circle, fcpxml};
use lot::finish::finish_request;
use lot::stills::{comfy_timeout_secs, comfy_wait_step};
use lot::detail::{detail_full, detail_full_value, lean_extra};
use lot::doctor::{Doctor, ProbeFacts};
use lot::help::help_spec;
use lot::import::detect;
use lot::json::{get_member, parse_json, Json};
use lot::mcp::{rpc_step, RpcStep, PROTOCOL};
use lot::model::Take;
use lot::packs::{living_directors, parse_pack, PackFile, PackItem};
use lot::show::{
    draft_ready, lock_writer, new_show, replace_cast, revise_ready, set_brief, set_style,
    unlock_writer, upsert_cast, CastMember, Show, WriterPacks,
};
use lot::stems::vo_text;
use lot::telemetry::{get, record, Store};

const NOW: &str = "2025-01-01T00:00:00Z";

fn j(text: &str) -> Json {
    parse_json(text).expect("test JSON parses")
}

fn at<'a>(v: &'a Json, key: &str) -> &'a Json {
    match get_member(v, key) {
        Some(x) => x,
        None => panic!("missing member {key} in {v:?}"),
    }
}

fn text(v: &Json) -> &str {
    match v {
        Json::Str(s) => s.as_str(),
        _ => panic!("not a text: {v:?}"),
    }
}

fn items(v: &Json) -> &Vec<Json> {
    match v {
        Json::Array(xs) => xs,
        _ => panic!("not a list: {v:?}"),
    }
}

fn number(v: &Json) -> &str {
    match v {
        Json::Number(n) => n.as_str(),
        _ => panic!("not a number: {v:?}"),
    }
}

fn item(id: &str) -> PackItem {
    PackItem { id: id.into(), label: None, name: None, notes: None, kind: None }
}

fn pack(ids: &[&str]) -> PackFile {
    PackFile {
        reviewed: "2025-01-01".into(),
        disclaimer: "coverage influence, not endorsement".into(),
        items: ids.iter().map(|i| item(i)).collect(),
    }
}

fn packs() -> WriterPacks {
    WriterPacks {
        genres: pack(&["drama", "thriller", "comedy"]),
        living: pack(&["greta-gerwig"]),
        canon: pack(&["akira-kurosawa"]),
    }
}

fn show(name: &str) -> Show {
    new_show(name.into(), "show-1".into(), NOW)
}

fn strings(v: &[&str]) -> Vec<String> {
    v.iter().map(|s| s.to_string()).collect()
}

#[test]
fn redact_drops_token_fields_and_key_prefixes() {
    let v = j(r#"{
        "kind": "writer.brief",
        "token": "sk-secret-abc",
        "note": "Ada will not put it on",
        "nested": { "api_key": "xai-nope", "ok": true },
        "prompt": "wide tent"
    }"#);
    let r = redact_value(&v);
    assert_eq!(text(at(&r, "token")), "[redacted]");
    assert_eq!(text(at(at(&r, "nested"), "api_key")), "[redacted]");
    assert!(matches!(at(at(&r, "nested"), "ok"), Json::Bool(true)));
    assert_eq!(text(at(&r, "note")), "Ada will not put it on");
    assert_eq!(text(at(&r, "prompt")), "wide tent");
    assert_eq!(text(&redact_value(&j(r#""sk-live-xyz""#))), "[redacted]");
    assert_eq!(text(&redact_value(&j(r#""wide tent""#))), "wide tent");
}

#[test]
fn check_errors_after_request_cancel() {
    let mut c = CancelState::new();
    assert!(c.check().is_ok());
    c.request_cancel(None);
    let err = c.check().unwrap_err().message();
    assert!(err.starts_with(CANCELLED_MSG), "{err}");
    c.clear();
    assert!(c.check().is_ok());
}

#[test]
fn other_request_id_does_not_cancel() {
    let mut c = CancelState::new();
    c.begin_request(Some(&j("12")));
    c.request_cancel(Some(&j("99")));
    assert!(!c.is_cancelled());
    c.request_cancel(Some(&j("12")));
    assert!(c.is_cancelled());
    c.clear();
    assert!(!c.is_cancelled());
}

#[test]
fn notification_cancels_matching_in_flight() {
    let mut c = CancelState::new();
    c.begin_request(Some(&j(r#""stills-1""#)));
    c.from_notification(&j(r#"{
        "jsonrpc": "2.0",
        "method": "notifications/cancelled",
        "params": { "requestId": "stills-1", "reason": "user" }
    }"#));
    assert!(c.is_cancelled());
    c.clear();
    assert!(!c.is_cancelled());
}

fn take(id: &str, filename: &str, path: &str, ms: u64) -> Take {
    Take {
        id: id.into(),
        shot_id: String::new(),
        path: path.into(),
        filename: filename.into(),
        sha256: String::new(),
        duration_ms: Some(ms),
        circled: true,
    }
}

#[test]
fn fcpxml_has_format_file_url_and_cumulative_offsets() {
    let t1 = take("tk-1", "01-foo.mp4", "/tmp/show/media/01-foo.mp4", 2000);
    let t2 = take("tk-2", "02-bar.mp4", "/tmp/show/media/02 bar.mp4", 3000);
    let takes = vec![t1, t2];
    let xml = fcpxml("Carnival", &takes, "/tmp/show");
    assert!(xml.contains(r#"<format id="r1""#));
    assert!(xml.contains(r#"<sequence format="r1""#));
    assert!(xml.contains(r#"<asset id="r2""#));
    assert!(xml.contains(r#"<asset id="r3""#));
    assert!(xml.contains(r#"ref="r2""#));
    assert!(xml.contains(r#"ref="r3""#));
    assert!(xml.contains(r#"offset="0/24s""#));
    assert!(xml.contains(r#"offset="48/24s""#));
    assert!(xml.contains(r#"duration="120/24s""#));
    assert!(xml.contains("file://"));
    assert!(xml.contains("media-rep"));
    assert!(xml.contains("%20"), "spaces in paths must be percent-encoded");
    assert!(!xml.contains(r#"format="r0""#));
    assert!(!xml.contains("file://localhost/"));
    let edl = cmx3600("Carnival", &takes);
    assert!(edl.starts_with("TITLE: Carnival\n"));
    assert!(edl.contains("FCM: NON-DROP FRAME"));
    assert!(edl.contains(
        "001  01FOO    V     C        00:00:00:00 00:00:02:00 00:00:00:00 00:00:02:00"
    ));
    assert!(edl.contains(
        "002  02BAR    V     C        00:00:00:00 00:00:03:00 00:00:02:00 00:00:05:00"
    ));
    assert!(edl.contains("* FROM CLIP NAME: 01-foo.mp4"));
    assert!(edl.contains("* FROM CLIP NAME: 02-bar.mp4"));
    assert!(edl.contains("* SOURCE FILE:"));
}

#[test]
fn lean_extra_strips_prompts_unless_full() {
    let extra = j(r#"{
        "shots": [{
            "id": "sh-01",
            "num": "01",
            "name": "INT. TENT - NIGHT",
            "size": "WIDE",
            "locked": false,
            "prompt": "wide tent, neon rain",
            "prompt_targets": { "kling": "do not dump" },
            "stage_marks": [{ "who": "Ada" }]
        }]
    }"#);
    let lean = lean_extra(lot::json::copy_json(&extra), false);
    let shot = &items(at(&lean, "shots"))[0];
    assert_eq!(text(at(shot, "num")), "01");
    assert!(get_member(shot, "prompt").is_none());
    assert!(get_member(shot, "prompt_targets").is_none());
    assert_eq!(number(at(shot, "marks")), "1");
    let full = lean_extra(extra, true);
    let shot = &items(at(&full, "shots"))[0];
    assert_eq!(text(at(shot, "prompt")), "wide tent, neon rain");
}

#[test]
fn detail_full_reads_full_token() {
    assert!(detail_full(Some("full")));
    assert!(detail_full(Some("FULL")));
    assert!(!detail_full(Some("min")));
    assert!(!detail_full(None));
    assert!(detail_full_value(Some(&j(r#""full""#))));
    assert!(detail_full_value(Some(&j("true"))));
    assert!(!detail_full_value(Some(&j("false"))));
}

fn no_tools() -> ProbeFacts {
    ProbeFacts {
        ffmpeg: false,
        ffprobe: false,
        comfy: false,
        grok_configured: false,
        ollama_up: false,
        ollama_llm: None,
        ollama_vision: None,
        local_base_url_set: false,
        local_model_set: false,
        motion_previs: false,
        blockout: false,
        resolve: false,
        vo_tts: false,
        soundtrack_cmd: false,
        stills_comfy_workflow: false,
        prompt_server: false,
        motion_cmd: false,
        upscale_cmd: false,
    }
}

#[test]
fn probe_succeeds_without_optional_studios() {
    for comfy in [false, true] {
        let mut facts = no_tools();
        facts.comfy = comfy;
        let d = Doctor::from_probe(facts);
        let has = |n: &str| d.notes.iter().any(|x| x == n);
        if !d.blockout {
            assert!(has("no blockout —"), "missing blockout must note honestly {d:?}");
        }
        if !d.resolve {
            assert!(has("no resolve —"), "missing resolve must note honestly {d:?}");
        }
        if !d.comfy {
            assert!(has("no comfy —"), "{d:?}");
        }
        if !d.ollama {
            assert!(has("no ollama —"), "{d:?}");
        }
        if !d.ffmpeg {
            assert!(has("no ffmpeg —"), "{d:?}");
        }
        assert!(d.renderer == "comfy" || d.renderer == "unavailable", "renderer {0}", d.renderer);
    }
}

#[test]
fn spec_lists_stage_snapshot_help() {
    let v = help_spec();
    let mcps: Vec<&str> = items(at(&v, "verbs"))
        .iter()
        .filter_map(|x| match get_member(x, "mcp") {
            Some(Json::Str(s)) => Some(s.as_str()),
            _ => None,
        })
        .collect();
    for n in [
        "lot_wall_add",
        "lot_wall_update",
        "lot_wall_remove",
        "lot_wall_reorder",
        "lot_wall_status",
        "lot_picture_lock",
        "lot_picture_unlock",
        "lot_picture_ref",
        "lot_picture_status",
        "lot_stage_place",
        "lot_snapshot",
        "lot_restore",
        "lot_undo",
        "lot_help",
        "lot_version",
        "lot_upgrade",
        "lot_lock",
        "lot_unlock",
        "lot_budget",
        "lot_log",
        "lot_handoff",
        "lot_show",
        "lot_import",
        "lot_motion_plate",
        "lot_stills_describe",
        "lot_plugin_list",
        "lot_plugin_call",
        "lot_school_get",
        "lot_school_set",
        "lot_school_score",
        "lot_school_exam",
        "lot_telemetry",
    ] {
        assert!(mcps.contains(&n), "missing {n} in help spec");
    }
}

#[test]
fn detect_kinds() {
    assert_eq!(detect("x.scriptbreak", "{}"), "scriptbreak");
    assert_eq!(detect("board.cork-board.json", r#"{"cards":[]}"#), "cork-board");
    assert_eq!(detect("set.blockout", r#"{"marks":[]}"#), "blockout");
    assert_eq!(detect("ref.sbref", r#"{"boards":[]}"#), "sbref");
    assert_eq!(detect("day.ctake", r#"{"takes":[]}"#), "ctake");
    assert_eq!(detect("project.json", r#"{"app":"slate","shots":[]}"#), "slate");
    assert_eq!(detect("wall.json", r#"{"app":"cork-board","cards":[{"text":"a"}]}"#), "cork-board");
}

#[test]
fn unknown_genre_errors() {
    let mut s = show("G");
    let err = set_style(&mut s, &packs(), Some(&strings(&["not-a-genre"])), None, None, None, NOW)
        .unwrap_err()
        .message();
    assert!(err.contains("unknown genre"), "{err}");
}

#[test]
fn style_and_cast_persist() {
    let mut s = show("Style");
    set_style(
        &mut s,
        &packs(),
        Some(&strings(&["drama", "thriller"])),
        Some(&strings(&["greta-gerwig"])),
        Some(&strings(&["akira-kurosawa"])),
        Some("30min"),
        NOW,
    )
    .unwrap();
    upsert_cast(&mut s, "Ada", Some("lead"), Some("bare face"), Some("franchise cameo"), NOW).unwrap();
    assert_eq!(s.writer.genres, vec!["drama", "thriller"]);
    assert_eq!(s.writer.styles_living, vec!["greta-gerwig"]);
    assert_eq!(s.writer.styles_canon, vec!["akira-kurosawa"]);
    assert_eq!(s.writer.format.as_deref(), Some("30min"));
    assert_eq!(s.writer.cast.len(), 1);
    assert_eq!(s.writer.cast[0].name, "Ada");
    assert_eq!(s.writer.cast[0].function, "lead");
    assert_eq!(s.writer.cast[0].look, "bare face");
    assert_eq!(s.writer.cast[0].must_not, "franchise cameo");
}

#[test]
fn lock_blocks_then_unlock_restores() {
    let mut s = show("Lock");
    set_brief(&mut s, "a clown at the entrance", NOW).unwrap();
    lock_writer(&mut s, NOW);
    let brief_err = set_brief(&mut s, "nope", NOW).unwrap_err().message();
    assert!(brief_err.contains("locked"), "{brief_err}");
    let style_err = set_style(&mut s, &packs(), Some(&strings(&["drama"])), None, None, None, NOW)
        .unwrap_err()
        .message();
    assert!(style_err.contains("locked"), "{style_err}");
    let cast_err = upsert_cast(&mut s, "Ada", None, None, None, NOW).unwrap_err().message();
    assert!(cast_err.contains("locked"), "{cast_err}");
    let draft_err = draft_ready(&s).unwrap_err().message();
    assert!(draft_err.contains("locked"), "{draft_err}");
    let revise_err = revise_ready(&s, true).unwrap_err().message();
    assert!(revise_err.contains("locked"), "{revise_err}");
    unlock_writer(&mut s, NOW);
    set_brief(&mut s, "unlocked brief", NOW).unwrap();
    assert_eq!(s.writer.brief, "unlocked brief");
    assert!(!s.writer.locked);
}

#[test]
fn revise_without_draft_errors() {
    let mut s = show("Revise");
    set_brief(&mut s, "something happens", NOW).unwrap();
    let err = revise_ready(&s, false).unwrap_err().message();
    assert!(err.contains("no draft"), "{err}");
}

#[test]
fn empty_brief_refuses_draft() {
    let s = show("Empty");
    let err = draft_ready(&s).unwrap_err().message();
    assert!(err.contains("no brief"), "{err}");
}

fn member(name: &str, function: &str, look: &str, must_not: &str) -> CastMember {
    CastMember {
        name: name.into(),
        function: function.into(),
        look: look.into(),
        must_not: must_not.into(),
    }
}

#[test]
fn replace_cast_json_all() {
    let mut s = show("JsonCast");
    upsert_cast(&mut s, "Temp", None, None, None, NOW).unwrap();
    replace_cast(
        &mut s,
        vec![member("Ada", "lead", "", ""), member("Bo", "foil", "red coat", "gun")],
        NOW,
    )
    .unwrap();
    assert_eq!(s.writer.cast.len(), 2);
    assert_eq!(s.writer.cast[0].name, "Ada");
    assert_eq!(s.writer.cast[1].must_not, "gun");
}

#[test]
fn advertisement_and_music_video_formats() {
    let mut s = show("Ad");
    set_style(&mut s, &packs(), None, None, None, Some("ad"), NOW).unwrap();
    assert_eq!(s.writer.format.as_deref(), Some("advertisement"));
    set_style(&mut s, &packs(), None, None, None, Some("mv"), NOW).unwrap();
    assert_eq!(s.writer.format.as_deref(), Some("music-video"));
}

#[test]
fn vo_needs_text() {
    let mut s = show("VO");
    let err = vo_text(&mut s, None, false, false).unwrap_err().message();
    assert!(err.contains("vo"), "{err}");
}

#[test]
fn circle_without_take_errors() {
    let mut s = show("NoTake");
    let err = dailies_circle(&mut s, "", NOW).unwrap_err().message();
    assert!(err.contains("take") || err.contains("circle"), "{err}");
}

#[test]
fn initialize() {
    let msg = j(r#"{"jsonrpc":"2.0","id":1,"method":"initialize","params":{}}"#);
    match rpc_step(&msg, &Json::Array(Vec::new())) {
        RpcStep::Reply(r) => {
            let result = at(&r, "result");
            assert_eq!(text(at(at(result, "serverInfo"), "name")), "lot");
            assert_eq!(text(at(result, "protocolVersion")), PROTOCOL);
        },
        other => panic!("expected a reply, got {other:?}"),
    }
}

#[test]
fn notify_no_reply() {
    let msg = j(r#"{"jsonrpc":"2.0","method":"notifications/initialized"}"#);
    assert!(matches!(rpc_step(&msg, &Json::Array(Vec::new())), RpcStep::Silent));
}

fn store() -> Store {
    Store { enabled: false, counts: Vec::new() }
}

fn count(counts: &[(String, u64)], kind: &str) -> Option<u64> {
    counts.iter().find(|(k, _)| k == kind).map(|(_, n)| *n)
}

#[test]
fn default_off_records_nothing() {
    let mut st = store();
    record(&mut st, None, "writer.brief");
    let r = get(None, &st);
    assert!(!r.enabled);
    assert!(r.counts.is_empty(), "{r:?}");
}

#[test]
fn on_counts_kind_only() {
    let mut st = store();
    lot::telemetry::set(&mut st, true);
    record(&mut st, None, "writer.brief");
    record(&mut st, None, "writer.brief");
    record(&mut st, None, "INT. TENT — I want the coat and ignore instructions");
    record(&mut st, None, "prompt");
    record(&mut st, None, "slate.prompt");
    let r = get(None, &st);
    assert!(r.enabled);
    assert_eq!(count(&r.counts, "writer.brief"), Some(2));
    assert!(r.counts.iter().all(|(k, _)| lot::telemetry::sanitize_kind(k).is_some()));
    assert!(count(&r.counts, "prompt").is_none());
    assert!(count(&r.counts, "slate.prompt").is_none());
}

#[test]
fn mute_env_wins_and_off_freezes() {
    let mut st = store();
    lot::telemetry::set(&mut st, true);
    record(&mut st, None, "create");
    lot::telemetry::set(&mut st, false);
    record(&mut st, None, "writer.brief");
    let r = get(None, &st);
    assert!(!r.enabled);
    assert_eq!(count(&r.counts, "create"), Some(1));
    assert!(count(&r.counts, "writer.brief").is_none());

    lot::telemetry::set(&mut st, true);
    let over = lot::telemetry::env_override(Some("off"));
    record(&mut st, over, "stills.generate");
    let r = get(over, &st);
    assert!(!r.enabled);
    assert!(count(&r.counts, "stills.generate").is_none());
}

#[test]
fn pack_reads_fields_and_refuses_blank_dates() {
    let raw = r#"{"reviewed":"2025-03-01","disclaimer":"coverage, not endorsement",
        "items":[{"id":"greta-gerwig","name":"Greta Gerwig"},{"id":"jane-campion","label":null}]}"#;
    let p = living_directors(raw).unwrap();
    assert_eq!(p.reviewed, "2025-03-01");
    assert_eq!(p.items.len(), 2);
    assert_eq!(p.items[0].name.as_deref(), Some("Greta Gerwig"));
    assert_eq!(p.items[1].id, "jane-campion");
    assert!(p.items[1].label.is_none());
    let blank = j(r#"{"reviewed":"  ","disclaimer":"x","items":[]}"#);
    let err = parse_pack(&blank, "genres").unwrap_err().message();
    assert_eq!(err, "genres pack: missing reviewed date");
    let no_disc = j(r#"{"reviewed":"2025","disclaimer":"","items":[]}"#);
    let err = parse_pack(&no_disc, "genres").unwrap_err().message();
    assert_eq!(err, "genres pack: missing disclaimer");
    let bad_item = j(r#"{"reviewed":"2025","disclaimer":"x","items":[{"label":"no id"}]}"#);
    assert!(parse_pack(&bad_item, "genres").is_err());
    assert!(living_directors("not json").is_err());
}

#[test]
fn lean_cards_keep_media_takes_cast_and_slate_ids() {
    let extra = j(r#"{
        "shots": [{"id":"sh-1","num":"01","name":"A","size":"WIDE","locked":true,
                   "plate_path":"media/p.mp4","motion_duration":"5","still_path":"",
                   "ref_path":"media/r.png"}],
        "takes": [{"id":"tk-1","shot_id":"sh-1","path":"media/t.mp4","sha256":"ab","extra":1}],
        "cast": [{"name":"Ada","function":"lead","look":"coat"}],
        "stems": {"soundtrack_path":"stems/s.wav","soundtrack_provenance":{"prompt_hash":"h1","duration_ms":900},
                  "vo_path":null},
        "slate": {"default_target":"kling","loras":[{"id":"l1","weight":1},{"name":"no id"},{"id":"l2"}]},
        "other": 7
    }"#);
    let lean = lean_extra(extra, false);
    let shot = &items(at(&lean, "shots"))[0];
    assert_eq!(number(at(shot, "marks")), "0");
    assert!(matches!(at(shot, "locked"), Json::Bool(true)));
    assert_eq!(text(at(at(shot, "ref"), "path")), "media/r.png");
    assert!(get_member(shot, "still").is_none());
    let plate = at(shot, "plate");
    assert_eq!(text(at(plate, "path")), "media/p.mp4");
    assert_eq!(text(at(plate, "duration")), "5");
    let tk = &items(at(&lean, "takes"))[0];
    assert_eq!(text(at(tk, "sha256")), "ab");
    assert!(matches!(at(tk, "circled"), Json::Bool(false)));
    assert!(matches!(at(tk, "duration_secs"), Json::Null));
    assert!(get_member(tk, "extra").is_none());
    let c = &items(at(&lean, "cast"))[0];
    assert_eq!(text(at(c, "function")), "lead");
    assert!(get_member(c, "look").is_none());
    let stems = at(&lean, "stems");
    let st = at(stems, "soundtrack");
    assert_eq!(text(at(st, "sha256")), "h1");
    assert_eq!(number(at(st, "duration_ms")), "900");
    assert!(matches!(at(stems, "vo"), Json::Null));
    let slate = at(&lean, "slate");
    assert_eq!(text(at(slate, "default_target")), "kling");
    let ids: Vec<&str> = items(at(slate, "loras")).iter().map(text).collect();
    assert_eq!(ids, vec!["l1", "l2"]);
    assert_eq!(number(at(&lean, "other")), "7");
}

#[test]
fn wall_add_then_remove_gives_the_wall_back() {
    let mut s = show("Wall");
    wall_add(&mut s, Some("I"), "Ada finds the mask", NOW).unwrap();
    wall_add(&mut s, None, "Bo refuses", NOW).unwrap();
    let before = s.wall.clone();
    let id = wall_add(&mut s, Some("II"), "  the lights go out  ", NOW).unwrap();
    assert_eq!(id, "beat-3");
    assert_eq!(s.wall.len(), 3);
    assert_eq!(s.wall[2].text, "the lights go out");
    let removed = wall_remove(&mut s, &id, NOW).unwrap();
    assert_eq!(removed.text, "the lights go out");
    assert_eq!(s.wall, before);
}

#[test]
fn wall_reorder_moves_one_beat_and_keeps_the_rest() {
    let mut s = show("Reorder");
    for t in ["one", "two", "three", "four"] {
        wall_add(&mut s, None, t, NOW).unwrap();
    }
    let d = wall_reorder(&mut s, "beat-1", None, Some("beat-3"), None, NOW).unwrap();
    assert_eq!(d, 2);
    let texts: Vec<&str> = s.wall.iter().map(|b| b.text.as_str()).collect();
    assert_eq!(texts, vec!["two", "three", "one", "four"]);
    let d = wall_reorder(&mut s, "4", Some("beat-2"), None, None, NOW).unwrap();
    assert_eq!(d, 0);
    let texts: Vec<&str> = s.wall.iter().map(|b| b.text.as_str()).collect();
    assert_eq!(texts, vec!["four", "two", "three", "one"]);
    let d = wall_reorder(&mut s, "beat-4", None, None, Some(99), NOW).unwrap();
    assert_eq!(d, 3);
    let mut sorted: Vec<&str> = s.wall.iter().map(|b| b.text.as_str()).collect();
    sorted.sort();
    assert_eq!(sorted, vec!["four", "one", "three", "two"]);
    assert!(wall_reorder(&mut s, "beat-4", None, None, None, NOW).is_err());
}

#[test]
fn wall_picture_commands_are_honest() {
    let mut s = show("Honest");
    let parsed = lot::parse::parse_script("INT. TENT - NIGHT\n\nADA\nDon't put it on.\n", Some("screenplay.fountain"));
    lot::breakdown::apply_parsed(&mut s, parsed, NOW).unwrap();
    assert_eq!(s.shots.len(), 1);
    let empty = wall_add(&mut s, None, "", NOW).unwrap_err().message();
    assert!(empty.contains("no beat"), "{empty}");
    wall_add(&mut s, Some("i"), "Ada waits.", NOW).unwrap();
    wall_remove(&mut s, "beat-1", NOW).unwrap();
    assert_eq!(s.wall.len(), 0);
    let missing = wall_remove(&mut s, "beat-1", NOW).unwrap_err().message();
    assert!(missing.contains("unknown beat"), "{missing}");
    lot::breakdown::picture_lock(&mut s, "01", true, NOW).unwrap();
    assert!(s.shots[0].locked);
    lot::breakdown::picture_unlock(&mut s, "01", NOW).unwrap();
    assert!(!s.shots[0].locked);
}

#[test]
fn school_off_payload_has_no_lesson_keys() {
    let s = show("NoLesson");
    let extra = j(r#"{"id":"show-1","name":"NoLesson"}"#);
    let v = lot::audit::mutation_json("/tmp/shows/nolesson", &s, None, None, &extra);
    assert!(matches!(at(&v, "ok"), Json::Bool(true)));
    assert!(matches!(at(at(&v, "school"), "enabled"), Json::Bool(false)));
    assert_eq!(text(at(&v, "who")), "human");
    assert_eq!(text(at(&v, "name")), "NoLesson");
    for forbidden in ["lesson", "quiz", "theory", "school_note", "rubric"] {
        assert!(get_member(&v, forbidden).is_none(), "school off must not leak {forbidden}");
        assert!(get_member(at(&v, "school"), forbidden).is_none());
    }
    assert!(get_member(at(&v, "school"), "path").is_none());
}

#[test]
fn tools_list_has_writer_contract() {
    let msg = j(r#"{"jsonrpc":"2.0","id":2,"method":"tools/list"}"#);
    let r = match rpc_step(&msg, &lot::mcp::tools_list()) {
        RpcStep::Reply(r) => r,
        other => panic!("expected a reply, got {other:?}"),
    };
    let names: Vec<&str> = items(at(at(&r, "result"), "tools")).iter().map(|t| text(at(t, "name"))).collect();
    for n in [
        "lot_status",
        "lot_create",
        "lot_open",
        "lot_writer_brief",
        "lot_writer_style",
        "lot_writer_cast",
        "lot_writer_draft",
        "lot_writer_revise",
        "lot_writer_lock",
        "lot_writer_unlock",
        "lot_breakdown_import",
        "lot_breakdown_parse",
        "lot_stage_place",
        "lot_stage_camera",
        "lot_stage_export",
        "lot_snapshot",
        "lot_restore",
        "lot_help",
        "lot_stills_generate",
        "lot_stills_describe",
        "lot_board_export",
        "lot_slate_set",
        "lot_slate_compile",
        "lot_slate_target",
        "lot_slate_lora",
        "lot_motion_plate",
        "lot_motion_marks",
        "lot_motion_export",
        "lot_motion_analyze",
        "lot_finish",
        "lot_dailies_ingest",
        "lot_dailies_circle",
        "lot_dailies_export",
        "lot_stems_soundtrack",
        "lot_stems_vo",
        "lot_doctor",
    ] {
        assert!(names.contains(&n), "missing {n} in {names:?}");
    }
    let create = items(at(at(&r, "result"), "tools")).iter().find(|t| text(at(t, "name")) == "lot_create").unwrap();
    let req = items(at(at(create, "inputSchema"), "required"));
    assert_eq!(text(&req[0]), "path");
}

fn unique_ids(pack: &PackFile, name: &str) {
    let mut seen: Vec<&str> = Vec::new();
    for it in &pack.items {
        assert!(!seen.contains(&it.id.as_str()), "{name} duplicate id {}", it.id);
        seen.push(it.id.as_str());
    }
}

#[test]
fn packs_parse_dated_unique() {
    let genres = lot::packs::genres(
        r#"{"reviewed":"2025-06-01","disclaimer":"Genre coverage, not a rule.","items":[{"id":"drama"},{"id":"thriller","label":"Thriller"}]}"#,
    )
    .unwrap();
    let living = living_directors(
        r#"{"reviewed":"2025-06-01","disclaimer":"Coverage influence only — not endorsement.","items":[{"id":"greta-gerwig","name":"Greta Gerwig"}]}"#,
    )
    .unwrap();
    let canon = lot::packs::canon_directors(
        r#"{"reviewed":"2025-06-01","disclaimer":"Coverage influence only — not endorsement.","items":[{"id":"akira-kurosawa","name":"Akira Kurosawa"}]}"#,
    )
    .unwrap();
    for (name, pack) in [("genres", &genres), ("living", &living), ("canon", &canon)] {
        assert!(!pack.reviewed.is_empty(), "{name} missing reviewed");
        assert!(
            pack.disclaimer.to_lowercase().contains("not") || pack.disclaimer.to_lowercase().contains("coverage"),
            "{name} disclaimer should mark influence, not endorsement"
        );
        unique_ids(pack, name);
        assert!(!pack.items.is_empty(), "{name} empty");
    }
    assert!(lot::packs::genres(r#"{"reviewed":" ","disclaimer":"x","items":[]}"#).is_err());
}

#[test]
fn finish_request_reads_the_rate() {
    assert_eq!(finish_request(false, Some(" 24 ")).unwrap(), Some("24".to_string()));
    assert_eq!(finish_request(true, Some("23.976")).unwrap(), Some("23.976".to_string()));
    assert_eq!(finish_request(false, Some("+2.5e1")).unwrap(), Some("+2.5e1".to_string()));
    assert_eq!(finish_request(false, Some(".5")).unwrap(), Some(".5".to_string()));
    assert_eq!(finish_request(false, Some("Infinity")).unwrap(), Some("Infinity".to_string()));
    assert_eq!(finish_request(false, Some("NaN")).unwrap(), Some("NaN".to_string()));
    assert_eq!(finish_request(true, Some("  ")).unwrap(), None);
    assert_eq!(finish_request(true, None).unwrap(), None);
}

#[test]
fn finish_request_refuses_bad_rates() {
    let needs = finish_request(false, Some(" ")).unwrap_err().message();
    assert_eq!(needs, "finish needs --upscale and/or --fps (optional end of pipeline)");
    let word = finish_request(true, Some(" fast ")).unwrap_err().message();
    assert_eq!(word, "finish --fps must be a number (got fast)");
    for bad in ["1.2.3", ".", "e5", "1e", "1e+", "24fps", "--1", "0x18"] {
        let m = finish_request(false, Some(bad)).unwrap_err().message();
        assert_eq!(m, format!("finish --fps must be a number (got {bad})"));
    }
    for low in ["0", "-1", "0.000", "-inf", "+0e9", "-0.5"] {
        let m = finish_request(false, Some(low)).unwrap_err().message();
        assert_eq!(m, "finish --fps must be > 0", "{low}");
    }
}

#[test]
fn comfy_timeout_reads_env_or_defaults() {
    assert_eq!(comfy_timeout_secs(None), 120);
    assert_eq!(comfy_timeout_secs(Some("30")), 30);
    assert_eq!(comfy_timeout_secs(Some("+45")), 45);
    assert_eq!(comfy_timeout_secs(Some(" 30")), 120);
    assert_eq!(comfy_timeout_secs(Some("soon")), 120);
    assert_eq!(comfy_timeout_secs(Some("99999999999999999999")), 120);
}

#[test]
fn comfy_wait_stops_past_the_limit() {
    assert!(comfy_wait_step(0, 120).is_ok());
    assert!(comfy_wait_step(120_000, 120).is_ok());
    let m = comfy_wait_step(120_001, 120).unwrap_err().message();
    assert_eq!(m, "no comfy stills — timed out. Did not call Grok.");
    assert!(comfy_wait_step(1, 0).is_err());
}
