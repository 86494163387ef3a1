use lot::bay::{card_for, BayFacts};
use lot::json::{get_member, parse_json, Json};
use lot::model::{StageMark, Take};
use lot::show::{new_show, Show};

const NOW: &str = "2025-01-01T00:00:00Z";

fn facts() -> BayFacts {
    BayFacts { fountain: None, block: None, previs: None, board: None, fcpxml: None, edl: None }
}

fn at<'a>(v: &'a Json, key: &str) -> &'a Json {
    match get_member(v, key) {
        Some(x) => x,
        None => panic!("missing member {key} in {v:?}"),
    }
}

fn num(v: &Json) -> &str {
    match v {
        Json::Number(n) => n.as_str(),
        _ => panic!("not a number: {v:?}"),
    }
}

fn text(v: &Json) -> &str {
    match v {
        Json::Str(s) => s.as_str(),
        _ => panic!("not a text: {v:?}"),
    }
}

fn list(v: &Json) -> &Vec<Json> {
    match v {
        Json::Array(xs) => xs,
        _ => panic!("not a list: {v:?}"),
    }
}

fn carnival() -> Show {
    let mut s = new_show("Carnival".into(), "show-1".into(), NOW);
    let parsed = lot::parse::parse_script(
        "INT. TENT - NIGHT\n\nADA\nI will not put it on.\n\nEXT. MIDWAY - NIGHT\n\nBO\nThen nobody goes on.\n",
        Some("carnival.fountain"),
    );
    lot::breakdown::apply_parsed(&mut s, parsed, NOW).unwrap();
    s
}

#[test]
fn writer_card_counts_cast_and_keeps_brief() {
    let mut s = carnival();
    lot::show::set_brief(&mut s, "a clown refuses", NOW).unwrap();
    lot::show::upsert_cast(&mut s, "Ada", Some("lead"), None, None, NOW).unwrap();
    let c = card_for(&s, "writer", &facts());
    assert_eq!(text(at(&c, "brief")), "a clown refuses");
    assert_eq!(num(at(&c, "cast")), "1");
    assert!(matches!(at(&c, "locked"), Json::Bool(false)));
    assert!(matches!(at(&c, "draft"), Json::Null));
}

#[test]
fn breakdown_card_adds_fountain_and_slugs() {
    let s = carnival();
    let mut f = facts();
    f.fountain = Some("/shows/carnival/screenplay.fountain".into());
    let c = card_for(&s, "breakdown", &f);
    assert_eq!(num(at(&c, "scenes")), "2");
    assert!(matches!(at(&c, "fountain"), Json::Bool(true)));
    assert_eq!(text(at(&c, "fountain_path")), "/shows/carnival/screenplay.fountain");
    let slugs = list(at(&c, "slugs"));
    assert_eq!(slugs.len(), 2);
    assert_eq!(text(at(&slugs[0], "slug")), "INT. TENT - NIGHT");
    let none = card_for(&s, "breakdown", &facts());
    assert!(matches!(at(&none, "fountain"), Json::Bool(false)));
    assert!(get_member(&none, "fountain_path").is_none());
}

#[test]
fn stage_card_sums_marks_over_shots() {
    let mut s = carnival();
    let mark = |who: &str| StageMark {
        id: format!("m-{who}"),
        who: who.into(),
        kind: "actor".into(),
        mark: "A".into(),
        x: "1".into(),
        z: "2".into(),
        notes: String::new(),
    };
    s.shots[0].stage_marks.push(mark("Ada"));
    s.shots[0].stage_marks.push(mark("Bo"));
    s.shots[1].stage_marks.push(mark("Bo"));
    let mut f = facts();
    f.block = Some("/shows/carnival/stage/block.json".into());
    let c = card_for(&s, "stage", &f);
    assert_eq!(num(at(&c, "marks")), "3");
    assert!(matches!(at(&c, "block"), Json::Bool(true)));
    let cards = list(at(&c, "cards"));
    assert_eq!(list(at(&cards[0], "marks")).len(), 2);
    assert_eq!(text(at(&list(at(&cards[1], "marks"))[0], "who")), "Bo");
}

#[test]
fn dailies_and_cut_cards_count_circled_takes() {
    let mut s = carnival();
    for (id, circled) in [("tk-1", true), ("tk-2", false), ("tk-3", true)] {
        s.takes.push(Take {
            id: id.into(),
            shot_id: s.shots[0].id.clone(),
            path: format!("media/{id}.mp4"),
            filename: format!("{id}.mp4"),
            sha256: String::new(),
            duration_ms: None,
            circled,
        });
    }
    let d = card_for(&s, "dailies", &facts());
    assert_eq!(num(at(&d, "takes")), "3");
    assert_eq!(num(at(&d, "circled")), "2");
    let mut f = facts();
    f.edl = Some("/shows/carnival/export.edl".into());
    let c = card_for(&s, "cut", &f);
    assert_eq!(num(at(&c, "circled")), "2");
    assert!(matches!(at(&c, "fcpxml"), Json::Bool(false)));
    assert!(matches!(at(&c, "edl"), Json::Bool(true)));
}

#[test]
fn board_card_reads_the_pack_when_there_is_one() {
    let mut s = carnival();
    s.shots[0].still_path = Some("media/01.png".into());
    let c = card_for(&s, "board", &facts());
    assert!(matches!(at(&c, "board"), Json::Bool(false)));
    assert_eq!(num(at(&c, "stills")), "1");
    let pack = parse_json(r#"{"shots":[{"num":"01","still":"board/01.png","backend":"comfy"},{"num":"02"}]}"#).unwrap();
    let mut f = facts();
    f.board = Some(("/shows/carnival/board/board.json".into(), pack));
    let c = card_for(&s, "board", &f);
    assert!(matches!(at(&c, "board"), Json::Bool(true)));
    assert_eq!(num(at(&c, "stills")), "1");
    let cards = list(at(&c, "cards"));
    assert_eq!(text(at(&cards[0], "backend")), "comfy");
    assert!(matches!(at(&cards[1], "still"), Json::Null));
}

#[test]
fn unknown_phase_card_names_the_phase() {
    let s = carnival();
    let c = card_for(&s, "finish", &facts());
    assert_eq!(text(at(&c, "phase")), "finish");
    let w = card_for(&s, "wall", &facts());
    assert_eq!(num(at(&w, "beats")), "0");
}
