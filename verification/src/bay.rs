//! The film-bay window's section cards: one JSON card per phase, from the
//! show and what the caller found on disk.

use vstd::prelude::*;
use crate::json::{Json, JsonV, jv, jv_seq, jv_members, member};
use crate::model::{PromptTarget, Scene, Shot, SlateLora, StageMark, Take};
use crate::order::strictly_sorted;
use crate::show::Show;
use crate::summary::{
    all_characters, all_places, breakdown_summary, count_jv, count_json, kv, opt_json, opt_str_jv,
    picture_summary, sj, spec_picture_summary, spec_wall_summary, summary_jv, wall_summary,
};
use crate::text::{chars_of, dec_wide, str_eq, string_of, trim, trim_vec};

verus! {

/// What the caller found on disk for the cards: the screenplay's path when
/// it is a file, the stage block, the motion previs, the board pack (its
/// path and its JSON, when it is a file that parses), and the two cut lists.
pub struct BayFacts {
    pub fountain: Option<String>,
    pub block: Option<String>,
    pub previs: Option<String>,
    pub board: Option<(String, Json)>,
    pub fcpxml: Option<String>,
    pub edl: Option<String>,
}

// ---------------------------------------------------------------- writer

pub open spec fn writer_card(show: Show) -> JsonV {
    JsonV::Object(
        seq![
            ("brief"@, JsonV::Str(show.writer.brief@)),
            ("draft"@, opt_str_jv(show.writer.draft_path)),
            ("locked"@, JsonV::Bool(show.writer.locked)),
            ("cast"@, count_jv(show.writer.cast@.len())),
            ("format"@, opt_str_jv(show.writer.format)),
        ],
    )
}

fn writer_card_json(show: &Show) -> (r: Json)
    ensures
        jv(r) == writer_card(*show),
{
    let mut ms: Vec<(String, Json)> = Vec::new();
    ms.push(kv("brief", sj(show.writer.brief.as_str())));
    ms.push(kv("draft", opt_json(&show.writer.draft_path)));
    ms.push(kv("locked", Json::Bool(show.writer.locked)));
    ms.push(kv("cast", count_json(show.writer.cast.len())));
    ms.push(kv("format", opt_json(&show.writer.format)));
    let ghost want = writer_card(*show)->Object_0;
    assert(jv_members(ms@) =~= want) by {
        reveal_with_fuel(jv_members, 6);
    }
    Json::Object(ms)
}

// ---------------------------------------------------------------- stems

pub open spec fn stems_card(show: Show) -> JsonV {
    JsonV::Object(
        seq![
            ("brief"@, JsonV::Str(show.stems.soundtrack_brief@)),
            ("cue"@, opt_str_jv(show.stems.soundtrack_cue)),
            ("soundtrack"@, opt_str_jv(show.stems.soundtrack_path)),
            ("vo_text"@, JsonV::Str(show.stems.vo_text@)),
            ("vo"@, opt_str_jv(show.stems.vo_path)),
        ],
    )
}

fn stems_card_json(show: &Show) -> (r: Json)
    ensures
        jv(r) == stems_card(*show),
{
    let mut ms: Vec<(String, Json)> = Vec::new();
    ms.push(kv("brief", sj(show.stems.soundtrack_brief.as_str())));
    ms.push(kv("cue", opt_json(&show.stems.soundtrack_cue)));
    ms.push(kv("soundtrack", opt_json(&show.stems.soundtrack_path)));
    ms.push(kv("vo_text", sj(show.stems.vo_text.as_str())));
    ms.push(kv("vo", opt_json(&show.stems.vo_path)));
    let ghost want = stems_card(*show)->Object_0;
    assert(jv_members(ms@) =~= want) by {
        reveal_with_fuel(jv_members, 6);
    }
    Json::Object(ms)
}

// ---------------------------------------------------------------- dailies and cut

pub open spec fn count_circled(ts: Seq<Take>) -> nat
    decreases ts.len(),
{
    if ts.len() == 0 {
        0
    } else {
        count_circled(ts.drop_last()) + if ts.last().circled {
            1nat
        } else {
            0nat
        }
    }
}

fn circled_count(ts: &Vec<Take>) -> (r: usize)
    ensures
        r == count_circled(ts@),
{
    let mut n: usize = 0;
    let mut i: usize = 0;
    while i < ts.len()
        invariant
            i <= ts.len(),
            n == count_circled(ts@.take(i as int)),
            n <= i,
        decreases ts.len() - i,
    {
        assert(ts@.take(i + 1).drop_last() =~= ts@.take(i as int));
        if ts[i].circled {
            n += 1;
        }
        i += 1;
    }
    assert(ts@.take(ts.len() as int) =~= ts@);
    n
}

pub open spec fn take_card(t: Take) -> JsonV {
    JsonV::Object(
        seq![
            ("id"@, JsonV::Str(t.id@)),
            ("filename"@, JsonV::Str(t.filename@)),
            ("path"@, JsonV::Str(t.path@)),
            ("shot_id"@, JsonV::Str(t.shot_id@)),
            ("circled"@, JsonV::Bool(t.circled)),
        ],
    )
}

pub open spec fn take_cards(ts: Seq<Take>) -> Seq<JsonV> {
    Seq::new(ts.len(), |i: int| take_card(ts[i]))
}

fn take_card_json(t: &Take) -> (r: Json)
    ensures
        jv(r) == take_card(*t),
{
    let mut ms: Vec<(String, Json)> = Vec::new();
    ms.push(kv("id", sj(t.id.as_str())));
    ms.push(kv("filename", sj(t.filename.as_str())));
    ms.push(kv("path", sj(t.path.as_str())));
    ms.push(kv("shot_id", sj(t.shot_id.as_str())));
    ms.push(kv("circled", Json::Bool(t.circled)));
    let ghost want = take_card(*t)->Object_0;
    assert(jv_members(ms@) =~= want) by {
        reveal_with_fuel(jv_members, 6);
    }
    Json::Object(ms)
}

pub open spec fn dailies_card(show: Show) -> JsonV {
    JsonV::Object(
        seq![
            ("takes"@, count_jv(show.takes@.len())),
            ("circled"@, count_jv(count_circled(show.takes@))),
            ("cards"@, JsonV::Array(take_cards(show.takes@))),
        ],
    )
}

fn dailies_card_json(show: &Show) -> (r: Json)
    ensures
        jv(r) == dailies_card(*show),
{
    let mut cards: Vec<Json> = Vec::new();
    let mut i: usize = 0;
    while i < show.takes.len()
        invariant
            i <= show.takes.len(),
            jv_seq(cards@) == take_cards(show.takes@.take(i as int)),
        decreases show.takes.len() - i,
    {
        let ghost pre = cards@;
        cards.push(take_card_json(&show.takes[i]));
        assert(cards@.drop_last() =~= pre);
        assert(take_cards(show.takes@.take(i + 1)) =~= take_cards(show.takes@.take(i as int)).push(
            take_card(show.takes@[i as int]),
        ));
        i += 1;
    }
    assert(show.takes@.take(show.takes.len() as int) =~= show.takes@);
    let mut ms: Vec<(String, Json)> = Vec::new();
    ms.push(kv("takes", count_json(show.takes.len())));
    ms.push(kv("circled", count_json(circled_count(&show.takes))));
    ms.push(kv("cards", Json::Array(cards)));
    let ghost want = dailies_card(*show)->Object_0;
    assert(jv_members(ms@) =~= want) by {
        reveal_with_fuel(jv_members, 4);
    }
    Json::Object(ms)
}

pub open spec fn cut_card(show: Show, f: BayFacts) -> JsonV {
    JsonV::Object(
        seq![
            ("circled"@, count_jv(count_circled(show.takes@))),
            ("fcpxml"@, JsonV::Bool(f.fcpxml is Some)),
            ("fcpxml_path"@, opt_str_jv(f.fcpxml)),
            ("edl"@, JsonV::Bool(f.edl is Some)),
            ("edl_path"@, opt_str_jv(f.edl)),
            ("finish"@, opt_str_jv(show.finish.path)),
            ("upscaled"@, JsonV::Bool(show.finish.upscaled)),
        ],
    )
}

fn cut_card_json(show: &Show, f: &BayFacts) -> (r: Json)
    ensures
        jv(r) == cut_card(*show, *f),
{
    let mut ms: Vec<(String, Json)> = Vec::new();
    ms.push(kv("circled", count_json(circled_count(&show.takes))));
    ms.push(kv("fcpxml", Json::Bool(f.fcpxml.is_some())));
    ms.push(kv("fcpxml_path", opt_json(&f.fcpxml)));
    ms.push(kv("edl", Json::Bool(f.edl.is_some())));
    ms.push(kv("edl_path", opt_json(&f.edl)));
    ms.push(kv("finish", opt_json(&show.finish.path)));
    ms.push(kv("upscaled", Json::Bool(show.finish.upscaled)));
    let ghost want = cut_card(*show, *f)->Object_0;
    assert(jv_members(ms@) =~= want) by {
        reveal_with_fuel(jv_members, 8);
    }
    Json::Object(ms)
}


fn wide_count(n: u128) -> (r: Json)
    ensures
        jv(r) == count_jv(n as nat),
{
    Json::Number(string_of(dec_wide(n).as_slice()))
}

// ---------------------------------------------------------------- slate

pub open spec fn count_prompted(ss: Seq<Shot>) -> nat
    decreases ss.len(),
{
    if ss.len() == 0 {
        0
    } else {
        count_prompted(ss.drop_last()) + if trim(ss.last().prompt@).len() > 0 {
            1nat
        } else {
            0nat
        }
    }
}

pub open spec fn target_names(ts: Seq<PromptTarget>) -> Seq<JsonV> {
    Seq::new(ts.len(), |i: int| JsonV::Str(ts[i].target@))
}

pub open spec fn lora_ids(ls: Seq<SlateLora>) -> Seq<JsonV> {
    Seq::new(ls.len(), |i: int| JsonV::Str(ls[i].id@))
}

/// A shot on the slate card: number, name, prompt, the targets it has a
/// rewrite for (in the shot's order) and the ids of its LoRAs.
pub open spec fn slate_shot_card(s: Shot) -> JsonV {
    JsonV::Object(
        seq![
            ("num"@, JsonV::Str(s.num@)),
            ("name"@, JsonV::Str(s.name@)),
            ("prompt"@, JsonV::Str(s.prompt@)),
            ("targets"@, JsonV::Array(target_names(s.prompt_targets@))),
            ("loras"@, JsonV::Array(lora_ids(s.loras@))),
        ],
    )
}

pub open spec fn slate_cards(ss: Seq<Shot>) -> Seq<JsonV> {
    Seq::new(ss.len(), |i: int| slate_shot_card(ss[i]))
}

pub open spec fn slate_card(show: Show) -> JsonV {
    JsonV::Object(
        seq![
            ("target"@, opt_str_jv(show.slate.default_target)),
            ("prompts"@, count_jv(count_prompted(show.shots@))),
            ("cards"@, JsonV::Array(slate_cards(show.shots@))),
        ],
    )
}

fn target_names_json(ts: &Vec<PromptTarget>) -> (r: Json)
    ensures
        jv(r) == JsonV::Array(target_names(ts@)),
{
    let mut out: Vec<Json> = Vec::new();
    let mut i: usize = 0;
    while i < ts.len()
        invariant
            i <= ts.len(),
            jv_seq(out@) == target_names(ts@.take(i as int)),
        decreases ts.len() - i,
    {
        let ghost pre = out@;
        out.push(sj(ts[i].target.as_str()));
        assert(out@.drop_last() =~= pre);
        assert(target_names(ts@.take(i + 1)) =~= target_names(ts@.take(i as int)).push(JsonV::Str(ts@[i as int].target@)));
        i += 1;
    }
    assert(ts@.take(ts.len() as int) =~= ts@);
    Json::Array(out)
}

fn lora_ids_json(ls: &Vec<SlateLora>) -> (r: Json)
    ensures
        jv(r) == JsonV::Array(lora_ids(ls@)),
{
    let mut out: Vec<Json> = Vec::new();
    let mut i: usize = 0;
    while i < ls.len()
        invariant
            i <= ls.len(),
            jv_seq(out@) == lora_ids(ls@.take(i as int)),
        decreases ls.len() - i,
    {
        let ghost pre = out@;
        out.push(sj(ls[i].id.as_str()));
        assert(out@.drop_last() =~= pre);
        assert(lora_ids(ls@.take(i + 1)) =~= lora_ids(ls@.take(i as int)).push(JsonV::Str(ls@[i as int].id@)));
        i += 1;
    }
    assert(ls@.take(ls.len() as int) =~= ls@);
    Json::Array(out)
}

fn slate_shot_json(s: &Shot) -> (r: Json)
    ensures
        jv(r) == slate_shot_card(*s),
{
    let mut ms: Vec<(String, Json)> = Vec::new();
    ms.push(kv("num", sj(s.num.as_str())));
    ms.push(kv("name", sj(s.name.as_str())));
    ms.push(kv("prompt", sj(s.prompt.as_str())));
    ms.push(kv("targets", target_names_json(&s.prompt_targets)));
    ms.push(kv("loras", lora_ids_json(&s.loras)));
    let ghost want = slate_shot_card(*s)->Object_0;
    assert(jv_members(ms@) =~= want) by {
        reveal_with_fuel(jv_members, 6);
    }
    Json::Object(ms)
}

fn slate_card_json(show: &Show) -> (r: Json)
    ensures
        jv(r) == slate_card(*show),
{
    let mut cards: Vec<Json> = Vec::new();
    let mut prompted: usize = 0;
    let mut i: usize = 0;
    while i < show.shots.len()
        invariant
            i <= show.shots.len(),
            prompted <= i,
            prompted == count_prompted(show.shots@.take(i as int)),
            jv_seq(cards@) == slate_cards(show.shots@.take(i as int)),
        decreases show.shots.len() - i,
    {
        let ghost pre = cards@;
        assert(show.shots@.take(i + 1).drop_last() =~= show.shots@.take(i as int));
        if trim_vec(&chars_of(show.shots[i].prompt.as_str())).len() > 0 {
            prompted += 1;
        }
        cards.push(slate_shot_json(&show.shots[i]));
        assert(cards@.drop_last() =~= pre);
        assert(slate_cards(show.shots@.take(i + 1)) =~= slate_cards(show.shots@.take(i as int)).push(
            slate_shot_card(show.shots@[i as int]),
        ));
        i += 1;
    }
    assert(show.shots@.take(show.shots.len() as int) =~= show.shots@);
    let mut ms: Vec<(String, Json)> = Vec::new();
    ms.push(kv("target", opt_json(&show.slate.default_target)));
    ms.push(kv("prompts", count_json(prompted)));
    ms.push(kv("cards", Json::Array(cards)));
    let ghost want = slate_card(*show)->Object_0;
    assert(jv_members(ms@) =~= want) by {
        reveal_with_fuel(jv_members, 4);
    }
    Json::Object(ms)
}

// ---------------------------------------------------------------- stage

pub open spec fn marks_total(ss: Seq<Shot>) -> nat
    decreases ss.len(),
{
    if ss.len() == 0 {
        0
    } else {
        marks_total(ss.drop_last()) + ss.last().stage_marks@.len()
    }
}

pub open spec fn mark_card(m: StageMark) -> JsonV {
    JsonV::Object(
        seq![
            ("who"@, JsonV::Str(m.who@)),
            ("mark"@, JsonV::Str(m.mark@)),
            ("x"@, JsonV::Str(m.x@)),
            ("z"@, JsonV::Str(m.z@)),
        ],
    )
}

pub open spec fn mark_cards(ms: Seq<StageMark>) -> Seq<JsonV> {
    Seq::new(ms.len(), |i: int| mark_card(ms[i]))
}

/// A shot on the stage card: its camera card and its floor marks.
pub open spec fn stage_shot_card(s: Shot) -> JsonV {
    JsonV::Object(
        seq![
            ("num"@, JsonV::Str(s.num@)),
            ("name"@, JsonV::Str(s.name@)),
            ("size"@, JsonV::Str(s.size@)),
            ("angle"@, JsonV::Str(s.angle@)),
            ("lens"@, JsonV::Str(s.lens@)),
            ("move"@, JsonV::Str(s.move_kind@)),
            ("marks"@, JsonV::Array(mark_cards(s.stage_marks@))),
        ],
    )
}

pub open spec fn stage_cards(ss: Seq<Shot>) -> Seq<JsonV> {
    Seq::new(ss.len(), |i: int| stage_shot_card(ss[i]))
}

pub open spec fn stage_card(show: Show, f: BayFacts) -> JsonV {
    JsonV::Object(
        seq![
            ("block"@, JsonV::Bool(f.block is Some)),
            ("block_path"@, opt_str_jv(f.block)),
            ("marks"@, count_jv(marks_total(show.shots@))),
            ("cards"@, JsonV::Array(stage_cards(show.shots@))),
        ],
    )
}

fn mark_json(m: &StageMark) -> (r: Json)
    ensures
        jv(r) == mark_card(*m),
{
    let mut ms: Vec<(String, Json)> = Vec::new();
    ms.push(kv("who", sj(m.who.as_str())));
    ms.push(kv("mark", sj(m.mark.as_str())));
    ms.push(kv("x", sj(m.x.as_str())));
    ms.push(kv("z", sj(m.z.as_str())));
    let ghost want = mark_card(*m)->Object_0;
    assert(jv_members(ms@) =~= want) by {
        reveal_with_fuel(jv_members, 5);
    }
    Json::Object(ms)
}

fn stage_shot_json(s: &Shot) -> (r: Json)
    ensures
        jv(r) == stage_shot_card(*s),
{
    let mut marks: Vec<Json> = Vec::new();
    let mut i: usize = 0;
    while i < s.stage_marks.len()
        invariant
            i <= s.stage_marks.len(),
            jv_seq(marks@) == mark_cards(s.stage_marks@.take(i as int)),
        decreases s.stage_marks.len() - i,
    {
        let ghost pre = marks@;
        marks.push(mark_json(&s.stage_marks[i]));
        assert(marks@.drop_last() =~= pre);
        assert(mark_cards(s.stage_marks@.take(i + 1)) =~= mark_cards(s.stage_marks@.take(i as int)).push(
            mark_card(s.stage_marks@[i as int]),
        ));
        i += 1;
    }
    assert(s.stage_marks@.take(s.stage_marks.len() as int) =~= s.stage_marks@);
    let mut ms: Vec<(String, Json)> = Vec::new();
    ms.push(kv("num", sj(s.num.as_str())));
    ms.push(kv("name", sj(s.name.as_str())));
    ms.push(kv("size", sj(s.size.as_str())));
    ms.push(kv("angle", sj(s.angle.as_str())));
    ms.push(kv("lens", sj(s.lens.as_str())));
    ms.push(kv("move", sj(s.move_kind.as_str())));
    ms.push(kv("marks", Json::Array(marks)));
    let ghost want = stage_shot_card(*s)->Object_0;
    assert(jv_members(ms@) =~= want) by {
        reveal_with_fuel(jv_members, 8);
    }
    Json::Object(ms)
}

fn stage_card_json(show: &Show, f: &BayFacts) -> (r: Json)
    ensures
        jv(r) == stage_card(*show, *f),
{
    let mut cards: Vec<Json> = Vec::new();
    let mut total: u128 = 0;
    let mut i: usize = 0;
    while i < show.shots.len()
        invariant
            i <= show.shots.len(),
            total == marks_total(show.shots@.take(i as int)),
            total <= (i as int) * 0x1_0000_0000_0000_0000,
            jv_seq(cards@) == stage_cards(show.shots@.take(i as int)),
        decreases show.shots.len() - i,
    {
        let ghost pre = cards@;
        assert(show.shots@.take(i + 1).drop_last() =~= show.shots@.take(i as int));
        let n = show.shots[i].stage_marks.len();
        assert(n <= usize::MAX);
        total = total + n as u128;
        cards.push(stage_shot_json(&show.shots[i]));
        assert(cards@.drop_last() =~= pre);
        assert(stage_cards(show.shots@.take(i + 1)) =~= stage_cards(show.shots@.take(i as int)).push(
            stage_shot_card(show.shots@[i as int]),
        ));
        i += 1;
    }
    assert(show.shots@.take(show.shots.len() as int) =~= show.shots@);
    let mut ms: Vec<(String, Json)> = Vec::new();
    ms.push(kv("block", Json::Bool(f.block.is_some())));
    ms.push(kv("block_path", opt_json(&f.block)));
    ms.push(kv("marks", wide_count(total)));
    ms.push(kv("cards", Json::Array(cards)));
    let ghost want = stage_card(*show, *f)->Object_0;
    assert(jv_members(ms@) =~= want) by {
        reveal_with_fuel(jv_members, 5);
    }
    Json::Object(ms)
}


// ---------------------------------------------------------------- motion

pub open spec fn count_plates(ss: Seq<Shot>) -> nat
    decreases ss.len(),
{
    if ss.len() == 0 {
        0
    } else {
        count_plates(ss.drop_last()) + if ss.last().plate_path is Some {
            1nat
        } else {
            0nat
        }
    }
}

pub open spec fn motion_shot_card(s: Shot) -> JsonV {
    JsonV::Object(
        seq![
            ("num"@, JsonV::Str(s.num@)),
            ("name"@, JsonV::Str(s.name@)),
            ("plate"@, opt_str_jv(s.plate_path)),
            ("mode"@, opt_str_jv(s.motion_mode)),
            ("move"@, JsonV::Str(s.motion_move@)),
            ("notes"@, JsonV::Str(s.motion_notes@)),
        ],
    )
}

pub open spec fn motion_cards(ss: Seq<Shot>) -> Seq<JsonV> {
    Seq::new(ss.len(), |i: int| motion_shot_card(ss[i]))
}

pub open spec fn motion_card(show: Show, f: BayFacts) -> JsonV {
    JsonV::Object(
        seq![
            ("previs"@, JsonV::Bool(f.previs is Some)),
            ("previs_path"@, opt_str_jv(f.previs)),
            ("plates"@, count_jv(count_plates(show.shots@))),
            ("cards"@, JsonV::Array(motion_cards(show.shots@))),
        ],
    )
}

fn motion_shot_json(s: &Shot) -> (r: Json)
    ensures
        jv(r) == motion_shot_card(*s),
{
    let mut ms: Vec<(String, Json)> = Vec::new();
    ms.push(kv("num", sj(s.num.as_str())));
    ms.push(kv("name", sj(s.name.as_str())));
    ms.push(kv("plate", opt_json(&s.plate_path)));
    ms.push(kv("mode", opt_json(&s.motion_mode)));
    ms.push(kv("move", sj(s.motion_move.as_str())));
    ms.push(kv("notes", sj(s.motion_notes.as_str())));
    let ghost want = motion_shot_card(*s)->Object_0;
    assert(jv_members(ms@) =~= want) by {
        reveal_with_fuel(jv_members, 7);
    }
    Json::Object(ms)
}

fn motion_card_json(show: &Show, f: &BayFacts) -> (r: Json)
    ensures
        jv(r) == motion_card(*show, *f),
{
    let mut cards: Vec<Json> = Vec::new();
    let mut plates: usize = 0;
    let mut i: usize = 0;
    while i < show.shots.len()
        invariant
            i <= show.shots.len(),
            plates <= i,
            plates == count_plates(show.shots@.take(i as int)),
            jv_seq(cards@) == motion_cards(show.shots@.take(i as int)),
        decreases show.shots.len() - i,
    {
        let ghost pre = cards@;
        assert(show.shots@.take(i + 1).drop_last() =~= show.shots@.take(i as int));
        if show.shots[i].plate_path.is_some() {
            plates += 1;
        }
        cards.push(motion_shot_json(&show.shots[i]));
        assert(cards@.drop_last() =~= pre);
        assert(motion_cards(show.shots@.take(i + 1)) =~= motion_cards(show.shots@.take(i as int)).push(
            motion_shot_card(show.shots@[i as int]),
        ));
        i += 1;
    }
    assert(show.shots@.take(show.shots.len() as int) =~= show.shots@);
    let mut ms: Vec<(String, Json)> = Vec::new();
    ms.push(kv("previs", Json::Bool(f.previs.is_some())));
    ms.push(kv("previs_path", opt_json(&f.previs)));
    ms.push(kv("plates", count_json(plates)));
    ms.push(kv("cards", Json::Array(cards)));
    let ghost want = motion_card(*show, *f)->Object_0;
    assert(jv_members(ms@) =~= want) by {
        reveal_with_fuel(jv_members, 5);
    }
    Json::Object(ms)
}

// ---------------------------------------------------------------- board

pub open spec fn or_null(v: Option<Json>) -> JsonV {
    match v {
        Some(x) => jv(x),
        None => JsonV::Null,
    }
}

/// A shot of the board pack, as the pack gives it.
pub open spec fn pack_card(sh: Json) -> JsonV {
    JsonV::Object(
        seq![
            ("num"@, or_null(member(sh, "num"@))),
            ("name"@, or_null(member(sh, "name"@))),
            ("still"@, or_null(member(sh, "still"@))),
            ("backend"@, or_null(member(sh, "backend"@))),
        ],
    )
}

pub open spec fn pack_cards(xs: Seq<Json>) -> Seq<JsonV> {
    Seq::new(xs.len(), |i: int| pack_card(xs[i]))
}

pub open spec fn pack_shots(v: Json) -> Seq<Json> {
    match member(v, "shots"@) {
        Some(Json::Array(xs)) => xs@,
        _ => seq![],
    }
}

/// How many pack shots name their still as a text.
pub open spec fn count_pack_stills(xs: Seq<Json>) -> nat
    decreases xs.len(),
{
    if xs.len() == 0 {
        0
    } else {
        count_pack_stills(xs.drop_last()) + if member(xs.last(), "still"@) matches Some(Json::Str(_)) {
            1nat
        } else {
            0nat
        }
    }
}

pub open spec fn count_stills(ss: Seq<Shot>) -> nat
    decreases ss.len(),
{
    if ss.len() == 0 {
        0
    } else {
        count_stills(ss.drop_last()) + if ss.last().still_path is Some {
            1nat
        } else {
            0nat
        }
    }
}

/// A shot on the board card when there is no board pack; the show keeps no
/// still backend, so `backend` is `null`.
pub open spec fn show_board_card(s: Shot) -> JsonV {
    JsonV::Object(
        seq![
            ("num"@, JsonV::Str(s.num@)),
            ("name"@, JsonV::Str(s.name@)),
            ("still"@, opt_str_jv(s.still_path)),
            ("backend"@, JsonV::Null),
        ],
    )
}

pub open spec fn show_board_cards(ss: Seq<Shot>) -> Seq<JsonV> {
    Seq::new(ss.len(), |i: int| show_board_card(ss[i]))
}

/// The board card: from the board pack when there is one, else from the
/// shots' stills.
pub open spec fn board_card(show: Show, f: BayFacts) -> JsonV {
    match f.board {
        Some((p, v)) => JsonV::Object(
            seq![
                ("board"@, JsonV::Bool(true)),
                ("board_path"@, JsonV::Str(p@)),
                ("stills"@, count_jv(count_pack_stills(pack_shots(v)))),
                ("cards"@, JsonV::Array(pack_cards(pack_shots(v)))),
            ],
        ),
        None => JsonV::Object(
            seq![
                ("board"@, JsonV::Bool(false)),
                ("stills"@, count_jv(count_stills(show.shots@))),
                ("cards"@, JsonV::Array(show_board_cards(show.shots@))),
            ],
        ),
    }
}

fn member_or_null(v: &Json, k: &str) -> (r: Json)
    ensures
        jv(r) == or_null(member(*v, k@)),
{
    match crate::json::get_member(v, k) {
        Some(x) => crate::json::copy_json(x),
        None => Json::Null,
    }
}

fn pack_card_json(sh: &Json) -> (r: Json)
    ensures
        jv(r) == pack_card(*sh),
{
    let mut ms: Vec<(String, Json)> = Vec::new();
    ms.push(kv("num", member_or_null(sh, "num")));
    ms.push(kv("name", member_or_null(sh, "name")));
    ms.push(kv("still", member_or_null(sh, "still")));
    ms.push(kv("backend", member_or_null(sh, "backend")));
    let ghost want = pack_card(*sh)->Object_0;
    assert(jv_members(ms@) =~= want) by {
        reveal_with_fuel(jv_members, 5);
    }
    Json::Object(ms)
}

fn show_board_json(s: &Shot) -> (r: Json)
    ensures
        jv(r) == show_board_card(*s),
{
    let mut ms: Vec<(String, Json)> = Vec::new();
    ms.push(kv("num", sj(s.num.as_str())));
    ms.push(kv("name", sj(s.name.as_str())));
    ms.push(kv("still", opt_json(&s.still_path)));
    ms.push(kv("backend", Json::Null));
    let ghost want = show_board_card(*s)->Object_0;
    assert(jv_members(ms@) =~= want) by {
        reveal_with_fuel(jv_members, 5);
    }
    Json::Object(ms)
}

fn board_card_json(show: &Show, f: &BayFacts) -> (r: Json)
    ensures
        jv(r) == board_card(*show, *f),
{
    match &f.board {
        Some((p, v)) => {
            let empty: Vec<Json> = Vec::new();
            let xs: &Vec<Json> = match crate::json::get_member(v, "shots") {
                Some(Json::Array(xs)) => xs,
                _ => &empty,
            };
            assert(xs@ == pack_shots(*v));
            let mut cards: Vec<Json> = Vec::new();
            let mut stills: usize = 0;
            let mut i: usize = 0;
            while i < xs.len()
                invariant
                    i <= xs.len(),
                    stills <= i,
                    stills == count_pack_stills(xs@.take(i as int)),
                    jv_seq(cards@) == pack_cards(xs@.take(i as int)),
                decreases xs.len() - i,
            {
                let ghost pre = cards@;
                assert(xs@.take(i + 1).drop_last() =~= xs@.take(i as int));
                match crate::json::get_member(&xs[i], "still") {
                    Some(Json::Str(_)) => {
                        stills += 1;
                    },
                    _ => {},
                }
                cards.push(pack_card_json(&xs[i]));
                assert(cards@.drop_last() =~= pre);
                assert(pack_cards(xs@.take(i + 1)) =~= pack_cards(xs@.take(i as int)).push(pack_card(xs@[i as int])));
                i += 1;
            }
            assert(xs@.take(xs.len() as int) =~= xs@);
            let mut ms: Vec<(String, Json)> = Vec::new();
            ms.push(kv("board", Json::Bool(true)));
            ms.push(kv("board_path", sj(p.as_str())));
            ms.push(kv("stills", count_json(stills)));
            ms.push(kv("cards", Json::Array(cards)));
            let ghost want = board_card(*show, *f)->Object_0;
            assert(jv_members(ms@) =~= want) by {
                reveal_with_fuel(jv_members, 5);
            }
            Json::Object(ms)
        },
        None => {
            let mut cards: Vec<Json> = Vec::new();
            let mut stills: usize = 0;
            let mut i: usize = 0;
            while i < show.shots.len()
                invariant
                    i <= show.shots.len(),
                    stills <= i,
                    stills == count_stills(show.shots@.take(i as int)),
                    jv_seq(cards@) == show_board_cards(show.shots@.take(i as int)),
                decreases show.shots.len() - i,
            {
                let ghost pre = cards@;
                assert(show.shots@.take(i + 1).drop_last() =~= show.shots@.take(i as int));
                if show.shots[i].still_path.is_some() {
                    stills += 1;
                }
                cards.push(show_board_json(&show.shots[i]));
                assert(cards@.drop_last() =~= pre);
                assert(show_board_cards(show.shots@.take(i + 1)) =~= show_board_cards(show.shots@.take(i as int)).push(
                    show_board_card(show.shots@[i as int]),
                ));
                i += 1;
            }
            assert(show.shots@.take(show.shots.len() as int) =~= show.shots@);
            let mut ms: Vec<(String, Json)> = Vec::new();
            ms.push(kv("board", Json::Bool(false)));
            ms.push(kv("stills", count_json(stills)));
            ms.push(kv("cards", Json::Array(cards)));
            let ghost want = board_card(*show, *f)->Object_0;
            assert(jv_members(ms@) =~= want) by {
                reveal_with_fuel(jv_members, 4);
            }
            Json::Object(ms)
        },
    }
}


// ---------------------------------------------------------------- breakdown

pub open spec fn slug_card(sc: Scene) -> JsonV {
    JsonV::Object(seq![("id"@, JsonV::Str(sc.id@)), ("num"@, JsonV::Str(sc.num@)), ("slug"@, JsonV::Str(sc.slug@))])
}

pub open spec fn slug_cards(scs: Seq<Scene>) -> Seq<JsonV> {
    Seq::new(scs.len(), |i: int| slug_card(scs[i]))
}

pub open spec fn fountain_members(f: BayFacts) -> Seq<(Seq<char>, JsonV)> {
    seq![("fountain"@, JsonV::Bool(f.fountain is Some))] + match f.fountain {
        Some(p) => seq![("fountain_path"@, JsonV::Str(p@))],
        None => seq![],
    }
}

/// The breakdown card: the breakdown summary, whether the screenplay is a
/// file (and its path), and each scene's id, number and slugline.
pub open spec fn breakdown_card(show: Show, f: BayFacts, cs: Seq<Seq<char>>, ls: Seq<Seq<char>>) -> JsonV {
    JsonV::Object(
        summary_jv(show, cs, ls)->Object_0 + fountain_members(f) + seq![
            ("slugs"@, JsonV::Array(slug_cards(show.scenes@))),
        ],
    )
}

fn slug_json(sc: &Scene) -> (r: Json)
    ensures
        jv(r) == slug_card(*sc),
{
    let mut ms: Vec<(String, Json)> = Vec::new();
    ms.push(kv("id", sj(sc.id.as_str())));
    ms.push(kv("num", sj(sc.num.as_str())));
    ms.push(kv("slug", sj(sc.slug.as_str())));
    let ghost want = slug_card(*sc)->Object_0;
    assert(jv_members(ms@) =~= want) by {
        reveal_with_fuel(jv_members, 4);
    }
    Json::Object(ms)
}

fn breakdown_card_json(show: &Show, f: &BayFacts) -> (r: Json)
    ensures
        exists|cs: Seq<Seq<char>>, ls: Seq<Seq<char>>|
            strictly_sorted(cs) && cs.to_set() == all_characters(show.scenes@) && strictly_sorted(ls) && ls.to_set()
                == all_places(show.scenes@) && jv(r) == breakdown_card(*show, *f, cs, ls),
{
    let sum = breakdown_summary(show);
    let ghost pick = choose|cs: Seq<Seq<char>>, ls: Seq<Seq<char>>|
        strictly_sorted(cs) && cs.to_set() == all_characters(show.scenes@) && strictly_sorted(ls) && ls.to_set()
            == all_places(show.scenes@) && jv(sum) == summary_jv(*show, cs, ls);
    let ghost cs = pick.0;
    let ghost ls = pick.1;
    let mut ms: Vec<(String, Json)> = match sum {
        Json::Object(ms) => ms,
        _ => {
            proof {
                assert(jv(sum) == summary_jv(*show, cs, ls));
                assert(false);
            }
            Vec::new()
        },
    };
    let ghost head = ms@;
    assert(jv_members(head) == summary_jv(*show, cs, ls)->Object_0);
    let mut slugs: Vec<Json> = Vec::new();
    let mut i: usize = 0;
    while i < show.scenes.len()
        invariant
            i <= show.scenes.len(),
            jv_seq(slugs@) == slug_cards(show.scenes@.take(i as int)),
        decreases show.scenes.len() - i,
    {
        let ghost pre = slugs@;
        slugs.push(slug_json(&show.scenes[i]));
        assert(slugs@.drop_last() =~= pre);
        assert(slug_cards(show.scenes@.take(i + 1)) =~= slug_cards(show.scenes@.take(i as int)).push(
            slug_card(show.scenes@[i as int]),
        ));
        i += 1;
    }
    assert(show.scenes@.take(show.scenes.len() as int) =~= show.scenes@);
    ms.push(kv("fountain", Json::Bool(f.fountain.is_some())));
    match &f.fountain {
        Some(p) => {
            ms.push(kv("fountain_path", sj(p.as_str())));
        },
        None => {},
    }
    let ghost mid = ms@;
    assert(jv_members(mid) =~= jv_members(head) + fountain_members(*f)) by {
        reveal_with_fuel(jv_members, 3);
        match f.fountain {
            Some(p) => {
                assert(mid.drop_last().drop_last() =~= head);
                assert(mid.drop_last() =~= head.push(mid[head.len() as int]));
            },
            None => {
                assert(mid.drop_last() =~= head);
            },
        }
    }
    let ghost sv = jv_seq(slugs@);
    assert(sv == slug_cards(show.scenes@));
    let last = kv("slugs", Json::Array(slugs));
    assert(jv(last.1) == JsonV::Array(sv));
    ms.push(last);
    assert(ms@.drop_last() =~= mid);
    assert(jv_members(ms@) == jv_members(mid).push(("slugs"@, JsonV::Array(sv))));
    assert(jv_members(ms@) =~= breakdown_card(*show, *f, cs, ls)->Object_0);
    Json::Object(ms)
}

// ---------------------------------------------------------------- by phase

/// The card of a phase other than the breakdown.
pub open spec fn spec_card_plain(show: Show, phase: Seq<char>, f: BayFacts) -> JsonV {
    if phase == "writer"@ {
        writer_card(show)
    } else if phase == "wall"@ {
        spec_wall_summary(show)
    } else if phase == "picture"@ {
        spec_picture_summary(show)
    } else if phase == "stage"@ {
        stage_card(show, f)
    } else if phase == "motion"@ {
        motion_card(show, f)
    } else if phase == "board"@ {
        board_card(show, f)
    } else if phase == "slate"@ {
        slate_card(show)
    } else if phase == "dailies"@ {
        dailies_card(show)
    } else if phase == "stems"@ {
        stems_card(show)
    } else if phase == "cut"@ {
        cut_card(show, f)
    } else {
        JsonV::Object(seq![("phase"@, JsonV::Str(phase))])
    }
}

/// The section card of a phase: the writer's desk, the breakdown, the wall,
/// the picture cards, the stage, motion, board, slate, dailies, stems or cut
/// card; any other phase gets a card naming it.
pub fn card_for(show: &Show, phase: &str, f: &BayFacts) -> (r: Json)
    ensures
        phase@ == "breakdown"@ ==> exists|cs: Seq<Seq<char>>, ls: Seq<Seq<char>>|
            strictly_sorted(cs) && cs.to_set() == all_characters(show.scenes@) && strictly_sorted(ls) && ls.to_set()
                == all_places(show.scenes@) && jv(r) == breakdown_card(*show, *f, cs, ls),
        phase@ != "breakdown"@ ==> jv(r) == spec_card_plain(*show, phase@, *f),
{
    if str_eq(phase, "breakdown") {
        breakdown_card_json(show, f)
    } else if str_eq(phase, "writer") {
        writer_card_json(show)
    } else if str_eq(phase, "wall") {
        wall_summary(show)
    } else if str_eq(phase, "picture") {
        picture_summary(show)
    } else if str_eq(phase, "stage") {
        stage_card_json(show, f)
    } else if str_eq(phase, "motion") {
        motion_card_json(show, f)
    } else if str_eq(phase, "board") {
        board_card_json(show, f)
    } else if str_eq(phase, "slate") {
        slate_card_json(show)
    } else if str_eq(phase, "dailies") {
        dailies_card_json(show)
    } else if str_eq(phase, "stems") {
        stems_card_json(show)
    } else if str_eq(phase, "cut") {
        cut_card_json(show, f)
    } else {
        let mut ms: Vec<(String, Json)> = Vec::new();
        ms.push(kv("phase", sj(phase)));
        assert(jv_members(ms@) =~= seq![("phase"@, JsonV::Str(phase@))]) by {
            reveal_with_fuel(jv_members, 2);
        }
        Json::Object(ms)
    }
}

} // verus!
