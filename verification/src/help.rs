//! `lot help --json` is the contract: the verbs of every door, with what
//! each does, as the binary states them.

use vstd::prelude::*;
use crate::json::{Json, JsonV, jv, jv_seq, jv_members};
use crate::show::{NAME, VERSION};
use crate::text::{chars_of, string_of, str_eq, append_str, append_vec};

verus! {

/// One verb: its CLI form, its MCP tool (empty when it has none), its
/// section and what it does.
#[derive(Debug)]
pub struct Verb {
    pub cli: String,
    pub mcp: String,
    pub section: String,
    pub job: String,
}

pub open spec fn verb_view(v: Verb) -> (Seq<char>, Seq<char>, Seq<char>, Seq<char>) {
    (v.cli@, v.mcp@, v.section@, v.job@)
}

pub open spec fn verbs_view(vs: Seq<Verb>) -> Seq<(Seq<char>, Seq<char>, Seq<char>, Seq<char>)> {
    Seq::new(vs.len(), |i: int| verb_view(vs[i]))
}

/// The notice of the help: flags only, doors, caps, jail and what stays optional.
pub const NOTICE: &'static str = "Flags only. No TTY prompts. Exit 0 = ok. Do not click folder dialogs. --agent / LOT_AGENT / MCP agent: who writes (unset = human, no auto-claim). --cap / LOT_CAP / MCP cap: read|write|render|export|spend (unset = all). --detail full / MCP detail=full dumps shot prompts and cards; default --json is lean (ids, counts, media path+sha256+duration). Jail = this show.lot + LOT_MEDIA_ROOTS; fountain is scene text (AC-013). Show budget: lot budget --spend/--render (hit cap → stop). MCP notifications/cancelled stops stills generate, finish, and draft (cancelled —; no fake PNG/wav/fountain). lot status --json includes dirty, missing, missing_media. Windows pack is lot + lot-ui (scripts/pack-windows.ps1). Ollama, Comfy, Resolve, Blockout stay optional — never bundled. Do not install Wasserman apps.";

pub open spec fn help_notice() -> Seq<char> {
    NOTICE@
}

/// The verbs, in the order the help lists them.
pub open spec fn spec_help_verbs() -> Seq<(Seq<char>, Seq<char>, Seq<char>, Seq<char>)> {
    seq![
        ("lot status"@, "lot_status"@, "kernel"@, "First call. Phase, dirty sections, missing (handoff blockers), missing_media, renderer, school."@),
        ("lot create <dir> --name"@, "lot_create"@, "kernel"@, "Create a show.lot and make it current."@),
        ("lot open <dir>"@, "lot_open"@, "kernel"@, "Open a show.lot and make it current."@),
        ("lot doctor"@, "lot_doctor"@, "kernel"@, "Probe ffmpeg, optional Comfy/Ollama/Grok, optional Blockout/Motion Previs/Resolve. Notes: no ffmpeg — / no blockout — / no resolve —. None required for lot status."@),
        ("lot --cap read|write|render|export|spend"@, ""@, "kernel"@, "AC-012. Unset = all. read cannot circle or stills generate. write cannot Comfy/Grok spend without render/spend."@),
        ("lot --agent <id>"@, ""@, "kernel"@, "Who writes. Unset = human (no auto-claim). Second agent gets locked_by."@),
        ("lot --detail full"@, ""@, "kernel"@, "Dump full shot/prompt cards on --json. Default is lean. MCP: detail=full."@),
        ("lot lock"@, "lot_lock"@, "kernel"@, "Claim the show. One writer at a time."@),
        ("lot unlock [--force]"@, "lot_unlock"@, "kernel"@, "Release the show lock. Holder or --force."@),
        ("lot budget --spend --render"@, "lot_budget"@, "kernel"@, "Per-show spend/render cap. Hit cap → stop. Unset = unlimited. Agent caps are separate."@),
        ("lot log [--n] [--export]"@, "lot_log"@, "kernel"@, "Audit: who/what/rev. --export writes audit/export.jsonl with tokens redacted."@),
        ("lot handoff [--commit]"@, "lot_handoff"@, "kernel"@, "Advance phase. Default is dry-run. --commit writes only when nothing blocks the handoff. cut — no next."@),
        ("lot show"@, "lot_show"@, "kernel"@, "Read lot://show. Meta, phase, lock, last event. Not the fountain."@),
        ("lot scene --id"@, "lot_scene"@, "kernel"@, "Read lot://scenes/{id}."@),
        ("lot shot --id|--num"@, "lot_shot"@, "kernel"@, "Read lot://shots/{id}."@),
        ("lot take --id"@, "lot_take"@, "kernel"@, "Read lot://takes/{id}."@),
        ("lot import --file"@, "lot_import"@, "kernel"@, "Import .scriptbreak / .cork-board.json / canvas / .blockout / .sbref / Slate project.json / .ctake. Does not delete the source. No invented glTF or still."@),
        ("lot help --json"@, "lot_help"@, "kernel"@, "This spec. The binary is the contract."@),
        ("lot version"@, "lot_version"@, "kernel"@, "Kernel name + version. No show required."@),
        ("lot upgrade --check"@, "lot_upgrade"@, "kernel"@, "Compare current version to LOT_UPGRADE_URL. Never downloads. Unset → no upgrade channel —. Missing --check → no upgrade — use --check."@),
        ("lot telemetry [--on|--off]"@, "lot_telemetry"@, "kernel"@, "Local verb counts. Default off. Counts only — no scripts, frames, prompts, or phone-home."@),
        ("lot snapshot"@, "lot_snapshot"@, "kernel"@, "Freeze show.json + fountain at the current rev."@),
        ("lot restore --rev"@, "lot_restore"@, "kernel"@, "Restore a snapshot. Later drafts do not eat earlier ones."@),
        ("lot undo"@, "lot_undo"@, "kernel"@, "Undo the last mutation from the event log. No prior snapshot. Create-only or already undone → nothing to undo —."@),
        ("lot writer brief --text"@, "lot_writer_brief"@, "writer"@, "Set the brief."@),
        ("lot writer style --genre --living --canon --format"@, "lot_writer_style"@, "writer"@, "Dated packs. Influence, not endorsement."@),
        ("lot writer cast --name"@, "lot_writer_cast"@, "writer"@, "Add/update a character or replace via --from-json."@),
        ("lot writer draft"@, "lot_writer_draft"@, "writer"@, "Fountain via Grok or Ollama. No brain → no fake script. MCP cancel → cancelled — and no fountain."@),
        ("lot writer revise --notes"@, "lot_writer_revise"@, "writer"@, "Revise existing fountain."@),
        ("lot writer lock"@, "lot_writer_lock"@, "writer"@, "Lock the writer contract."@),
        ("lot writer unlock"@, "lot_writer_unlock"@, "writer"@, "Unlock the writer."@),
        ("lot breakdown import --file"@, "lot_breakdown_import"@, "breakdown"@, "Import .txt / .fountain / .scriptbreak. Jail: no other-show paths. Fountain is scene text (AC-013). Does not delete the source."@),
        ("lot breakdown parse"@, "lot_breakdown_parse"@, "breakdown"@, "Parse fountain into scenes + default shots."@),
        ("lot wall add --text [--act]"@, "lot_wall_add"@, "wall"@, "Cork Board beat card. Empty text → no beat —."@),
        ("lot wall update --id [--text] [--act]"@, "lot_wall_update"@, "wall"@, "Rewrite a beat by id. Empty text → no beat —."@),
        ("lot wall remove --id"@, "lot_wall_remove"@, "wall"@, "Remove a beat by id. Unknown id → unknown beat."@),
        ("lot wall reorder --id --before|--after|--index"@, "lot_wall_reorder"@, "wall"@, "Move a beat. One of --before, --after, or --index."@),
        ("lot wall status"@, "lot_wall_status"@, "wall"@, "List beat cards. Does not invent beats."@),
        ("lot picture lock --shot"@, "lot_picture_lock"@, "picture"@, "Lock a shot card. Does not rename the shot."@),
        ("lot picture unlock --shot"@, "lot_picture_unlock"@, "picture"@, "Unlock a shot card. Does not rename the shot."@),
        ("lot picture ref --shot --file"@, "lot_picture_ref"@, "picture"@, "Attach a jailed ref. Copies into picture/. Does not delete the source. No fake PNG."@),
        ("lot picture status"@, "lot_picture_status"@, "picture"@, "List shot cards: lock, ref, name."@),
        ("lot stage place --shot --who --mark"@, "lot_stage_place"@, "stage"@, "2D floor mark. 3D is an optional Blockout studio, not required."@),
        ("lot stage camera --shot --size --lens --move"@, "lot_stage_camera"@, "stage"@, "Camera card on the shot."@),
        ("lot stage export"@, "lot_stage_export"@, "stage"@, "Write stage/block.json. No fake glTF."@),
        ("lot motion plate --file --shot --mode"@, "lot_motion_plate"@, "motion"@, "Attach a plate. Does not rename the shot."@),
        ("lot motion marks --shot --move --notes"@, "lot_motion_marks"@, "motion"@, "Camera / performance marks. No MediaPipe."@),
        ("lot motion export"@, "lot_motion_export"@, "motion"@, "motion/previs.json. No fake OpenPose."@),
        ("lot motion analyze --shot"@, "lot_motion_analyze"@, "motion"@, "ffprobe or LOT_MOTION_CMD."@),
        ("lot stills generate --shot --backend"@, "lot_stills_generate"@, "board"@, "backend grok|comfy. Records seed, prompt hash, duration, VRAM cap. MCP progress when _meta.progressToken is set. MCP notifications/cancelled returns cancelled — and writes no PNG. Unset LOT_COMFY_WORKFLOW uses packs/comfy-flux-still.json. No silent swap. No fake PNG."@),
        ("lot stills describe --shot"@, "lot_stills_describe"@, "board"@, "Look at a still/plate. Grok vision or Ollama VL. No invented look."@),
        ("lot board export"@, "lot_board_export"@, "board"@, "board/board.json from shots + stills + slate."@),
        ("lot slate set --shot --prompt"@, "lot_slate_set"@, "slate"@, "Canon prompt. --target writes a rewrite only."@),
        ("lot slate compile --shot --target"@, "lot_slate_compile"@, "slate"@, "Brain or LOT_PROMPT_SERVER. No invented rewrite."@),
        ("lot slate target --id"@, "lot_slate_target"@, "slate"@, "Default compile target."@),
        ("lot slate lora --id --weight --model"@, "lot_slate_lora"@, "slate"@, "LoRA metadata on a shot or the show."@),
        ("lot dailies ingest --file"@, "lot_dailies_ingest"@, "dailies"@, "01-foo.mp4 binds to shot 01 without renaming it. Same file or sha256 resumes; no duplicate take. Crash mid-copy leaves a .part and retries."@),
        ("lot dailies circle --take"@, "lot_dailies_circle"@, "dailies"@, "Requires --take. No GUI. Already circled is a no-op."@),
        ("lot dailies export"@, "lot_dailies_export"@, "dailies"@, "FCPXML 1.9 + CMX 3600 EDL of circled takes. Same files are a no-op."@),
        ("lot stems soundtrack --brief"@, "lot_stems_soundtrack"@, "stems"@, "Cue sheet. --generate needs LOT_SOUNDTRACK_CMD. Never a silent stub."@),
        ("lot stems vo --text --generate"@, "lot_stems_vo"@, "stems"@, "SAPI / piper / espeak / say, or --file."@),
        ("lot finish --upscale --fps"@, "lot_finish"@, "cut"@, "Optional pickup. ffmpeg or LOT_UPSCALE_CMD. No stub. MCP cancel kills the child and writes no file."@),
        ("lot cut export"@, "lot_cut_export"@, "cut"@, "Same FCPXML + EDL interchange. Same circled takes is a no-op. Resolve is optional, never bundled."@),
        ("lot plugin list"@, "lot_plugin_list"@, "kernel"@, "Declared adapters on LOT_PLUGIN_PATH and show/plugins. sha256 required."@),
        ("lot plugin call --id --verb"@, "lot_plugin_call"@, "kernel"@, "Run a stdio sidecar. WASM → no wasm runtime —. Hash mismatch / undeclared refuse. Does not invent media."@),
        ("lot school get"@, "lot_school_get"@, "school"@, "Read school switch. Default off."@),
        ("lot school set --on|--off"@, "lot_school_set"@, "school"@, "Enable overlay. Path/level/amount/--type/--no-theory optional. Default nudge. Mute stays quiet. Never blocks export."@),
        ("lot school score --fixture|--scene"@, "lot_school_score"@, "school"@, "Rubric ids + pass/fail. Gold fixtures: no-want, axis-fail. No GPU."@),
        ("lot school exam [--fixture]"@, "lot_school_exam"@, "school"@, "Grade craft+theory. Never blocks export. CLI exit 1 if the exam fails."@),
        ("lot mcp"@, ""@, "kernel"@, "NDJSON JSON-RPC 2.0 on stdin/stdout. Native agent door."@),
        ("lot serve [--bind]"@, ""@, "kernel"@, "Optional HTTP/OpenAPI twin. Same tool names as MCP. Default 127.0.0.1:8787. Not required — lot mcp is the agent door."@),
        ("lot-ui"@, ""@, "kernel"@, "Human film-bay window (packaged lot-ui.exe, or cargo run when developing). Same lot-core as the CLI. Agents still use lot mcp. No folder dialog."@),
    ]
}

fn verb(cli: &str, mcp: &str, section: &str, job: &str) -> (r: Verb)
    ensures
        verb_view(r) == (cli@, mcp@, section@, job@),
{
    Verb {
        cli: string_of(chars_of(cli).as_slice()),
        mcp: string_of(chars_of(mcp).as_slice()),
        section: string_of(chars_of(section).as_slice()),
        job: string_of(chars_of(job).as_slice()),
    }
}

#[verifier::rlimit(50)]
pub fn help_verbs() -> (r: Vec<Verb>)
    ensures
        verbs_view(r@) == spec_help_verbs(),
{
    let mut v: Vec<Verb> = Vec::new();
    v.push(verb("lot status", "lot_status", "kernel", "First call. Phase, dirty sections, missing (handoff blockers), missing_media, renderer, school."));
    v.push(verb("lot create <dir> --name", "lot_create", "kernel", "Create a show.lot and make it current."));
    v.push(verb("lot open <dir>", "lot_open", "kernel", "Open a show.lot and make it current."));
    v.push(verb("lot doctor", "lot_doctor", "kernel", "Probe ffmpeg, optional Comfy/Ollama/Grok, optional Blockout/Motion Previs/Resolve. Notes: no ffmpeg — / no blockout — / no resolve —. None required for lot status."));
    v.push(verb("lot --cap read|write|render|export|spend", "", "kernel", "AC-012. Unset = all. read cannot circle or stills generate. write cannot Comfy/Grok spend without render/spend."));
    v.push(verb("lot --agent <id>", "", "kernel", "Who writes. Unset = human (no auto-claim). Second agent gets locked_by."));
    v.push(verb("lot --detail full", "", "kernel", "Dump full shot/prompt cards on --json. Default is lean. MCP: detail=full."));
    v.push(verb("lot lock", "lot_lock", "kernel", "Claim the show. One writer at a time."));
    v.push(verb("lot unlock [--force]", "lot_unlock", "kernel", "Release the show lock. Holder or --force."));
    v.push(verb("lot budget --spend --render", "lot_budget", "kernel", "Per-show spend/render cap. Hit cap → stop. Unset = unlimited. Agent caps are separate."));
    v.push(verb("lot log [--n] [--export]", "lot_log", "kernel", "Audit: who/what/rev. --export writes audit/export.jsonl with tokens redacted."));
    v.push(verb("lot handoff [--commit]", "lot_handoff", "kernel", "Advance phase. Default is dry-run. --commit writes only when nothing blocks the handoff. cut — no next."));
    v.push(verb("lot show", "lot_show", "kernel", "Read lot://show. Meta, phase, lock, last event. Not the fountain."));
    v.push(verb("lot scene --id", "lot_scene", "kernel", "Read lot://scenes/{id}."));
    v.push(verb("lot shot --id|--num", "lot_shot", "kernel", "Read lot://shots/{id}."));
    v.push(verb("lot take --id", "lot_take", "kernel", "Read lot://takes/{id}."));
    v.push(verb("lot import --file", "lot_import", "kernel", "Import .scriptbreak / .cork-board.json / canvas / .blockout / .sbref / Slate project.json / .ctake. Does not delete the source. No invented glTF or still."));
    v.push(verb("lot help --json", "lot_help", "kernel", "This spec. The binary is the contract."));
    v.push(verb("lot version", "lot_version", "kernel", "Kernel name + version. No show required."));
    v.push(verb("lot upgrade --check", "lot_upgrade", "kernel", "Compare current version to LOT_UPGRADE_URL. Never downloads. Unset → no upgrade channel —. Missing --check → no upgrade — use --check."));
    v.push(verb("lot telemetry [--on|--off]", "lot_telemetry", "kernel", "Local verb counts. Default off. Counts only — no scripts, frames, prompts, or phone-home."));
    v.push(verb("lot snapshot", "lot_snapshot", "kernel", "Freeze show.json + fountain at the current rev."));
    v.push(verb("lot restore --rev", "lot_restore", "kernel", "Restore a snapshot. Later drafts do not eat earlier ones."));
    v.push(verb("lot undo", "lot_undo", "kernel", "Undo the last mutation from the event log. No prior snapshot. Create-only or already undone → nothing to undo —."));
    v.push(verb("lot writer brief --text", "lot_writer_brief", "writer", "Set the brief."));
    v.push(verb("lot writer style --genre --living --canon --format", "lot_writer_style", "writer", "Dated packs. Influence, not endorsement."));
    v.push(verb("lot writer cast --name", "lot_writer_cast", "writer", "Add/update a character or replace via --from-json."));
    v.push(verb("lot writer draft", "lot_writer_draft", "writer", "Fountain via Grok or Ollama. No brain → no fake script. MCP cancel → cancelled — and no fountain."));
    v.push(verb("lot writer revise --notes", "lot_writer_revise", "writer", "Revise existing fountain."));
    v.push(verb("lot writer lock", "lot_writer_lock", "writer", "Lock the writer contract."));
    v.push(verb("lot writer unlock", "lot_writer_unlock", "writer", "Unlock the writer."));
    v.push(verb("lot breakdown import --file", "lot_breakdown_import", "breakdown", "Import .txt / .fountain / .scriptbreak. Jail: no other-show paths. Fountain is scene text (AC-013). Does not delete the source."));
    v.push(verb("lot breakdown parse", "lot_breakdown_parse", "breakdown", "Parse fountain into scenes + default shots."));
    v.push(verb("lot wall add --text [--act]", "lot_wall_add", "wall", "Cork Board beat card. Empty text → no beat —."));
    v.push(verb("lot wall update --id [--text] [--act]", "lot_wall_update", "wall", "Rewrite a beat by id. Empty text → no beat —."));
    v.push(verb("lot wall remove --id", "lot_wall_remove", "wall", "Remove a beat by id. Unknown id → unknown beat."));
    v.push(verb("lot wall reorder --id --before|--after|--index", "lot_wall_reorder", "wall", "Move a beat. One of --before, --after, or --index."));
    v.push(verb("lot wall status", "lot_wall_status", "wall", "List beat cards. Does not invent beats."));
    v.push(verb("lot picture lock --shot", "lot_picture_lock", "picture", "Lock a shot card. Does not rename the shot."));
    v.push(verb("lot picture unlock --shot", "lot_picture_unlock", "picture", "Unlock a shot card. Does not rename the shot."));
    v.push(verb("lot picture ref --shot --file", "lot_picture_ref", "picture", "Attach a jailed ref. Copies into picture/. Does not delete the source. No fake PNG."));
    v.push(verb("lot picture status", "lot_picture_status", "picture", "List shot cards: lock, ref, name."));
    v.push(verb("lot stage place --shot --who --mark", "lot_stage_place", "stage", "2D floor mark. 3D is an optional Blockout studio, not required."));
    v.push(verb("lot stage camera --shot --size --lens --move", "lot_stage_camera", "stage", "Camera card on the shot."));
    v.push(verb("lot stage export", "lot_stage_export", "stage", "Write stage/block.json. No fake glTF."));
    v.push(verb("lot motion plate --file --shot --mode", "lot_motion_plate", "motion", "Attach a plate. Does not rename the shot."));
    v.push(verb("lot motion marks --shot --move --notes", "lot_motion_marks", "motion", "Camera / performance marks. No MediaPipe."));
    v.push(verb("lot motion export", "lot_motion_export", "motion", "motion/previs.json. No fake OpenPose."));
    v.push(verb("lot motion analyze --shot", "lot_motion_analyze", "motion", "ffprobe or LOT_MOTION_CMD."));
    v.push(verb("lot stills generate --shot --backend", "lot_stills_generate", "board", "backend grok|comfy. Records seed, prompt hash, duration, VRAM cap. MCP progress when _meta.progressToken is set. MCP notifications/cancelled returns cancelled — and writes no PNG. Unset LOT_COMFY_WORKFLOW uses packs/comfy-flux-still.json. No silent swap. No fake PNG."));
    v.push(verb("lot stills describe --shot", "lot_stills_describe", "board", "Look at a still/plate. Grok vision or Ollama VL. No invented look."));
    v.push(verb("lot board export", "lot_board_export", "board", "board/board.json from shots + stills + slate."));
    v.push(verb("lot slate set --shot --prompt", "lot_slate_set", "slate", "Canon prompt. --target writes a rewrite only."));
    v.push(verb("lot slate compile --shot --target", "lot_slate_compile", "slate", "Brain or LOT_PROMPT_SERVER. No invented rewrite."));
    v.push(verb("lot slate target --id", "lot_slate_target", "slate", "Default compile target."));
    v.push(verb("lot slate lora --id --weight --model", "lot_slate_lora", "slate", "LoRA metadata on a shot or the show."));
    v.push(verb("lot dailies ingest --file", "lot_dailies_ingest", "dailies", "01-foo.mp4 binds to shot 01 without renaming it. Same file or sha256 resumes; no duplicate take. Crash mid-copy leaves a .part and retries."));
    v.push(verb("lot dailies circle --take", "lot_dailies_circle", "dailies", "Requires --take. No GUI. Already circled is a no-op."));
    v.push(verb("lot dailies export", "lot_dailies_export", "dailies", "FCPXML 1.9 + CMX 3600 EDL of circled takes. Same files are a no-op."));
    v.push(verb("lot stems soundtrack --brief", "lot_stems_soundtrack", "stems", "Cue sheet. --generate needs LOT_SOUNDTRACK_CMD. Never a silent stub."));
    v.push(verb("lot stems vo --text --generate", "lot_stems_vo", "stems", "SAPI / piper / espeak / say, or --file."));
    v.push(verb("lot finish --upscale --fps", "lot_finish", "cut", "Optional pickup. ffmpeg or LOT_UPSCALE_CMD. No stub. MCP cancel kills the child and writes no file."));
    v.push(verb("lot cut export", "lot_cut_export", "cut", "Same FCPXML + EDL interchange. Same circled takes is a no-op. Resolve is optional, never bundled."));
    v.push(verb("lot plugin list", "lot_plugin_list", "kernel", "Declared adapters on LOT_PLUGIN_PATH and show/plugins. sha256 required."));
    v.push(verb("lot plugin call --id --verb", "lot_plugin_call", "kernel", "Run a stdio sidecar. WASM → no wasm runtime —. Hash mismatch / undeclared refuse. Does not invent media."));
    v.push(verb("lot school get", "lot_school_get", "school", "Read school switch. Default off."));
    v.push(verb("lot school set --on|--off", "lot_school_set", "school", "Enable overlay. Path/level/amount/--type/--no-theory optional. Default nudge. Mute stays quiet. Never blocks export."));
    v.push(verb("lot school score --fixture|--scene", "lot_school_score", "school", "Rubric ids + pass/fail. Gold fixtures: no-want, axis-fail. No GPU."));
    v.push(verb("lot school exam [--fixture]", "lot_school_exam", "school", "Grade craft+theory. Never blocks export. CLI exit 1 if the exam fails."));
    v.push(verb("lot mcp", "", "kernel", "NDJSON JSON-RPC 2.0 on stdin/stdout. Native agent door."));
    v.push(verb("lot serve [--bind]", "", "kernel", "Optional HTTP/OpenAPI twin. Same tool names as MCP. Default 127.0.0.1:8787. Not required — lot mcp is the agent door."));
    v.push(verb("lot-ui", "", "kernel", "Human film-bay window (packaged lot-ui.exe, or cargo run when developing). Same lot-core as the CLI. Agents still use lot mcp. No folder dialog."));
    assert(verbs_view(v@) =~= spec_help_verbs());
    v
}

pub open spec fn prev_section(vs: Seq<(Seq<char>, Seq<char>, Seq<char>, Seq<char>)>) -> Seq<char> {
    if vs.len() == 0 {
        seq![]
    } else {
        vs.last().2
    }
}

/// The verb lines of the plain help: a `[section]` header where the section
/// changes, then each verb's CLI form, indented.
pub open spec fn plain_lines(vs: Seq<(Seq<char>, Seq<char>, Seq<char>, Seq<char>)>) -> Seq<char>
    decreases vs.len(),
{
    if vs.len() == 0 {
        seq![]
    } else {
        let v = vs.last();
        plain_lines(vs.drop_last()) + (if v.2 != prev_section(vs.drop_last()) {
            "\n["@ + v.2 + "]\n"@
        } else {
            seq![]
        }) + "  "@ + v.0 + "\n"@
    }
}

pub open spec fn spec_help_plain(version: Seq<char>, vs: Seq<(Seq<char>, Seq<char>, Seq<char>, Seq<char>)>) -> Seq<char> {
    "lot "@ + version + " — agent-first film tools. Stdio first, GUI last.\n\n"@ + plain_lines(vs)
        + "\nlot help --json is the contract.\n"@
}

/// The help for a human: the verbs by section.
pub fn help_plain() -> (r: String)
    ensures
        r@ == spec_help_plain(VERSION@, spec_help_verbs()),
{
    let verbs = help_verbs();
    let ghost vv = verbs_view(verbs@);
    let mut out = chars_of("lot ");
    append_str(&mut out, VERSION);
    append_str(&mut out, " — agent-first film tools. Stdio first, GUI last.\n\n");
    let ghost head = out@;
    let mut section: Vec<char> = Vec::new();
    let mut i: usize = 0;
    assert(vv.take(0) =~= seq![]);
    while i < verbs.len()
        invariant
            i <= verbs.len(),
            vv == verbs_view(verbs@),
            vv.len() == verbs@.len(),
            out@ == head + plain_lines(vv.take(i as int)),
            section@ == prev_section(vv.take(i as int)),
        decreases verbs.len() - i,
    {
        let ghost pre = out@;
        assert(vv.take(i + 1).drop_last() =~= vv.take(i as int));
        assert(vv.take(i + 1).last() == verb_view(verbs@[i as int]));
        let sec = chars_of(verbs[i].section.as_str());
        if !crate::text::seq_eq(&sec, &section) {
            append_str(&mut out, "\n[");
            append_vec(&mut out, &sec);
            append_str(&mut out, "]\n");
            section = sec;
        }
        append_str(&mut out, "  ");
        append_str(&mut out, verbs[i].cli.as_str());
        append_str(&mut out, "\n");
        i += 1;
        assert(out@ =~= head + plain_lines(vv.take(i as int)));
    }
    assert(vv.take(verbs.len() as int) =~= vv);
    append_str(&mut out, "\nlot help --json is the contract.\n");
    string_of(out.as_slice())
}

pub open spec fn strs_jv(ss: Seq<Seq<char>>) -> JsonV {
    JsonV::Array(Seq::new(ss.len(), |i: int| JsonV::Str(ss[i])))
}

pub open spec fn verb_jv(v: (Seq<char>, Seq<char>, Seq<char>, Seq<char>)) -> JsonV {
    JsonV::Object(
        seq![("cli"@, JsonV::Str(v.0)), ("mcp"@, JsonV::Str(v.1)), ("section"@, JsonV::Str(v.2)), ("job"@, JsonV::Str(v.3))],
    )
}

/// `lot help --json`: name, version, doors, defaults, packaging, the notice
/// and every verb.
pub open spec fn spec_help_json() -> JsonV {
    JsonV::Object(
        seq![
            ("name"@, JsonV::Str(NAME@)),
            ("version"@, JsonV::Str(VERSION@)),
            ("door"@, strs_jv(seq!["cli"@, "mcp"@, "http"@, "ui"@])),
            ("school_default"@, JsonV::Str("off"@)),
            ("telemetry_default"@, JsonV::Str("off"@)),
            ("package"@, JsonV::Object(
                seq![
                    ("windows"@, strs_jv(seq!["lot.exe"@, "lot-ui.exe"@])),
                    ("optional_sidecar"@, strs_jv(seq!["ffmpeg"@, "ffprobe"@])),
                    ("never"@, strs_jv(seq!["ollama"@, "comfy"@, "resolve"@, "blockout"@, "wasserman"@])),
                ],
            )),
            ("notice"@, JsonV::Str(help_notice())),
            ("verbs"@, JsonV::Array(Seq::new(spec_help_verbs().len(), |i: int| verb_jv(spec_help_verbs()[i])))),
        ],
    )
}

fn str_json(s: &str) -> (r: Json)
    ensures
        jv(r) == JsonV::Str(s@),
{
    Json::Str(string_of(chars_of(s).as_slice()))
}

fn pair(k: &str, v: Json) -> (r: (String, Json))
    ensures
        r.0@ == k@,
        r.1 == v,
{
    (string_of(chars_of(k).as_slice()), v)
}

fn push_str_item(xs: &mut Vec<Json>, s: &str)
    ensures
        jv_seq(final(xs)@) == jv_seq(old(xs)@).push(JsonV::Str(s@)),
{
    let ghost pre = xs@;
    xs.push(str_json(s));
    assert(xs@.drop_last() =~= pre);
}

fn strs2(a: &str, b: &str) -> (r: Json)
    ensures
        jv(r) == strs_jv(seq![a@, b@]),
{
    let mut xs: Vec<Json> = Vec::new();
    push_str_item(&mut xs, a);
    push_str_item(&mut xs, b);
    assert(jv_seq(xs@) =~= Seq::new(2, |i: int| JsonV::Str(seq![a@, b@][i])));
    Json::Array(xs)
}

fn verb_json(v: &Verb) -> (r: Json)
    ensures
        jv(r) == verb_jv(verb_view(*v)),
{
    let mut ms: Vec<(String, Json)> = Vec::new();
    ms.push(pair("cli", str_json(v.cli.as_str())));
    ms.push(pair("mcp", str_json(v.mcp.as_str())));
    ms.push(pair("section", str_json(v.section.as_str())));
    ms.push(pair("job", str_json(v.job.as_str())));
    assert(jv_members(ms@) =~= seq![
        ("cli"@, JsonV::Str(v.cli@)),
        ("mcp"@, JsonV::Str(v.mcp@)),
        ("section"@, JsonV::Str(v.section@)),
        ("job"@, JsonV::Str(v.job@)),
    ]) by {
        reveal_with_fuel(jv_members, 5);
    }
    Json::Object(ms)
}

/// The help as JSON, the contract of every door.
pub fn help_spec() -> (r: Json)
    ensures
        jv(r) == spec_help_json(),
{
    let verbs = help_verbs();
    let mut vs: Vec<Json> = Vec::new();
    let mut i: usize = 0;
    while i < verbs.len()
        invariant
            i <= verbs.len(),
            verbs_view(verbs@) == spec_help_verbs(),
            jv_seq(vs@) == Seq::new(i as nat, |k: int| verb_jv(spec_help_verbs()[k])),
        decreases verbs.len() - i,
    {
        let ghost pre = vs@;
        vs.push(verb_json(&verbs[i]));
        assert(vs@.drop_last() =~= pre);
        assert(verbs_view(verbs@)[i as int] == verb_view(verbs@[i as int]));
        i += 1;
        assert(jv_seq(vs@) =~= Seq::new(i as nat, |k: int| verb_jv(spec_help_verbs()[k])));
    }
    let mut door: Vec<Json> = Vec::new();
    push_str_item(&mut door, "cli");
    push_str_item(&mut door, "mcp");
    push_str_item(&mut door, "http");
    push_str_item(&mut door, "ui");
    assert(jv_seq(door@) =~= Seq::new(4, |k: int| JsonV::Str(seq!["cli"@, "mcp"@, "http"@, "ui"@][k])));
    let mut never: Vec<Json> = Vec::new();
    push_str_item(&mut never, "ollama");
    push_str_item(&mut never, "comfy");
    push_str_item(&mut never, "resolve");
    push_str_item(&mut never, "blockout");
    push_str_item(&mut never, "wasserman");
    assert(jv_seq(never@) =~= Seq::new(
        5,
        |k: int| JsonV::Str(seq!["ollama"@, "comfy"@, "resolve"@, "blockout"@, "wasserman"@][k]),
    ));
    let mut pkg: Vec<(String, Json)> = Vec::new();
    pkg.push(pair("windows", strs2("lot.exe", "lot-ui.exe")));
    pkg.push(pair("optional_sidecar", strs2("ffmpeg", "ffprobe")));
    pkg.push(pair("never", Json::Array(never)));
    let ghost pkgv = seq![
        ("windows"@, strs_jv(seq!["lot.exe"@, "lot-ui.exe"@])),
        ("optional_sidecar"@, strs_jv(seq!["ffmpeg"@, "ffprobe"@])),
        ("never"@, strs_jv(seq!["ollama"@, "comfy"@, "resolve"@, "blockout"@, "wasserman"@])),
    ];
    assert(jv_members(pkg@) =~= pkgv) by {
        reveal_with_fuel(jv_members, 4);
    }
    let mut ms: Vec<(String, Json)> = Vec::new();
    ms.push(pair("name", str_json(NAME)));
    ms.push(pair("version", str_json(VERSION)));
    ms.push(pair("door", Json::Array(door)));
    ms.push(pair("school_default", str_json("off")));
    ms.push(pair("telemetry_default", str_json("off")));
    ms.push(pair("package", Json::Object(pkg)));
    ms.push(pair("notice", str_json(NOTICE)));
    ms.push(pair("verbs", Json::Array(vs)));
    assert(jv_members(ms@) =~= seq![
        ("name"@, JsonV::Str(NAME@)),
        ("version"@, JsonV::Str(VERSION@)),
        ("door"@, strs_jv(seq!["cli"@, "mcp"@, "http"@, "ui"@])),
        ("school_default"@, JsonV::Str("off"@)),
        ("telemetry_default"@, JsonV::Str("off"@)),
        ("package"@, JsonV::Object(pkgv)),
        ("notice"@, JsonV::Str(help_notice())),
        ("verbs"@, JsonV::Array(Seq::new(spec_help_verbs().len(), |i: int| verb_jv(spec_help_verbs()[i])))),
    ]) by {
        reveal_with_fuel(jv_members, 9);
    }
    Json::Object(ms)
}

} // verus!
