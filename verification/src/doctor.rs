//! What the runtime has, and the kernel status. Probing (binaries on the
//! path, a Comfy port, settings) is the caller's part; here the facts become
//! the report, with an honest note for each absence. Nothing optional is
//! ever required.

use vstd::prelude::*;
use crate::error::{ShowError, spec_message};
use crate::show::{Show, SchoolStatus, NAME, VERSION};
use crate::text::{chars_of, string_of, trim, trim_vec, contains, contains_str, ends_with, ends_with_vec, append_str};

verus! {

/// What a probe found.
#[derive(Debug)]
pub struct ProbeFacts {
    pub ffmpeg: bool,
    pub ffprobe: bool,
    pub comfy: bool,
    pub grok_configured: bool,
    pub ollama_up: bool,
    pub ollama_llm: Option<String>,
    pub ollama_vision: Option<String>,
    pub local_base_url_set: bool,
    pub local_model_set: bool,
    pub motion_previs: bool,
    pub blockout: bool,
    pub resolve: bool,
    pub vo_tts: bool,
    pub soundtrack_cmd: bool,
    pub stills_comfy_workflow: bool,
    pub prompt_server: bool,
    pub motion_cmd: bool,
    pub upscale_cmd: bool,
}

/// The doctor's report.
#[derive(Debug)]
pub struct Doctor {
    pub ffmpeg: bool,
    pub ffprobe: bool,
    pub comfy: bool,
    pub grok_configured: bool,
    pub local_configured: bool,
    pub ollama: bool,
    pub ollama_llm: Option<String>,
    pub ollama_vision: Option<String>,
    pub vo_tts: bool,
    pub soundtrack_cmd: bool,
    pub stills_comfy_workflow: bool,
    pub prompt_server: bool,
    pub motion_previs: bool,
    pub motion_cmd: bool,
    pub blockout: bool,
    pub resolve: bool,
    pub upscale_cmd: bool,
    pub renderer: String,
    /// Honest absences; they never fail `lot status` or `lot doctor`.
    pub notes: Vec<String>,
}

pub open spec fn note_if(absent: bool, n: Seq<char>) -> Seq<Seq<char>> {
    if absent {
        seq![n]
    } else {
        seq![]
    }
}

/// One note per absent tool, in this order: ffmpeg, ffprobe, comfy, ollama,
/// blockout, motion previs, resolve.
pub open spec fn spec_notes(f: ProbeFacts) -> Seq<Seq<char>> {
    note_if(!f.ffmpeg, "no ffmpeg —"@) + note_if(!f.ffprobe, "no ffprobe —"@) + note_if(!f.comfy, "no comfy —"@)
        + note_if(!f.ollama_up, "no ollama —"@) + note_if(!f.blockout, "no blockout —"@) + note_if(
        !f.motion_previs,
        "no motion previs —"@,
    ) + note_if(!f.resolve, "no resolve —"@)
}

pub open spec fn opt_str_view(o: Option<String>) -> Option<Seq<char>> {
    match o {
        Some(s) => Some(s@),
        None => None,
    }
}

fn push_note(notes: &mut Vec<String>, absent: bool, n: &str)
    ensures
        crate::text::strings_view(final(notes)@) == crate::text::strings_view(old(notes)@) + note_if(absent, n@),
{
    let ghost pre = notes@;
    if absent {
        notes.push(string_of(chars_of(n).as_slice()));
        assert(crate::text::strings_view(notes@) =~= crate::text::strings_view(pre) + note_if(absent, n@));
    } else {
        assert(crate::text::strings_view(notes@) =~= crate::text::strings_view(pre) + note_if(absent, n@));
    }
}

impl Doctor {
    /// The report on what a probe found: a local brain counts as configured
    /// when its base URL or model is set, or Ollama is up; the renderer is
    /// Comfy when it answers, else unavailable.
    pub fn from_probe(f: ProbeFacts) -> (r: Doctor)
        ensures
            r.ffmpeg == f.ffmpeg,
            r.ffprobe == f.ffprobe,
            r.comfy == f.comfy,
            r.grok_configured == f.grok_configured,
            r.local_configured == (f.local_base_url_set || f.local_model_set || f.ollama_up),
            r.ollama == f.ollama_up,
            opt_str_view(r.ollama_llm) == opt_str_view(f.ollama_llm),
            opt_str_view(r.ollama_vision) == opt_str_view(f.ollama_vision),
            r.vo_tts == f.vo_tts,
            r.soundtrack_cmd == f.soundtrack_cmd,
            r.stills_comfy_workflow == f.stills_comfy_workflow,
            r.prompt_server == f.prompt_server,
            r.motion_previs == f.motion_previs,
            r.motion_cmd == f.motion_cmd,
            r.blockout == f.blockout,
            r.resolve == f.resolve,
            r.upscale_cmd == f.upscale_cmd,
            r.renderer@ == (if f.comfy { "comfy"@ } else { "unavailable"@ }),
            crate::text::strings_view(r.notes@) == spec_notes(f),
    {
        let mut notes: Vec<String> = Vec::new();
        assert(crate::text::strings_view(notes@) =~= seq![]);
        push_note(&mut notes, !f.ffmpeg, "no ffmpeg —");
        push_note(&mut notes, !f.ffprobe, "no ffprobe —");
        push_note(&mut notes, !f.comfy, "no comfy —");
        push_note(&mut notes, !f.ollama_up, "no ollama —");
        push_note(&mut notes, !f.blockout, "no blockout —");
        push_note(&mut notes, !f.motion_previs, "no motion previs —");
        push_note(&mut notes, !f.resolve, "no resolve —");
        assert(crate::text::strings_view(notes@) =~= spec_notes(f));
        let renderer = if f.comfy {
            string_of(chars_of("comfy").as_slice())
        } else {
            string_of(chars_of("unavailable").as_slice())
        };
        Doctor {
            ffmpeg: f.ffmpeg,
            ffprobe: f.ffprobe,
            comfy: f.comfy,
            grok_configured: f.grok_configured,
            local_configured: f.local_base_url_set || f.local_model_set || f.ollama_up,
            ollama: f.ollama_up,
            ollama_llm: f.ollama_llm,
            ollama_vision: f.ollama_vision,
            vo_tts: f.vo_tts,
            soundtrack_cmd: f.soundtrack_cmd,
            stills_comfy_workflow: f.stills_comfy_workflow,
            prompt_server: f.prompt_server,
            motion_previs: f.motion_previs,
            motion_cmd: f.motion_cmd,
            blockout: f.blockout,
            resolve: f.resolve,
            upscale_cmd: f.upscale_cmd,
            renderer,
            notes,
        }
    }
}

/// Whether a setting is set to something other than blanks.
pub fn set_nonblank(v: Option<&str>) -> (r: bool)
    ensures
        r == (match v {
            Some(s) => trim(s@).len() > 0,
            None => false,
        }),
{
    match v {
        Some(s) => trim_vec(&chars_of(s)).len() > 0,
        None => false,
    }
}

/// Whether a Hermes `auth.json` text holds an xAI OAuth access token.
pub fn grok_auth_marks(raw: &str) -> (r: bool)
    ensures
        r == (contains(raw@, "xai-oauth"@) && contains(raw@, "access_token"@)),
{
    let s = chars_of(raw);
    contains_str(&s, "xai-oauth") && contains_str(&s, "access_token")
}

/// The file name of a binary: with `.exe` on Windows unless it has one.
pub fn win_exe(name: &str, windows: bool) -> (r: String)
    ensures
        r@ == (if windows && !ends_with(name@, ".exe"@) {
            name@ + ".exe"@
        } else {
            name@
        }),
{
    let mut s = chars_of(name);
    if windows && !ends_with_vec(&s, &chars_of(".exe")) {
        append_str(&mut s, ".exe");
    }
    string_of(s.as_slice())
}

/// The kernel status that `lot status --json` and the `lot_status` tool share.
#[derive(Debug)]
pub struct Status {
    pub ok: bool,
    pub name: &'static str,
    pub version: &'static str,
    pub door: &'static str,
    pub school: SchoolStatus,
    pub renderer: String,
    pub show: Option<String>,
    pub show_name: Option<String>,
    pub rev: Option<u64>,
    pub phase: Option<String>,
    pub scenes: Option<usize>,
    pub shots: Option<usize>,
    pub takes: Option<usize>,
    pub doctor: Doctor,
    pub error: Option<String>,
}

pub open spec fn school_off(s: SchoolStatus) -> bool {
    !s.enabled && s.path is None && s.level is None && s.help is None
}

/// The status from the doctor's report and what looking for the current show
/// gave: no show (ok), a show that reads (ok, with its summary), a show that
/// does not read (not ok, its path and the error), or a failed lookup.
pub open spec fn status_ok(s: Status, current: Result<Option<(String, Result<Show, ShowError>)>, ShowError>) -> bool {
    &&& s.name@ == NAME@
    &&& s.version@ == VERSION@
    &&& s.door@ == "cli"@
    &&& match current {
        Ok(Some((p, Ok(show)))) => {
            &&& s.ok
            &&& s.school == show.school
            &&& opt_str_view(s.show) == Some(p@)
            &&& opt_str_view(s.show_name) == Some(show.name@)
            &&& s.rev == Some(show.rev)
            &&& opt_str_view(s.phase) == Some(show.phase@)
            &&& s.scenes == Some(show.scenes.len())
            &&& s.shots == Some(show.shots.len())
            &&& s.takes == Some(show.takes.len())
            &&& s.error is None
        },
        Ok(Some((p, Err(e)))) => {
            &&& !s.ok
            &&& school_off(s.school)
            &&& opt_str_view(s.show) == Some(p@)
            &&& s.show_name is None && s.rev is None && s.phase is None
            &&& s.scenes is None && s.shots is None && s.takes is None
            &&& opt_str_view(s.error) == Some(spec_message(e))
        },
        Ok(None) => {
            &&& s.ok
            &&& school_off(s.school)
            &&& s.show is None && s.show_name is None && s.rev is None && s.phase is None
            &&& s.scenes is None && s.shots is None && s.takes is None
            &&& s.error is None
        },
        Err(e) => {
            &&& !s.ok
            &&& school_off(s.school)
            &&& s.show is None && s.show_name is None && s.rev is None && s.phase is None
            &&& s.scenes is None && s.shots is None && s.takes is None
            &&& opt_str_view(s.error) == Some(spec_message(e))
        },
    }
}

fn default_school() -> (r: SchoolStatus)
    ensures
        school_off(r),
{
    SchoolStatus { enabled: false, path: None, level: None, help: None }
}

fn copy_school(s: &SchoolStatus) -> (r: SchoolStatus)
    ensures
        r == *s,
{
    SchoolStatus {
        enabled: s.enabled,
        path: crate::text::copy_opt(&s.path),
        level: crate::text::copy_opt(&s.level),
        help: crate::text::copy_opt(&s.help),
    }
}

impl Status {
    pub fn bootstrap(doctor: Doctor, current: Result<Option<(String, Result<Show, ShowError>)>, ShowError>) -> (r: Status)
        ensures
            status_ok(r, current),
            r.renderer@ == doctor.renderer@,
            r.doctor == doctor,
    {
        let ghost cur = current;
        let renderer = string_of(chars_of(doctor.renderer.as_str()).as_slice());
        match current {
            Ok(Some((p, Ok(show)))) => {
                let school = copy_school(&show.school);
                let phase = string_of(chars_of(show.phase.as_str()).as_slice());
                let scenes = show.scenes.len();
                let shots = show.shots.len();
                let takes = show.takes.len();
                let rev = show.rev;
                Status {
                    ok: true,
                    name: NAME,
                    version: VERSION,
                    door: "cli",
                    school,
                    renderer,
                    show: Some(p),
                    show_name: Some(show.name),
                    rev: Some(rev),
                    phase: Some(phase),
                    scenes: Some(scenes),
                    shots: Some(shots),
                    takes: Some(takes),
                    doctor,
                    error: None,
                }
            },
            Ok(Some((p, Err(e)))) => Status {
                ok: false,
                name: NAME,
                version: VERSION,
                door: "cli",
                school: default_school(),
                renderer,
                show: Some(p),
                show_name: None,
                rev: None,
                phase: None,
                scenes: None,
                shots: None,
                takes: None,
                doctor,
                error: Some(e.message()),
            },
            Ok(None) => Status {
                ok: true,
                name: NAME,
                version: VERSION,
                door: "cli",
                school: default_school(),
                renderer,
                show: None,
                show_name: None,
                rev: None,
                phase: None,
                scenes: None,
                shots: None,
                takes: None,
                doctor,
                error: None,
            },
            Err(e) => Status {
                ok: false,
                name: NAME,
                version: VERSION,
                door: "cli",
                school: default_school(),
                renderer,
                show: None,
                show_name: None,
                rev: None,
                phase: None,
                scenes: None,
                shots: None,
                takes: None,
                doctor,
                error: Some(e.message()),
            },
        }
    }
}

} // verus!
