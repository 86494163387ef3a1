//! Stems: the soundtrack and the voice-over. Never a fake song or a silent
//! WAV called a score; the engines run outside the library.

use vstd::prelude::*;
use crate::brain::Completion;
use crate::error::{ShowError, fails_with, msg};
use crate::model::MediaItem;
use crate::show::{Show, Stems, bump, spec_bumped};
use crate::text::{chars_of, string_of, trim, trim_vec, append_str, filled};

verus! {

pub open spec fn soundtrack_needs_msg() -> Seq<char> {
    "stems soundtrack needs --brief or --file"@
}

/// Takes the soundtrack brief (trimmed, when given); refused when the show
/// then has no brief and no file is attached.
pub fn soundtrack_brief(show: &mut Show, brief: Option<&str>, has_file: bool) -> (r: Result<(), ShowError>)
    ensures
        ({
            let b = match brief {
                Some(x) => trim(x@),
                None => old(show).stems.soundtrack_brief@,
            };
            if b.len() == 0 && !has_file {
                fails_with(r, soundtrack_needs_msg()) && *final(show) == *old(show)
            } else {
                r is Ok && final(show).stems.soundtrack_brief@ == b && *final(show) == (Show {
                    stems: Stems { soundtrack_brief: final(show).stems.soundtrack_brief, ..old(show).stems },
                    ..*old(show)
                })
            }
        }),
{
    let b = match brief {
        Some(x) => string_of(trim_vec(&chars_of(x)).as_slice()),
        None => show.stems.soundtrack_brief.clone(),
    };
    if !filled(b.as_str()) && !has_file {
        return Err(msg("stems soundtrack needs --brief or --file"));
    }
    show.stems.soundtrack_brief = b;
    Ok(())
}

/// Records an attached soundtrack file (copied to `dest`) as the
/// soundtrack and as show media.
pub fn soundtrack_attach(show: &mut Show, dest: &str)
    ensures
        final(show).stems.soundtrack_path matches Some(p) && p@ == dest@,
        final(show).media@.drop_last() == old(show).media@,
        final(show).media@.len() == old(show).media@.len() + 1,
        final(show).media@.last().path@ == dest@,
        final(show).media@.last().kind@ == "audio"@,
        *final(show) == (Show {
            stems: Stems { soundtrack_path: final(show).stems.soundtrack_path, soundtrack_provenance: final(show).stems.soundtrack_provenance, ..old(show).stems },
            media: final(show).media,
            ..*old(show)
        }),
{
    show.stems.soundtrack_path = Some(string_of(chars_of(dest).as_slice()));
    let ghost pre = show.media@;
    show.media.push(
        MediaItem {
            path: string_of(chars_of(dest).as_slice()),
            sha256: string_of(Vec::<char>::new().as_slice()),
            kind: string_of(chars_of("audio").as_slice()),
            duration_ms: None,
        },
    );
    assert(show.media@.drop_last() =~= pre);
}

pub open spec fn format_or_unset(show: Show) -> Seq<char> {
    match show.writer.format {
        Some(f) => f@,
        None => "unset"@,
    }
}

/// What the composer brain is asked for a cue sheet.
pub open spec fn spec_cue_prompt(show: Show) -> Seq<char> {
    "Show: "@ + show.name@ + "\nFormat: "@ + format_or_unset(show) + "\nBrief:\n"@
        + show.stems.soundtrack_brief@ + "\n\nWrite the cue sheet now."@
}

fn format_text(show: &Show) -> (r: String)
    ensures
        r@ == format_or_unset(*show),
{
    match &show.writer.format {
        Some(f) => f.clone(),
        None => string_of(chars_of("unset").as_slice()),
    }
}

pub fn cue_prompt(show: &Show) -> (r: String)
    ensures
        r@ == spec_cue_prompt(*show),
{
    let mut v = chars_of("Show: ");
    append_str(&mut v, show.name.as_str());
    append_str(&mut v, "\nFormat: ");
    append_str(&mut v, format_text(show).as_str());
    append_str(&mut v, "\nBrief:\n");
    append_str(&mut v, show.stems.soundtrack_brief.as_str());
    append_str(&mut v, "\n\nWrite the cue sheet now.");
    string_of(v.as_slice())
}

/// The cue sheet: the brain's, with who wrote it, or else the filmmaker's
/// brief, marked as such.
pub open spec fn spec_cue_body(show: Show, reply: Option<(Seq<char>, Seq<char>, Seq<char>)>) -> Seq<char> {
    match reply {
        Some(c) => "# Soundtrack cue — "@ + show.name@ + "\n\nFormat: "@ + format_or_unset(show)
            + "\nBackend: "@ + c.0 + " / "@ + c.1 + "\n\n"@ + c.2 + "\n"@,
        None => "# Soundtrack cue — "@ + show.name@ + "\n\nFormat: "@ + format_or_unset(show)
            + "\n\n"@ + show.stems.soundtrack_brief@
            + "\n\n_No language brain — cue is the filmmaker brief. Attach audio with --file or LOT_SOUNDTRACK_CMD._\n"@,
    }
}

pub fn cue_body(show: &Show, reply: Option<&Completion>) -> (r: String)
    ensures
        r@ == spec_cue_body(*show, match reply {
            Some(c) => Some((c.provenance.backend@, c.provenance.model@, c.text@)),
            None => None,
        }),
{
    let mut v = chars_of("# Soundtrack cue — ");
    append_str(&mut v, show.name.as_str());
    append_str(&mut v, "\n\nFormat: ");
    append_str(&mut v, format_text(show).as_str());
    match reply {
        Some(c) => {
            append_str(&mut v, "\nBackend: ");
            append_str(&mut v, c.provenance.backend.as_str());
            append_str(&mut v, " / ");
            append_str(&mut v, c.provenance.model.as_str());
            append_str(&mut v, "\n\n");
            append_str(&mut v, c.text.as_str());
            append_str(&mut v, "\n");
        },
        None => {
            append_str(&mut v, "\n\n");
            append_str(&mut v, show.stems.soundtrack_brief.as_str());
            append_str(
                &mut v,
                "\n\n_No language brain — cue is the filmmaker brief. Attach audio with --file or LOT_SOUNDTRACK_CMD._\n",
            );
        },
    }
    string_of(v.as_slice())
}

pub open spec fn no_soundtrack_engine_msg() -> Seq<char> {
    "no soundtrack engine — set LOT_SOUNDTRACK_CMD <cmd> <brief> <out.wav>, or attach --file. Cue is written; never a fake track."@
}

/// Whether a soundtrack is to be generated, and with which command: only
/// when asked and none is attached; refused when no engine is set.
pub fn soundtrack_engine(show: &Show, generate: bool, cmd: Option<&str>) -> (r: Result<Option<String>, ShowError>)
    ensures
        !(generate && show.stems.soundtrack_path is None) ==> r == Ok::<Option<String>, ShowError>(None),
        generate && show.stems.soundtrack_path is None ==> match cmd {
            Some(c) => if trim(c@).len() > 0 {
                r matches Ok(Some(x)) && x@ == trim(c@)
            } else {
                fails_with(r, no_soundtrack_engine_msg())
            },
            None => fails_with(r, no_soundtrack_engine_msg()),
        },
{
    if !(generate && show.stems.soundtrack_path.is_none()) {
        return Ok(None);
    }
    match cmd {
        Some(c) => {
            let t = trim_vec(&chars_of(c));
            if t.len() > 0 {
                return Ok(Some(string_of(t.as_slice())));
            }
        },
        None => {},
    }
    Err(
        msg(
            "no soundtrack engine — set LOT_SOUNDTRACK_CMD <cmd> <brief> <out.wav>, or attach --file. Cue is written; never a fake track.",
        ),
    )
}

/// Closes a stems change: the phase becomes `stems`.
pub fn stems_done(show: &mut Show, now: &str)
    requires
        old(show).rev < u64::MAX,
    ensures
        final(show).phase@ == "stems"@,
        spec_bumped(Show { phase: final(show).phase, ..*old(show) }, *final(show), now@),
{
    show.phase = string_of(chars_of("stems").as_slice());
    bump(show, now);
}

pub open spec fn vo_needs_msg() -> Seq<char> {
    "stems vo needs --text or --file"@
}

/// Takes the voice-over text (trimmed, when given); refused when the show
/// then has no text and no file is attached, or a generation is asked for
/// without text.
pub fn vo_text(show: &mut Show, text: Option<&str>, has_file: bool, generate: bool) -> (r: Result<(), ShowError>)
    ensures
        ({
            let t = match text {
                Some(x) => trim(x@),
                None => old(show).stems.vo_text@,
            };
            if t.len() == 0 && !has_file {
                fails_with(r, vo_needs_msg()) && *final(show) == *old(show)
            } else if t.len() == 0 && generate {
                fails_with(r, "stems vo --generate needs --text"@) && *final(show) == *old(show)
            } else {
                r is Ok && final(show).stems.vo_text@ == t && *final(show) == (Show {
                    stems: Stems { vo_text: final(show).stems.vo_text, ..old(show).stems },
                    ..*old(show)
                })
            }
        }),
{
    let t = match text {
        Some(x) => string_of(trim_vec(&chars_of(x)).as_slice()),
        None => show.stems.vo_text.clone(),
    };
    if !filled(t.as_str()) && !has_file {
        return Err(msg("stems vo needs --text or --file"));
    }
    if !filled(t.as_str()) && generate {
        return Err(msg("stems vo --generate needs --text"));
    }
    show.stems.vo_text = t;
    Ok(())
}

/// Records a voice-over file: attached (copied to `path`), or generated
/// there (then it is show media too).
pub fn vo_record(show: &mut Show, path: &str, generated: bool)
    ensures
        final(show).stems.vo_path matches Some(p) && p@ == path@,
        !generated ==> final(show).media == old(show).media,
        generated ==> final(show).media@.drop_last() == old(show).media@ && final(show).media@.len()
            == old(show).media@.len() + 1 && final(show).media@.last().path@ == path@
            && final(show).media@.last().kind@ == "audio"@,
        *final(show) == (Show {
            stems: Stems { vo_path: final(show).stems.vo_path, vo_provenance: final(show).stems.vo_provenance, ..old(show).stems },
            media: final(show).media,
            ..*old(show)
        }),
{
    show.stems.vo_path = Some(string_of(chars_of(path).as_slice()));
    if generated {
        let ghost pre = show.media@;
        show.media.push(
            MediaItem {
                path: string_of(chars_of(path).as_slice()),
                sha256: string_of(Vec::<char>::new().as_slice()),
                kind: string_of(chars_of("audio").as_slice()),
                duration_ms: None,
            },
        );
        assert(show.media@.drop_last() =~= pre);
    }
}

/// A voice-over engine, in the order they are tried.
#[derive(Debug, Clone, Copy, PartialEq, Eq, Structural)]
pub enum VoEngine {
    TtsCmd,
    Piper,
    EspeakNg,
    Espeak,
    Sapi,
    Say,
}

/// What is installed or set for voice-over.
#[derive(Debug, Clone, Copy, PartialEq, Eq, Structural)]
pub struct VoTools {
    /// `LOT_TTS_CMD` is set and not blank.
    pub tts_cmd: bool,
    pub piper: bool,
    pub espeak_ng: bool,
    pub espeak: bool,
    /// The machine runs Windows (SAPI).
    pub windows: bool,
    pub say: bool,
}

/// The backend a voice-over would use first.
pub open spec fn spec_vo_backend(t: VoTools) -> Option<Seq<char>> {
    if t.tts_cmd {
        Some("lot_tts_cmd"@)
    } else if t.piper {
        Some("piper"@)
    } else if t.espeak_ng || t.espeak {
        Some("espeak"@)
    } else if t.windows {
        Some("sapi"@)
    } else if t.say {
        Some("say"@)
    } else {
        None
    }
}

pub fn vo_backend_name(t: VoTools) -> (r: Option<&'static str>)
    ensures
        match (r, spec_vo_backend(t)) {
            (Some(a), Some(b)) => a@ == b,
            (None, None) => true,
            _ => false,
        },
{
    if t.tts_cmd {
        Some("lot_tts_cmd")
    } else if t.piper {
        Some("piper")
    } else if t.espeak_ng || t.espeak {
        Some("espeak")
    } else if t.windows {
        Some("sapi")
    } else if t.say {
        Some("say")
    } else {
        None
    }
}

/// The engines to try for a voice-over, in order (espeak-ng before espeak,
/// only one of the two).
pub open spec fn spec_vo_plan(t: VoTools) -> Seq<VoEngine> {
    let a: Seq<VoEngine> = if t.tts_cmd { seq![VoEngine::TtsCmd] } else { seq![] };
    let b: Seq<VoEngine> = if t.piper { seq![VoEngine::Piper] } else { seq![] };
    let c: Seq<VoEngine> = if t.espeak_ng {
        seq![VoEngine::EspeakNg]
    } else if t.espeak {
        seq![VoEngine::Espeak]
    } else {
        seq![]
    };
    let d: Seq<VoEngine> = if t.windows { seq![VoEngine::Sapi] } else if t.say { seq![VoEngine::Say] } else { seq![] };
    a + b + c + d
}

pub fn vo_plan(t: VoTools) -> (r: Vec<VoEngine>)
    ensures
        r@ == spec_vo_plan(t),
{
    let mut v: Vec<VoEngine> = Vec::new();
    if t.tts_cmd {
        v.push(VoEngine::TtsCmd);
    }
    if t.piper {
        v.push(VoEngine::Piper);
    }
    if t.espeak_ng {
        v.push(VoEngine::EspeakNg);
    } else if t.espeak {
        v.push(VoEngine::Espeak);
    }
    if t.windows {
        v.push(VoEngine::Sapi);
    } else if t.say {
        v.push(VoEngine::Say);
    }
    assert(v@ =~= spec_vo_plan(t));
    v
}

pub open spec fn no_vo_msg() -> Seq<char> {
    "no vo brain — set LOT_TTS_CMD, or install piper/espeak, or use Windows SAPI / macOS say. Never a silent stub."@
}

/// A text as a PowerShell single-quoted literal's content: `'` doubled.
pub open spec fn ps_quote(s: Seq<char>) -> Seq<char>
    decreases s.len(),
{
    if s.len() == 0 {
        seq![]
    } else if s.last() == '\'' {
        ps_quote(s.drop_last()) + seq!['\'', '\'']
    } else {
        ps_quote(s.drop_last()).push(s.last())
    }
}

fn ps_quote_exec(s: &str) -> (r: Vec<char>)
    ensures
        r@ == ps_quote(s@),
{
    let v = chars_of(s);
    let mut out: Vec<char> = Vec::new();
    let mut i: usize = 0;
    while i < v.len()
        invariant
            i <= v.len(),
            v@ == s@,
            out@ == ps_quote(v@.take(i as int)),
        decreases v.len() - i,
    {
        if v[i] == '\'' {
            out.push('\'');
            out.push('\'');
        } else {
            out.push(v[i]);
        }
        i += 1;
        assert(v@.take(i as int).drop_last() =~= v@.take(i - 1));
        assert(out@ =~= ps_quote(v@.take(i as int)));
    }
    assert(v@.take(i as int) =~= v@);
    out
}

/// The PowerShell script that has Windows SAPI speak `text` into `out`.
pub open spec fn spec_sapi_script(text: Seq<char>, out: Seq<char>) -> Seq<char> {
    "Add-Type -AssemblyName System.Speech; $s = New-Object System.Speech.Synthesis.SpeechSynthesizer; $s.SetOutputToWaveFile('"@
        + ps_quote(out) + "'); $s.Speak('"@ + ps_quote(text) + "'); $s.Dispose()"@
}

pub fn sapi_script(text: &str, out: &str) -> (r: String)
    ensures
        r@ == spec_sapi_script(text@, out@),
{
    let mut v = chars_of(
        "Add-Type -AssemblyName System.Speech; $s = New-Object System.Speech.Synthesis.SpeechSynthesizer; $s.SetOutputToWaveFile('",
    );
    let q = ps_quote_exec(out);
    let mut k: usize = 0;
    let ghost a = v@;
    while k < q.len()
        invariant
            k <= q.len(),
            v@ == a + q@.take(k as int),
        decreases q.len() - k,
    {
        v.push(q[k]);
        k += 1;
        assert(v@ =~= a + q@.take(k as int));
    }
    assert(q@.take(k as int) =~= q@);
    append_str(&mut v, "'); $s.Speak('");
    let t = ps_quote_exec(text);
    let ghost b = v@;
    let mut j: usize = 0;
    while j < t.len()
        invariant
            j <= t.len(),
            v@ == b + t@.take(j as int),
        decreases t.len() - j,
    {
        v.push(t[j]);
        j += 1;
        assert(v@ =~= b + t@.take(j as int));
    }
    assert(t@.take(j as int) =~= t@);
    append_str(&mut v, "'); $s.Dispose()");
    string_of(v.as_slice())
}

} // verus!
