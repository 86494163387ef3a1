//! Stills: Grok Imagine or a local Comfy graph. The backend is always named;
//! there is no silent swap, and never a fake PNG. The requests go out from
//! the program around the library; what is asked and what is made of the
//! answers is decided here.

use vstd::prelude::*;
use base64::Engine;
use crate::error::{ShowError, is_msg, fails_with, msg, msg2, msg3};
use crate::json::{JsonV, jv, jv_seq, jv_members, Json, json_parse, json_error, parse_json, member, at, nth, text_of, items_of, get_member, at_exec, nth_exec, text_exec, opt_json, lemma_jv_seq_take, lemma_jv_members_take, lemma_jv_members_index};
use crate::model::{Shot, MediaItem, first_shot_index, lemma_first_shot_index, find_shot};
use crate::show::{Show, bump, spec_bumped};
use crate::slate::{others_kept, unknown_shot, key_index, lemma_key_index};
use crate::text::{
    chars_of, string_of, str_eq, trim, trim_vec, lower, lower_vec, seq_eq, contains, contains_vec,
    split_on, split_vec, join, join_vecs, trim_end_char, trim_end_char_vec, ends_with, ends_with_vec,
    append_str, append_vec, filled, dec, dec_vec, sub_vec, parse_u64, spec_parse_u64,
};

verus! {

// ------------------------------------------------------------ backends

/// The backend a name asks for: Grok (`grok`, `imagine`, `grok-imagine`) or
/// Comfy (`comfy`, `comfyui`), any ASCII case.
pub open spec fn spec_stills_backend(raw: Seq<char>) -> Result<Seq<char>, Seq<char>> {
    let k = lower(trim(raw));
    if k == "grok"@ || k == "imagine"@ || k == "grok-imagine"@ {
        Ok("grok"@)
    } else if k == "comfy"@ || k == "comfyui"@ {
        Ok("comfy"@)
    } else {
        Err("stills backend must be grok or comfy (got "@ + k + ") — no silent swap"@)
    }
}

fn is(v: &Vec<char>, s: &str) -> (r: bool)
    ensures
        r == (v@ == s@),
{
    seq_eq(v, &chars_of(s))
}

pub fn resolve_stills_backend(raw: &str) -> (r: Result<&'static str, ShowError>)
    ensures
        match (r, spec_stills_backend(raw@)) {
            (Ok(a), Ok(b)) => a@ == b,
            (Err(e), Err(m)) => is_msg(e, m),
            _ => false,
        },
{
    let k = lower_vec(&trim_vec(&chars_of(raw)));
    if is(&k, "grok") || is(&k, "imagine") || is(&k, "grok-imagine") {
        Ok("grok")
    } else if is(&k, "comfy") || is(&k, "comfyui") {
        Ok("comfy")
    } else {
        let ks = string_of(k.as_slice());
        Err(msg3("stills backend must be grok or comfy (got ", ks.as_str(), ") — no silent swap"))
    }
}

pub open spec fn no_prompt_msg() -> Seq<char> {
    "stills needs a prompt (slate --prompt or stills --prompt)"@
}

/// The shot to draw and its prompt: a given prompt (not blank) becomes the
/// shot's canon first. Returns the shot's position and the trimmed prompt.
pub fn stills_prompt(show: &mut Show, shot_num: &str, prompt: Option<&str>) -> (r: Result<(usize, String), ShowError>)
    ensures
        ({
            let k = first_shot_index(old(show).shots@, shot_num@);
            let given = match prompt {
                Some(p) => if trim(p@).len() > 0 {
                    Some(trim(p@))
                } else {
                    None
                },
                None => None,
            };
            if k < 0 {
                fails_with(r, unknown_shot(shot_num@)) && *final(show) == *old(show)
            } else {
                let before = old(show).shots@[k];
                let text = match given {
                    Some(g) => g,
                    None => trim(before.prompt@),
                };
                if text.len() == 0 {
                    fails_with(r, no_prompt_msg()) && *final(show) == *old(show)
                } else {
                    &&& r matches Ok(x) && x.0 == k && x.1@ == text
                    &&& match given {
                        Some(g) => {
                            &&& others_kept(old(show).shots@, final(show).shots@, k)
                            &&& final(show).shots@[k] == (Shot { prompt: final(show).shots@[k].prompt, ..before })
                            &&& final(show).shots@[k].prompt@ == g
                            &&& *final(show) == (Show { shots: final(show).shots, ..*old(show) })
                        },
                        None => *final(show) == *old(show),
                    }
                }
            }
        }),
{
    proof {
        lemma_first_shot_index(show.shots@, shot_num@);
    }
    let k = match find_shot(&show.shots, shot_num) {
        Some(k) => k,
        None => return Err(msg2("unknown shot: ", shot_num)),
    };
    let given: Option<String> = match prompt {
        Some(p) => {
            let t = trim_vec(&chars_of(p));
            if t.len() > 0 {
                Some(string_of(t.as_slice()))
            } else {
                None
            }
        },
        None => None,
    };
    match given {
        Some(g) => {
            let ghost before = show.shots@[k as int];
            let text = g.clone();
            let mut sh = show.shots.remove(k);
            sh.prompt = g;
            let ghost after = sh;
            show.shots.insert(k, sh);
            assert(show.shots@[k as int] == after);
            assert(others_kept(old(show).shots@, show.shots@, k as int));
            Ok((k, text))
        },
        None => {
            let t = trim_vec(&chars_of(show.shots[k].prompt.as_str()));
            if t.len() == 0 {
                return Err(msg("stills needs a prompt (slate --prompt or stills --prompt)"));
            }
            Ok((k, string_of(t.as_slice())))
        },
    }
}

/// Records a still written to `path` for shot `k`, and as show media. The
/// phase becomes `board`.
pub fn stills_record(show: &mut Show, k: usize, path: &str, now: &str)
    requires
        old(show).rev < u64::MAX,
        k < old(show).shots.len(),
    ensures
        others_kept(old(show).shots@, final(show).shots@, k as int),
        final(show).shots@[k as int] == (Shot { still_path: final(show).shots@[k as int].still_path, ..old(show).shots@[k as int] }),
        final(show).shots@[k as int].still_path matches Some(p) && p@ == path@,
        final(show).media@.drop_last() == old(show).media@,
        final(show).media@.len() == old(show).media@.len() + 1,
        final(show).media@.last().path@ == path@,
        final(show).media@.last().kind@ == "still"@,
        final(show).phase@ == "board"@,
        spec_bumped(
            Show { shots: final(show).shots, media: final(show).media, phase: final(show).phase, ..*old(show) },
            *final(show),
            now@,
        ),
{
    let mut sh = show.shots.remove(k);
    sh.still_path = Some(string_of(chars_of(path).as_slice()));
    let ghost after = sh;
    show.shots.insert(k, sh);
    assert(show.shots@[k as int] == after);
    assert(others_kept(old(show).shots@, show.shots@, k as int));
    let ghost pre = show.media@;
    show.media.push(
        MediaItem {
            path: string_of(chars_of(path).as_slice()),
            sha256: string_of(Vec::<char>::new().as_slice()),
            kind: string_of(chars_of("still").as_slice()),
            duration_ms: None,
        },
    );
    assert(show.media@.drop_last() =~= pre);
    show.phase = string_of(chars_of("board").as_slice());
    bump(show, now);
}

/// The extension an image's first bytes tell: PNG, JPEG or WebP (`png`
/// when unknown).
pub open spec fn spec_ext(b: Seq<u8>) -> Seq<char> {
    if b.len() >= 4 && b[0] == 0x89 && b[1] == 0x50 && b[2] == 0x4E && b[3] == 0x47 {
        "png"@
    } else if b.len() > 2 && b[0] == 0xFF && b[1] == 0xD8 {
        "jpg"@
    } else if b.len() >= 4 && b[0] == 0x52 && b[1] == 0x49 && b[2] == 0x46 && b[3] == 0x46 {
        "webp"@
    } else {
        "png"@
    }
}

pub fn ext_from_bytes(b: &[u8]) -> (r: &'static str)
    ensures
        r@ == spec_ext(b@),
{
    if b.len() >= 4 && b[0] == 0x89 && b[1] == 0x50 && b[2] == 0x4E && b[3] == 0x47 {
        "png"
    } else if b.len() > 2 && b[0] == 0xFF && b[1] == 0xD8 {
        "jpg"
    } else if b.len() >= 4 && b[0] == 0x52 && b[1] == 0x49 && b[2] == 0x46 && b[3] == 0x46 {
        "webp"
    } else {
        "png"
    }
}

// ------------------------------------------------------------ Grok

/// What `base64`'s standard engine decodes from a text (padding required).
pub uninterp spec fn base64_standard(text: Seq<char>) -> Option<Seq<u8>>;

/// What `base64`'s standard engine without padding decodes from a text.
pub uninterp spec fn base64_no_pad(text: Seq<char>) -> Option<Seq<u8>>;

/// Wraps `general_purpose::STANDARD.decode`; the contract claims only that
/// the result is what `base64_standard` names.
#[verifier::external_body]
fn decode_standard(text: &str) -> (r: Option<Vec<u8>>)
    ensures
        match r {
            Some(v) => base64_standard(text@) == Some(v@),
            None => base64_standard(text@) is None,
        },
{
    base64::engine::general_purpose::STANDARD.decode(text).ok()
}

/// Wraps `general_purpose::STANDARD_NO_PAD.decode`; the contract claims only
/// that the result is what `base64_no_pad` names.
#[verifier::external_body]
fn decode_no_pad(text: &str) -> (r: Option<Vec<u8>>)
    ensures
        match r {
            Some(v) => base64_no_pad(text@) == Some(v@),
            None => base64_no_pad(text@) is None,
        },
{
    base64::engine::general_purpose::STANDARD_NO_PAD.decode(text).ok()
}

/// The base64 part of a payload: after the last comma (a data URL's header
/// goes), trimmed.
pub open spec fn b64_body(raw: Seq<char>) -> Seq<char> {
    let ps = split_on(trim(raw), ","@);
    trim(ps.last())
}

pub open spec fn bad_b64_msg() -> Seq<char> {
    "no grok stills — bad b64. Did not call Comfy."@
}

/// The image bytes of a base64 payload, padded or not.
pub open spec fn spec_decode_b64(raw: Seq<char>) -> Option<Seq<u8>> {
    let t = b64_body(raw);
    match base64_standard(t) {
        Some(b) => Some(b),
        None => base64_no_pad(t),
    }
}

pub fn decode_b64(raw: &str) -> (r: Result<Vec<u8>, ShowError>)
    ensures
        match spec_decode_b64(raw@) {
            Some(b) => r matches Ok(v) && v@ == b,
            None => fails_with(r, bad_b64_msg()),
        },
{
    let comma = chars_of(",");
    proof {
        reveal_strlit(",");
    }
    let ps = split_vec(&trim_vec(&chars_of(raw)), &comma);
    assert(split_on(trim(raw@), ","@).len() >= 1);
    assert(ps.deep_view().last() == ps@[ps.len() - 1]@);
    let t = string_of(trim_vec(&ps[ps.len() - 1]).as_slice());
    match decode_standard(t.as_str()) {
        Some(v) => Ok(v),
        None => match decode_no_pad(t.as_str()) {
            Some(v) => Ok(v),
            None => Err(msg("no grok stills — bad b64. Did not call Comfy.")),
        },
    }
}

/// Where Grok put the image.
pub enum GrokImage {
    /// The bytes, sent inline.
    Bytes(Vec<u8>),
    /// A URL to fetch them from.
    Url(String),
}

pub open spec fn grok_tail() -> Seq<char> {
    ". Did not call Comfy."@
}

/// What a Grok image reply comes to: refused for a status of 400 and up
/// (with the server's message), or without `data[0]`; else the inline
/// base64 image, or its URL.
pub open spec fn spec_grok_reply(status: u16, v: Json) -> Result<Result<Seq<u8>, Seq<char>>, Seq<char>> {
    if status >= 400 {
        let m = match text_of(at(at(Some(v), "error"@), "message"@)) {
            Some(m) => m,
            None => "request failed"@,
        };
        Err("no grok stills — status="@ + dec(status as nat) + ": "@ + m + ". Did not call Comfy."@)
    } else {
        let item = nth(at(Some(v), "data"@), 0);
        if item is None {
            Err("no grok stills — missing data[0]. Did not call Comfy."@)
        } else {
            match text_of(at(item, "b64_json"@)) {
                Some(b) => match spec_decode_b64(b) {
                    Some(bytes) => Ok(Ok(bytes)),
                    None => Err(bad_b64_msg()),
                },
                None => match text_of(at(item, "url"@)) {
                    Some(u) => Ok(Err(u)),
                    None => Err("no grok stills — no b64_json or url. Did not call Comfy."@),
                },
            }
        }
    }
}

pub fn grok_reply(status: u16, v: &Json) -> (r: Result<GrokImage, ShowError>)
    ensures
        match (r, spec_grok_reply(status, *v)) {
            (Ok(GrokImage::Bytes(b)), Ok(Ok(c))) => b@ == c,
            (Ok(GrokImage::Url(u)), Ok(Err(w))) => u@ == w,
            (Err(e), Err(m)) => is_msg(e, m),
            _ => false,
        },
{
    if status >= 400 {
        let m = match text_exec(at_exec(at_exec(Some(v), "error"), "message")) {
            Some(m) => chars_of(m.as_str()),
            None => chars_of("request failed"),
        };
        let mut out = chars_of("no grok stills — status=");
        append_vec(&mut out, &dec_vec(status as u64));
        append_str(&mut out, ": ");
        append_vec(&mut out, &m);
        append_str(&mut out, ". Did not call Comfy.");
        return Err(ShowError::Msg(string_of(out.as_slice())));
    }
    let item = nth_exec(at_exec(Some(v), "data"), 0);
    if item.is_none() {
        return Err(msg("no grok stills — missing data[0]. Did not call Comfy."));
    }
    match text_exec(at_exec(item, "b64_json")) {
        Some(b) => match decode_b64(b.as_str()) {
            Ok(bytes) => Ok(GrokImage::Bytes(bytes)),
            Err(e) => Err(e),
        },
        None => match text_exec(at_exec(item, "url")) {
            Some(u) => Ok(GrokImage::Url(u.clone())),
            None => Err(msg("no grok stills — no b64_json or url. Did not call Comfy.")),
        },
    }
}

// ------------------------------------------------------------ Comfy

/// Each byte kept when it is plain in a URL query, else `%XX`.
pub open spec fn query_plain(b: u8) -> bool {
    (0x41 <= b && b <= 0x5A) || (0x61 <= b && b <= 0x7A) || (0x30 <= b && b <= 0x39) || b == 0x2D
        || b == 0x5F || b == 0x2E || b == 0x7E
}

pub open spec fn q_byte(b: u8) -> Seq<char> {
    if query_plain(b) {
        seq![b as char]
    } else {
        seq!['%', crate::dailies::hex_upper(b as int / 16), crate::dailies::hex_upper(b as int % 16)]
    }
}

pub open spec fn q_bytes(bs: Seq<u8>) -> Seq<char>
    decreases bs.len(),
{
    if bs.len() == 0 {
        seq![]
    } else {
        q_bytes(bs.drop_last()) + q_byte(bs.last())
    }
}

/// A query value, URL-encoded byte by byte.
pub open spec fn spec_urlencode(s: Seq<char>) -> Seq<char>
    decreases s.len(),
{
    if s.len() == 0 {
        seq![]
    } else {
        spec_urlencode(s.drop_last()) + q_bytes(crate::dailies::utf8_bytes(s.last()))
    }
}

fn push_q_byte(out: &mut Vec<char>, b: u8)
    ensures
        final(out)@ == old(out)@ + q_byte(b),
{
    let plain = (0x41 <= b && b <= 0x5A) || (0x61 <= b && b <= 0x7A) || (0x30 <= b && b <= 0x39)
        || b == 0x2D || b == 0x5F || b == 0x2E || b == 0x7E;
    let ghost pre = out@;
    if plain {
        out.push(b as char);
    } else {
        out.push('%');
        let hi = b / 16;
        let lo = b % 16;
        out.push(if hi < 10 { ((48 + hi) as u8) as char } else { ((55 + hi) as u8) as char });
        out.push(if lo < 10 { ((48 + lo) as u8) as char } else { ((55 + lo) as u8) as char });
    }
    assert(out@ =~= pre + q_byte(b));
}

pub fn urlencode(s: &str) -> (r: String)
    ensures
        r@ == spec_urlencode(s@),
{
    let v = chars_of(s);
    let mut out: Vec<char> = Vec::new();
    let mut i: usize = 0;
    while i < v.len()
        invariant
            i <= v.len(),
            v@ == s@,
            out@ == spec_urlencode(v@.take(i as int)),
        decreases v.len() - i,
    {
        let bs = crate::dailies::utf8_bytes_of(v[i]);
        let ghost start = out@;
        let mut k: usize = 0;
        while k < bs.len()
            invariant
                k <= bs.len(),
                out@ == start + q_bytes(bs@.take(k as int)),
            decreases bs.len() - k,
        {
            push_q_byte(&mut out, bs[k]);
            k += 1;
            assert(bs@.take(k as int).drop_last() =~= bs@.take(k - 1));
            assert(out@ =~= start + q_bytes(bs@.take(k as int)));
        }
        assert(bs@.take(k as int) =~= bs@);
        i += 1;
        assert(v@.take(i as int).drop_last() =~= v@.take(i - 1));
    }
    assert(v@.take(i as int) =~= v@);
    string_of(out.as_slice())
}

/// `s.trim_end_matches(p)` for a non-empty string pattern.
pub open spec fn trim_end_str(s: Seq<char>, p: Seq<char>) -> Seq<char>
    decreases s.len(),
{
    if p.len() > 0 && ends_with(s, p) {
        trim_end_str(s.subrange(0, s.len() - p.len()), p)
    } else {
        s
    }
}

fn trim_end_str_vec(s: &Vec<char>, p: &Vec<char>) -> (r: Vec<char>)
    requires
        p.len() > 0,
    ensures
        r@ == trim_end_str(s@, p@),
{
    let mut hi = s.len();
    assert(s@.subrange(0, hi as int) =~= s@);
    loop
        invariant
            hi <= s.len(),
            p.len() > 0,
            trim_end_str(s@, p@) == trim_end_str(s@.subrange(0, hi as int), p@),
        decreases hi,
    {
        let cur = sub_vec(s, 0, hi);
        if ends_with_vec(&cur, p) {
            assert(cur@.subrange(0, cur@.len() - p@.len()) =~= s@.subrange(0, hi - p.len()));
            hi = hi - p.len();
        } else {
            return cur;
        }
    }
}

/// Comfy's base URL (`LOT_COMFY_URL`, else the local default): trimmed,
/// without trailing slashes and a trailing `/system_stats`.
pub open spec fn spec_comfy_base(env: Option<Seq<char>>) -> Seq<char> {
    let raw = match env {
        Some(e) => e,
        None => "http://127.0.0.1:8188"@,
    };
    trim_end_str(trim_end_char(trim(raw), '/'), "/system_stats"@)
}

pub fn comfy_base(env: Option<&str>) -> (r: String)
    ensures
        r@ == spec_comfy_base(match env {
            Some(e) => Some(e@),
            None => None,
        }),
{
    let raw = match env {
        Some(e) => chars_of(e),
        None => chars_of("http://127.0.0.1:8188"),
    };
    let p = chars_of("/system_stats");
    proof {
        reveal_strlit("/system_stats");
    }
    string_of(trim_end_str_vec(&trim_end_char_vec(&trim_vec(&raw), '/'), &p).as_slice())
}

/// The URL that fetches a finished Comfy image.
pub open spec fn spec_comfy_view(base: Seq<char>, file: Seq<char>, sub: Seq<char>, kind: Seq<char>) -> Seq<char> {
    base + "/view?filename="@ + spec_urlencode(file) + "&subfolder="@ + spec_urlencode(sub) + "&type="@
        + spec_urlencode(kind)
}

pub fn comfy_view_url(base: &str, file: &str, sub: &str, kind: &str) -> (r: String)
    ensures
        r@ == spec_comfy_view(base@, file@, sub@, kind@),
{
    let mut v = chars_of(base);
    append_str(&mut v, "/view?filename=");
    append_str(&mut v, urlencode(file).as_str());
    append_str(&mut v, "&subfolder=");
    append_str(&mut v, urlencode(sub).as_str());
    append_str(&mut v, "&type=");
    append_str(&mut v, urlencode(kind).as_str());
    string_of(v.as_slice())
}

// ------------------------------------------------------------ the Comfy graph

/// The placeholder a workflow carries where the prompt goes.
pub open spec fn placeholder() -> Seq<char> {
    "{{prompt}}"@
}

/// A graph with the prompt written into every string value that holds the
/// placeholder (keys are left alone).
pub open spec fn jv_replace(v: JsonV, p: Seq<char>) -> JsonV
    decreases v,
{
    match v {
        JsonV::Str(s) => if contains(s, placeholder()) {
            JsonV::Str(join(split_on(s, placeholder()), p))
        } else {
            JsonV::Str(s)
        },
        JsonV::Array(xs) => JsonV::Array(jvs_replace(xs, p)),
        JsonV::Object(ms) => JsonV::Object(jms_replace(ms, p)),
        _ => v,
    }
}

pub open spec fn jvs_replace(xs: Seq<JsonV>, p: Seq<char>) -> Seq<JsonV>
    decreases xs,
{
    if xs.len() == 0 {
        seq![]
    } else {
        jvs_replace(xs.drop_last(), p).push(jv_replace(xs.last(), p))
    }
}

pub open spec fn jms_replace(ms: Seq<(Seq<char>, JsonV)>, p: Seq<char>) -> Seq<(Seq<char>, JsonV)>
    decreases ms,
{
    if ms.len() == 0 {
        seq![]
    } else {
        jms_replace(ms.drop_last(), p).push((ms.last().0, jv_replace(ms.last().1, p)))
    }
}

fn replace_text(s: String, p: &str) -> (r: String)
    ensures
        r@ == (if contains(s@, placeholder()) {
            join(split_on(s@, placeholder()), p@)
        } else {
            s@
        }),
{
    let sv = chars_of(s.as_str());
    let ph = chars_of("{{prompt}}");
    proof {
        reveal_strlit("{{prompt}}");
    }
    if contains_vec(&sv, &ph) {
        string_of(join_vecs(&split_vec(&sv, &ph), &chars_of(p)).as_slice())
    } else {
        s
    }
}

/// Writes the prompt into every string value of a workflow graph that holds
/// `{{prompt}}`.
#[verifier::loop_isolation(false)]
pub fn replace_prompt(v: Json, p: &str) -> (r: Json)
    ensures
        jv(r) == jv_replace(jv(v), p@),
    decreases v,
{
    let ghost v0 = v;
    match v {
        Json::Str(s) => Json::Str(replace_text(s, p)),
        Json::Array(xs) => {
            let ghost xs0 = xs@;
            let n = xs.len();
            assert(xs0.len() == n);
            let mut rest = xs;
            let mut out: Vec<Json> = Vec::new();
            let mut i: usize = 0;
            assert(xs0.take(0) =~= seq![]);
            while rest.len() > 0
                invariant
                    v0 == Json::Array(xs),
                    xs@ == xs0,
                    i <= xs0.len(),
                    xs0.len() <= usize::MAX,
                    rest@ == xs0.skip(i as int),
                    jv_seq(out@) == jvs_replace(jv_seq(xs0.take(i as int)), p@),
                decreases rest.len(),
            {
                assert(i < xs0.len());
                let x = rest.remove(0);
                assert(x == xs0[i as int]);
                proof {
                    let a = v0->Array_0;
                    assert(decreases_to!(v0 => a));
                    assert(decreases_to!(a => a@));
                    assert(decreases_to!(a@ => a@[i as int]));
                    assert(decreases_to!(v0 => xs0[i as int]));
                    lemma_jv_seq_take(xs0, i as int);
                }
                let ghost jx = jv(x);
                let ghost prev = jv_seq(xs0.take(i as int));
                let y = replace_prompt(x, p);
                let ghost pre = out@;
                out.push(y);
                proof {
                    assert(out@.drop_last() =~= pre);
                    assert(prev.push(jx).drop_last() =~= prev);
                }
                i += 1;
                assert(rest@ =~= xs0.skip(i as int));
            }
            assert(xs0.take(i as int) =~= xs0);
            Json::Array(out)
        },
        Json::Object(ms) => {
            let ghost ms0 = ms@;
            let n = ms.len();
            assert(ms0.len() == n);
            let mut rest = ms;
            let mut out: Vec<(String, Json)> = Vec::new();
            let mut i: usize = 0;
            assert(ms0.take(0) =~= seq![]);
            while rest.len() > 0
                invariant
                    v0 == Json::Object(ms),
                    ms@ == ms0,
                    i <= ms0.len(),
                    ms0.len() <= usize::MAX,
                    rest@ == ms0.skip(i as int),
                    jv_members(out@) == jms_replace(jv_members(ms0.take(i as int)), p@),
                decreases rest.len(),
            {
                assert(i < ms0.len());
                let (k, x) = rest.remove(0);
                assert(x == ms0[i as int].1);
                proof {
                    let a = v0->Object_0;
                    assert(decreases_to!(v0 => a));
                    assert(decreases_to!(a => a@));
                    assert(decreases_to!(a@ => a@[i as int]));
                    assert(decreases_to!(a@[i as int] => a@[i as int].1));
                    assert(decreases_to!(v0 => ms0[i as int].1));
                    lemma_jv_members_take(ms0, i as int);
                }
                let ghost jx = jv(x);
                let ghost kv = k@;
                let ghost prev = jv_members(ms0.take(i as int));
                let y = replace_prompt(x, p);
                let ghost pre = out@;
                out.push((k, y));
                proof {
                    assert(out@.drop_last() =~= pre);
                    assert(prev.push((kv, jx)).drop_last() =~= prev);
                }
                i += 1;
                assert(rest@ =~= ms0.skip(i as int));
            }
            assert(ms0.take(i as int) =~= ms0);
            Json::Object(out)
        },
        Json::Null => Json::Null,
        Json::Bool(b) => Json::Bool(b),
        Json::Number(n) => Json::Number(n),
    }
}

/// The graph that is sent: its `prompt` member when it has one, else the
/// whole graph.
pub open spec fn sent_graph(g: JsonV) -> JsonV {
    match g {
        JsonV::Object(ms) => if key_index(ms, "prompt"@) >= 0 {
            ms[key_index(ms, "prompt"@)].1
        } else {
            g
        },
        _ => g,
    }
}

pub open spec fn no_placeholder_msg() -> Seq<char> {
    "no comfy stills — workflow needs {{prompt}}. Did not call Grok."@
}

/// A Comfy workflow with the prompt written in, as it is submitted; refused
/// without the placeholder, or when it is no JSON.
pub open spec fn spec_comfy_graph(raw: Seq<char>, p: Seq<char>) -> Result<JsonV, Seq<char>> {
    if !contains(raw, placeholder()) {
        Err(no_placeholder_msg())
    } else {
        match json_parse(raw) {
            None => Err("no comfy stills — workflow json: "@ + json_error(raw) + ". Did not call Grok."@),
            Some(v) => Ok(sent_graph(jv_replace(jv(v), p))),
        }
    }
}

fn take_prompt_member(g: Json) -> (r: Json)
    ensures
        jv(r) == sent_graph(jv(g)),
{
    match g {
        Json::Object(ms) => {
            let ghost jms = jv_members(ms@);
            proof {
                lemma_jv_members_index(ms@);
                lemma_key_index(jms, "prompt"@);
            }
            let mut i: usize = 0;
            while i < ms.len()
                invariant
                    g == Json::Object(ms),
                    i <= ms.len(),
                    jms == jv_members(ms@),
                    jms.len() == ms@.len(),
                    forall|k: int| 0 <= k < ms@.len() ==> #[trigger] jms[k] == (ms@[k].0@, jv(ms@[k].1)),
                    forall|j: int| 0 <= j < i ==> (#[trigger] jms[j]).0 != "prompt"@,
                    -1 <= key_index(jms, "prompt"@) < jms.len(),
                    key_index(jms, "prompt"@) >= 0 ==> jms[key_index(jms, "prompt"@)].0 == "prompt"@,
                    key_index(jms, "prompt"@) < 0 ==> forall|j: int| 0 <= j < jms.len() ==> (#[trigger] jms[j]).0 != "prompt"@,
                    forall|j: int| 0 <= j < key_index(jms, "prompt"@) ==> (#[trigger] jms[j]).0 != "prompt"@,
                decreases ms.len() - i,
            {
                if str_eq(ms[i].0.as_str(), "prompt") {
                    assert(jms[i as int].0 == "prompt"@);
                    assert(key_index(jms, "prompt"@) == i as int);
                    let ghost m0 = ms@;
                    let mut ms = ms;
                    let (_, x) = ms.remove(i);
                    assert(x == m0[i as int].1);
                    assert(jms[i as int].1 == jv(x));
                    return x;
                }
                assert(jms[i as int].0 != "prompt"@);
                i += 1;
            }
            Json::Object(ms)
        },
        other => other,
    }
}

/// The workflow graph to submit for a prompt.
pub fn comfy_graph(raw: &str, prompt: &str) -> (r: Result<Json, ShowError>)
    ensures
        match (r, spec_comfy_graph(raw@, prompt@)) {
            (Ok(g), Ok(h)) => jv(g) == h,
            (Err(e), Err(m)) => is_msg(e, m),
            _ => false,
        },
{
    proof {
        reveal_strlit("{{prompt}}");
    }
    if !contains_vec(&chars_of(raw), &chars_of("{{prompt}}")) {
        return Err(msg("no comfy stills — workflow needs {{prompt}}. Did not call Grok."));
    }
    let v = match parse_json(raw) {
        Ok(v) => v,
        Err(e) => return Err(msg3("no comfy stills — workflow json: ", e.as_str(), ". Did not call Grok.")),
    };
    Ok(take_prompt_member(replace_prompt(v, prompt)))
}

/// The run id Comfy gave a submitted graph.
pub fn comfy_prompt_id(reply: &Json) -> (r: Result<String, ShowError>)
    ensures
        match text_of(at(Some(*reply), "prompt_id"@)) {
            Some(id) => r matches Ok(s) && s@ == id,
            None => fails_with(r, "no comfy stills — no prompt_id. Did not call Grok."@),
        },
{
    match text_exec(at_exec(Some(reply), "prompt_id")) {
        Some(id) => Ok(id.clone()),
        None => Err(msg("no comfy stills — no prompt_id. Did not call Grok.")),
    }
}

pub open spec fn str_or(v: Option<Json>, d: Seq<char>) -> Seq<char> {
    match text_of(v) {
        Some(s) => s,
        None => d,
    }
}

/// The first image among the output nodes: its file name, subfolder (empty)
/// and type (`output`); none when the first node with images has an image
/// without a file name.
pub open spec fn first_image(ns: Seq<(String, Json)>) -> Option<(Seq<char>, Seq<char>, Seq<char>)>
    decreases ns.len(),
{
    if ns.len() == 0 {
        None
    } else {
        match items_of(member(ns[0].1, "images"@)) {
            Some(xs) => if xs.len() > 0 {
                match text_of(member(xs[0], "filename"@)) {
                    Some(f) => Some((f, str_or(member(xs[0], "subfolder"@), seq![]), str_or(member(xs[0], "type"@), "output"@))),
                    None => None,
                }
            } else {
                first_image(ns.drop_first())
            },
            None => first_image(ns.drop_first()),
        }
    }
}

/// The history entry of a run: the one under its id, else the first entry.
pub open spec fn history_entry(h: Json, id: Seq<char>) -> Option<Json> {
    match member(h, id) {
        Some(x) => Some(x),
        None => match h {
            Json::Object(ms) => if ms@.len() > 0 {
                Some(ms@[0].1)
            } else {
                None
            },
            _ => None,
        },
    }
}

/// The finished image of a run, once Comfy's history shows one.
pub open spec fn spec_first_comfy_image(h: Json, id: Seq<char>) -> Option<(Seq<char>, Seq<char>, Seq<char>)> {
    match at(history_entry(h, id), "outputs"@) {
        Some(Json::Object(ns)) => first_image(ns@),
        _ => None,
    }
}

fn str_or_exec(v: Option<&Json>, d: &str) -> (r: String)
    ensures
        r@ == str_or(opt_json(v), d@),
{
    match text_exec(v) {
        Some(s) => s.clone(),
        None => string_of(chars_of(d).as_slice()),
    }
}

pub fn first_comfy_image(h: &Json, id: &str) -> (r: Option<(String, String, String)>)
    ensures
        match (r, spec_first_comfy_image(*h, id@)) {
            (Some(a), Some(b)) => a.0@ == b.0 && a.1@ == b.1 && a.2@ == b.2,
            (None, None) => true,
            _ => false,
        },
{
    let entry: Option<&Json> = match get_member(h, id) {
        Some(x) => Some(x),
        None => match h {
            Json::Object(ms) => if ms.len() > 0 {
                Some(&ms[0].1)
            } else {
                None
            },
            _ => None,
        },
    };
    let ns = match at_exec(entry, "outputs") {
        Some(Json::Object(ns)) => ns,
        _ => return None,
    };
    let mut i: usize = 0;
    assert(ns@.skip(0) =~= ns@);
    while i < ns.len()
        invariant
            i <= ns.len(),
            spec_first_comfy_image(*h, id@) == first_image(ns@.skip(i as int)),
        decreases ns.len() - i,
    {
        assert(ns@.skip(i as int)[0] == ns@[i as int]);
        assert(ns@.skip(i as int).drop_first() =~= ns@.skip(i + 1));
        let imgs = get_member(&ns[i].1, "images");
        assert(opt_json(imgs) == member(ns@[i as int].1, "images"@));
        match crate::json::items_exec(imgs) {
            Some(xs) => {
                if xs.len() > 0 {
                    let img = &xs[0];
                    let fname = get_member(img, "filename");
                    assert(opt_json(fname) == member(xs@[0], "filename"@));
                    return match text_exec(fname) {
                        Some(f) => {
                            let sub = get_member(img, "subfolder");
                            let ty = get_member(img, "type");
                            assert(opt_json(sub) == member(xs@[0], "subfolder"@));
                            assert(opt_json(ty) == member(xs@[0], "type"@));
                            let ghost s = ns@.skip(i as int);
                            assert(s.len() > 0 && s[0] == ns@[i as int]);
                            assert(first_image(s) == Some((f@, str_or(member(xs@[0], "subfolder"@), seq![]), str_or(member(xs@[0], "type"@), "output"@))));
                            let r0 = f.clone();
                            proof {
                                reveal_strlit("");
                            }
                            let r1 = str_or_exec(sub, "");
                            let r2 = str_or_exec(ty, "output");
                            Some((r0, r1, r2))
                        },
                        None => {
                            let ghost s = ns@.skip(i as int);
                            assert(s.len() > 0 && s[0] == ns@[i as int]);
                            assert(first_image(s) is None);
                            None
                        },
                    };
                }
            },
            None => {},
        }
        i += 1;
    }
    None
}

/// Where the workflow graph is: `LOT_COMFY_WORKFLOW` (`env`), trimmed;
/// refused when unset or blank.
pub fn comfy_workflow_path(env: Option<&str>) -> (r: Result<String, ShowError>)
    ensures
        match env {
            Some(e) => if trim(e@).len() > 0 {
                r matches Ok(p) && p@ == trim(e@)
            } else {
                fails_with(r, "no comfy stills — set LOT_COMFY_WORKFLOW to a JSON graph with {{prompt}}. Did not call Grok."@)
            },
            None => fails_with(r, "no comfy stills — set LOT_COMFY_WORKFLOW to a JSON graph with {{prompt}}. Did not call Grok."@),
        },
{
    match env {
        Some(e) => {
            let t = trim_vec(&chars_of(e));
            if t.len() > 0 {
                return Ok(string_of(t.as_slice()));
            }
        },
        None => {},
    }
    Err(msg("no comfy stills — set LOT_COMFY_WORKFLOW to a JSON graph with {{prompt}}. Did not call Grok."))
}

/// How long to wait for Comfy, in seconds: `LOT_COMFY_TIMEOUT_SECS` (`env`)
/// when it reads as a `u64` (untrimmed), else 120.
pub fn comfy_timeout_secs(env: Option<&str>) -> (r: u64)
    ensures
        r == match env {
            Some(e) => match spec_parse_u64(e@) {
                Some(n) => n,
                None => 120,
            },
            None => 120,
        },
{
    match env {
        Some(e) => match parse_u64(&chars_of(e)) {
            Some(n) => n,
            None => 120,
        },
        None => 120,
    }
}

pub open spec fn comfy_timed_out_msg() -> Seq<char> {
    "no comfy stills — timed out. Did not call Grok."@
}

/// One turn of the wait for Comfy's history: go on while the time waited
/// (`elapsed_ms`) is not past the limit, else refuse as timed out.
pub fn comfy_wait_step(elapsed_ms: u64, limit_secs: u64) -> (r: Result<(), ShowError>)
    ensures
        elapsed_ms <= limit_secs * 1000 ==> r is Ok,
        elapsed_ms > limit_secs * 1000 ==> fails_with(r, comfy_timed_out_msg()),
{
    if (elapsed_ms as u128) > (limit_secs as u128) * 1000 {
        return Err(msg("no comfy stills — timed out. Did not call Grok."));
    }
    Ok(())
}

} // verus!
