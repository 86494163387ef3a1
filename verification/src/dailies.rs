//! Dailies: binding clips to shots, circling takes, and the cut lists that
//! go to an editor (FCPXML and a CMX3600 EDL, 24 fps, non-drop frame).

use vstd::prelude::*;
use crate::text::{chars_of, string_of, dec, dec2, dec2_vec, dec_vec, append_str, append_vec, sub_vec};
use crate::paths::{absolute_of, file_stem_of, file_name_of, path_file_stem, path_file_name, plain_name};
use crate::model::{Take, MediaItem, Shot, first_shot_index, lemma_first_shot_index, find_shot, spec_filename_shot_prefix, filename_shot_prefix};
use crate::show::{Show, bump, spec_bumped};
use crate::error::{ShowError, is_msg, fails_with, msg, msg2};
use crate::caps::{Caps, Cap, require, holds, need_message};
use crate::text::{trim, trim_vec, lower, lower_vec, str_eq, seq_eq};
use crate::text::{filled, starts_with, occurs_at};

verus! {

// ------------------------------------------------------------ timecode

/// Frames per second of every cut list.
pub const FCP_FPS: u64 = 24;

/// Hours, minutes, seconds and frames of a frame count (negative counts as 0).
pub open spec fn tc_parts(frames: int) -> (int, int, int, int) {
    let f = if frames < 0 {
        0
    } else {
        frames
    };
    let ff = f % 24;
    let secs = f / 24;
    let ss = secs % 60;
    let mins = secs / 60;
    (mins / 60, mins % 60, ss, ff)
}

/// `HH:MM:SS:FF` at 24 fps, each field at least two digits.
pub open spec fn spec_timecode(frames: int) -> Seq<char> {
    let p = tc_parts(frames);
    dec2(p.0 as nat) + seq![':'] + dec2(p.1 as nat) + seq![':'] + dec2(p.2 as nat) + seq![':']
        + dec2(p.3 as nat)
}

pub fn timecode(frames: i64) -> (r: String)
    ensures
        r@ == spec_timecode(frames as int),
{
    let f: u64 = if frames < 0 {
        0
    } else {
        frames as u64
    };
    let ff = f % 24;
    let secs = f / 24;
    let ss = secs % 60;
    let mins = secs / 60;
    let mm = mins % 60;
    let hh = mins / 60;
    let mut v = dec2_vec(hh);
    v.push(':');
    append_vec(&mut v, &dec2_vec(mm));
    v.push(':');
    append_vec(&mut v, &dec2_vec(ss));
    v.push(':');
    append_vec(&mut v, &dec2_vec(ff));
    assert(v@ =~= spec_timecode(frames as int));
    string_of(v.as_slice())
}

/// Law: the fields of a timecode are in range and give back the frame count.
pub proof fn lemma_timecode_fields(frames: int)
    requires
        frames >= 0,
    ensures
        ({
            let (hh, mm, ss, ff) = tc_parts(frames);
            &&& 0 <= mm < 60
            &&& 0 <= ss < 60
            &&& 0 <= ff < 24
            &&& hh >= 0
            &&& ((hh * 60 + mm) * 60 + ss) * 24 + ff == frames
        }),
{
    let ff = frames % 24;
    let secs = frames / 24;
    let ss = secs % 60;
    let mins = secs / 60;
    assert(secs * 24 + ff == frames) by (nonlinear_arith)
        requires
            ff == frames % 24,
            secs == frames / 24,
    ;
    assert(mins * 60 + ss == secs) by (nonlinear_arith)
        requires
            ss == secs % 60,
            mins == secs / 60,
    ;
    assert((mins / 60) * 60 + mins % 60 == mins) by (nonlinear_arith);
    assert(secs >= 0 && mins >= 0) by (nonlinear_arith)
        requires
            frames >= 0,
            secs == frames / 24,
            mins == secs / 60,
    ;
}

// ------------------------------------------------------------ names in a cut list

/// The characters of `s` without line breaks.
pub open spec fn strip_breaks(s: Seq<char>) -> Seq<char>
    decreases s.len(),
{
    if s.len() == 0 {
        seq![]
    } else if s.last() == '\n' || s.last() == '\r' {
        strip_breaks(s.drop_last())
    } else {
        strip_breaks(s.drop_last()).push(s.last())
    }
}

pub open spec fn first_n(s: Seq<char>, n: int) -> Seq<char> {
    if s.len() > n {
        s.take(n)
    } else {
        s
    }
}

/// An EDL title: the name without line breaks, at most 80 characters.
pub open spec fn spec_edl_title(s: Seq<char>) -> Seq<char> {
    first_n(strip_breaks(s), 80)
}

pub fn edl_title(s: &str) -> (r: String)
    ensures
        r@ == spec_edl_title(s@),
{
    let v = chars_of(s);
    let mut out: Vec<char> = Vec::new();
    let mut i: usize = 0;
    while i < v.len()
        invariant
            i <= v.len(),
            v@ == s@,
            out@ == strip_breaks(v@.take(i as int)),
        decreases v.len() - i,
    {
        let c = v[i];
        if c != '\n' && c != '\r' {
            out.push(c);
        }
        i += 1;
        assert(v@.take(i as int).drop_last() =~= v@.take(i - 1));
    }
    assert(v@.take(i as int) =~= v@);
    if out.len() > 80 {
        let cut = sub_vec(&out, 0, 80);
        assert(cut@ =~= out@.take(80));
        string_of(cut.as_slice())
    } else {
        string_of(out.as_slice())
    }
}

/// The ASCII letters and digits of `s`, upper-cased.
pub open spec fn alnum_upper(s: Seq<char>) -> Seq<char>
    decreases s.len(),
{
    if s.len() == 0 {
        seq![]
    } else if crate::text::is_ascii_alnum(s.last()) {
        alnum_upper(s.drop_last()).push(crate::text::upper_char(s.last()))
    } else {
        alnum_upper(s.drop_last())
    }
}

/// `s` padded with spaces on the right to `w` characters.
pub open spec fn pad_right(s: Seq<char>, w: nat) -> Seq<char> {
    if s.len() >= w {
        s
    } else {
        s + Seq::new((w - s.len()) as nat, |i: int| ' ')
    }
}

/// A reel name from a file stem: up to eight upper-cased ASCII letters and
/// digits, `AX` when none (or no stem), padded to eight columns.
pub open spec fn spec_reel(stem: Option<Seq<char>>) -> Seq<char> {
    let base = match stem {
        Some(s) => s,
        None => "AX"@,
    };
    let r = first_n(alnum_upper(base), 8);
    pad_right(
        if r.len() == 0 {
            "AX"@
        } else {
            r
        },
        8,
    )
}

pub fn reel_from_stem(stem: Option<&str>) -> (r: String)
    ensures
        r@ == spec_reel(
            match stem {
                Some(s) => Some(s@),
                None => None,
            },
        ),
{
    let base = match stem {
        Some(s) => chars_of(s),
        None => chars_of("AX"),
    };
    let mut out: Vec<char> = Vec::new();
    let mut i: usize = 0;
    while i < base.len()
        invariant
            i <= base.len(),
            out@ == alnum_upper(base@.take(i as int)),
        decreases base.len() - i,
    {
        let c = base[i];
        if ('0' <= c && c <= '9') || ('A' <= c && c <= 'Z') || ('a' <= c && c <= 'z') {
            out.push(crate::text::upper_c(c));
        }
        i += 1;
        assert(base@.take(i as int).drop_last() =~= base@.take(i - 1));
    }
    assert(base@.take(i as int) =~= base@);
    let mut r = if out.len() > 8 {
        let cut = sub_vec(&out, 0, 8);
        assert(cut@ =~= out@.take(8));
        cut
    } else {
        out
    };
    if r.len() == 0 {
        r = chars_of("AX");
    }
    let ghost core = r@;
    let n = r.len();
    while r.len() < 8
        invariant
            core.len() == n,
            n <= r.len() <= 8 || (n > 8 && r.len() == n),
            r@ == core + Seq::new((r.len() - n) as nat, |i: int| ' '),
        decreases 8 - r.len(),
    {
        r.push(' ');
        assert(r@ =~= core + Seq::new((r.len() - n) as nat, |i: int| ' '));
    }
    assert(r@ =~= pad_right(core, 8));
    string_of(r.as_slice())
}

/// The reel name of a clip: the file stem of its name, see `reel_from_stem`.
pub fn reel_name(filename: &str) -> (r: String)
    ensures
        r@ == spec_reel(path_file_stem(filename@)),
{
    let stem = file_stem_of(filename);
    match stem {
        Some(s) => reel_from_stem(Some(s.as_str())),
        None => reel_from_stem(None),
    }
}

// ------------------------------------------------------------ XML and URLs

pub open spec fn esc_char(c: char) -> Seq<char> {
    if c == '&' {
        "&amp;"@
    } else if c == '<' {
        "&lt;"@
    } else if c == '>' {
        "&gt;"@
    } else if c == '"' {
        "&quot;"@
    } else {
        seq![c]
    }
}

/// `&`, `<`, `>` and `"` written as XML entities.
pub open spec fn spec_xml_esc(s: Seq<char>) -> Seq<char>
    decreases s.len(),
{
    if s.len() == 0 {
        seq![]
    } else {
        spec_xml_esc(s.drop_last()) + esc_char(s.last())
    }
}

pub open spec fn amp_ent() -> Seq<char> {
    seq!['&', 'a', 'm', 'p', ';']
}

pub open spec fn lt_ent() -> Seq<char> {
    seq!['&', 'l', 't', ';']
}

pub open spec fn gt_ent() -> Seq<char> {
    seq!['&', 'g', 't', ';']
}

pub open spec fn quot_ent() -> Seq<char> {
    seq!['&', 'q', 'u', 'o', 't', ';']
}

/// One of the four entities starts at `i`.
pub open spec fn entity_at(s: Seq<char>, i: int) -> bool {
    occurs_at(s, amp_ent(), i) || occurs_at(s, lt_ent(), i) || occurs_at(s, gt_ent(), i) || occurs_at(
        s,
        quot_ent(),
        i,
    )
}

/// Safe as XML text and attribute values: no `<`, `>` or `"`, and every `&`
/// begins an entity.
pub open spec fn xml_safe(s: Seq<char>) -> bool {
    &&& forall|i: int| 0 <= i < s.len() ==> #[trigger] s[i] != '<' && s[i] != '>' && s[i] != '"'
    &&& forall|i: int| 0 <= i < s.len() && #[trigger] s[i] == '&' ==> entity_at(s, i)
}

/// XML text read back: the four entities as their characters, anything
/// else as itself.
pub open spec fn xml_unesc(s: Seq<char>) -> Seq<char>
    decreases s.len(),
{
    if s.len() == 0 {
        seq![]
    } else if starts_with(s, amp_ent()) {
        seq!['&'] + xml_unesc(s.skip(5))
    } else if starts_with(s, lt_ent()) {
        seq!['<'] + xml_unesc(s.skip(4))
    } else if starts_with(s, gt_ent()) {
        seq!['>'] + xml_unesc(s.skip(4))
    } else if starts_with(s, quot_ent()) {
        seq!['"'] + xml_unesc(s.skip(6))
    } else {
        seq![s[0]] + xml_unesc(s.skip(1))
    }
}

proof fn lemma_esc_char_ents(c: char)
    ensures
        c == '&' ==> esc_char(c) == amp_ent(),
        c == '<' ==> esc_char(c) == lt_ent(),
        c == '>' ==> esc_char(c) == gt_ent(),
        c == '"' ==> esc_char(c) == quot_ent(),
        c != '&' && c != '<' && c != '>' && c != '"' ==> esc_char(c) == seq![c],
{
    reveal_strlit("&amp;");
    reveal_strlit("&lt;");
    reveal_strlit("&gt;");
    reveal_strlit("&quot;");
    assert("&amp;"@ =~= amp_ent());
    assert("&lt;"@ =~= lt_ent());
    assert("&gt;"@ =~= gt_ent());
    assert("&quot;"@ =~= quot_ent());
}

proof fn lemma_esc_cons(s: Seq<char>)
    requires
        s.len() > 0,
    ensures
        spec_xml_esc(s) == esc_char(s[0]) + spec_xml_esc(s.drop_first()),
    decreases s.len(),
{
    if s.len() == 1 {
        assert(s.drop_last() =~= Seq::<char>::empty());
        assert(s.drop_first() =~= Seq::<char>::empty());
        assert(spec_xml_esc(s.drop_last()) =~= Seq::<char>::empty());
    } else {
        lemma_esc_cons(s.drop_last());
        assert(s.drop_last().drop_first() =~= s.drop_first().drop_last());
        assert(s.drop_first().last() == s.last());
        assert(s.drop_last()[0] == s[0]);
    }
}

proof fn lemma_unesc_char(c: char, rest: Seq<char>)
    ensures
        xml_unesc(esc_char(c) + rest) == seq![c] + xml_unesc(rest),
{
    lemma_esc_char_ents(c);
    let e = esc_char(c);
    let w = e + rest;
    if c == '&' {
        assert(w.subrange(0, 5) =~= amp_ent());
        assert(w.skip(5) =~= rest);
    } else if c == '<' {
        if w.len() >= 5 {
            assert(w.subrange(0, 5)[1] == 'l');
        }
        assert(w.subrange(0, 4) =~= lt_ent());
        assert(w.skip(4) =~= rest);
    } else if c == '>' {
        if w.len() >= 5 {
            assert(w.subrange(0, 5)[1] == 'g');
        }
        assert(w.subrange(0, 4)[1] == 'g');
        assert(w.subrange(0, 4) =~= gt_ent());
        assert(w.skip(4) =~= rest);
    } else if c == '"' {
        assert(w.subrange(0, 5)[1] == 'q');
        assert(w.subrange(0, 4)[1] == 'q');
        assert(w.subrange(0, 6) =~= quot_ent());
        assert(w.skip(6) =~= rest);
    } else {
        assert(w[0] == c);
        if w.len() >= 4 {
            assert(w.subrange(0, 4)[0] == c);
        }
        if w.len() >= 5 {
            assert(w.subrange(0, 5)[0] == c);
        }
        if w.len() >= 6 {
            assert(w.subrange(0, 6)[0] == c);
        }
        assert(w.skip(1) =~= rest);
    }
}

proof fn lemma_unesc_esc(s: Seq<char>)
    ensures
        xml_unesc(spec_xml_esc(s)) == s,
    decreases s.len(),
{
    if s.len() > 0 {
        lemma_esc_cons(s);
        lemma_unesc_esc(s.drop_first());
        lemma_unesc_char(s[0], spec_xml_esc(s.drop_first()));
        assert(seq![s[0]] + s.drop_first() =~= s);
    }
}

proof fn lemma_esc_safe(s: Seq<char>)
    ensures
        xml_safe(spec_xml_esc(s)),
    decreases s.len(),
{
    if s.len() > 0 {
        let a = spec_xml_esc(s.drop_last());
        let c = s.last();
        let e = esc_char(c);
        let w = a + e;
        lemma_esc_safe(s.drop_last());
        lemma_esc_char_ents(c);
        assert(w == spec_xml_esc(s));
        assert forall|i: int| 0 <= i < w.len() implies #[trigger] w[i] != '<' && w[i] != '>' && w[i] != '"' by {
            if i < a.len() {
                assert(w[i] == a[i]);
            } else {
                assert(w[i] == e[i - a.len()]);
            }
        }
        assert forall|i: int| 0 <= i < w.len() && #[trigger] w[i] == '&' implies entity_at(w, i) by {
            if i < a.len() {
                assert(w[i] == a[i]);
                assert(entity_at(a, i));
                assert forall|p: Seq<char>| occurs_at(a, p, i) implies occurs_at(w, p, i) by {
                    assert(w.subrange(i, i + p.len()) =~= a.subrange(i, i + p.len()));
                }
                assert(occurs_at(a, amp_ent(), i) ==> occurs_at(w, amp_ent(), i));
                assert(occurs_at(a, lt_ent(), i) ==> occurs_at(w, lt_ent(), i));
                assert(occurs_at(a, gt_ent(), i) ==> occurs_at(w, gt_ent(), i));
                assert(occurs_at(a, quot_ent(), i) ==> occurs_at(w, quot_ent(), i));
            } else {
                assert(w[i] == e[i - a.len()]);
                assert(i == a.len());
                assert(w.subrange(i, i + e.len()) =~= e);
            }
        }
    }
}

/// Escaping for XML is safe and loses nothing: the result has no `<`, `>`
/// or `"`, every `&` in it begins `&amp;`, `&lt;`, `&gt;` or `&quot;`, and
/// reading those entities back gives the text that was escaped.
pub proof fn lemma_xml_esc_law(s: Seq<char>)
    ensures
        xml_safe(spec_xml_esc(s)),
        xml_unesc(spec_xml_esc(s)) == s,
{
    lemma_esc_safe(s);
    lemma_unesc_esc(s);
}

pub fn xml_esc(s: &str) -> (r: String)
    ensures
        r@ == spec_xml_esc(s@),
{
    let v = chars_of(s);
    let mut out: Vec<char> = Vec::new();
    let mut i: usize = 0;
    while i < v.len()
        invariant
            i <= v.len(),
            v@ == s@,
            out@ == spec_xml_esc(v@.take(i as int)),
        decreases v.len() - i,
    {
        let c = v[i];
        if c == '&' {
            append_str(&mut out, "&amp;");
        } else if c == '<' {
            append_str(&mut out, "&lt;");
        } else if c == '>' {
            append_str(&mut out, "&gt;");
        } else if c == '"' {
            append_str(&mut out, "&quot;");
        } else {
            out.push(c);
        }
        i += 1;
        assert(v@.take(i as int).drop_last() =~= v@.take(i - 1));
    }
    assert(v@.take(i as int) =~= v@);
    string_of(out.as_slice())
}

/// The UTF-8 bytes of a character.
pub open spec fn utf8_bytes(c: char) -> Seq<u8> {
    let u = c as u32 as int;
    if u < 0x80 {
        seq![u as u8]
    } else if u < 0x800 {
        seq![(0xC0 + u / 64) as u8, (0x80 + u % 64) as u8]
    } else if u < 0x10000 {
        seq![(0xE0 + u / 4096) as u8, (0x80 + (u / 64) % 64) as u8, (0x80 + u % 64) as u8]
    } else {
        seq![
            (0xF0 + u / 262144) as u8,
            (0x80 + (u / 4096) % 64) as u8,
            (0x80 + (u / 64) % 64) as u8,
            (0x80 + u % 64) as u8,
        ]
    }
}

/// Bytes left as they are in a `file://` path.
pub open spec fn url_plain(b: u8) -> bool {
    (0x41 <= b && b <= 0x5A) || (0x61 <= b && b <= 0x7A) || (0x30 <= b && b <= 0x39) || b == 0x2F
        || b == 0x3A || b == 0x2D || b == 0x5F || b == 0x2E || b == 0x7E
}

pub open spec fn hex_upper(d: int) -> char {
    if d < 10 {
        (('0' as u32) + d) as char
    } else {
        (('A' as u32) + d - 10) as char
    }
}

pub open spec fn pe_byte(b: u8) -> Seq<char> {
    if url_plain(b) {
        seq![b as char]
    } else {
        seq!['%', hex_upper(b as int / 16), hex_upper(b as int % 16)]
    }
}

pub open spec fn pe_bytes(bs: Seq<u8>) -> Seq<char>
    decreases bs.len(),
{
    if bs.len() == 0 {
        seq![]
    } else {
        pe_bytes(bs.drop_last()) + pe_byte(bs.last())
    }
}

/// Each UTF-8 byte of `s` kept when plain, else written `%XX`.
pub open spec fn spec_percent_encode(s: Seq<char>) -> Seq<char>
    decreases s.len(),
{
    if s.len() == 0 {
        seq![]
    } else {
        spec_percent_encode(s.drop_last()) + pe_bytes(utf8_bytes(s.last()))
    }
}

pub fn utf8_bytes_of(c: char) -> (r: Vec<u8>)
    ensures
        r@ == utf8_bytes(c),
{
    let u = c as u32;
    let mut v: Vec<u8> = Vec::new();
    if u < 0x80 {
        v.push(u as u8);
    } else if u < 0x800 {
        v.push((0xC0 + u / 64) as u8);
        v.push((0x80 + u % 64) as u8);
    } else if u < 0x10000 {
        v.push((0xE0 + u / 4096) as u8);
        v.push((0x80 + (u / 64) % 64) as u8);
        v.push((0x80 + u % 64) as u8);
    } else {
        v.push((0xF0 + u / 262144) as u8);
        v.push((0x80 + (u / 4096) % 64) as u8);
        v.push((0x80 + (u / 64) % 64) as u8);
        v.push((0x80 + u % 64) as u8);
    }
    assert(v@ =~= utf8_bytes(c));
    v
}

fn hex_c(d: u8) -> (r: char)
    requires
        d < 16,
    ensures
        r == hex_upper(d as int),
{
    if d < 10 {
        ((48 + d) as u8) as char
    } else {
        ((55 + d) as u8) as char
    }
}

fn push_pe_byte(out: &mut Vec<char>, b: u8)
    ensures
        final(out)@ == old(out)@ + pe_byte(b),
{
    let plain = (0x41 <= b && b <= 0x5A) || (0x61 <= b && b <= 0x7A) || (0x30 <= b && b <= 0x39)
        || b == 0x2F || b == 0x3A || b == 0x2D || b == 0x5F || b == 0x2E || b == 0x7E;
    let ghost pre = out@;
    if plain {
        out.push(b as char);
    } else {
        out.push('%');
        out.push(hex_c(b / 16));
        out.push(hex_c(b % 16));
    }
    assert(out@ =~= pre + pe_byte(b));
}

pub fn percent_encode_path(s: &str) -> (r: String)
    ensures
        r@ == spec_percent_encode(s@),
{
    let v = chars_of(s);
    let mut out: Vec<char> = Vec::new();
    let mut i: usize = 0;
    while i < v.len()
        invariant
            i <= v.len(),
            v@ == s@,
            out@ == spec_percent_encode(v@.take(i as int)),
        decreases v.len() - i,
    {
        let bs = utf8_bytes_of(v[i]);
        let ghost start = out@;
        let mut k: usize = 0;
        while k < bs.len()
            invariant
                k <= bs.len(),
                out@ == start + pe_bytes(bs@.take(k as int)),
            decreases bs.len() - k,
        {
            push_pe_byte(&mut out, bs[k]);
            k += 1;
            assert(bs@.take(k as int).drop_last() =~= bs@.take(k - 1));
            assert(out@ =~= start + pe_bytes(bs@.take(k as int)));
        }
        assert(bs@.take(k as int) =~= bs@);
        i += 1;
        assert(v@.take(i as int).drop_last() =~= v@.take(i - 1));
    }
    assert(v@.take(i as int) =~= v@);
    string_of(out.as_slice())
}

/// `\` turned into `/`.
pub open spec fn slashes(s: Seq<char>) -> Seq<char> {
    Seq::new(s.len(), |i: int| if s[i] == '\\' { '/' } else { s[i] })
}

/// The `file://` URL of an absolute path: backslashes become slashes, a
/// leading `/` is added when missing, and the path is percent-encoded.
pub open spec fn spec_file_url_of(abs: Seq<char>) -> Seq<char> {
    let s = slashes(abs);
    let t = if s.len() > 0 && s[0] == '/' {
        s
    } else {
        seq!['/'] + s
    };
    "file://"@ + spec_percent_encode(t)
}

pub fn file_url_of(abs: &str) -> (r: String)
    ensures
        r@ == spec_file_url_of(abs@),
{
    let v = chars_of(abs);
    let mut s: Vec<char> = Vec::new();
    let mut i: usize = 0;
    while i < v.len()
        invariant
            i <= v.len(),
            v@ == abs@,
            s@ == slashes(v@).take(i as int),
        decreases v.len() - i,
    {
        if v[i] == '\\' {
            s.push('/');
        } else {
            s.push(v[i]);
        }
        i += 1;
        assert(s@ =~= slashes(v@).take(i as int));
    }
    assert(slashes(v@).take(i as int) =~= slashes(v@));
    let t = if s.len() > 0 && s[0] == '/' {
        s
    } else {
        let mut t: Vec<char> = Vec::new();
        t.push('/');
        append_vec(&mut t, &s);
        assert(t@ =~= seq!['/'] + s@);
        t
    };
    let enc = percent_encode_path(string_of(t.as_slice()).as_str());
    let mut out = chars_of("file://");
    append_str(&mut out, enc.as_str());
    string_of(out.as_slice())
}

/// `abs` is `path` made absolute: the working directory (and, on Windows,
/// the system's path rules) decide the rest, but a plain last component is
/// kept.
pub open spec fn made_absolute(path: Seq<char>, abs: Seq<char>) -> bool {
    match path_file_name(path) {
        Some(n) => plain_name(n) ==> path_file_name(abs) == Some(n),
        None => true,
    }
}

/// `url` is the `file://` URL of `path` made absolute.
pub open spec fn url_of(path: Seq<char>, url: Seq<char>) -> bool {
    exists|abs: Seq<char>| made_absolute(path, abs) && url == spec_file_url_of(abs)
}

/// Each source is its take's path made absolute.
pub open spec fn srcs_of(takes: Seq<Take>, srcs: Seq<Seq<char>>) -> bool {
    &&& srcs.len() == takes.len()
    &&& forall|i: int| 0 <= i < takes.len() ==> made_absolute(takes[i].path@, #[trigger] srcs[i])
}

/// Each URL is the `file://` URL of its take's path.
pub open spec fn urls_of(takes: Seq<Take>, urls: Seq<Seq<char>>) -> bool {
    &&& urls.len() == takes.len()
    &&& forall|i: int| 0 <= i < takes.len() ==> url_of(takes[i].path@, #[trigger] urls[i])
}

/// The `file://` URL of a path, made absolute first (against the working
/// directory when it is relative). What follows making it absolute is
/// `file_url_of`.
pub fn file_url(path: &str) -> (r: String)
    ensures
        url_of(path@, r@),
{
    let abs = absolute_of(path);
    file_url_of(abs.as_str())
}

// ------------------------------------------------------------ cut lists

/// The length of a take in frames at 24 fps: its duration (5 s when unknown
/// or not positive), rounded to the nearest frame, at least one frame.
pub open spec fn spec_take_frames(t: Take) -> int {
    let ms: int = match t.duration_ms {
        Some(d) => if d > 0 {
            d as int
        } else {
            5000
        },
        None => 5000,
    };
    let f = (ms * 24 + 500) / 1000;
    if f < 1 {
        1
    } else {
        f
    }
}

pub fn take_frames(t: &Take) -> (r: u64)
    ensures
        r == spec_take_frames(*t),
        1 <= r <= 0x1_0000_0000_0000_0000int * 24 / 1000 + 1,
{
    let ms: u128 = match t.duration_ms {
        Some(d) => if d > 0 {
            d as u128
        } else {
            5000
        },
        None => 5000,
    };
    let f = (ms * 24 + 500) / 1000;
    assert(f <= 0x1_0000_0000_0000_0000int * 24 / 1000 + 1) by (nonlinear_arith)
        requires
            ms < 0x1_0000_0000_0000_0000int,
            f == (ms * 24 + 500) / 1000,
    ;
    if f < 1 {
        1
    } else {
        f as u64
    }
}

/// Frames of the first `n` takes.
pub open spec fn frames_sum(takes: Seq<Take>, n: int) -> int
    decreases n,
{
    if n <= 0 {
        0
    } else {
        frames_sum(takes, n - 1) + spec_take_frames(takes[n - 1])
    }
}

pub proof fn lemma_frames_sum_mono(takes: Seq<Take>, i: int, j: int)
    requires
        0 <= i <= j,
    ensures
        frames_sum(takes, i) <= frames_sum(takes, j),
    decreases j - i,
{
    if i < j {
        lemma_frames_sum_mono(takes, i, j - 1);
    }
}

/// An event number, at least three digits (`{n:03}`).
pub open spec fn dec3(n: nat) -> Seq<char> {
    if n < 10 {
        seq!['0', '0'] + dec(n)
    } else if n < 100 {
        seq!['0'] + dec(n)
    } else {
        dec(n)
    }
}

fn dec3_vec(n: u64) -> (r: Vec<char>)
    ensures
        r@ == dec3(n as nat),
{
    let mut v: Vec<char> = Vec::new();
    if n < 10 {
        v.push('0');
        v.push('0');
    } else if n < 100 {
        v.push('0');
    }
    append_vec(&mut v, &dec_vec(n));
    assert(v@ =~= dec3(n as nat));
    v
}

/// The clip name of a take: its file name, else the last component of its
/// path, else `clip`.
pub open spec fn spec_clip(t: Take) -> Seq<char> {
    if t.filename@.len() > 0 {
        t.filename@
    } else {
        match path_file_name(t.path@) {
            Some(n) => n,
            None => "clip"@,
        }
    }
}

/// One EDL event: take `i` of the list, recorded from frame `rec`, with
/// `src` as its absolute source path.
pub open spec fn edl_event(i: int, t: Take, rec: int, src: Seq<char>) -> Seq<char> {
    let frames = spec_take_frames(t);
    "\n"@ + dec3((i + 1) as nat) + "  "@ + spec_reel(path_file_stem(t.filename@))
        + " V     C        00:00:00:00 "@ + spec_timecode(frames) + " "@ + spec_timecode(rec)
        + " "@ + spec_timecode(rec + frames) + "\n"@ + "* FROM CLIP NAME: "@ + spec_clip(t) + "\n"@
        + if t.path@.len() > 0 {
        "* SOURCE FILE: "@ + src + "\n"@
    } else {
        seq![]
    }
}

pub open spec fn edl_events(takes: Seq<Take>, srcs: Seq<Seq<char>>, n: int) -> Seq<char>
    decreases n,
{
    if n <= 0 {
        seq![]
    } else {
        edl_events(takes, srcs, n - 1) + edl_event(
            n - 1,
            takes[n - 1],
            frames_sum(takes, n - 1),
            srcs[n - 1],
        )
    }
}

/// Events laid at given record-in frames: event `k` is take `k` recorded
/// from frame `ins[k]`.
pub open spec fn events_at(takes: Seq<Take>, srcs: Seq<Seq<char>>, ins: Seq<int>, n: int) -> Seq<char>
    decreases n,
{
    if n <= 0 {
        seq![]
    } else {
        events_at(takes, srcs, ins, n - 1) + edl_event(n - 1, takes[n - 1], ins[n - 1], srcs[n - 1])
    }
}

/// Record-in frames with no gap and no overlap: the first event records
/// from frame 0, and each later one records in at the frame where the one
/// before records out (its record-in plus its take's length).
pub open spec fn contiguous(takes: Seq<Take>, ins: Seq<int>) -> bool {
    &&& ins.len() == takes.len()
    &&& ins.len() > 0 ==> ins[0] == 0
    &&& forall|k: int| 0 < k < ins.len() ==> #[trigger] ins[k] == ins[k - 1] + spec_take_frames(takes[k - 1])
}

proof fn lemma_contiguous_sums(takes: Seq<Take>, ins: Seq<int>, k: int)
    requires
        contiguous(takes, ins),
        0 <= k < ins.len(),
    ensures
        ins[k] == frames_sum(takes, k),
    decreases k,
{
    if k > 0 {
        lemma_contiguous_sums(takes, ins, k - 1);
        assert(ins[k] == ins[k - 1] + spec_take_frames(takes[k - 1]));
    }
}

proof fn lemma_events_at(takes: Seq<Take>, srcs: Seq<Seq<char>>, ins: Seq<int>, n: int)
    requires
        contiguous(takes, ins),
        n <= takes.len(),
    ensures
        edl_events(takes, srcs, n) == events_at(takes, srcs, ins, n),
    decreases n,
{
    if n > 0 {
        lemma_events_at(takes, srcs, ins, n - 1);
        lemma_contiguous_sums(takes, ins, n - 1);
    }
}

/// The events of an EDL are contiguous: for any record-in frames that start
/// at 0 and put each event where the one before records out, the EDL is
/// its title lines followed by the takes recorded at exactly those frames.
pub proof fn lemma_edl_contiguous(title: Seq<char>, takes: Seq<Take>, srcs: Seq<Seq<char>>, ins: Seq<int>)
    requires
        contiguous(takes, ins),
    ensures
        spec_cmx3600(title, takes, srcs) == "TITLE: "@ + spec_edl_title(title) + "\nFCM: NON-DROP FRAME\n"@
            + events_at(takes, srcs, ins, takes.len() as int),
{
    lemma_events_at(takes, srcs, ins, takes.len() as int);
}

/// A CMX3600 EDL of the takes, one after another from frame 0; `srcs[i]` is
/// the absolute path of take `i`.
pub open spec fn spec_cmx3600(title: Seq<char>, takes: Seq<Take>, srcs: Seq<Seq<char>>) -> Seq<char> {
    "TITLE: "@ + spec_edl_title(title) + "\nFCM: NON-DROP FRAME\n"@ + edl_events(
        takes,
        srcs,
        takes.len() as int,
    )
}

fn clip_name(t: &Take) -> (r: String)
    ensures
        r@ == spec_clip(*t),
{
    if filled(t.filename.as_str()) {
        string_of(chars_of(t.filename.as_str()).as_slice())
    } else {
        match file_name_of(t.path.as_str()) {
            Some(n) => n,
            None => string_of(chars_of("clip").as_slice()),
        }
    }
}

#[verifier::spinoff_prover]
#[verifier::rlimit(40)]
fn edl_event_exec(i: usize, t: &Take, rec: i64, src: &str) -> (r: Vec<char>)
    requires
        i < u64::MAX,
        0 <= rec,
        rec + spec_take_frames(*t) <= i64::MAX,
    ensures
        r@ == edl_event(i as int, *t, rec as int, src@),
{
    let frames = take_frames(t);
    let mut out = chars_of("\n");
    append_vec(&mut out, &dec3_vec(i as u64 + 1));
    append_str(&mut out, "  ");
    let reel = reel_name(t.filename.as_str());
    append_str(&mut out, reel.as_str());
    append_str(&mut out, " V     C        00:00:00:00 ");
    append_str(&mut out, timecode(frames as i64).as_str());
    append_str(&mut out, " ");
    append_str(&mut out, timecode(rec).as_str());
    append_str(&mut out, " ");
    append_str(&mut out, timecode(rec + frames as i64).as_str());
    append_str(&mut out, "\n");
    append_str(&mut out, "* FROM CLIP NAME: ");
    append_str(&mut out, clip_name(t).as_str());
    append_str(&mut out, "\n");
    let ghost head = out@;
    if filled(t.path.as_str()) {
        append_str(&mut out, "* SOURCE FILE: ");
        append_str(&mut out, src);
        append_str(&mut out, "\n");
    }
    assert(out@ =~= edl_event(i as int, *t, rec as int, src@));
    out
}

/// The EDL text, given the absolute path of each take.
pub fn cmx3600_text(title: &str, takes: &Vec<Take>, srcs: &Vec<String>) -> (r: String)
    requires
        srcs.len() == takes.len(),
        frames_sum(takes@, takes.len() as int) <= i64::MAX,
    ensures
        r@ == spec_cmx3600(title@, takes@, srcs@.map_values(|s: String| s@)),
{
    let ghost sv = srcs@.map_values(|s: String| s@);
    let mut out = chars_of("TITLE: ");
    append_str(&mut out, edl_title(title).as_str());
    append_str(&mut out, "\nFCM: NON-DROP FRAME\n");
    let ghost head = out@;
    let mut rec: i64 = 0;
    let mut i: usize = 0;
    while i < takes.len()
        invariant
            i <= takes.len(),
            srcs.len() == takes.len(),
            sv == srcs@.map_values(|s: String| s@),
            frames_sum(takes@, takes.len() as int) <= i64::MAX,
            rec == frames_sum(takes@, i as int),
            out@ == head + edl_events(takes@, sv, i as int),
        decreases takes.len() - i,
    {
        proof {
            lemma_frames_sum_mono(takes@, i + 1, takes.len() as int);
            lemma_frames_sum_mono(takes@, 0, i as int);
        }
        let ev = edl_event_exec(i, &takes[i], rec, srcs[i].as_str());
        append_vec(&mut out, &ev);
        let f = take_frames(&takes[i]);
        rec = rec + f as i64;
        i += 1;
        assert(out@ =~= head + edl_events(takes@, sv, i as int));
    }
    assert(out@ =~= spec_cmx3600(title@, takes@, sv));
    string_of(out.as_slice())
}

/// The EDL of the takes; each take's path is made absolute against the
/// working directory first, and the rest is `cmx3600_text`.
pub fn cmx3600(title: &str, takes: &Vec<Take>) -> (r: String)
    requires
        frames_sum(takes@, takes.len() as int) <= i64::MAX,
    ensures
        exists|srcs: Seq<Seq<char>>| srcs_of(takes@, srcs) && r@ == spec_cmx3600(title@, takes@, srcs),
{
    let mut srcs: Vec<String> = Vec::new();
    let mut i: usize = 0;
    while i < takes.len()
        invariant
            i <= takes.len(),
            srcs.len() == i,
            forall|j: int| 0 <= j < i ==> made_absolute(takes@[j].path@, #[trigger] srcs@[j]@),
        decreases takes.len() - i,
    {
        srcs.push(absolute_of(takes[i].path.as_str()));
        i += 1;
    }
    let r = cmx3600_text(title, takes, &srcs);
    let ghost sv = srcs@.map_values(|s: String| s@);
    assert(sv.len() == takes.len());
    assert forall|j: int| 0 <= j < takes.len() implies made_absolute(takes@[j].path@, #[trigger] sv[j]) by {
        assert(sv[j] == srcs@[j]@);
    }
    assert(srcs_of(takes@, sv));
    r
}

pub open spec fn fcp_format() -> Seq<char> {
    "    <format id=\"r1\" name=\"FFVideoFormat1080p24\" frameDuration=\"1/24s\" width=\"1920\" height=\"1080\"/>\n"@
}

pub open spec fn fcp_uid(t: Take) -> Seq<char> {
    if t.sha256@.len() == 0 {
        seq![]
    } else {
        " uid=\""@ + spec_xml_esc(t.sha256@) + "\""@
    }
}

/// The `<asset>` of take `i`, whose file has the URL `url`.
pub open spec fn fcp_asset(i: int, t: Take, url: Seq<char>) -> Seq<char> {
    "    <asset id=\"r"@ + dec((i + 2) as nat) + "\" name=\""@ + spec_xml_esc(t.filename@) + "\""@
        + fcp_uid(t) + " start=\"0s\" duration=\""@ + dec(spec_take_frames(t) as nat)
        + "/24s\" hasVideo=\"1\" format=\"r1\">\n      <media-rep kind=\"original-media\" src=\""@
        + spec_xml_esc(url) + "\"/>\n    </asset>\n"@
}

/// The `<asset-clip>` of take `i`, placed at frame `offset` of the spine.
pub open spec fn fcp_clip(i: int, t: Take, offset: int) -> Seq<char> {
    "        <asset-clip name=\""@ + spec_xml_esc(t.filename@) + "\" ref=\"r"@ + dec((i + 2) as nat)
        + "\" offset=\""@ + dec(offset as nat) + "/24s\" duration=\""@ + dec(
        spec_take_frames(t) as nat,
    ) + "/24s\" format=\"r1\"/>\n"@
}

pub open spec fn fcp_assets(takes: Seq<Take>, urls: Seq<Seq<char>>, n: int) -> Seq<char>
    decreases n,
{
    if n <= 0 {
        fcp_format()
    } else {
        fcp_assets(takes, urls, n - 1) + fcp_asset(n - 1, takes[n - 1], urls[n - 1])
    }
}

pub open spec fn fcp_clips(takes: Seq<Take>, n: int) -> Seq<char>
    decreases n,
{
    if n <= 0 {
        seq![]
    } else {
        fcp_clips(takes, n - 1) + fcp_clip(n - 1, takes[n - 1], frames_sum(takes, n - 1))
    }
}

/// An FCPXML 1.9 project of the takes, one after another on the spine from
/// frame 0; `urls[i]` is the `file://` URL of take `i` and `lib` that of the
/// show directory.
pub open spec fn spec_fcpxml(
    title: Seq<char>,
    takes: Seq<Take>,
    urls: Seq<Seq<char>>,
    lib: Seq<char>,
) -> Seq<char> {
    let n = takes.len() as int;
    let t = spec_xml_esc(title);
    "<?xml version=\"1.0\" encoding=\"UTF-8\"?>\n<!DOCTYPE fcpxml>\n<fcpxml version=\"1.9\">\n  <resources>\n"@
        + fcp_assets(takes, urls, n) + "  </resources>\n  <library location=\""@ + spec_xml_esc(lib)
        + "\">\n    <event name=\""@ + t + "\">\n      <project name=\""@ + t
        + "\">\n        <sequence format=\"r1\" duration=\""@ + dec(frames_sum(takes, n) as nat)
        + "/24s\" tcStart=\"0s\" tcFormat=\"NDF\">\n          <spine>\n"@ + fcp_clips(takes, n)
        + "          </spine>\n        </sequence>\n      </project>\n    </event>\n  </library>\n</fcpxml>\n"@
}

fn fcp_uid_exec(t: &Take) -> (r: Vec<char>)
    ensures
        r@ == fcp_uid(*t),
{
    if filled(t.sha256.as_str()) {
        let mut v = chars_of(" uid=\"");
        append_str(&mut v, xml_esc(t.sha256.as_str()).as_str());
        append_str(&mut v, "\"");
        v
    } else {
        let v: Vec<char> = Vec::new();
        assert(v@ =~= fcp_uid(*t));
        v
    }
}

fn fcp_asset_exec(i: usize, t: &Take, url: &str) -> (r: Vec<char>)
    requires
        i < u64::MAX - 2,
    ensures
        r@ == fcp_asset(i as int, *t, url@),
{
    let frames = take_frames(t);
    let mut v = chars_of("    <asset id=\"r");
    append_vec(&mut v, &dec_vec(i as u64 + 2));
    append_str(&mut v, "\" name=\"");
    append_str(&mut v, xml_esc(t.filename.as_str()).as_str());
    append_str(&mut v, "\"");
    append_vec(&mut v, &fcp_uid_exec(t));
    append_str(&mut v, " start=\"0s\" duration=\"");
    append_vec(&mut v, &dec_vec(frames));
    append_str(&mut v, "/24s\" hasVideo=\"1\" format=\"r1\">\n      <media-rep kind=\"original-media\" src=\"");
    append_str(&mut v, xml_esc(url).as_str());
    append_str(&mut v, "\"/>\n    </asset>\n");
    assert(v@ =~= fcp_asset(i as int, *t, url@));
    v
}

fn fcp_clip_exec(i: usize, t: &Take, offset: u64) -> (r: Vec<char>)
    requires
        i < u64::MAX - 2,
    ensures
        r@ == fcp_clip(i as int, *t, offset as int),
{
    let frames = take_frames(t);
    let mut v = chars_of("        <asset-clip name=\"");
    append_str(&mut v, xml_esc(t.filename.as_str()).as_str());
    append_str(&mut v, "\" ref=\"r");
    append_vec(&mut v, &dec_vec(i as u64 + 2));
    append_str(&mut v, "\" offset=\"");
    append_vec(&mut v, &dec_vec(offset));
    append_str(&mut v, "/24s\" duration=\"");
    append_vec(&mut v, &dec_vec(frames));
    append_str(&mut v, "/24s\" format=\"r1\"/>\n");
    assert(v@ =~= fcp_clip(i as int, *t, offset as int));
    v
}

/// The FCPXML text, given each take's URL and the show directory's URL.
pub fn fcpxml_text(title: &str, takes: &Vec<Take>, urls: &Vec<String>, lib: &str) -> (r: String)
    requires
        urls.len() == takes.len(),
        takes.len() < u64::MAX - 2,
        frames_sum(takes@, takes.len() as int) <= i64::MAX,
    ensures
        r@ == spec_fcpxml(title@, takes@, urls@.map_values(|s: String| s@), lib@),
{
    let ghost uv = urls@.map_values(|s: String| s@);
    let mut assets = chars_of(
        "    <format id=\"r1\" name=\"FFVideoFormat1080p24\" frameDuration=\"1/24s\" width=\"1920\" height=\"1080\"/>\n",
    );
    let mut clips: Vec<char> = Vec::new();
    let mut offset: u64 = 0;
    let mut i: usize = 0;
    assert(clips@ =~= fcp_clips(takes@, 0));
    while i < takes.len()
        invariant
            i <= takes.len(),
            urls.len() == takes.len(),
            takes.len() < u64::MAX - 2,
            uv == urls@.map_values(|s: String| s@),
            frames_sum(takes@, takes.len() as int) <= i64::MAX,
            offset == frames_sum(takes@, i as int),
            assets@ == fcp_assets(takes@, uv, i as int),
            clips@ == fcp_clips(takes@, i as int),
        decreases takes.len() - i,
    {
        proof {
            lemma_frames_sum_mono(takes@, i + 1, takes.len() as int);
            lemma_frames_sum_mono(takes@, 0, i as int);
        }
        append_vec(&mut assets, &fcp_asset_exec(i, &takes[i], urls[i].as_str()));
        append_vec(&mut clips, &fcp_clip_exec(i, &takes[i], offset));
        offset = offset + take_frames(&takes[i]);
        i += 1;
    }
    let t = xml_esc(title);
    let mut out = chars_of(
        "<?xml version=\"1.0\" encoding=\"UTF-8\"?>\n<!DOCTYPE fcpxml>\n<fcpxml version=\"1.9\">\n  <resources>\n",
    );
    append_vec(&mut out, &assets);
    append_str(&mut out, "  </resources>\n  <library location=\"");
    append_str(&mut out, xml_esc(lib).as_str());
    append_str(&mut out, "\">\n    <event name=\"");
    append_str(&mut out, t.as_str());
    append_str(&mut out, "\">\n      <project name=\"");
    append_str(&mut out, t.as_str());
    append_str(&mut out, "\">\n        <sequence format=\"r1\" duration=\"");
    append_vec(&mut out, &dec_vec(offset));
    append_str(&mut out, "/24s\" tcStart=\"0s\" tcFormat=\"NDF\">\n          <spine>\n");
    append_vec(&mut out, &clips);
    append_str(
        &mut out,
        "          </spine>\n        </sequence>\n      </project>\n    </event>\n  </library>\n</fcpxml>\n",
    );
    assert(out@ =~= spec_fcpxml(title@, takes@, uv, lib@));
    string_of(out.as_slice())
}

/// The FCPXML of the takes; each take's path and the show directory are made
/// absolute and turned into `file://` URLs first, and the rest is
/// `fcpxml_text`.
pub fn fcpxml(title: &str, takes: &Vec<Take>, show_dir: &str) -> (r: String)
    requires
        takes.len() < u64::MAX - 2,
        frames_sum(takes@, takes.len() as int) <= i64::MAX,
    ensures
        exists|urls: Seq<Seq<char>>, lib: Seq<char>|
            urls_of(takes@, urls) && url_of(show_dir@, lib) && r@ == spec_fcpxml(title@, takes@, urls, lib),
{
    let mut urls: Vec<String> = Vec::new();
    let mut i: usize = 0;
    while i < takes.len()
        invariant
            i <= takes.len(),
            urls.len() == i,
            forall|j: int| 0 <= j < i ==> url_of(takes@[j].path@, #[trigger] urls@[j]@),
        decreases takes.len() - i,
    {
        urls.push(file_url(takes[i].path.as_str()));
        i += 1;
    }
    let lib = file_url(show_dir);
    let r = fcpxml_text(title, takes, &urls, lib.as_str());
    let ghost uv = urls@.map_values(|s: String| s@);
    assert(uv.len() == takes.len());
    assert forall|j: int| 0 <= j < takes.len() implies url_of(takes@[j].path@, #[trigger] uv[j]) by {
        assert(uv[j] == urls@[j]@);
    }
    assert(urls_of(takes@, uv));
    r
}

// ------------------------------------------------------------ circling

pub open spec fn take_named(t: Take, id: Seq<char>) -> bool {
    t.id@ == id || t.filename@ == id
}

/// First take whose id or file name is `id`, or -1.
pub open spec fn take_index(takes: Seq<Take>, id: Seq<char>) -> int
    decreases takes.len(),
{
    if takes.len() == 0 {
        -1
    } else if take_named(takes[0], id) {
        0
    } else {
        let r = take_index(takes.drop_first(), id);
        if r < 0 {
            -1
        } else {
            r + 1
        }
    }
}

pub proof fn lemma_take_index(takes: Seq<Take>, id: Seq<char>)
    ensures
        -1 <= take_index(takes, id) < takes.len(),
        take_index(takes, id) >= 0 ==> take_named(takes[take_index(takes, id)], id),
        take_index(takes, id) < 0 ==> forall|j: int| 0 <= j < takes.len() ==> !take_named(#[trigger] takes[j], id),
        forall|j: int| 0 <= j < take_index(takes, id) ==> !take_named(#[trigger] takes[j], id),
    decreases takes.len(),
{
    if takes.len() > 0 {
        lemma_take_index(takes.drop_first(), id);
        assert forall|j: int| 1 <= j < takes.len() implies takes[j] == takes.drop_first()[j - 1] by {}
    }
}

fn find_take(takes: &Vec<Take>, id: &str) -> (r: Option<usize>)
    ensures
        match r {
            Some(k) => k as int == take_index(takes@, id@),
            None => take_index(takes@, id@) == -1,
        },
{
    proof {
        lemma_take_index(takes@, id@);
    }
    let mut i: usize = 0;
    while i < takes.len()
        invariant
            i <= takes.len(),
            forall|j: int| 0 <= j < i ==> !take_named(#[trigger] takes@[j], id@),
            -1 <= take_index(takes@, id@) < takes.len(),
            take_index(takes@, id@) >= 0 ==> take_named(takes@[take_index(takes@, id@)], id@),
            take_index(takes@, id@) < 0 ==> forall|j: int|
                0 <= j < takes.len() ==> !take_named(#[trigger] takes@[j], id@),
            forall|j: int| 0 <= j < take_index(takes@, id@) ==> !take_named(#[trigger] takes@[j], id@),
        decreases takes.len() - i,
    {
        if str_eq(takes[i].id.as_str(), id) || str_eq(takes[i].filename.as_str(), id) {
            return Some(i);
        }
        i += 1;
    }
    None
}

pub open spec fn circle_needs_take() -> Seq<char> {
    "lot dailies circle needs --take (no GUI picker)"@
}

pub open spec fn unknown_take(id: Seq<char>) -> Seq<char> {
    "unknown take: "@ + id
}

/// Circles the take whose id or file name is `take_id` (trimmed). A take
/// already circled is no change. Returns whether the show changed.
pub fn dailies_circle(show: &mut Show, take_id: &str, now: &str) -> (r: Result<bool, ShowError>)
    requires
        old(show).rev < u64::MAX,
    ensures
        ({
            let id = trim(take_id@);
            let k = take_index(old(show).takes@, id);
            if id.len() == 0 {
                fails_with(r, circle_needs_take()) && *final(show) == *old(show)
            } else if k < 0 {
                fails_with(r, unknown_take(id)) && *final(show) == *old(show)
            } else if old(show).takes@[k].circled {
                r == Ok::<bool, ShowError>(false) && *final(show) == *old(show)
            } else {
                &&& r == Ok::<bool, ShowError>(true)
                &&& final(show).takes@ == old(show).takes@.update(k, Take { circled: true, ..old(show).takes@[k] })
                &&& spec_bumped(Show { takes: final(show).takes, ..*old(show) }, *final(show), now@)
            }
        }),
{
    let idv = trim_vec(&chars_of(take_id));
    if idv.len() == 0 {
        return Err(msg("lot dailies circle needs --take (no GUI picker)"));
    }
    let id = string_of(idv.as_slice());
    proof {
        lemma_take_index(show.takes@, id@);
    }
    let k = match find_take(&show.takes, id.as_str()) {
        Some(k) => k,
        None => return Err(msg2("unknown take: ", id.as_str())),
    };
    if show.takes[k].circled {
        return Ok(false);
    }
    let ghost before = show.takes@[k as int];
    let mut t = show.takes.remove(k);
    t.circled = true;
    show.takes.insert(k, t);
    assert(show.takes@ =~= old(show).takes@.update(k as int, Take { circled: true, ..before }));
    bump(show, now);
    Ok(true)
}

// ------------------------------------------------------------ export

/// The circled takes, in order.
pub open spec fn circled(takes: Seq<Take>) -> Seq<Take>
    decreases takes.len(),
{
    if takes.len() == 0 {
        seq![]
    } else if takes.last().circled {
        circled(takes.drop_last()).push(takes.last())
    } else {
        circled(takes.drop_last())
    }
}

pub proof fn lemma_circled_len(takes: Seq<Take>)
    ensures
        circled(takes).len() <= takes.len(),
    decreases takes.len(),
{
    if takes.len() > 0 {
        lemma_circled_len(takes.drop_last());
    }
}

pub fn circled_takes(takes: &Vec<Take>) -> (r: Vec<Take>)
    ensures
        r@ == circled(takes@),
{
    let mut out: Vec<Take> = Vec::new();
    let mut i: usize = 0;
    while i < takes.len()
        invariant
            i <= takes.len(),
            out@ == circled(takes@.take(i as int)),
        decreases takes.len() - i,
    {
        if takes[i].circled {
            let t = Take {
                id: takes[i].id.clone(),
                shot_id: takes[i].shot_id.clone(),
                path: takes[i].path.clone(),
                filename: takes[i].filename.clone(),
                sha256: takes[i].sha256.clone(),
                duration_ms: takes[i].duration_ms,
                circled: takes[i].circled,
            };
            out.push(t);
        }
        i += 1;
        assert(takes@.take(i as int).drop_last() =~= takes@.take(i - 1));
    }
    assert(takes@.take(i as int) =~= takes@);
    out
}

/// The two cut lists of an export.
#[derive(Debug, Clone, PartialEq, Eq)]
pub struct ExportTexts {
    pub xml: String,
    pub edl: String,
    pub takes: usize,
}

/// What `lot dailies export` reports.
#[derive(Debug, Clone, PartialEq, Eq)]
pub struct ExportReport {
    pub file: String,
    pub edl: String,
    pub takes: usize,
    pub resumed: bool,
}

pub open spec fn no_circled_msg() -> Seq<char> {
    "no circled takes — lot dailies circle --take"@
}

/// The cut lists of the circled takes: refused without the `export`
/// capability or without a circled take.
pub fn dailies_export(show: &Show, have: Caps, show_dir: &str) -> (r: Result<ExportTexts, ShowError>)
    requires
        frames_sum(circled(show.takes@), circled(show.takes@).len() as int) <= i64::MAX,
        show.takes.len() < u64::MAX - 2,
    ensures
        !holds(have, Cap::Export) ==> fails_with(r, need_message(have, Cap::Export)),
        holds(have, Cap::Export) && circled(show.takes@).len() == 0 ==> fails_with(r, no_circled_msg()),
        r is Ok <==> holds(have, Cap::Export) && circled(show.takes@).len() > 0,
        r matches Ok(x) ==> {
            let c = circled(show.takes@);
            &&& x.takes == c.len()
            &&& exists|srcs: Seq<Seq<char>>| srcs_of(c, srcs) && x.edl@ == spec_cmx3600(show.name@, c, srcs)
            &&& exists|urls: Seq<Seq<char>>, lib: Seq<char>|
                urls_of(c, urls) && url_of(show_dir@, lib) && x.xml@ == spec_fcpxml(show.name@, c, urls, lib)
        },
{
    match require(have, Cap::Export) {
        Ok(()) => {},
        Err(e) => return Err(e),
    }
    let c = circled_takes(&show.takes);
    if c.len() == 0 {
        return Err(msg("no circled takes — lot dailies circle --take"));
    }
    proof {
        lemma_circled_len(show.takes@);
    }
    let xml = fcpxml(show.name.as_str(), &c, show_dir);
    let edl = cmx3600(show.name.as_str(), &c);
    Ok(ExportTexts { xml, edl, takes: c.len() })
}

// ------------------------------------------------------------ ingest

/// What ingest found out about one clip before copying it.
#[derive(Debug, Clone, PartialEq, Eq)]
pub enum Binding {
    /// A take with the same content is already in the show.
    Known,
    /// The clip belongs to the shot with this id.
    Shot(String),
}

pub open spec fn needs_shot_number(filename: Seq<char>) -> Seq<char> {
    "filename must start with a shot number: "@ + filename
}

pub open spec fn no_shot_for(prefix: Seq<char>, filename: Seq<char>) -> Seq<char> {
    "no shot matching "@ + prefix + " (from "@ + filename + ")"@
}

pub open spec fn sha_known(takes: Seq<Take>, sha: Seq<char>) -> bool {
    exists|i: int| 0 <= i < takes.len() && (#[trigger] takes[i]).sha256@.len() > 0 && takes[i].sha256@ == sha
}

/// Binds a clip to a shot by the number its file name starts with (`01-foo`
/// goes to shot `01` or `1`); the shot keeps its name.
pub fn ingest_bind(show: &Show, filename: &str, sha: &str) -> (r: Result<Binding, ShowError>)
    ensures
        match spec_filename_shot_prefix(filename@) {
            None => fails_with(r, needs_shot_number(filename@)),
            Some(p) => {
                let k = first_shot_index(show.shots@, p);
                if k < 0 {
                    fails_with(r, no_shot_for(p, filename@))
                } else if sha_known(show.takes@, sha@) {
                    r == Ok::<Binding, ShowError>(Binding::Known)
                } else {
                    r matches Ok(Binding::Shot(id)) && id == show.shots@[k].id
                }
            },
        },
{
    let prefix = match filename_shot_prefix(filename) {
        Some(p) => p,
        None => return Err(msg2("filename must start with a shot number: ", filename)),
    };
    proof {
        lemma_first_shot_index(show.shots@, prefix@);
    }
    let k = match find_shot(&show.shots, prefix.as_str()) {
        Some(k) => k,
        None => {
            let mut m = chars_of("no shot matching ");
            append_str(&mut m, prefix.as_str());
            append_str(&mut m, " (from ");
            append_str(&mut m, filename);
            append_str(&mut m, ")");
            return Err(ShowError::Msg(string_of(m.as_slice())));
        },
    };
    let mut i: usize = 0;
    while i < show.takes.len()
        invariant
            i <= show.takes.len(),
            spec_filename_shot_prefix(filename@) == Some(prefix@),
            k < show.shots.len(),
            k as int == first_shot_index(show.shots@, prefix@),
            forall|j: int|
                0 <= j < i ==> !((#[trigger] show.takes@[j]).sha256@.len() > 0 && show.takes@[j].sha256@
                    == sha@),
        decreases show.takes.len() - i,
    {
        if filled(show.takes[i].sha256.as_str()) && str_eq(show.takes[i].sha256.as_str(), sha) {
            assert(show.takes@[i as int].sha256@.len() > 0 && show.takes@[i as int].sha256@ == sha@);
            return Ok(Binding::Known);
        }
        i += 1;
    }
    Ok(Binding::Shot(show.shots[k].id.clone()))
}

/// An existing take is this clip again: same file name, and the same hash,
/// no hash recorded, or the same file on disk (`same_path`).
pub open spec fn take_repeats(t: Take, filename: Seq<char>, sha: Seq<char>, same_path: bool) -> bool {
    t.filename@ == filename && (t.sha256@.len() == 0 || t.sha256@ == sha || same_path)
}

pub open spec fn repeats_any(takes: Seq<Take>, filename: Seq<char>, sha: Seq<char>, same: Seq<bool>) -> bool {
    exists|i: int| 0 <= i < takes.len() && take_repeats(#[trigger] takes[i], filename, sha, same[i])
}

pub open spec fn media_has_sha(media: Seq<MediaItem>, sha: Seq<char>) -> bool {
    exists|i: int| 0 <= i < media.len() && (#[trigger] media[i]).sha256@ == sha
}

/// Records a copied clip as a new take `tk-N` of shot `shot_id` (and as show
/// media when no media has its hash), unless it repeats a take already there.
/// `same_path[i]` says whether take `i`'s path is the copied file. Returns
/// whether a take was added.
pub fn ingest_record(
    show: &mut Show,
    shot_id: &str,
    filename: &str,
    sha: &str,
    path: &str,
    same_path: &Vec<bool>,
    duration_ms: Option<u64>,
) -> (r: bool)
    requires
        same_path.len() == old(show).takes.len(),
        old(show).takes.len() < u64::MAX,
    ensures
        r == !repeats_any(old(show).takes@, filename@, sha@, same_path@),
        !r ==> *final(show) == *old(show),
        r ==> {
            let t = final(show).takes@.last();
            &&& final(show).takes@.len() == old(show).takes@.len() + 1
            &&& final(show).takes@.drop_last() == old(show).takes@
            &&& t.id@ == "tk-"@ + dec((old(show).takes@.len() + 1) as nat)
            &&& t.shot_id@ == shot_id@ && t.path@ == path@ && t.filename@ == filename@
            &&& t.sha256@ == sha@ && t.duration_ms == duration_ms && !t.circled
            &&& if media_has_sha(old(show).media@, sha@) {
                final(show).media == old(show).media
            } else {
                &&& final(show).media@.drop_last() == old(show).media@
                &&& final(show).media@.len() == old(show).media@.len() + 1
                &&& final(show).media@.last().path@ == path@
                &&& final(show).media@.last().sha256@ == sha@
                &&& final(show).media@.last().kind@ == "video"@
                &&& final(show).media@.last().duration_ms == duration_ms
            }
            &&& *final(show) == Show { takes: final(show).takes, media: final(show).media, ..*old(show) }
        },
{
    let mut i: usize = 0;
    while i < show.takes.len()
        invariant
            i <= show.takes.len(),
            same_path.len() == show.takes.len(),
            *show == *old(show),
            forall|j: int|
                0 <= j < i ==> !take_repeats(#[trigger] show.takes@[j], filename@, sha@, same_path@[j]),
        decreases show.takes.len() - i,
    {
        let t = &show.takes[i];
        if str_eq(t.filename.as_str(), filename) && (!filled(t.sha256.as_str()) || str_eq(
            t.sha256.as_str(),
            sha,
        ) || same_path[i]) {
            return false;
        }
        i += 1;
    }
    let mut m: usize = 0;
    let mut known = false;
    while m < show.media.len() && !known
        invariant
            m <= show.media.len(),
            *show == *old(show),
            !known ==> forall|j: int| 0 <= j < m ==> (#[trigger] show.media@[j]).sha256@ != sha@,
            known ==> media_has_sha(show.media@, sha@),
        decreases show.media.len() - m + if known { 0int } else { 1int },
    {
        if str_eq(show.media[m].sha256.as_str(), sha) {
            assert(show.media@[m as int].sha256@ == sha@);
            known = true;
        } else {
            m += 1;
        }
    }
    let mut id = chars_of("tk-");
    append_vec(&mut id, &dec_vec(show.takes.len() as u64 + 1));
    let take = Take {
        id: string_of(id.as_slice()),
        shot_id: string_of(chars_of(shot_id).as_slice()),
        path: string_of(chars_of(path).as_slice()),
        filename: string_of(chars_of(filename).as_slice()),
        sha256: string_of(chars_of(sha).as_slice()),
        duration_ms,
        circled: false,
    };
    show.takes.push(take);
    if !known {
        show.media.push(
            MediaItem {
                path: string_of(chars_of(path).as_slice()),
                sha256: string_of(chars_of(sha).as_slice()),
                kind: string_of(chars_of("video").as_slice()),
                duration_ms,
            },
        );
        assert(show.media@.drop_last() =~= old(show).media@);
    }
    assert(show.takes@.drop_last() =~= old(show).takes@);
    true
}

/// How many clips an ingest bound anew, and how many it had already.
#[derive(Debug, Clone, Copy, Default, PartialEq, Eq, Structural)]
pub struct IngestReport {
    pub ingested: u32,
    pub resumed: u32,
}

pub open spec fn no_clips_msg() -> Seq<char> {
    "dailies ingest needs --file or --dir (or media/ with clips)"@
}

pub open spec fn none_bound_msg() -> Seq<char> {
    "no clips bound — filename must start with a shot number (01-foo.mp4)"@
}

/// Refuses an ingest that found no clip to look at.
pub fn require_clips(count: usize) -> (r: Result<(), ShowError>)
    ensures
        r is Ok <==> count > 0,
        count == 0 ==> fails_with(r, no_clips_msg()),
{
    if count == 0 {
        Err(msg("dailies ingest needs --file or --dir (or media/ with clips)"))
    } else {
        Ok(())
    }
}

/// Closes an ingest: refused when nothing was bound and the show has no
/// take; no change when nothing new was bound; else the phase becomes
/// `dailies` and the revision is bumped. Returns whether the show changed.
pub fn ingest_finish(show: &mut Show, report: IngestReport, now: &str) -> (r: Result<bool, ShowError>)
    requires
        old(show).rev < u64::MAX,
    ensures
        report.ingested == 0 && old(show).takes@.len() == 0 ==> fails_with(r, none_bound_msg())
            && *final(show) == *old(show),
        report.ingested == 0 && old(show).takes@.len() > 0 ==> r == Ok::<bool, ShowError>(false)
            && *final(show) == *old(show),
        report.ingested > 0 ==> r == Ok::<bool, ShowError>(true) && final(show).phase@ == "dailies"@
            && spec_bumped(Show { phase: final(show).phase, ..*old(show) }, *final(show), now@),
{
    if report.ingested == 0 && show.takes.len() == 0 {
        return Err(msg("no clips bound — filename must start with a shot number (01-foo.mp4)"));
    }
    if report.ingested == 0 {
        return Ok(false);
    }
    show.phase = string_of(chars_of("dailies").as_slice());
    bump(show, now);
    Ok(true)
}

/// Extensions of clips that ingest picks up from a directory.
pub open spec fn spec_is_media_ext(ext: Seq<char>) -> bool {
    let e = lower(ext);
    e == "mp4"@ || e == "mov"@ || e == "mkv"@ || e == "webm"@ || e == "avi"@ || e == "m4v"@
        || e == "wav"@ || e == "mp3"@ || e == "aac"@
}

pub fn is_media_ext(ext: &str) -> (r: bool)
    ensures
        r == spec_is_media_ext(ext@),
{
    let e = lower_vec(&chars_of(ext));
    seq_eq(&e, &chars_of("mp4")) || seq_eq(&e, &chars_of("mov")) || seq_eq(&e, &chars_of("mkv"))
        || seq_eq(&e, &chars_of("webm")) || seq_eq(&e, &chars_of("avi")) || seq_eq(
        &e,
        &chars_of("m4v"),
    ) || seq_eq(&e, &chars_of("wav")) || seq_eq(&e, &chars_of("mp3")) || seq_eq(
        &e,
        &chars_of("aac"),
    )
}

} // verus!
