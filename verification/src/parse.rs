//! Fountain / plain-text breakdown: scene headings, characters (including
//! `NAME (quietly)` cues), page eighths and synopses. Scene text is untrusted
//! material and is only ever stored, never obeyed.

use vstd::prelude::*;
use crate::model::{Scene, SceneV};
use crate::json::{Json, json_parse, json_error, parse_json, member, at, items_of, text_of, get_member, at_exec, items_exec, text_exec, opt_json};
use crate::rx::{
    captures, groups_view, is_alphabetic, is_uppercase, regex_captures, regex_replace_all,
    regex_replace_first, replace_all, replace_first, to_upper, unicode_alphabetic,
    unicode_uppercase, unicode_upper,
};
use crate::text::{
    append_vec, chars_of, collapse_ws, single_spaced, lemma_collapse_single_spaced,
    collapse_ws_vec, dec, dec_vec, is_ws, is_ws_char, join,
    join_vecs, push_piece, seq_eq, split_on, split_vec, starts_with, starts_with_vec, string_of,
    sub_vec, trim, trim_end_char, trim_end_char_vec, trim_start, trim_start_vec, trim_vec,
    utf8_len, utf8_len_vec, append_str, strings_view,
};

verus! {

pub const SLUG_RE: &'static str =
    r"(?i)^\s*(?:(\d+[A-Z]?)[\s.]+)?((?:INT\.?\s*/\s*EXT|EXT\.?\s*/\s*INT|INT|EXT|EST|I/E)[\s.].*)$";

pub const TRANSITION_RE: &'static str =
    r"(?i)^\s*(?:[A-Z][A-Z\s.']*TO:|FADE (?:IN|OUT).*|CUT TO BLACK\.?|SMASH CUT.*|DISSOLVE.*|IRIS (?:IN|OUT).*)\s*$";

pub const CHARACTER_RE: &'static str = r"^\s*(@?)([A-Z][A-Z0-9 .'\-#&]{0,40})(\s*\([^)]+\))?\s*(\^)?\s*$";

pub const TOD_RE: &'static str =
    r"(?i)^(DAY|NIGHT|MORNING|AFTERNOON|EVENING|DAWN|DUSK|SUNSET|SUNRISE|LATER|CONTINUOUS|MOMENTS LATER|SAME(?: TIME)?|MAGIC HOUR|GOLDEN HOUR|PRE-DAWN|NOON|MIDNIGHT|TWILIGHT|FLASHBACK|PRESENT DAY|VARIOUS)$";

pub const BONEYARD_RE: &'static str = r"(?s)/\*.*?\*/";

pub const NOTES_RE: &'static str = r"(?s)\[\[[\s\S]*?\]\]";

pub const KV_RE: &'static str = r"^([A-Za-z][A-Za-z ]*):\s*(.*)$";

pub const CONTINUATION_RE: &'static str = r"^\s+\S";

pub const INT_EXT_RE: &'static str = r"^(INT\.?\s*/\s*EXT|EXT\.?\s*/\s*INT|I/E)";

pub const SLUG_PREFIX_RE: &'static str =
    r"(?i)^(INT\.?\s*/\s*EXT\.?|EXT\.?\s*/\s*INT\.?|INT\.?|EXT\.?|EST\.?|I/E\.?)\s*";

pub const AREA_RE: &'static str = r"\s*\(([^)]+)\)";

pub const NIGHT_RE: &'static str = r"NIGHT|MIDNIGHT|PRE-DAWN";

pub const DAY_RE: &'static str = r"DAY|MORNING|AFTERNOON|NOON";

pub const DUSK_RE: &'static str = r"DUSK|SUNSET|EVENING|TWILIGHT|MAGIC|GOLDEN";

pub const DAWN_RE: &'static str = r"DAWN|SUNRISE";

pub const PAREN_RE: &'static str = r"\s*\([^)]*\)";

pub const OPEN_PAREN_RE: &'static str = r"\s*\([^)]*$";

pub const CARET_RE: &'static str = r"\s*\^\s*$";

pub const HONORIFIC_RE: &'static str = r"\b(DR|MR|MRS|MS|ST|JR|SR)\.";

pub const RESERVED_RE: &'static str =
    r"^(INT|EXT|EST|FADE|CUT|THE END|TITLE|SUPER|ANGLE|CLOSE|WIDE|LATER|CONTINUOUS|MONTAGE|END MONTAGE|BEGIN|BACK TO|INTERCUT)$";

pub const SCENE_TAG_RE: &'static str = r"#([\w.]+)#\s*$";

pub const SCENE_TAG_STRIP_RE: &'static str = r"#[\w.]+#\s*$";

pub const SAME_TIME_RE: &'static str = r"(?i)CONTINUOUS|LATER|SAME|MOMENTS";

// ---------------------------------------------------------------- spec layer

pub open spec fn rx(p: Seq<char>, t: Seq<char>) -> bool {
    regex_captures(p, t) is Some
}

/// Group `i` of a match, `None` when absent.
pub open spec fn group(c: Seq<Option<Seq<char>>>, i: int) -> Option<Seq<char>> {
    if 0 <= i < c.len() {
        c[i]
    } else {
        None
    }
}

pub open spec fn or_empty(o: Option<Seq<char>>) -> Seq<char> {
    match o {
        Some(s) => s,
        None => seq![],
    }
}

pub open spec fn quote_char(c: char) -> char {
    let u = c as u32;
    if u == 0x2019 || u == 0x2018 {
        '\''
    } else if u == 0x201C || u == 0x201D {
        '"'
    } else if u == 0x2013 || u == 0x2014 {
        '-'
    } else {
        c
    }
}

/// Curly quotes and en/em dashes folded to ASCII.
pub open spec fn norm_quotes(s: Seq<char>) -> Seq<char> {
    Seq::new(s.len(), |i: int| quote_char(s[i]))
}

/// `.Heading` forces a scene heading (but `..` and `. ` do not).
pub open spec fn spec_forced_slug(line: Seq<char>) -> Option<Seq<char>> {
    let t = trim_start(line);
    if t.len() < 2 || t[0] != '.' {
        None
    } else if t[1] == '.' || is_ws(t[1]) {
        None
    } else {
        Some(trim(t.drop_first()))
    }
}

/// At least one letter, and every letter upper case.
pub open spec fn spec_all_upper(s: Seq<char>) -> bool {
    &&& exists|i: int| 0 <= i < s.len() && unicode_alphabetic(s[i])
    &&& forall|i: int| 0 <= i < s.len() && unicode_alphabetic(s[i]) ==> unicode_uppercase(s[i])
}

/// Time-of-day bucket of a heading's time.
pub open spec fn spec_tod_bucket(tod: Seq<char>) -> Seq<char> {
    let t = unicode_upper(tod);
    if rx(NIGHT_RE@, t) {
        "NIGHT"@
    } else if rx(DAY_RE@, t) {
        "DAY"@
    } else if rx(DUSK_RE@, t) {
        "DUSK"@
    } else if rx(DAWN_RE@, t) {
        "DAWN"@
    } else if tod.len() == 0 {
        seq![]
    } else {
        "OTHER"@
    }
}

/// Normalised heading text: quotes folded, whitespace collapsed, upper case.
pub open spec fn spec_slug(st: Seq<char>) -> Seq<char> {
    unicode_upper(collapse_ws(norm_quotes(st)))
}

pub open spec fn trim_fn() -> spec_fn(Seq<char>) -> Seq<char> {
    |p: Seq<char>| trim(p)
}

pub open spec fn nonempty_fn() -> spec_fn(Seq<char>) -> bool {
    |p: Seq<char>| p.len() > 0
}

pub open spec fn nonempty_trimmed(parts: Seq<Seq<char>>) -> Seq<Seq<char>> {
    parts.map_values(trim_fn()).filter(nonempty_fn())
}

/// Trailing time-of-day parts peeled off (at least one location part stays).
pub open spec fn peel_tod(parts: Seq<Seq<char>>, tods: Seq<Seq<char>>) -> (
    Seq<Seq<char>>,
    Seq<Seq<char>>,
)
    decreases parts.len(),
{
    if parts.len() > 1 && rx(TOD_RE@, trim_end_char(parts.last(), '.')) {
        peel_tod(parts.drop_last(), seq![trim_end_char(parts.last(), '.')] + tods)
    } else {
        (parts, tods)
    }
}

pub open spec fn dash_sep() -> Seq<char> {
    seq![' ', '-', ' ']
}

/// The pieces of a scene heading.
pub struct SlugParts {
    pub int_ext: Seq<char>,
    pub location: Seq<char>,
    pub master: Seq<char>,
    pub sub: Seq<char>,
    pub area: Seq<char>,
    pub tod: Seq<char>,
}

pub open spec fn spec_int_ext(slug: Seq<char>) -> Seq<char> {
    if rx(INT_EXT_RE@, slug) {
        "INT/EXT"@
    } else if starts_with(slug, "EXT"@) || starts_with(slug, "EST"@) {
        "EXT"@
    } else {
        "INT"@
    }
}

pub open spec fn spec_loc_full(st: Seq<char>) -> Seq<char> {
    let rest = regex_replace_first(SLUG_PREFIX_RE@, spec_slug(st), seq![]);
    let parts = nonempty_trimmed(split_on(rest, dash_sep()));
    let peeled = peel_tod(parts, seq![]);
    trim(trim_end_char(join(peeled.0, dash_sep()), '.'))
}

pub open spec fn spec_tod(st: Seq<char>) -> Seq<char> {
    let rest = regex_replace_first(SLUG_PREFIX_RE@, spec_slug(st), seq![]);
    let parts = nonempty_trimmed(split_on(rest, dash_sep()));
    join(peel_tod(parts, seq![]).1, dash_sep())
}

pub open spec fn spec_area(loc_full: Seq<char>) -> Seq<char> {
    match regex_captures(AREA_RE@, loc_full) {
        Some(c) => trim(or_empty(group(c, 1))),
        None => seq![],
    }
}

pub open spec fn spec_location(loc_full: Seq<char>) -> Seq<char> {
    if rx(AREA_RE@, loc_full) {
        collapse_ws(regex_replace_all(AREA_RE@, loc_full, seq![]))
    } else {
        loc_full
    }
}

pub open spec fn spec_parse_slugline(st: Seq<char>) -> SlugParts {
    let loc_full = spec_loc_full(st);
    let location = spec_location(loc_full);
    let loc_parts = nonempty_trimmed(split_on(location, dash_sep()));
    SlugParts {
        int_ext: spec_int_ext(spec_slug(st)),
        location,
        master: if loc_parts.len() > 0 {
            loc_parts[0]
        } else {
            seq![]
        },
        sub: if loc_parts.len() > 0 {
            join(loc_parts.skip(1), dash_sep())
        } else {
            seq![]
        },
        area: spec_area(loc_full),
        tod: spec_tod(st),
    }
}

#[derive(PartialEq, Eq, Clone, Copy)]
pub enum LineKind {
    Slug,
    Character,
    Transition,
    Dialogue,
    Paren,
    Action,
}

pub open spec fn ceil_div(a: nat, b: nat) -> nat
    recommends
        b > 0,
{
    ((a + b - 1) as nat) / b
}

/// Estimated printed lines for one element (58-column action, 34-column
/// dialogue, 32-column parentheticals).
pub open spec fn spec_est_lines(kind: LineKind, text: Seq<char>) -> nat {
    let len = utf8_len(trim(norm_quotes(text)));
    if len == 0 {
        0
    } else {
        match kind {
            LineKind::Slug | LineKind::Character | LineKind::Transition => 1,
            LineKind::Dialogue => ceil_div(len, 34),
            LineKind::Paren => ceil_div(len, 32),
            LineKind::Action => ceil_div(len, 58),
        }
    }
}

/// A character cue reduced to the name: extensions, `^` and honorific dots
/// removed, whitespace collapsed, upper case.
pub open spec fn spec_strip_char_ext(name: Seq<char>) -> Seq<char> {
    let s1 = regex_replace_all(PAREN_RE@, norm_quotes(name), seq![]);
    let s2 = regex_replace_first(OPEN_PAREN_RE@, s1, seq![]);
    let s3 = regex_replace_first(CARET_RE@, s2, seq![]);
    let s4 = regex_replace_all(HONORIFIC_RE@, s3, "$1"@);
    unicode_upper(collapse_ws(s4))
}

/// The speaking character of a cue line, when the next line carries text.
pub open spec fn spec_character_name(line: Seq<char>, next: Option<Seq<char>>) -> Option<Seq<char>> {
    let t = trim(line);
    if t.len() == 0 || rx(TRANSITION_RE@, t) {
        None
    } else if !(next matches Some(n) && trim(n).len() > 0) {
        None
    } else {
        match regex_captures(CHARACTER_RE@, t) {
            None => None,
            Some(c) => {
                let name = spec_strip_char_ext(or_empty(group(c, 2)));
                if utf8_len(name) < 2 || rx(RESERVED_RE@, name) {
                    None
                } else {
                    Some(name)
                }
            },
        }
    }
}

pub open spec fn nl() -> Seq<char> {
    seq!['\n']
}

/// A scene's text: its body lines joined, blank lines at either end dropped.
pub open spec fn scene_body(lines: Seq<Seq<char>>) -> Seq<char> {
    trim_end_char(crate::text::trim_start_char(join(lines, nl()), '\n'), '\n')
}

pub open spec fn next_line(ls: Seq<Seq<char>>, i: int) -> Option<Seq<char>> {
    if 0 <= i + 1 < ls.len() {
        Some(ls[i + 1])
    } else {
        None
    }
}

/// Characters who speak in `ls[i..]`, appended to `acc` in order of first cue.
pub open spec fn cast_from(ls: Seq<Seq<char>>, i: nat, acc: Seq<Seq<char>>) -> Seq<Seq<char>>
    decreases ls.len() - i,
{
    if i >= ls.len() {
        acc
    } else {
        let t = ls[i as int];
        let acc2 = if trim(t).len() == 0 || rx(TRANSITION_RE@, t) {
            acc
        } else {
            match spec_character_name(t, next_line(ls, i as int)) {
                Some(n) => if acc.contains(n) {
                    acc
                } else {
                    acc.push(n)
                },
                None => acc,
            }
        };
        cast_from(ls, i + 1, acc2)
    }
}

pub open spec fn is_paren_line(t: Seq<char>) -> bool {
    t.len() > 0 && t[0] == '(' && t.last() == ')'
}

/// Estimated printed lines of `ls[i..]` added to `est`.
pub open spec fn est_from(ls: Seq<Seq<char>>, i: nat, est: nat, in_dlg: bool) -> nat
    decreases ls.len() - i,
{
    if i >= ls.len() {
        est
    } else {
        let t = trim(ls[i as int]);
        if t.len() == 0 {
            est_from(ls, i + 1, est, false)
        } else if spec_character_name(t, next_line(ls, i as int)) is Some {
            est_from(ls, i + 1, est + 2, true)
        } else if in_dlg {
            let k = if is_paren_line(t) {
                LineKind::Paren
            } else {
                LineKind::Dialogue
            };
            est_from(ls, i + 1, est + spec_est_lines(k, t), true)
        } else if rx(TRANSITION_RE@, t) {
            est_from(ls, i + 1, est + 2, false)
        } else {
            est_from(ls, i + 1, est + 1 + spec_est_lines(LineKind::Action, t), false)
        }
    }
}

/// Page eighths for an estimated line count (54 lines a page, rounded, at
/// least one).
pub open spec fn spec_eighths(lines: nat) -> u32 {
    let e = (8 * lines + 27) / 54;
    if e < 1 {
        1
    } else if e > u32::MAX {
        u32::MAX
    } else {
        e as u32
    }
}

/// The first action paragraph of `ls[i..]`, appended to `syn`.
pub open spec fn syn_from(ls: Seq<Seq<char>>, i: nat, syn: Seq<char>) -> Seq<char>
    decreases ls.len() - i,
{
    if i >= ls.len() {
        syn
    } else {
        let t = trim(ls[i as int]);
        if t.len() == 0 {
            if syn.len() > 0 {
                syn
            } else {
                syn_from(ls, i + 1, syn)
            }
        } else if spec_character_name(t, Some(seq!['x'])) is Some {
            syn
        } else if rx(TRANSITION_RE@, t) {
            syn_from(ls, i + 1, syn)
        } else {
            let s2 = (if syn.len() > 0 {
                syn.push(' ')
            } else {
                syn
            }) + t;
            if utf8_len(s2) > 220 {
                s2
            } else {
                syn_from(ls, i + 1, s2)
            }
        }
    }
}

pub open spec fn take_chars(s: Seq<char>, n: nat) -> Seq<char> {
    if s.len() <= n {
        s
    } else {
        s.take(n as int)
    }
}

/// A scene header completed with its text, characters, eighths and synopsis.
pub open spec fn spec_finalize(h: crate::model::SceneV, lines: Seq<Seq<char>>) -> crate::model::SceneV {
    let body = scene_body(lines);
    let ls = split_on(body, nl());
    crate::model::SceneV {
        text: body,
        characters: cast_from(ls, 0, seq![]),
        eighths: spec_eighths(est_from(ls, 0, 3, false)),
        synopsis: take_chars(syn_from(ls, 0, seq![]), 260),
        ..h
    }
}

pub open spec fn cr() -> Seq<char> {
    seq!['\r']
}

pub open spec fn crlf() -> Seq<char> {
    seq!['\r', '\n']
}

/// Line endings normalised, boneyard `/* */` and notes `[[ ]]` removed.
pub open spec fn spec_clean(text: Seq<char>) -> Seq<char> {
    let t1 = join(split_on(text, crlf()), nl());
    let t2 = join(split_on(t1, cr()), nl());
    regex_replace_all(NOTES_RE@, regex_replace_all(BONEYARD_RE@, t2, seq![]), seq![])
}

pub open spec fn not_mark(c: char) -> bool {
    c != '_' && c != '*'
}

pub open spec fn mark_pred() -> spec_fn(char) -> bool {
    |c: char| not_mark(c)
}

pub open spec fn strip_marks(s: Seq<char>) -> Seq<char> {
    s.filter(mark_pred())
}

/// Indented continuation lines after a title-page key.
pub open spec fn cont_scan(lines: Seq<Seq<char>>, i: nat, title: Seq<char>) -> (nat, Seq<char>)
    decreases lines.len() - i,
{
    if i < lines.len() && rx(CONTINUATION_RE@, lines[i as int]) {
        cont_scan(
            lines,
            i + 1,
            if title.len() == 0 {
                trim(lines[i as int])
            } else {
                title
            },
        )
    } else {
        (i, title)
    }
}

pub proof fn lemma_cont_scan(lines: Seq<Seq<char>>, i: nat, title: Seq<char>)
    ensures
        cont_scan(lines, i, title).0 >= i,
        i <= lines.len() ==> cont_scan(lines, i, title).0 <= lines.len(),
    decreases lines.len() - i,
{
    if i < lines.len() && rx(CONTINUATION_RE@, lines[i as int]) {
        lemma_cont_scan(
            lines,
            i + 1,
            if title.len() == 0 {
                trim(lines[i as int])
            } else {
                title
            },
        );
    }
}

pub open spec fn kv_title(c: Seq<Option<Seq<char>>>, title: Seq<char>) -> Seq<char> {
    match group(c, 1) {
        Some(k) => if crate::text::eq_icase(k, "title"@) {
            trim(strip_marks(or_empty(group(c, 2))))
        } else {
            title
        },
        None => title,
    }
}

/// Title-page `Key: value` lines; returns where the script starts and the title.
pub open spec fn title_scan(lines: Seq<Seq<char>>, i: nat, title: Seq<char>) -> (nat, Seq<char>)
    decreases lines.len() - i,
{
    if i >= lines.len() {
        (i, title)
    } else {
        match regex_captures(KV_RE@, lines[i as int]) {
            Some(c) => {
                let r = cont_scan(lines, i + 1, kv_title(c, title));
                proof {
                    lemma_cont_scan(lines, i + 1, kv_title(c, title));
                }
                title_scan(lines, r.0, r.1)
            },
            None => if trim(lines[i as int]).len() == 0 {
                (i + 1, title)
            } else {
                (i, title)
            },
        }
    }
}

/// `(title, script body)` of a cleaned Fountain text.
pub open spec fn spec_split_title(text: Seq<char>) -> (Seq<char>, Seq<char>) {
    let lines = split_on(text, nl());
    if lines.len() > 0 && rx(KV_RE@, lines[0]) {
        let r = title_scan(lines, 0, seq![]);
        (r.1, join(lines.skip(r.0 as int), nl()))
    } else {
        (seq![], join(lines, nl()))
    }
}

/// A scene heading on this line: its explicit number (if any) and its text.
pub open spec fn spec_heading(line: Seq<char>) -> Option<(Option<Seq<char>>, Seq<char>)> {
    match spec_forced_slug(line) {
        Some(st) => Some((None, st)),
        None => match regex_captures(SLUG_RE@, line) {
            Some(c) => if spec_all_upper(trim(line)) {
                Some((group(c, 1), trim(or_empty(group(c, 2)))))
            } else {
                None
            },
            None => None,
        },
    }
}

/// A trailing `#12A#` tag overrides the heading's number.
pub open spec fn spec_tagged(h: (Option<Seq<char>>, Seq<char>)) -> (Option<Seq<char>>, Seq<char>) {
    match regex_captures(SCENE_TAG_RE@, h.1) {
        Some(c) => (
            Some(or_empty(group(c, 1))),
            trim(regex_replace_first(SCENE_TAG_STRIP_RE@, h.1, seq![])),
        ),
        None => h,
    }
}

/// The `n`-th scene's header, before its body is read.
pub open spec fn spec_header(n: nat, exp: Option<Seq<char>>, st: Seq<char>) -> crate::model::SceneV {
    let sp = spec_parse_slugline(st);
    crate::model::SceneV {
        id: "sc-"@ + dec(n),
        num: match exp {
            Some(e) => e,
            None => dec(n),
        },
        slug: spec_slug(st),
        int_ext: sp.int_ext,
        location: sp.location,
        master: sp.master,
        sub: sp.sub,
        area: sp.area,
        tod: sp.tod,
        tod_bucket: spec_tod_bucket(sp.tod),
        eighths: 0,
        synopsis: seq![],
        text: seq![],
        characters: seq![],
    }
}

pub struct Scan {
    pub scenes: Seq<crate::model::SceneV>,
    pub cur: Option<(crate::model::SceneV, Seq<Seq<char>>)>,
    pub n: nat,
}

pub open spec fn flush(st: Scan) -> Seq<crate::model::SceneV> {
    match st.cur {
        Some(c) => st.scenes.push(spec_finalize(c.0, c.1)),
        None => st.scenes,
    }
}

pub open spec fn scan_step(st: Scan, line: Seq<char>) -> Scan {
    match spec_heading(line) {
        Some(h) => {
            let t = spec_tagged(h);
            Scan { scenes: flush(st), cur: Some((spec_header(st.n + 1, t.0, t.1), seq![])), n: st.n + 1 }
        },
        None => match st.cur {
            Some(c) => Scan { scenes: st.scenes, cur: Some((c.0, c.1.push(line))), n: st.n },
            None => st,
        },
    }
}

pub open spec fn scan_lines(lines: Seq<Seq<char>>, i: nat, st: Scan) -> Scan
    decreases lines.len() - i,
{
    if i >= lines.len() {
        st
    } else {
        scan_lines(lines, i + 1, scan_step(st, lines[i as int]))
    }
}

pub open spec fn needs_inherit(s: crate::model::SceneV) -> bool {
    (s.tod_bucket.len() == 0 || s.tod_bucket == "OTHER"@) && (s.tod.len() == 0 || rx(
        SAME_TIME_RE@,
        s.tod,
    ))
}

/// `CONTINUOUS` / `LATER` / untimed scenes inherit the previous scene's bucket.
pub open spec fn inherit_from(sc: Seq<crate::model::SceneV>, i: nat) -> Seq<crate::model::SceneV>
    decreases sc.len() - i,
{
    if i >= sc.len() || i == 0 {
        sc
    } else {
        let s = sc[i as int];
        let sc2 = if needs_inherit(s) {
            sc.update(i as int, crate::model::SceneV { tod_bucket: sc[i - 1].tod_bucket, ..s })
        } else {
            sc
        };
        inherit_from(sc2, i + 1)
    }
}

/// The whole breakdown of a Fountain / plain-text screenplay.
pub open spec fn spec_parse(text: Seq<char>) -> (Seq<char>, Seq<crate::model::SceneV>) {
    let tb = spec_split_title(spec_clean(text));
    let lines = split_on(tb.1, nl());
    let st = scan_lines(lines, 0, Scan { scenes: seq![], cur: None, n: 0 });
    (tb.0, inherit_from(flush(st), 1))
}

pub open spec fn opt_view(o: Option<Vec<char>>) -> Option<Seq<char>> {
    match o {
        Some(v) => Some(v@),
        None => None,
    }
}

pub open spec fn scenes_view(v: Seq<Scene>) -> Seq<crate::model::SceneV> {
    v.map_values(|s: Scene| s@)
}

// ---------------------------------------------------------------- exec layer

pub fn rx_match(pattern: &str, text: &Vec<char>) -> (r: bool)
    ensures
        r == rx(pattern@, text@),
{
    let s = string_of(text);
    match captures(pattern, s.as_str()) {
        Some(_) => true,
        None => false,
    }
}

pub fn rx_groups(pattern: &str, text: &Vec<char>) -> (r: Option<Vec<Option<String>>>)
    ensures
        r matches Some(v) ==> regex_captures(pattern@, text@) == Some(groups_view(v@)),
        r is None ==> regex_captures(pattern@, text@) is None,
{
    let s = string_of(text);
    captures(pattern, s.as_str())
}

pub fn group_vec(c: &Vec<Option<String>>, i: usize) -> (r: Vec<char>)
    ensures
        r@ == or_empty(group(groups_view(c@), i as int)),
{
    if i < c.len() {
        match &c[i] {
            Some(s) => chars_of(s.as_str()),
            None => Vec::new(),
        }
    } else {
        Vec::new()
    }
}

pub fn rx_replace_all(pattern: &str, text: &Vec<char>) -> (r: Vec<char>)
    ensures
        r@ == regex_replace_all(pattern@, text@, seq![]),
{
    let s = string_of(text);
    let out = replace_all(pattern, s.as_str(), "");
    proof {
        assert(""@ =~= Seq::<char>::empty()) by {
            reveal_strlit("");
        }
    }
    chars_of(out.as_str())
}

pub fn rx_replace_first(pattern: &str, text: &Vec<char>) -> (r: Vec<char>)
    ensures
        r@ == regex_replace_first(pattern@, text@, seq![]),
{
    let s = string_of(text);
    let out = replace_first(pattern, s.as_str(), "");
    proof {
        assert(""@ =~= Seq::<char>::empty()) by {
            reveal_strlit("");
        }
    }
    chars_of(out.as_str())
}

pub fn upper_unicode(s: &Vec<char>) -> (r: Vec<char>)
    ensures
        r@ == unicode_upper(s@),
{
    let st = string_of(s);
    let u = to_upper(st.as_str());
    chars_of(u.as_str())
}

pub fn quote_c(c: char) -> (r: char)
    ensures
        r == quote_char(c),
{
    let u = c as u32;
    if u == 0x2019 || u == 0x2018 {
        '\''
    } else if u == 0x201C || u == 0x201D {
        '"'
    } else if u == 0x2013 || u == 0x2014 {
        '-'
    } else {
        c
    }
}

pub fn norm_quotes_vec(s: &Vec<char>) -> (r: Vec<char>)
    ensures
        r@ == norm_quotes(s@),
{
    let mut out: Vec<char> = Vec::new();
    let mut i: usize = 0;
    while i < s.len()
        invariant
            i <= s.len(),
            out@ == norm_quotes(s@).take(i as int),
        decreases s.len() - i,
    {
        out.push(quote_c(s[i]));
        i += 1;
        assert(out@ =~= norm_quotes(s@).take(i as int));
    }
    assert(norm_quotes(s@).take(i as int) =~= norm_quotes(s@));
    out
}

/// Curly quotes and en/em dashes folded to ASCII.
pub fn norm_quotes_str(s: &str) -> (r: String)
    ensures
        r@ == norm_quotes(s@),
{
    string_of(&norm_quotes_vec(&chars_of(s)))
}

pub fn forced_slug(line: &Vec<char>) -> (r: Option<Vec<char>>)
    ensures
        r matches Some(v) ==> spec_forced_slug(line@) == Some(v@),
        r is None ==> spec_forced_slug(line@) is None,
{
    let t = trim_start_vec(line);
    if t.len() < 2 || t[0] != '.' {
        return None;
    }
    if t[1] == '.' || is_ws_char(t[1]) {
        return None;
    }
    let rest = sub_vec(&t, 1, t.len());
    assert(rest@ =~= t@.drop_first());
    Some(trim_vec(&rest))
}

pub fn is_all_upper(s: &Vec<char>) -> (r: bool)
    ensures
        r == spec_all_upper(s@),
{
    let mut any = false;
    let mut i: usize = 0;
    while i < s.len()
        invariant
            i <= s.len(),
            any == exists|j: int| 0 <= j < i && unicode_alphabetic(s@[j]),
            forall|j: int| 0 <= j < i && unicode_alphabetic(s@[j]) ==> unicode_uppercase(s@[j]),
        decreases s.len() - i,
    {
        if is_alphabetic(s[i]) {
            if !is_uppercase(s[i]) {
                return false;
            }
            any = true;
        }
        i += 1;
    }
    any
}

pub fn tod_bucket(tod: &Vec<char>) -> (r: Vec<char>)
    ensures
        r@ == spec_tod_bucket(tod@),
{
    let t = upper_unicode(tod);
    if rx_match(NIGHT_RE, &t) {
        chars_of("NIGHT")
    } else if rx_match(DAY_RE, &t) {
        chars_of("DAY")
    } else if rx_match(DUSK_RE, &t) {
        chars_of("DUSK")
    } else if rx_match(DAWN_RE, &t) {
        chars_of("DAWN")
    } else if tod.len() == 0 {
        Vec::new()
    } else {
        chars_of("OTHER")
    }
}

pub fn slug_text(st: &Vec<char>) -> (r: Vec<char>)
    ensures
        r@ == spec_slug(st@),
{
    let q = norm_quotes_vec(st);
    let c = collapse_ws_vec(&q);
    upper_unicode(&c)
}

pub fn dash_vec() -> (r: Vec<char>)
    ensures
        r@ == dash_sep(),
{
    let v: Vec<char> = vec![' ', '-', ' '];
    assert(v@ =~= dash_sep());
    v
}

/// Split on `" - "`, trim each part and drop the empty ones.
pub fn dash_parts(s: &Vec<char>) -> (r: Vec<Vec<char>>)
    ensures
        r.deep_view() == nonempty_trimmed(split_on(s@, dash_sep())),
{
    let parts = split_vec(s, &dash_vec());
    let ghost pv = parts.deep_view();
    let mut out: Vec<Vec<char>> = Vec::new();
    let mut i: usize = 0;
    while i < parts.len()
        invariant
            i <= parts.len(),
            pv == parts.deep_view(),
            out.deep_view() == nonempty_trimmed(pv.take(i as int)),
        decreases parts.len() - i,
    {
        let t = trim_vec(&parts[i]);
        let ghost prev = pv.take(i as int).map_values(trim_fn());
        let ghost m = pv.take(i + 1).map_values(trim_fn());
        proof {
            assert(m.drop_last() =~= prev);
            assert(parts[i as int]@ == pv[i as int]);
            assert(m.last() == t@);
            assert(m =~= prev.push(t@));
            prev.lemma_filter_push(t@, nonempty_fn());
            assert(m.filter(nonempty_fn()) == if t@.len() > 0 {
                prev.filter(nonempty_fn()).push(t@)
            } else {
                prev.filter(nonempty_fn())
            });
        }
        if t.len() > 0 {
            push_piece(&mut out, t);
        }
        i += 1;
    }
    assert(pv.take(i as int) =~= pv);
    out
}

pub fn peel_tod_exec(parts: Vec<Vec<char>>) -> (r: (Vec<Vec<char>>, Vec<Vec<char>>))
    ensures
        (r.0.deep_view(), r.1.deep_view()) == peel_tod(parts.deep_view(), seq![]),
{
    let mut ps = parts;
    let mut tods: Vec<Vec<char>> = Vec::new();
    let ghost orig = ps.deep_view();
    assert(tods.deep_view() =~= Seq::<Seq<char>>::empty());
    loop
        invariant
            orig == parts.deep_view(),
            peel_tod(orig, seq![]) == peel_tod(ps.deep_view(), tods.deep_view()),
        decreases ps.len(),
    {
        if ps.len() <= 1 {
            assert(peel_tod(ps.deep_view(), tods.deep_view()) == (ps.deep_view(), tods.deep_view()));
            return (ps, tods);
        }
        let last_i = ps.len() - 1;
        let last = trim_end_char_vec(&ps[last_i], '.');
        assert(ps.deep_view().last() == ps[last_i as int]@);
        if !rx_match(TOD_RE, &last) {
            assert(peel_tod(ps.deep_view(), tods.deep_view()) == (ps.deep_view(), tods.deep_view()));
            return (ps, tods);
        }
        let ghost before_ps = ps.deep_view();
        let ghost before_t = tods.deep_view();
        assert(before_ps.len() > 1);
        let mut nt: Vec<Vec<char>> = Vec::new();
        assert(nt.deep_view() =~= Seq::<Seq<char>>::empty());
        push_piece(&mut nt, last);
        assert(before_t.take(0) =~= Seq::<Seq<char>>::empty());
        assert(nt.deep_view() =~= seq![trim_end_char(before_ps.last(), '.')] + before_t.take(0));
        let mut k: usize = 0;
        while k < tods.len()
            invariant
                k <= tods.len(),
                tods.deep_view() == before_t,
                nt.deep_view() == seq![trim_end_char(before_ps.last(), '.')] + before_t.take(
                    k as int,
                ),
            decreases tods.len() - k,
        {
            let piece = sub_vec(&tods[k], 0, tods[k].len());
            assert(piece@ =~= tods[k as int]@);
            assert(before_t[k as int] == tods[k as int]@);
            push_piece(&mut nt, piece);
            k += 1;
            assert(before_t.take(k as int) =~= before_t.take(k - 1).push(before_t[k - 1]));
            assert(nt.deep_view() =~= seq![trim_end_char(before_ps.last(), '.')] + before_t.take(
                k as int,
            ));
        }
        assert(before_t.take(k as int) =~= before_t);
        tods = nt;
        let ghost pre_pop = ps@;
        ps.pop();
        proof {
            assert(ps@ =~= pre_pop.drop_last());
            assert(ps.deep_view() =~= before_ps.drop_last());
        }
    }
}

/// The pieces of a scene heading.
pub struct Slugline {
    pub int_ext: Vec<char>,
    pub location: Vec<char>,
    pub master: Vec<char>,
    pub sub: Vec<char>,
    pub area: Vec<char>,
    pub tod: Vec<char>,
}

impl Slugline {
    pub open spec fn view(&self) -> SlugParts {
        SlugParts {
            int_ext: self.int_ext@,
            location: self.location@,
            master: self.master@,
            sub: self.sub@,
            area: self.area@,
            tod: self.tod@,
        }
    }
}

pub fn int_ext_of(slug: &Vec<char>) -> (r: Vec<char>)
    ensures
        r@ == spec_int_ext(slug@),
{
    if rx_match(INT_EXT_RE, slug) {
        chars_of("INT/EXT")
    } else if starts_with_vec(slug, &chars_of("EXT")) || starts_with_vec(slug, &chars_of("EST")) {
        chars_of("EXT")
    } else {
        chars_of("INT")
    }
}

/// Location and time of day of a heading, before the area is lifted out.
pub fn loc_and_tod(st: &Vec<char>) -> (r: (Vec<char>, Vec<char>))
    ensures
        r.0@ == spec_loc_full(st@),
        r.1@ == spec_tod(st@),
{
    let slug = slug_text(st);
    let rest = rx_replace_first(SLUG_PREFIX_RE, &slug);
    let parts = dash_parts(&rest);
    let (loc_parts0, tod_parts) = peel_tod_exec(parts);
    let tod = join_vecs(&tod_parts, &dash_vec());
    let joined = join_vecs(&loc_parts0, &dash_vec());
    let loc_full = trim_vec(&trim_end_char_vec(&joined, '.'));
    (loc_full, tod)
}

/// The `(area)` of a location, and the location without it.
pub fn area_and_location(loc_full: Vec<char>) -> (r: (Vec<char>, Vec<char>))
    ensures
        r.0@ == spec_area(loc_full@),
        r.1@ == spec_location(loc_full@),
{
    match rx_groups(AREA_RE, &loc_full) {
        Some(c) => {
            let a = trim_vec(&group_vec(&c, 1));
            let stripped = rx_replace_all(AREA_RE, &loc_full);
            (a, collapse_ws_vec(&stripped))
        },
        None => (Vec::new(), loc_full),
    }
}

/// First location part, and the rest joined by `" - "`.
pub fn master_and_sub(location: &Vec<char>) -> (r: (Vec<char>, Vec<char>))
    ensures
        ({
            let lp = nonempty_trimmed(split_on(location@, dash_sep()));
            &&& r.0@ == (if lp.len() > 0 {
                lp[0]
            } else {
                seq![]
            })
            &&& r.1@ == (if lp.len() > 0 {
                join(lp.skip(1), dash_sep())
            } else {
                seq![]
            })
        }),
{
    let loc_parts = dash_parts(location);
    let master = if loc_parts.len() > 0 {
        sub_vec(&loc_parts[0], 0, loc_parts[0].len())
    } else {
        Vec::new()
    };
    if loc_parts.len() == 0 {
        return (master, Vec::new());
    }
    assert(master@ =~= loc_parts.deep_view()[0]);
    let rest_parts = crate::text::pieces_from(&loc_parts, 1);
    let sub = join_vecs(&rest_parts, &dash_vec());
    (master, sub)
}

/// Splits a scene heading into INT/EXT, location, master/sub, area and time.
pub fn parse_slugline(st: &Vec<char>) -> (r: Slugline)
    ensures
        r.view() == spec_parse_slugline(st@),
{
    let slug = slug_text(st);
    let int_ext = int_ext_of(&slug);
    let (loc_full, tod) = loc_and_tod(st);
    let (area, location) = area_and_location(loc_full);
    let (master, sub) = master_and_sub(&location);
    Slugline { int_ext, location, master, sub, area, tod }
}

pub fn ceil_div_u128(a: u128, b: u128) -> (r: u128)
    requires
        0 < b <= 64,
        a <= 0x1_0000_0000_0000_0000_0000,
    ensures
        r as nat == ceil_div(a as nat, b as nat),
        r <= a,
{
    let r = (a + b - 1) / b;
    assert(r <= a) by (nonlinear_arith)
        requires
            r as int == (a + b - 1) as int / b as int,
            0 < b,
            a >= 0,
    {
        assert(r * b <= a + b - 1);
        if r > a {
            assert(r >= a + 1);
            assert(r * b >= (a + 1) * b);
        }
    }
    r
}

pub fn est_lines(kind: LineKind, text: &Vec<char>) -> (r: u128)
    ensures
        r as nat == spec_est_lines(kind, text@),
        r <= 0x1_0000_0000_0000_0000_0000,
{
    let t = trim_vec(&norm_quotes_vec(text));
    let len = utf8_len_vec(&t);
    if len == 0 {
        return 0;
    }
    match kind {
        LineKind::Slug | LineKind::Character | LineKind::Transition => 1,
        LineKind::Dialogue => ceil_div_u128(len, 34),
        LineKind::Paren => ceil_div_u128(len, 32),
        LineKind::Action => ceil_div_u128(len, 58),
    }
}

pub fn rx_replace_all_with(pattern: &str, text: &Vec<char>, rep: &str) -> (r: Vec<char>)
    ensures
        r@ == regex_replace_all(pattern@, text@, rep@),
{
    let s = string_of(text);
    let out = replace_all(pattern, s.as_str(), rep);
    chars_of(out.as_str())
}

pub fn strip_char_ext(name: &Vec<char>) -> (r: Vec<char>)
    ensures
        r@ == spec_strip_char_ext(name@),
{
    let s1 = rx_replace_all(PAREN_RE, &norm_quotes_vec(name));
    let s2 = rx_replace_first(OPEN_PAREN_RE, &s1);
    let s3 = rx_replace_first(CARET_RE, &s2);
    let s4 = rx_replace_all_with(HONORIFIC_RE, &s3, "$1");
    upper_unicode(&collapse_ws_vec(&s4))
}

pub fn character_name(line: &Vec<char>, next: Option<&Vec<char>>) -> (r: Option<Vec<char>>)
    ensures
        r matches Some(v) ==> spec_character_name(
            line@,
            match next {
                Some(n) => Some(n@),
                None => None,
            },
        ) == Some(v@),
        r is None ==> spec_character_name(
            line@,
            match next {
                Some(n) => Some(n@),
                None => None,
            },
        ) is None,
{
    let t = trim_vec(line);
    if t.len() == 0 || rx_match(TRANSITION_RE, &t) {
        return None;
    }
    let next_ok = match next {
        Some(n) => trim_vec(n).len() > 0,
        None => false,
    };
    if !next_ok {
        return None;
    }
    let c = match rx_groups(CHARACTER_RE, &t) {
        Some(c) => c,
        None => return None,
    };
    let name = strip_char_ext(&group_vec(&c, 2));
    if utf8_len_vec(&name) < 2 || rx_match(RESERVED_RE, &name) {
        None
    } else {
        Some(name)
    }
}

pub fn next_line_of(ls: &Vec<Vec<char>>, i: usize) -> (r: Option<&Vec<char>>)
    requires
        i < ls.len(),
    ensures
        match r {
            Some(n) => next_line(ls.deep_view(), i as int) == Some(n@),
            None => next_line(ls.deep_view(), i as int) is None,
        },
{
    if i + 1 < ls.len() {
        Some(&ls[i + 1])
    } else {
        None
    }
}

pub fn contains_piece(acc: &Vec<Vec<char>>, n: &Vec<char>) -> (r: bool)
    ensures
        r == acc.deep_view().contains(n@),
{
    let mut i: usize = 0;
    while i < acc.len()
        invariant
            i <= acc.len(),
            forall|j: int| 0 <= j < i ==> acc.deep_view()[j] != n@,
        decreases acc.len() - i,
    {
        assert(acc.deep_view()[i as int] == acc[i as int]@);
        if seq_eq(&acc[i], n) {
            return true;
        }
        i += 1;
    }
    false
}

/// Speaking characters of a scene body, in order of first cue.
pub fn cast_names(ls: &Vec<Vec<char>>) -> (r: Vec<Vec<char>>)
    ensures
        r.deep_view() == cast_from(ls.deep_view(), 0, seq![]),
{
    let ghost lv = ls.deep_view();
    let mut acc: Vec<Vec<char>> = Vec::new();
    let mut i: usize = 0;
    assert(acc.deep_view() =~= Seq::<Seq<char>>::empty());
    while i < ls.len()
        invariant
            i <= ls.len(),
            lv == ls.deep_view(),
            cast_from(lv, 0, seq![]) == cast_from(lv, i as nat, acc.deep_view()),
        decreases ls.len() - i,
    {
        let t = &ls[i];
        assert(lv[i as int] == t@);
        if trim_vec(t).len() == 0 || rx_match(TRANSITION_RE, t) {
        } else {
            match character_name(t, next_line_of(ls, i)) {
                Some(n) => {
                    if !contains_piece(&acc, &n) {
                        push_piece(&mut acc, n);
                    }
                },
                None => {},
            }
        }
        i += 1;
    }
    acc
}

pub fn ends_paren(t: &Vec<char>) -> (r: bool)
    ensures
        r == is_paren_line(t@),
{
    t.len() > 0 && t[0] == '(' && t[t.len() - 1] == ')'
}

/// Page eighths of a scene body.
pub fn scene_eighths(ls: &Vec<Vec<char>>) -> (r: u32)
    ensures
        r == spec_eighths(est_from(ls.deep_view(), 0, 3, false)),
{
    let ghost lv = ls.deep_view();
    let mut est: u128 = 3;
    let ghost mut acc_lines: nat = 3;
    let mut in_dlg = false;
    let mut i: usize = 0;
    let cap: u128 = 0xFFFF_FFFF_FFFF_FFFF_FFFF_FFFF_FFFF_FFFF;
    while i < ls.len()
        invariant
            i <= ls.len(),
            lv == ls.deep_view(),
            est_from(lv, 0, 3, false) == est_from(lv, i as nat, acc_lines, in_dlg),
            est as nat == if acc_lines > cap { cap as nat } else { acc_lines },
            cap == 0xFFFF_FFFF_FFFF_FFFF_FFFF_FFFF_FFFF_FFFF,
        decreases ls.len() - i,
    {
        let t = trim_vec(&ls[i]);
        assert(lv[i as int] == ls[i as int]@);
        let add: u128;
        if t.len() == 0 {
            add = 0;
            in_dlg = false;
        } else if character_name(&t, next_line_of(ls, i)).is_some() {
            add = 2;
            in_dlg = true;
        } else if in_dlg {
            let k = if ends_paren(&t) {
                LineKind::Paren
            } else {
                LineKind::Dialogue
            };
            add = est_lines(k, &t);
        } else if rx_match(TRANSITION_RE, &t) {
            add = 2;
        } else {
            add = 1 + est_lines(LineKind::Action, &t);
        }
        proof {
            acc_lines = acc_lines + add as nat;
        }
        est = est.saturating_add(add);
        i += 1;
    }
    if est > 0x1_0000_0000_0000_0000_0000_0000 {
        return 0xFFFF_FFFF;
    }
    let e = (8 * est + 27) / 54;
    if e < 1 {
        1
    } else if e > 0xFFFF_FFFF {
        0xFFFF_FFFF
    } else {
        e as u32
    }
}

/// The first action paragraph of a scene body (at most 260 characters).
pub fn scene_synopsis(ls: &Vec<Vec<char>>) -> (r: Vec<char>)
    ensures
        r@ == take_chars(syn_from(ls.deep_view(), 0, seq![]), 260),
{
    let ghost lv = ls.deep_view();
    let mut syn: Vec<char> = Vec::new();
    let x: Vec<char> = vec!['x'];
    assert(x@ =~= seq!['x']);
    let mut i: usize = 0;
    let mut done = false;
    assert(syn@ =~= Seq::<char>::empty());
    while i < ls.len() && !done
        invariant
            i <= ls.len(),
            lv == ls.deep_view(),
            x@ == seq!['x'],
            done ==> syn_from(lv, 0, seq![]) == syn@,
            !done ==> syn_from(lv, 0, seq![]) == syn_from(lv, i as nat, syn@),
        decreases ls.len() - i,
    {
        let t = trim_vec(&ls[i]);
        assert(lv[i as int] == ls[i as int]@);
        if t.len() == 0 {
            if syn.len() > 0 {
                done = true;
            }
        } else if character_name(&t, Some(&x)).is_some() {
            done = true;
        } else if rx_match(TRANSITION_RE, &t) {
        } else {
            if syn.len() > 0 {
                syn.push(' ');
            }
            append_vec(&mut syn, &t);
            if utf8_len_vec(&syn) > 220 {
                done = true;
            }
        }
        i += 1;
    }
    if syn.len() <= 260 {
        syn
    } else {
        sub_vec(&syn, 0, 260)
    }
}

pub fn nl_vec() -> (r: Vec<char>)
    ensures
        r@ == nl(),
{
    let v: Vec<char> = vec!['\n'];
    assert(v@ =~= nl());
    v
}

/// Completes a scene header with its text, characters, eighths and synopsis.
pub fn finalize_scene(sc: Scene, lines: &Vec<Vec<char>>) -> (r: Scene)
    ensures
        r@ == spec_finalize(sc@, lines.deep_view()),
{
    let joined = join_vecs(lines, &nl_vec());
    let body = trim_end_char_vec(&crate::text::trim_start_char_vec(&joined, '\n'), '\n');
    let ls = split_vec(&body, &nl_vec());
    let characters = cast_names(&ls);
    let eighths = scene_eighths(&ls);
    let synopsis = scene_synopsis(&ls);
    let r = Scene {
        text: string_of(&body),
        characters: strings_of(&characters),
        eighths,
        synopsis: string_of(&synopsis),
        ..sc
    };
    r
}

pub fn strings_of(v: &Vec<Vec<char>>) -> (r: Vec<String>)
    ensures
        r.deep_view() == v.deep_view(),
{
    let mut out: Vec<String> = Vec::new();
    let mut i: usize = 0;
    while i < v.len()
        invariant
            i <= v.len(),
            out.deep_view() == v.deep_view().take(i as int),
            out@.len() == i,
        decreases v.len() - i,
    {
        let ghost pre = out@;
        assert(v.deep_view()[i as int] == v[i as int]@);
        let ghost pre_d = out.deep_view();
        let st = string_of(&v[i]);
        out.push(st);
        proof {
            assert(out@ == pre.push(st));
            assert forall|j: int| 0 <= j <= i implies out.deep_view()[j] == pre_d.push(
                v[i as int]@,
            )[j] by {
                if j < i {
                    assert(out@[j] == pre[j]);
                }
            }
            assert(out.deep_view() =~= pre_d.push(v[i as int]@));
            assert(v.deep_view().take(i + 1) =~= v.deep_view().take(i as int).push(
                v[i as int]@,
            ));
        }
        i += 1;
    }
    assert(v.deep_view().take(i as int) =~= v.deep_view());
    out
}

pub fn replace_seq(s: &Vec<char>, p: &Vec<char>, r: &Vec<char>) -> (out: Vec<char>)
    requires
        p.len() > 0,
    ensures
        out@ == join(split_on(s@, p@), r@),
{
    let parts = split_vec(s, p);
    join_vecs(&parts, r)
}

/// Line endings normalised, boneyard and notes removed.
pub fn clean_fountain(text: &Vec<char>) -> (r: Vec<char>)
    ensures
        r@ == spec_clean(text@),
{
    let crlf_v: Vec<char> = vec!['\r', '\n'];
    assert(crlf_v@ =~= crlf());
    let cr_v: Vec<char> = vec!['\r'];
    assert(cr_v@ =~= cr());
    let t1 = replace_seq(text, &crlf_v, &nl_vec());
    let t2 = replace_seq(&t1, &cr_v, &nl_vec());
    let t3 = rx_replace_all(BONEYARD_RE, &t2);
    rx_replace_all(NOTES_RE, &t3)
}

pub fn strip_marks_vec(s: &Vec<char>) -> (r: Vec<char>)
    ensures
        r@ == strip_marks(s@),
{
    let mut out: Vec<char> = Vec::new();
    let mut i: usize = 0;
    assert(s@.take(0).filter(mark_pred()) =~= Seq::<char>::empty());
    while i < s.len()
        invariant
            i <= s.len(),
            out@ == s@.take(i as int).filter(mark_pred()),
        decreases s.len() - i,
    {
        let c = s[i];
        proof {
            assert(s@.take(i + 1).drop_last() =~= s@.take(i as int));
            assert(s@.take(i + 1) =~= s@.take(i as int).push(c));
            s@.take(i as int).lemma_filter_push(c, mark_pred());
            assert(mark_pred()(c) == not_mark(c));
            assert(s@.take(i + 1).filter(mark_pred()) == if not_mark(c) {
                s@.take(i as int).filter(mark_pred()).push(c)
            } else {
                s@.take(i as int).filter(mark_pred())
            });
        }
        if c != '_' && c != '*' {
            out.push(c);
        }
        i += 1;
    }
    assert(s@.take(i as int) =~= s@);
    out
}

/// `(title, script body)` of a cleaned Fountain text.
pub fn split_title_page(text: &Vec<char>) -> (r: (Vec<char>, Vec<char>))
    ensures
        (r.0@, r.1@) == spec_split_title(text@),
{
    let lines = split_vec(text, &nl_vec());
    let ghost lv = lines.deep_view();
    assert(lines.len() > 0 ==> lv[0] == lines[0]@);
    if lines.len() == 0 || !rx_match(KV_RE, &lines[0]) {
        let empty: Vec<char> = Vec::new();
        assert(empty@ =~= Seq::<char>::empty());
        return (empty, join_vecs(&lines, &nl_vec()));
    }
    let mut i: usize = 0;
    let mut title: Vec<char> = Vec::new();
    let mut done = false;
    assert(title@ =~= Seq::<char>::empty());
    while !done && i < lines.len()
        invariant
            i <= lines.len(),
            lv == lines.deep_view(),
            lines.len() > 0,
            done ==> title_scan(lv, 0, seq![]) == (i as nat, title@),
            !done ==> title_scan(lv, 0, seq![]) == title_scan(lv, i as nat, title@),
        decreases lines.len() - i + (if done {
            0int
        } else {
            1int
        }),
    {
        assert(lv[i as int] == lines[i as int]@);
        match rx_groups(KV_RE, &lines[i]) {
            Some(c) => {
                let ghost cv = groups_view(c@);
                let mut t2 = Vec::new();
                let mut set = false;
                if 1 < c.len() {
                    match &c[1] {
                        Some(k) => {
                            let kv = chars_of(k.as_str());
                            let want = chars_of("title");
                            if crate::text::eq_icase_vec(&kv, &want) {
                                t2 = trim_vec(&strip_marks_vec(&group_vec(&c, 2)));
                                set = true;
                            }
                        },
                        None => {},
                    }
                }
                if !set {
                    t2 = title;
                }
                assert(t2@ == kv_title(cv, title@));
                let mut j = i + 1;
                proof {
                    lemma_cont_scan(lv, (i + 1) as nat, t2@);
                }
                while j < lines.len() && rx_match(CONTINUATION_RE, &lines[j])
                    invariant
                        i < j <= lines.len(),
                        lv == lines.deep_view(),
                        cont_scan(lv, (i + 1) as nat, kv_title(cv, title@)) == cont_scan(
                            lv,
                            j as nat,
                            t2@,
                        ),
                    decreases lines.len() - j,
                {
                    assert(lv[j as int] == lines[j as int]@);
                    if t2.len() == 0 {
                        t2 = trim_vec(&lines[j]);
                    }
                    j += 1;
                }
                assert(j < lines.len() ==> lv[j as int] == lines[j as int]@);
                i = j;
                title = t2;
            },
            None => {
                if trim_vec(&lines[i]).len() == 0 {
                    i += 1;
                }
                done = true;
            },
        }
    }
    let rest = crate::text::pieces_from(&lines, i);
    (title, join_vecs(&rest, &nl_vec()))
}

pub fn opt_vec(o: &Option<String>) -> (r: Option<Vec<char>>)
    ensures
        match (o, r) {
            (Some(s), Some(v)) => v@ == s@,
            (None, None) => true,
            _ => false,
        },
{
    match o {
        Some(s) => Some(chars_of(s.as_str())),
        None => None,
    }
}

/// A scene heading on this line: its explicit number (if any) and its text.
pub fn heading(line: &Vec<char>) -> (r: Option<(Option<Vec<char>>, Vec<char>)>)
    ensures
        match r {
            Some(h) => spec_heading(line@) == Some((opt_view(h.0), h.1@)),
            None => spec_heading(line@) is None,
        },
{
    match forced_slug(line) {
        Some(st) => Some((None, st)),
        None => match rx_groups(SLUG_RE, line) {
            Some(c) => {
                if is_all_upper(&trim_vec(line)) {
                    let num = if 1 < c.len() {
                        opt_vec(&c[1])
                    } else {
                        None
                    };
                    Some((num, trim_vec(&group_vec(&c, 2))))
                } else {
                    None
                }
            },
            None => None,
        },
    }
}

/// Applies a trailing `#12A#` scene-number tag.
pub fn tagged(h: (Option<Vec<char>>, Vec<char>)) -> (r: (Option<Vec<char>>, Vec<char>))
    ensures
        (opt_view(r.0), r.1@) == spec_tagged((opt_view(h.0), h.1@)),
{
    match rx_groups(SCENE_TAG_RE, &h.1) {
        Some(c) => {
            let num = group_vec(&c, 1);
            let st = trim_vec(&rx_replace_first(SCENE_TAG_STRIP_RE, &h.1));
            (Some(num), st)
        },
        None => h,
    }
}

pub fn cat(a: Vec<char>, b: &Vec<char>) -> (r: Vec<char>)
    ensures
        r@ == a@ + b@,
{
    let mut a = a;
    append_vec(&mut a, b);
    a
}

/// The `n`-th scene's header, before its body is read.
pub fn scene_header(n: u64, exp: Option<Vec<char>>, st: &Vec<char>) -> (r: Scene)
    ensures
        r@ == spec_header(n as nat, opt_view(exp), st@),
{
    let sp = parse_slugline(st);
    let num_v = dec_vec(n);
    let id = cat(chars_of("sc-"), &num_v);
    let num = match exp {
        Some(e) => e,
        None => num_v,
    };
    let bucket = tod_bucket(&sp.tod);
    let sc = Scene {
        id: string_of(&id),
        num: string_of(&num),
        slug: string_of(&slug_text(st)),
        int_ext: string_of(&sp.int_ext),
        location: string_of(&sp.location),
        master: string_of(&sp.master),
        sub: string_of(&sp.sub),
        area: string_of(&sp.area),
        tod: string_of(&sp.tod),
        tod_bucket: string_of(&bucket),
        eighths: 0,
        synopsis: String::new(),
        text: String::new(),
        characters: Vec::new(),
    };
    assert(sc.characters.deep_view() =~= Seq::<Seq<char>>::empty());
    sc
}

pub fn push_scene(out: &mut Vec<Scene>, s: Scene)
    ensures
        scenes_view(final(out)@) == scenes_view(old(out)@).push(s@),
        final(out)@.len() == old(out)@.len() + 1,
{
    let ghost pre = out@;
    let ghost sv = s@;
    out.push(s);
    assert(scenes_view(out@) =~= scenes_view(pre).push(sv));
}

pub open spec fn cur_view(cur: Option<(Scene, Vec<Vec<char>>)>) -> Option<
    (crate::model::SceneV, Seq<Seq<char>>),
> {
    match cur {
        Some(c) => Some((c.0@, c.1.deep_view())),
        None => None,
    }
}

/// Reads the script lines into scenes (before time-of-day inheritance).
pub fn scan_scenes(lines: &Vec<Vec<char>>) -> (r: Vec<Scene>)
    ensures
        scenes_view(r@) == flush(scan_lines(lines.deep_view(), 0, Scan { scenes: seq![], cur: None, n: 0 })),
{
    let ghost lv = lines.deep_view();
    let mut scenes: Vec<Scene> = Vec::new();
    let mut cur: Option<(Scene, Vec<Vec<char>>)> = None;
    let mut n: u64 = 0;
    let mut i: usize = 0;
    assert(scenes_view(scenes@) =~= Seq::<crate::model::SceneV>::empty());
    while i < lines.len()
        invariant
            i <= lines.len(),
            n <= i,
            lv == lines.deep_view(),
            scan_lines(lv, 0, Scan { scenes: seq![], cur: None, n: 0 }) == scan_lines(
                lv,
                i as nat,
                Scan { scenes: scenes_view(scenes@), cur: cur_view(cur), n: n as nat },
            ),
        decreases lines.len() - i,
    {
        let line = &lines[i];
        assert(lv[i as int] == line@);
        let ghost st0 = Scan { scenes: scenes_view(scenes@), cur: cur_view(cur), n: n as nat };
        match heading(line) {
            Some(h) => {
                let t = tagged(h);
                match cur {
                    Some(c) => {
                        let done = finalize_scene(c.0, &c.1);
                        push_scene(&mut scenes, done);
                    },
                    None => {},
                }
                assert(scenes_view(scenes@) == flush(st0));
                n = n + 1;
                let hd = scene_header(n, t.0, &t.1);
                let empty: Vec<Vec<char>> = Vec::new();
                assert(empty.deep_view() =~= Seq::<Seq<char>>::empty());
                cur = Some((hd, empty));
            },
            None => {
                match cur {
                    Some(c) => {
                        let (h, mut ls) = c;
                        let piece = sub_vec(line, 0, line.len());
                        assert(piece@ =~= line@);
                        push_piece(&mut ls, piece);
                        cur = Some((h, ls));
                    },
                    None => {
                        cur = None;
                    },
                }
            },
        }
        i += 1;
    }
    match cur {
        Some(c) => {
            let done = finalize_scene(c.0, &c.1);
            push_scene(&mut scenes, done);
        },
        None => {},
    }
    scenes
}

pub fn copy_vec(v: &Vec<char>) -> (r: Vec<char>)
    ensures
        r@ == v@,
{
    sub_vec(v, 0, v.len())
}

pub fn copy_strings(v: &Vec<String>) -> (r: Vec<String>)
    ensures
        r.deep_view() == v.deep_view(),
{
    let mut out: Vec<String> = Vec::new();
    let mut i: usize = 0;
    while i < v.len()
        invariant
            i <= v.len(),
            out.deep_view() == v.deep_view().take(i as int),
            out@.len() == i,
        decreases v.len() - i,
    {
        let ghost pre = out@;
        let ghost pre_d = out.deep_view();
        let st = v[i].clone();
        assert(v.deep_view()[i as int] == v[i as int]@);
        out.push(st);
        proof {
            assert forall|j: int| 0 <= j <= i implies out.deep_view()[j] == pre_d.push(
                v[i as int]@,
            )[j] by {
                if j < i {
                    assert(out@[j] == pre[j]);
                }
            }
            assert(out.deep_view() =~= pre_d.push(v[i as int]@));
            assert(v.deep_view().take(i + 1) =~= v.deep_view().take(i as int).push(
                v[i as int]@,
            ));
        }
        i += 1;
    }
    assert(v.deep_view().take(i as int) =~= v.deep_view());
    out
}

/// A field-by-field copy of a scene with another time-of-day bucket.
pub fn scene_with_bucket(s: &Scene, bucket: String) -> (r: Scene)
    ensures
        r@ == (crate::model::SceneV { tod_bucket: bucket@, ..s@ }),
{
    Scene {
        id: s.id.clone(),
        num: s.num.clone(),
        slug: s.slug.clone(),
        int_ext: s.int_ext.clone(),
        location: s.location.clone(),
        master: s.master.clone(),
        sub: s.sub.clone(),
        area: s.area.clone(),
        tod: s.tod.clone(),
        tod_bucket: bucket,
        eighths: s.eighths,
        synopsis: s.synopsis.clone(),
        text: s.text.clone(),
        characters: copy_strings(&s.characters),
    }
}

pub fn needs_inherit_exec(s: &Scene) -> (r: bool)
    ensures
        r == needs_inherit(s@),
{
    let b = chars_of(s.tod_bucket.as_str());
    let t = chars_of(s.tod.as_str());
    let other = chars_of("OTHER");
    (b.len() == 0 || seq_eq(&b, &other)) && (t.len() == 0 || rx_match(SAME_TIME_RE, &t))
}

/// Untimed / `CONTINUOUS` scenes inherit the previous scene's time-of-day bucket.
pub fn inherit_buckets(scenes: Vec<Scene>) -> (r: Vec<Scene>)
    ensures
        scenes_view(r@) == inherit_from(scenes_view(scenes@), 1),
{
    if scenes.len() == 0 {
        return scenes;
    }
    let ghost sv0 = scenes_view(scenes@);
    let mut out: Vec<Scene> = Vec::new();
    let first = scene_with_bucket(&scenes[0], scenes[0].tod_bucket.clone());
    push_scene(&mut out, first);
    assert(out@.len() == 1);
    let mut i: usize = 1;
    let ghost mut cur_seq = sv0;
    assert(scenes_view(out@) =~= cur_seq.take(1));
    while i < scenes.len()
        invariant
            1 <= i <= scenes.len(),
            sv0 == scenes_view(scenes@),
            cur_seq.len() == sv0.len(),
            inherit_from(sv0, 1) == inherit_from(cur_seq, i as nat),
            forall|j: int| i <= j < sv0.len() ==> cur_seq[j] == sv0[j],
            scenes_view(out@) == cur_seq.take(i as int),
            out@.len() == i,
        decreases scenes.len() - i,
    {
        let s = &scenes[i];
        assert(sv0[i as int] == s@);
        let prev_bucket = out[i - 1].tod_bucket.clone();
        assert(scenes_view(out@)[i - 1] == out@[i - 1]@);
        let next = if needs_inherit_exec(s) {
            scene_with_bucket(s, prev_bucket)
        } else {
            scene_with_bucket(s, s.tod_bucket.clone())
        };
        proof {
            if needs_inherit(s@) {
                cur_seq = cur_seq.update(i as int, crate::model::SceneV { tod_bucket: cur_seq[i - 1].tod_bucket, ..cur_seq[i as int] });
            }
        }
        push_scene(&mut out, next);
        i += 1;
        assert(scenes_view(out@) =~= cur_seq.take(i as int));
    }
    assert(cur_seq.take(i as int) =~= cur_seq);
    out
}

#[derive(Debug, Clone)]
pub struct ParsedScript {
    pub title: String,
    pub scenes: Vec<Scene>,
}

/// Breaks a Fountain / plain-text screenplay into scenes. `filename` is
/// accepted for the caller's record only.
pub fn parse_script(text: &str, filename: Option<&str>) -> (r: ParsedScript)
    ensures
        (r.title@, scenes_view(r.scenes@)) == spec_parse(text@),
{
    let _ = filename;
    let cleaned = clean_fountain(&chars_of(text));
    let (title, body) = split_title_page(&cleaned);
    let lines = split_vec(&body, &nl_vec());
    let scenes = scan_scenes(&lines);
    let scenes = inherit_buckets(scenes);
    ParsedScript { title: string_of(&title), scenes }
}

// ---------------------------------------------------------------- ScriptBreak

/// The text of a string value, else empty.
pub open spec fn str_or_empty(v: Option<Json>) -> Seq<char> {
    match text_of(v) {
        Some(s) => s,
        None => seq![],
    }
}

/// A whole number (`Value::as_u64`): a number written with digits only.
pub open spec fn json_u64(v: Option<Json>) -> Option<nat> {
    match v {
        Some(Json::Number(t)) => if t@.len() > 0 && crate::text::all_digits(t@)
            && crate::text::dec_value(t@) <= u64::MAX {
            Some(crate::text::dec_value(t@))
        } else {
            None
        },
        _ => None,
    }
}

/// The member `a`, else the member `b`.
pub open spec fn either(sc: Json, a: Seq<char>, b: Seq<char>) -> Option<Json> {
    match member(sc, a) {
        Some(x) => Some(x),
        None => member(sc, b),
    }
}

/// The strings of an array, in order.
pub open spec fn strings_in(xs: Seq<Json>) -> Seq<Seq<char>>
    decreases xs.len(),
{
    if xs.len() == 0 {
        seq![]
    } else {
        let r = strings_in(xs.drop_last());
        match xs.last() {
            Json::Str(s) => r.push(s@),
            _ => r,
        }
    }
}

/// Scene `i` of a ScriptBreak project.
pub open spec fn sb_scene(i: int, sc: Json) -> SceneV {
    SceneV {
        id: "sc-"@ + crate::text::dec((i + 1) as nat),
        num: match member(sc, "num"@) {
            Some(Json::Str(s)) => s@,
            Some(n) => match json_u64(Some(n)) {
                Some(u) => crate::text::dec(u),
                None => crate::text::dec((i + 1) as nat),
            },
            None => crate::text::dec((i + 1) as nat),
        },
        slug: str_or_empty(member(sc, "slug"@)),
        int_ext: str_or_empty(either(sc, "intExt"@, "int_ext"@)),
        location: str_or_empty(member(sc, "location"@)),
        master: str_or_empty(member(sc, "master"@)),
        sub: str_or_empty(member(sc, "sub"@)),
        area: str_or_empty(member(sc, "area"@)),
        tod: str_or_empty(member(sc, "tod"@)),
        tod_bucket: str_or_empty(either(sc, "todBucket"@, "tod_bucket"@)),
        eighths: match json_u64(member(sc, "eighths"@)) {
            Some(u) => (u % 0x1_0000_0000) as u32,
            None => 1,
        },
        synopsis: str_or_empty(member(sc, "synopsis"@)),
        text: str_or_empty(member(sc, "text"@)),
        characters: match items_of(member(sc, "characters"@)) {
            Some(xs) => strings_in(xs),
            None => seq![],
        },
    }
}

/// Where a project keeps its scenes: under `state` when that has `scenes`,
/// else at the top when `scenes` is an array there.
pub open spec fn sb_state(v: Json) -> Option<Option<Json>> {
    if at(at(Some(v), "state"@), "scenes"@) is Some {
        Some(member(v, "state"@))
    } else if items_of(member(v, "scenes"@)) is Some {
        Some(Some(v))
    } else {
        None
    }
}

/// The first `n` scenes of a project.
pub open spec fn sb_scenes(xs: Seq<Json>, n: int) -> Seq<SceneV> {
    Seq::new(n as nat, |k: int| sb_scene(k, xs[k]))
}

/// A ScriptBreak project (`.scriptbreak` JSON) as a title and scenes.
/// A parsed ScriptBreak project as a title and scenes.
pub open spec fn spec_scriptbreak_of(v: Json) -> Result<(Seq<char>, Seq<SceneV>), Seq<char>> {
    match sb_state(v) {
        None => Err("not a ScriptBreak project (missing scenes)"@),
        Some(state) => Ok(
            (
                str_or_empty(at(state, "title"@)),
                match items_of(at(state, "scenes"@)) {
                    Some(xs) => sb_scenes(xs, xs.len() as int),
                    None => seq![],
                },
            ),
        ),
    }
}

pub open spec fn spec_import_scriptbreak(raw: Seq<char>) -> Result<(Seq<char>, Seq<SceneV>), Seq<char>> {
    match json_parse(raw) {
        None => Err("not scriptbreak json: "@ + json_error(raw)),
        Some(v) => spec_scriptbreak_of(v),
    }
}

fn str_or_empty_exec(v: Option<&Json>) -> (r: String)
    ensures
        r@ == str_or_empty(opt_json(v)),
{
    match text_exec(v) {
        Some(s) => s.clone(),
        None => string_of(&Vec::<char>::new()),
    }
}

fn either_exec<'a>(sc: &'a Json, a: &str, b: &str) -> (r: Option<&'a Json>)
    ensures
        opt_json(r) == either(*sc, a@, b@),
{
    match get_member(sc, a) {
        Some(x) => Some(x),
        None => get_member(sc, b),
    }
}

pub fn json_u64_exec(v: Option<&Json>) -> (r: Option<u64>)
    ensures
        match (r, json_u64(opt_json(v))) {
            (Some(a), Some(b)) => a as nat == b,
            (None, None) => true,
            _ => false,
        },
{
    match v {
        Some(Json::Number(t)) => {
            let d = chars_of(t.as_str());
            if d.len() > 0 && crate::breakdown::all_digits_vec(&d) {
                match crate::text::parse_u64(&d) {
                    Some(n) => Some(n),
                    None => None,
                }
            } else {
                None
            }
        },
        _ => None,
    }
}

fn strings_in_exec(xs: &Vec<Json>) -> (r: Vec<String>)
    ensures
        strings_view(r@) == strings_in(xs@),
{
    let mut out: Vec<String> = Vec::new();
    let mut i: usize = 0;
    while i < xs.len()
        invariant
            i <= xs.len(),
            strings_view(out@) == strings_in(xs@.take(i as int)),
        decreases xs.len() - i,
    {
        let ghost pre = out@;
        match &xs[i] {
            Json::Str(s) => {
                out.push(s.clone());
                assert(strings_view(out@) =~= strings_view(pre).push(s@));
            },
            _ => {},
        }
        i += 1;
        assert(xs@.take(i as int).drop_last() =~= xs@.take(i - 1));
    }
    assert(xs@.take(i as int) =~= xs@);
    out
}

fn sb_scene_exec(i: usize, sc: &Json) -> (r: Scene)
    requires
        i < u64::MAX,
    ensures
        r@ == sb_scene(i as int, *sc),
{
    let fallback = string_of(crate::text::dec_vec(i as u64 + 1).as_slice());
    let num = match get_member(sc, "num") {
        Some(Json::Str(s)) => s.clone(),
        Some(n) => match json_u64_exec(Some(n)) {
            Some(u) => string_of(crate::text::dec_vec(u).as_slice()),
            None => fallback,
        },
        None => fallback,
    };
    let mut id = chars_of("sc-");
    append_vec(&mut id, &crate::text::dec_vec(i as u64 + 1));
    let eighths: u32 = match json_u64_exec(get_member(sc, "eighths")) {
        Some(u) => (u % 0x1_0000_0000) as u32,
        None => 1,
    };
    let characters = match items_exec(get_member(sc, "characters")) {
        Some(xs) => strings_in_exec(xs),
        None => Vec::new(),
    };
    let r = Scene {
        id: string_of(id.as_slice()),
        num,
        slug: str_or_empty_exec(get_member(sc, "slug")),
        int_ext: str_or_empty_exec(either_exec(sc, "intExt", "int_ext")),
        location: str_or_empty_exec(get_member(sc, "location")),
        master: str_or_empty_exec(get_member(sc, "master")),
        sub: str_or_empty_exec(get_member(sc, "sub")),
        area: str_or_empty_exec(get_member(sc, "area")),
        tod: str_or_empty_exec(get_member(sc, "tod")),
        tod_bucket: str_or_empty_exec(either_exec(sc, "todBucket", "tod_bucket")),
        eighths,
        synopsis: str_or_empty_exec(get_member(sc, "synopsis")),
        text: str_or_empty_exec(get_member(sc, "text")),
        characters,
    };
    assert(r.characters.deep_view() =~= strings_view(r.characters@));
    assert(r@.id == sb_scene(i as int, *sc).id);
    assert(r@.num == sb_scene(i as int, *sc).num);
    assert(r@.eighths == sb_scene(i as int, *sc).eighths);
    assert(r@.characters == sb_scene(i as int, *sc).characters);
    assert(r@.int_ext == sb_scene(i as int, *sc).int_ext);
    r
}

/// Reads a ScriptBreak project's text: what is not JSON is refused with the
/// parser's message, the rest is `scriptbreak_of`.
pub fn import_scriptbreak_json(raw: &str) -> (r: Result<ParsedScript, String>)
    ensures
        match (r, spec_import_scriptbreak(raw@)) {
            (Ok(p), Ok(q)) => (p.title@, scenes_view(p.scenes@)) == q,
            (Err(a), Err(b)) => a@ == b,
            _ => false,
        },
{
    match parse_json(raw) {
        Ok(v) => scriptbreak_of(&v),
        Err(e) => {
            let mut m = chars_of("not scriptbreak json: ");
            append_str(&mut m, e.as_str());
            Err(string_of(m.as_slice()))
        },
    }
}

/// Reads a parsed ScriptBreak project (its `state`, or the value itself) as
/// a title and scenes.
pub fn scriptbreak_of(v: &Json) -> (r: Result<ParsedScript, String>)
    ensures
        match (r, spec_scriptbreak_of(*v)) {
            (Ok(p), Ok(q)) => (p.title@, scenes_view(p.scenes@)) == q,
            (Err(a), Err(b)) => a@ == b,
            _ => false,
        },
{
    let state: Option<&Json> = if at_exec(at_exec(Some(v), "state"), "scenes").is_some() {
        get_member(v, "state")
    } else if items_exec(get_member(v, "scenes")).is_some() {
        Some(v)
    } else {
        return Err(string_of(chars_of("not a ScriptBreak project (missing scenes)").as_slice()));
    };
    let title = str_or_empty_exec(at_exec(state, "title"));
    let mut scenes: Vec<Scene> = Vec::new();
    match items_exec(at_exec(state, "scenes")) {
        Some(xs) => {
            let mut i: usize = 0;
            while i < xs.len()
                invariant
                    i <= xs.len(),
                    scenes_view(scenes@) == sb_scenes(xs@, i as int),
                    scenes@.len() == i,
                decreases xs.len() - i,
            {
                let sc = sb_scene_exec(i, &xs[i]);
                let ghost pre = scenes@;
                let ghost scv = sc@;
                scenes.push(sc);
                i += 1;
                assert(scenes@.len() == i);
                assert forall|k: int| 0 <= k < i implies scenes_view(scenes@)[k] == sb_scenes(
                    xs@,
                    i as int,
                )[k] by {
                    if k < i - 1 {
                        assert(scenes@[k] == pre[k]);
                        assert(scenes_view(pre)[k] == sb_scenes(xs@, i - 1)[k]);
                    } else {
                        assert(scenes@[k]@ == scv);
                    }
                }
                assert(scenes_view(scenes@) =~= sb_scenes(xs@, i as int));
            }
            assert(scenes_view(scenes@) =~= sb_scenes(xs@, xs@.len() as int));
        },
        None => {
            assert(scenes_view(scenes@) =~= seq![]);
        },
    }
    Ok(ParsedScript { title, scenes })
}


/// The shape every scene of a breakdown has: the `k`-th is `sc-(k+1)`, it
/// runs at least one eighth of a page, and it names no character twice.
/// A heading as a scene keeps it: `to_uppercase` of a text with no
/// whitespace at its ends and single spaces between its words.
pub open spec fn slug_shaped(slug: Seq<char>) -> bool {
    exists|x: Seq<char>| single_spaced(x) && #[trigger] unicode_upper(x) == slug
}

/// A scene's bucket is the one its own time of day gives, unless that one is
/// empty or `OTHER` (then it may have been carried from the scene before).
pub open spec fn bucket_shaped(s: crate::model::SceneV) -> bool {
    ||| s.tod_bucket == spec_tod_bucket(s.tod)
    ||| spec_tod_bucket(s.tod).len() == 0
    ||| spec_tod_bucket(s.tod) == "OTHER"@
}

pub open spec fn scene_shape(k: int, s: crate::model::SceneV) -> bool {
    &&& s.id == "sc-"@ + dec((k + 1) as nat)
    &&& s.eighths >= 1
    &&& s.characters.no_duplicates()
    &&& slug_shaped(s.slug)
    &&& bucket_shaped(s)
}

proof fn lemma_slug_shaped(st: Seq<char>)
    ensures
        slug_shaped(spec_slug(st)),
{
    let x = collapse_ws(norm_quotes(st));
    lemma_collapse_single_spaced(norm_quotes(st));
    assert(single_spaced(x) && unicode_upper(x) == spec_slug(st));
}

pub open spec fn all_shaped(sc: Seq<crate::model::SceneV>) -> bool {
    forall|k: int| 0 <= k < sc.len() ==> scene_shape(k, #[trigger] sc[k])
}

pub open spec fn scan_ok(st: Scan) -> bool {
    &&& all_shaped(st.scenes)
    &&& match st.cur {
        Some(c) => st.n == st.scenes.len() + 1 && c.0.id == "sc-"@ + dec(st.n) && slug_shaped(c.0.slug)
            && c.0.tod_bucket == spec_tod_bucket(c.0.tod),
        None => st.n == st.scenes.len(),
    }
}

proof fn lemma_cast_no_dups(ls: Seq<Seq<char>>, i: nat, acc: Seq<Seq<char>>)
    requires
        acc.no_duplicates(),
    ensures
        cast_from(ls, i, acc).no_duplicates(),
    decreases ls.len() - i,
{
    if i < ls.len() {
        let t = ls[i as int];
        let acc2 = if trim(t).len() == 0 || rx(TRANSITION_RE@, t) {
            acc
        } else {
            match spec_character_name(t, next_line(ls, i as int)) {
                Some(n) => if acc.contains(n) {
                    acc
                } else {
                    acc.push(n)
                },
                None => acc,
            }
        };
        assert(acc2.no_duplicates()) by {
            if acc2 != acc {
                let n = acc2.last();
                assert(acc2 == acc.push(n));
                assert(!acc.contains(n));
                assert forall|a: int, b: int| 0 <= a < b < acc2.len() implies acc2[a] != acc2[b] by {
                    if b == acc2.len() - 1 {
                        assert(acc2[a] == acc[a]);
                    }
                }
            }
        }
        lemma_cast_no_dups(ls, i + 1, acc2);
    }
}

proof fn lemma_finalize_shape(h: crate::model::SceneV, lines: Seq<Seq<char>>)
    ensures
        spec_finalize(h, lines).id == h.id,
        spec_finalize(h, lines).eighths >= 1,
        spec_finalize(h, lines).characters.no_duplicates(),
        spec_finalize(h, lines).slug == h.slug,
        spec_finalize(h, lines).tod == h.tod,
        spec_finalize(h, lines).tod_bucket == h.tod_bucket,
{
    let ls = split_on(scene_body(lines), nl());
    assert(Seq::<Seq<char>>::empty().no_duplicates());
    lemma_cast_no_dups(ls, 0, seq![]);
}

proof fn lemma_flush_shape(st: Scan)
    requires
        scan_ok(st),
    ensures
        all_shaped(flush(st)),
        flush(st).len() == st.n,
{
    match st.cur {
        Some(c) => {
            lemma_finalize_shape(c.0, c.1);
            let f = flush(st);
            assert forall|k: int| 0 <= k < f.len() implies scene_shape(k, #[trigger] f[k]) by {
                if k < st.scenes.len() {
                    assert(f[k] == st.scenes[k]);
                }
            }
        },
        None => {},
    }
}

proof fn lemma_scan_shape(lines: Seq<Seq<char>>, i: nat, st: Scan)
    requires
        scan_ok(st),
    ensures
        scan_ok(scan_lines(lines, i, st)),
    decreases lines.len() - i,
{
    if i < lines.len() {
        let line = lines[i as int];
        let nx = scan_step(st, line);
        match spec_heading(line) {
            Some(h) => {
                lemma_flush_shape(st);
                lemma_slug_shaped(spec_tagged(h).1);
            },
            None => {},
        }
        assert(scan_ok(nx));
        lemma_scan_shape(lines, i + 1, nx);
    }
}

proof fn lemma_inherit_shape(sc: Seq<crate::model::SceneV>, i: nat)
    requires
        all_shaped(sc),
    ensures
        all_shaped(inherit_from(sc, i)),
        inherit_from(sc, i).len() == sc.len(),
    decreases sc.len() - i,
{
    if i < sc.len() && i != 0 {
        let s = sc[i as int];
        let sc2 = if needs_inherit(s) {
            sc.update(i as int, crate::model::SceneV { tod_bucket: sc[i - 1].tod_bucket, ..s })
        } else {
            sc
        };
        assert forall|k: int| 0 <= k < sc2.len() implies scene_shape(k, #[trigger] sc2[k]) by {
            assert(scene_shape(k, sc[k]));
        }
        lemma_inherit_shape(sc2, i + 1);
    }
}

/// The buckets a time of day falls in, by the words it holds once upper
/// cased: night words first, then day words, then dusk words (`DUSK`,
/// `SUNSET`, `EVENING`, `TWILIGHT`, `MAGIC`, `GOLDEN`), then dawn words
/// (`DAWN`, `SUNRISE`); a time with none of them is `OTHER`, and no time at
/// all has no bucket.
pub proof fn lemma_tod_bucket_words(tod: Seq<char>)
    ensures
        rx(NIGHT_RE@, unicode_upper(tod)) ==> spec_tod_bucket(tod) == "NIGHT"@,
        !rx(NIGHT_RE@, unicode_upper(tod)) && rx(DAY_RE@, unicode_upper(tod)) ==> spec_tod_bucket(tod)
            == "DAY"@,
        !rx(NIGHT_RE@, unicode_upper(tod)) && !rx(DAY_RE@, unicode_upper(tod)) && rx(
            DUSK_RE@,
            unicode_upper(tod),
        ) ==> spec_tod_bucket(tod) == "DUSK"@,
        !rx(NIGHT_RE@, unicode_upper(tod)) && !rx(DAY_RE@, unicode_upper(tod)) && !rx(
            DUSK_RE@,
            unicode_upper(tod),
        ) && rx(DAWN_RE@, unicode_upper(tod)) ==> spec_tod_bucket(tod) == "DAWN"@,
        !rx(NIGHT_RE@, unicode_upper(tod)) && !rx(DAY_RE@, unicode_upper(tod)) && !rx(
            DUSK_RE@,
            unicode_upper(tod),
        ) && !rx(DAWN_RE@, unicode_upper(tod)) ==> spec_tod_bucket(tod) == (if tod.len() == 0 {
            seq![]
        } else {
            "OTHER"@
        }),
{
}

/// A scene's bucket follows the words of its time of day, upper cased:
/// night words give `NIGHT`; else day words `DAY`; else dusk words (`DUSK`,
/// `SUNSET`, `EVENING`, `TWILIGHT`, `MAGIC`, `GOLDEN`) `DUSK`; else dawn
/// words (`DAWN`, `SUNRISE`) `DAWN`.
pub open spec fn bucket_by_words(s: crate::model::SceneV) -> bool {
    let t = unicode_upper(s.tod);
    &&& rx(NIGHT_RE@, t) ==> s.tod_bucket == "NIGHT"@
    &&& !rx(NIGHT_RE@, t) && rx(DAY_RE@, t) ==> s.tod_bucket == "DAY"@
    &&& !rx(NIGHT_RE@, t) && !rx(DAY_RE@, t) && rx(DUSK_RE@, t) ==> s.tod_bucket == "DUSK"@
    &&& !rx(NIGHT_RE@, t) && !rx(DAY_RE@, t) && !rx(DUSK_RE@, t) && rx(DAWN_RE@, t) ==> s.tod_bucket
        == "DAWN"@
}

proof fn lemma_shaped_buckets(sc: Seq<crate::model::SceneV>)
    requires
        all_shaped(sc),
    ensures
        forall|k: int| 0 <= k < sc.len() ==> bucket_by_words(#[trigger] sc[k]),
{
    reveal_strlit("NIGHT");
    reveal_strlit("DAY");
    reveal_strlit("DUSK");
    reveal_strlit("DAWN");
    reveal_strlit("OTHER");
    assert forall|k: int| 0 <= k < sc.len() implies bucket_by_words(#[trigger] sc[k]) by {
        assert(scene_shape(k, sc[k]));
        lemma_tod_bucket_words(sc[k].tod);
        assert("NIGHT"@[0] != "OTHER"@[0]);
        assert("DAY"@.len() != "OTHER"@.len());
        assert("DUSK"@.len() != "OTHER"@.len());
        assert("DAWN"@.len() != "OTHER"@.len());
    }
}

/// Every scene of a breakdown whose time of day holds night, day, dusk or
/// dawn words is in that bucket, whatever the scenes before it say: a
/// `DUSK` heading is bucketed `DUSK`, a `DAWN` heading `DAWN`.
pub proof fn lemma_parse_tod_buckets(text: Seq<char>)
    ensures
        forall|k: int| 0 <= k < spec_parse(text).1.len() ==> bucket_by_words(#[trigger] spec_parse(text).1[k]),
{
    lemma_parse_structure(text);
    lemma_shaped_buckets(spec_parse(text).1);
}

/// Every scene of a breakdown is numbered `sc-1`, `sc-2`, ... in order,
/// runs at least one eighth of a page, names each character once, and keeps
/// its heading as `to_uppercase` of a single-spaced text.
pub proof fn lemma_parse_structure(text: Seq<char>)
    ensures
        all_shaped(spec_parse(text).1),
{
    let tb = spec_split_title(spec_clean(text));
    let lines = split_on(tb.1, nl());
    let st0 = Scan { scenes: seq![], cur: None, n: 0 };
    assert(scan_ok(st0));
    lemma_scan_shape(lines, 0, st0);
    let st = scan_lines(lines, 0, st0);
    lemma_flush_shape(st);
    lemma_inherit_shape(flush(st), 1);
}


/// `r` is `p` with time-of-day buckets carried: from `1` up to `i`, a scene
/// that needs it takes the bucket of the scene before it (as carried).
pub open spec fn carried_upto(p: Seq<crate::model::SceneV>, r: Seq<crate::model::SceneV>, i: int) -> bool {
    &&& r.len() == p.len()
    &&& forall|k: int| i <= k < p.len() ==> #[trigger] r[k] == p[k]
    &&& forall|k: int|
        1 <= k < i && k < p.len() ==> #[trigger] r[k] == (crate::model::SceneV {
            tod_bucket: if needs_inherit(p[k]) {
                r[k - 1].tod_bucket
            } else {
                p[k].tod_bucket
            },
            ..p[k]
        })
    &&& (p.len() > 0 ==> r[0] == p[0])
}

proof fn lemma_inherit_carries(p: Seq<crate::model::SceneV>, sc: Seq<crate::model::SceneV>, i: nat)
    requires
        i >= 1,
        carried_upto(p, sc, i as int),
    ensures
        carried_upto(p, inherit_from(sc, i), p.len() as int),
    decreases sc.len() - i,
{
    if i < sc.len() {
        let s = sc[i as int];
        assert(s == p[i as int]);
        let sc2 = if needs_inherit(s) {
            sc.update(i as int, crate::model::SceneV { tod_bucket: sc[i - 1].tod_bucket, ..s })
        } else {
            sc
        };
        assert(carried_upto(p, sc2, (i + 1) as int)) by {
            assert forall|k: int| 1 <= k < i + 1 && k < p.len() implies #[trigger] sc2[k] == (crate::model::SceneV {
                tod_bucket: if needs_inherit(p[k]) {
                    sc2[k - 1].tod_bucket
                } else {
                    p[k].tod_bucket
                },
                ..p[k]
            }) by {
                if k < i {
                    assert(sc2[k] == sc[k]);
                    assert(sc2[k - 1] == sc[k - 1]);
                } else {
                    assert(sc2[k - 1] == sc[k - 1]);
                }
            }
        }
        lemma_inherit_carries(p, sc2, i + 1);
    } else {
        assert(carried_upto(p, sc, p.len() as int));
    }
}

/// In a breakdown, a scene whose time of day is missing or `CONTINUOUS`,
/// `LATER`, `SAME` or `MOMENTS` (and whose own bucket is empty or `OTHER`)
/// takes the time bucket of the scene before it; every other field, and
/// every other scene's bucket, is as the scene was read.
pub proof fn lemma_parse_buckets_carry(text: Seq<char>)
    ensures
        ({
            let tb = spec_split_title(spec_clean(text));
            let p = flush(scan_lines(split_on(tb.1, nl()), 0, Scan { scenes: seq![], cur: None, n: 0 }));
            carried_upto(p, spec_parse(text).1, p.len() as int)
        }),
{
    let tb = spec_split_title(spec_clean(text));
    let p = flush(scan_lines(split_on(tb.1, nl()), 0, Scan { scenes: seq![], cur: None, n: 0 }));
    assert(carried_upto(p, p, 1));
    lemma_inherit_carries(p, p, 1);
}

} // verus!
