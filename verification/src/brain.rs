//! Writer brains: Grok (xAI OAuth or API key) first, a local OpenAI-compatible
//! server second. A screenplay is never invented when no brain answers. The
//! requests themselves go out from the program around the library; here are
//! the prompts, the order of the candidates, and what is made of each reply.

use vstd::prelude::*;
use crate::error::{ShowError, is_msg};
use crate::packs::{PackFile, PackItem, lookup, lookup_index, spec_display_name};
use crate::rx::{to_lower, unicode_lower};
use crate::show::{Show, CastMember, Provenance};
use crate::json::{Json, at, nth, text_of, items_of, at_exec, nth_exec, text_exec, items_exec, opt_json};
use crate::text::{dec, dec_vec};
use crate::text::{
    chars_of, string_of, trim, trim_vec, starts_with, starts_with_vec, split_on, split_vec, join,
    join_vecs, push_piece, append_str, append_vec, contains, contains_vec, strings_view,
    strings_chars, filled, trim_end_char, trim_end_char_vec, sub_vec,
};

verus! {

/// A reply that a brain gave, and who gave it.
#[derive(Debug, Clone)]
pub struct Completion {
    pub text: String,
    pub provenance: Provenance,
}

// ------------------------------------------------------------ fences

/// A line without the `\r` of a `\r\n` ending.
pub open spec fn strip_cr(l: Seq<char>) -> Seq<char> {
    if l.len() > 0 && l.last() == '\r' {
        l.drop_last()
    } else {
        l
    }
}

/// `str::lines` of a text that does not end in a line break.
pub open spec fn text_lines(t: Seq<char>) -> Seq<Seq<char>> {
    let ps = split_on(t, "\n"@);
    Seq::new(ps.len(), |i: int| strip_cr(ps[i]))
}

/// A reply without the Markdown fence around it: the text trimmed, and when
/// it opens with three backticks, the opening fence line and a closing fence
/// line dropped.
pub open spec fn spec_strip_fences(s: Seq<char>) -> Seq<char> {
    let t = trim(s);
    if !starts_with(t, "```"@) {
        t
    } else {
        let ls = text_lines(t);
        let a = if ls.len() > 0 && starts_with(ls[0], "```"@) {
            ls.drop_first()
        } else {
            ls
        };
        let b = if a.len() > 0 && trim(a.last()) == "```"@ {
            a.drop_last()
        } else {
            a
        };
        trim(join(b, "\n"@))
    }
}

fn strip_cr_vec(l: &Vec<char>) -> (r: Vec<char>)
    ensures
        r@ == strip_cr(l@),
{
    if l.len() > 0 && l[l.len() - 1] == '\r' {
        let r = sub_vec(l, 0, l.len() - 1);
        assert(r@ =~= l@.drop_last());
        r
    } else {
        sub_vec(l, 0, l.len())
    }
}

pub fn lines_vec(t: &Vec<char>) -> (r: Vec<Vec<char>>)
    ensures
        r.deep_view() == text_lines(t@),
{
    let nl = chars_of("\n");
    proof {
        reveal_strlit("\n");
    }
    let ps = split_vec(t, &nl);
    let mut out: Vec<Vec<char>> = Vec::new();
    let mut i: usize = 0;
    while i < ps.len()
        invariant
            i <= ps.len(),
            ps.deep_view() == split_on(t@, "\n"@),
            out.deep_view() == text_lines(t@).take(i as int),
        decreases ps.len() - i,
    {
        assert(ps.deep_view()[i as int] == ps@[i as int]@);
        push_piece(&mut out, strip_cr_vec(&ps[i]));
        i += 1;
        assert(out.deep_view() =~= text_lines(t@).take(i as int));
    }
    assert(text_lines(t@).take(i as int) =~= text_lines(t@));
    out
}

fn drop_last_piece(a: &Vec<Vec<char>>) -> (r: Vec<Vec<char>>)
    requires
        a.len() > 0,
    ensures
        r.deep_view() == a.deep_view().drop_last(),
{
    let mut b: Vec<Vec<char>> = Vec::new();
    let mut k: usize = 0;
    while k + 1 < a.len()
        invariant
            k + 1 <= a.len(),
            b.deep_view() == a.deep_view().take(k as int),
        decreases a.len() - k,
    {
        let piece = sub_vec(&a[k], 0, a[k].len());
        assert(piece@ =~= a.deep_view()[k as int]);
        push_piece(&mut b, piece);
        k += 1;
        assert(b.deep_view() =~= a.deep_view().take(k as int));
    }
    assert(a.deep_view().take(k as int) =~= a.deep_view().drop_last());
    b
}

pub fn strip_fences(s: &str) -> (r: String)
    ensures
        r@ == spec_strip_fences(s@),
{
    let t = trim_vec(&chars_of(s));
    let fence = chars_of("```");
    if !starts_with_vec(&t, &fence) {
        return string_of(t.as_slice());
    }
    let ls = lines_vec(&t);
    let ghost lsv = text_lines(t@);
    if ls.len() > 0 {
        assert(ls.deep_view()[0] == ls@[0]@);
    }
    let a = if ls.len() > 0 && starts_with_vec(&ls[0], &fence) {
        assert(ls.deep_view()[0] == ls@[0]@);
        let a = crate::text::pieces_from(&ls, 1);
        assert(a.deep_view() =~= lsv.drop_first());
        a
    } else {
        let a = crate::text::pieces_from(&ls, 0);
        assert(a.deep_view() =~= lsv);
        a
    };
    let ghost av = if lsv.len() > 0 && starts_with(lsv[0], "```"@) {
        lsv.drop_first()
    } else {
        lsv
    };
    assert(a.deep_view() == av);
    if a.len() > 0 {
        assert(a.deep_view().last() == a@[a.len() - 1]@);
    }
    let b = if a.len() > 0 && crate::text::seq_eq(&trim_vec(&a[a.len() - 1]), &fence) {
        assert(a.deep_view().last() == a@[a.len() - 1]@);
        drop_last_piece(&a)
    } else {
        a
    };
    let ghost bv = if av.len() > 0 && trim(av.last()) == "```"@ {
        av.drop_last()
    } else {
        av
    };
    assert(b.deep_view() == bv);
    let nl = chars_of("\n");
    let r = string_of(trim_vec(&join_vecs(&b, &nl)).as_slice());
    assert(r@ == trim(join(bv, "\n"@)));
    r
}

// ------------------------------------------------------------ replies

/// `-` for a blank field, else the field trimmed.
pub open spec fn spec_empty_dash(s: Seq<char>) -> Seq<char> {
    if trim(s).len() == 0 {
        "-"@
    } else {
        trim(s)
    }
}

pub fn empty_dash(s: &str) -> (r: String)
    ensures
        r@ == spec_empty_dash(s@),
{
    let t = trim_vec(&chars_of(s));
    if t.len() == 0 {
        string_of(chars_of("-").as_slice())
    } else {
        string_of(t.as_slice())
    }
}

/// A base URL compared as the same server: trimmed, without trailing slashes,
/// lower-cased.
pub open spec fn spec_normalize_base(b: Seq<char>) -> Seq<char> {
    unicode_lower(trim_end_char(trim(b), '/'))
}

pub fn normalize_base(b: &str) -> (r: String)
    ensures
        r@ == spec_normalize_base(b@),
{
    let t = trim_end_char_vec(&trim_vec(&chars_of(b)), '/');
    to_lower(string_of(t.as_slice()).as_str())
}

pub open spec fn no_brain_head() -> Seq<char> {
    "no brain — Grok (xAI OAuth / XAI_API_KEY) and local OpenAI-compat both unavailable"@
}

pub open spec fn no_brain_tail() -> Seq<char> {
    ". set HERMES auth xai-oauth, or XAI_API_KEY, or LOT_LOCAL_BASE_URL + LOT_LOCAL_MODEL (Ollama/LM Studio)"@
}

/// The refusal when no brain answered, with what each attempt said.
pub open spec fn spec_no_brain(errors: Seq<Seq<char>>) -> Seq<char> {
    no_brain_head() + if errors.len() > 0 {
        ". tried: "@ + join(errors, " | "@)
    } else {
        seq![]
    } + no_brain_tail()
}

pub fn no_brain_message(errors: &Vec<String>) -> (r: String)
    ensures
        r@ == spec_no_brain(strings_view(errors@)),
{
    let mut out = chars_of(
        "no brain — Grok (xAI OAuth / XAI_API_KEY) and local OpenAI-compat both unavailable",
    );
    let ghost head = out@;
    if errors.len() > 0 {
        append_str(&mut out, ". tried: ");
        append_vec(&mut out, &join_vecs(&strings_chars(errors), &chars_of(" | ")));
    }
    append_str(
        &mut out,
        ". set HERMES auth xai-oauth, or XAI_API_KEY, or LOT_LOCAL_BASE_URL + LOT_LOCAL_MODEL (Ollama/LM Studio)",
    );
    assert(out@ =~= spec_no_brain(strings_view(errors@)));
    string_of(out.as_slice())
}

/// How an attempt is named in the refusal: `backend (model): what happened`.
pub open spec fn attempt_line(backend: Seq<char>, model: Seq<char>, what: Seq<char>) -> Seq<char> {
    backend + " ("@ + model + "): "@ + what
}

pub fn attempt_error(backend: &str, model: &str, what: &str) -> (r: String)
    ensures
        r@ == attempt_line(backend@, model@, what@),
{
    let mut out = chars_of(backend);
    append_str(&mut out, " (");
    append_str(&mut out, model);
    append_str(&mut out, "): ");
    append_str(&mut out, what);
    string_of(out.as_slice())
}

pub open spec fn stub_marker() -> Seq<char> {
    "outline stub — Grok draft not wired"@
}

/// What a brain's reply comes to: the text without fences, refused when it is
/// blank or shaped like a stub that pretends the wiring failed.
pub open spec fn spec_judge(backend: Seq<char>, model: Seq<char>, raw: Seq<char>) -> Result<
    Seq<char>,
    Seq<char>,
> {
    let text = spec_strip_fences(raw);
    if trim(text).len() == 0 {
        Err(attempt_line(backend, model, "empty completion"@))
    } else if contains(text, stub_marker()) {
        Err(attempt_line(backend, model, "refused stub-shaped model output"@))
    } else {
        Ok(text)
    }
}

pub fn judge_completion(backend: &str, model: &str, raw: &str) -> (r: Result<String, String>)
    ensures
        match (r, spec_judge(backend@, model@, raw@)) {
            (Ok(a), Ok(b)) => a@ == b,
            (Err(a), Err(b)) => a@ == b,
            _ => false,
        },
{
    let text = strip_fences(raw);
    let tv = chars_of(text.as_str());
    if trim_vec(&tv).len() == 0 {
        return Err(attempt_error(backend, model, "empty completion"));
    }
    if contains_vec(&tv, &chars_of("outline stub — Grok draft not wired")) {
        return Err(attempt_error(backend, model, "refused stub-shaped model output"));
    }
    Ok(text)
}

// ------------------------------------------------------------ prompts

pub open spec fn genre_label(g: PackFile, id: Seq<char>) -> Seq<char> {
    let k = lookup_index(g.items@, id);
    if k >= 0 {
        spec_display_name(g.items@[k]) + " ("@ + id + ")"@
    } else {
        id
    }
}

pub open spec fn genre_labels(g: PackFile, ids: Seq<Seq<char>>) -> Seq<Seq<char>> {
    Seq::new(ids.len(), |i: int| genre_label(g, ids[i]))
}

pub open spec fn style_line(p: PackFile, id: Seq<char>) -> Seq<char> {
    let k = lookup_index(p.items@, id);
    if k >= 0 {
        let it = p.items@[k];
        let name = spec_display_name(it);
        match it.notes {
            Some(n) => if trim(n@).len() > 0 {
                "- "@ + name + " ("@ + id + ") — "@ + trim(n@) + "\n"@
            } else {
                "- "@ + name + " ("@ + id + ")\n"@
            },
            None => "- "@ + name + " ("@ + id + ")\n"@,
        }
    } else {
        "- "@ + id + "\n"@
    }
}

pub open spec fn style_lines_of(p: PackFile, ids: Seq<Seq<char>>) -> Seq<char>
    decreases ids.len(),
{
    if ids.len() == 0 {
        seq![]
    } else {
        style_lines_of(p, ids.drop_last()) + style_line(p, ids.last())
    }
}

/// The influence lines of a style pack: one per id, or `- (none set)`.
pub open spec fn spec_style_lines(p: PackFile, ids: Seq<Seq<char>>) -> Seq<char> {
    if ids.len() == 0 {
        "- (none set)\n"@
    } else {
        style_lines_of(p, ids)
    }
}

pub open spec fn cast_line(c: CastMember) -> Seq<char> {
    "- "@ + c.name@ + " — function: "@ + spec_empty_dash(c.function@) + "; look: "@ + spec_empty_dash(
        c.look@,
    ) + "; must-not: "@ + spec_empty_dash(c.must_not@) + "\n"@
}

pub open spec fn cast_lines_of(cast: Seq<CastMember>) -> Seq<char>
    decreases cast.len(),
{
    if cast.len() == 0 {
        seq![]
    } else {
        cast_lines_of(cast.drop_last()) + cast_line(cast.last())
    }
}

pub open spec fn format_line(f: Option<String>) -> Seq<char> {
    match f {
        Some(x) => if x@.len() > 0 {
            "Format: "@ + x@ + "\n"@
        } else {
            "Format: unset\n"@
        },
        None => "Format: unset\n"@,
    }
}

pub open spec fn genres_line(g: PackFile, ids: Seq<Seq<char>>) -> Seq<char> {
    if ids.len() == 0 {
        "Genres: unset\n"@
    } else {
        "Genres: "@ + join(genre_labels(g, ids), ", "@) + "\n"@
    }
}

/// The user prompt of a draft: title, format, genres, the two influence
/// lists, the cast and the brief, from the Writer desk and the packs.
pub open spec fn spec_draft_prompt(show: Show, g: PackFile, living: PackFile, canon: PackFile) -> Seq<
    char,
> {
    let w = show.writer;
    "Show title: "@ + show.name@ + "\n\n"@ + format_line(w.format) + genres_line(
        g,
        strings_view(w.genres@),
    ) + "\nLiving influence (coverage style, not endorsement):\n"@ + spec_style_lines(
        living,
        strings_view(w.styles_living@),
    ) + "\nCanon influence (coverage style, not endorsement):\n"@ + spec_style_lines(
        canon,
        strings_view(w.styles_canon@),
    ) + "\nCast:\n"@ + if w.cast@.len() == 0 {
        "- (none set)\n"@
    } else {
        cast_lines_of(w.cast@)
    } + "\nBrief:\n"@ + trim(w.brief@) + "\n\nWrite the Fountain screenplay now.\n"@
}

fn style_line_exec(p: &PackFile, id: &str) -> (r: Vec<char>)
    ensures
        r@ == style_line(*p, id@),
{
    match lookup(p, id) {
        Some(it) => {
            let name = it.display_name();
            let mut out = chars_of("- ");
            append_str(&mut out, name);
            append_str(&mut out, " (");
            append_str(&mut out, id);
            match &it.notes {
                Some(n) => {
                    let t = trim_vec(&chars_of(n.as_str()));
                    if t.len() > 0 {
                        append_str(&mut out, ") — ");
                        append_vec(&mut out, &t);
                        append_str(&mut out, "\n");
                    } else {
                        append_str(&mut out, ")\n");
                    }
                },
                None => {
                    append_str(&mut out, ")\n");
                },
            }
            proof {
                reveal_strlit(")\n");
                reveal_strlit(")");
                reveal_strlit("\n");
            }
            out
        },
        None => {
            let mut out = chars_of("- ");
            append_str(&mut out, id);
            append_str(&mut out, "\n");
            out
        },
    }
}

pub fn style_lines(p: &PackFile, ids: &Vec<String>) -> (r: Vec<char>)
    ensures
        r@ == spec_style_lines(*p, strings_view(ids@)),
{
    if ids.len() == 0 {
        return chars_of("- (none set)\n");
    }
    let mut out: Vec<char> = Vec::new();
    let mut i: usize = 0;
    while i < ids.len()
        invariant
            i <= ids.len(),
            out@ == style_lines_of(*p, strings_view(ids@).take(i as int)),
        decreases ids.len() - i,
    {
        append_vec(&mut out, &style_line_exec(p, ids[i].as_str()));
        i += 1;
        assert(strings_view(ids@).take(i as int).drop_last() =~= strings_view(ids@).take(i - 1));
    }
    assert(strings_view(ids@).take(i as int) =~= strings_view(ids@));
    out
}

fn cast_line_exec(c: &CastMember) -> (r: Vec<char>)
    ensures
        r@ == cast_line(*c),
{
    let mut out = chars_of("- ");
    append_str(&mut out, c.name.as_str());
    append_str(&mut out, " — function: ");
    append_str(&mut out, empty_dash(c.function.as_str()).as_str());
    append_str(&mut out, "; look: ");
    append_str(&mut out, empty_dash(c.look.as_str()).as_str());
    append_str(&mut out, "; must-not: ");
    append_str(&mut out, empty_dash(c.must_not.as_str()).as_str());
    append_str(&mut out, "\n");
    out
}

fn genres_line_exec(g: &PackFile, ids: &Vec<String>) -> (r: Vec<char>)
    ensures
        r@ == genres_line(*g, strings_view(ids@)),
{
    if ids.len() == 0 {
        return chars_of("Genres: unset\n");
    }
    let mut labels: Vec<Vec<char>> = Vec::new();
    let mut i: usize = 0;
    while i < ids.len()
        invariant
            i <= ids.len(),
            labels.deep_view() == genre_labels(*g, strings_view(ids@)).take(i as int),
        decreases ids.len() - i,
    {
        let id = ids[i].as_str();
        let label = match lookup(g, id) {
            Some(it) => {
                let mut v = chars_of(it.display_name());
                append_str(&mut v, " (");
                append_str(&mut v, id);
                append_str(&mut v, ")");
                v
            },
            None => chars_of(id),
        };
        push_piece(&mut labels, label);
        i += 1;
        assert(labels.deep_view() =~= genre_labels(*g, strings_view(ids@)).take(i as int));
    }
    assert(genre_labels(*g, strings_view(ids@)).take(i as int) =~= genre_labels(*g, strings_view(ids@)));
    let mut out = chars_of("Genres: ");
    append_vec(&mut out, &join_vecs(&labels, &chars_of(", ")));
    append_str(&mut out, "\n");
    out
}

/// The user prompt of a draft; no network.
pub fn draft_user_prompt(show: &Show, genres: &PackFile, living: &PackFile, canon: &PackFile) -> (r:
    String)
    ensures
        r@ == spec_draft_prompt(*show, *genres, *living, *canon),
{
    let w = &show.writer;
    let mut out = chars_of("Show title: ");
    append_str(&mut out, show.name.as_str());
    append_str(&mut out, "\n\n");
    match &w.format {
        Some(f) => {
            if filled(f.as_str()) {
                append_str(&mut out, "Format: ");
                append_str(&mut out, f.as_str());
                append_str(&mut out, "\n");
            } else {
                append_str(&mut out, "Format: unset\n");
            }
        },
        None => {
            append_str(&mut out, "Format: unset\n");
        },
    }
    append_vec(&mut out, &genres_line_exec(genres, &w.genres));
    append_str(&mut out, "\nLiving influence (coverage style, not endorsement):\n");
    append_vec(&mut out, &style_lines(living, &w.styles_living));
    append_str(&mut out, "\nCanon influence (coverage style, not endorsement):\n");
    append_vec(&mut out, &style_lines(canon, &w.styles_canon));
    append_str(&mut out, "\nCast:\n");
    let ghost before_cast = out@;
    if w.cast.len() == 0 {
        append_str(&mut out, "- (none set)\n");
    } else {
        let mut i: usize = 0;
        while i < w.cast.len()
            invariant
                i <= w.cast.len(),
                out@ == before_cast + cast_lines_of(w.cast@.take(i as int)),
            decreases w.cast.len() - i,
        {
            append_vec(&mut out, &cast_line_exec(&w.cast[i]));
            i += 1;
            assert(w.cast@.take(i as int).drop_last() =~= w.cast@.take(i - 1));
            assert(out@ =~= before_cast + cast_lines_of(w.cast@.take(i as int)));
        }
        assert(w.cast@.take(i as int) =~= w.cast@);
    }
    append_str(&mut out, "\nBrief:\n");
    append_vec(&mut out, &trim_vec(&chars_of(w.brief.as_str())));
    append_str(&mut out, "\n\nWrite the Fountain screenplay now.\n");
    assert(out@ =~= spec_draft_prompt(*show, *genres, *living, *canon));
    string_of(out.as_slice())
}

/// The user prompt of a revision: the draft prompt, the notes and the
/// current draft.
pub open spec fn spec_revise_prompt(
    show: Show,
    g: PackFile,
    living: PackFile,
    canon: PackFile,
    current: Seq<char>,
    notes: Seq<char>,
) -> Seq<char> {
    spec_draft_prompt(show, g, living, canon) + "\nFilmmaker revise notes:\n"@ + trim(notes)
        + "\n\nCurrent Fountain draft:\n"@ + current
        + "\n\nRevise the Fountain screenplay now. Output the complete revised script only.\n"@
}

pub fn revise_user_prompt(
    show: &Show,
    genres: &PackFile,
    living: &PackFile,
    canon: &PackFile,
    current: &str,
    notes: &str,
) -> (r: String)
    ensures
        r@ == spec_revise_prompt(*show, *genres, *living, *canon, current@, notes@),
{
    let mut out = chars_of(draft_user_prompt(show, genres, living, canon).as_str());
    append_str(&mut out, "\nFilmmaker revise notes:\n");
    append_vec(&mut out, &trim_vec(&chars_of(notes)));
    append_str(&mut out, "\n\nCurrent Fountain draft:\n");
    append_str(&mut out, current);
    append_str(
        &mut out,
        "\n\nRevise the Fountain screenplay now. Output the complete revised script only.\n",
    );
    string_of(out.as_slice())
}

// ------------------------------------------------------------ what a server sent back

/// The text of a chat-completions reply: `choices[0].message.content`, or for
/// a status of 400 and up the server's error message.
pub open spec fn spec_chat_reply(status: u16, v: Json) -> Result<Seq<char>, Seq<char>> {
    if status >= 400 {
        let m = match text_of(at(at(Some(v), "error"@), "message"@)) {
            Some(m) => m,
            None => match text_of(at(Some(v), "error"@)) {
                Some(m) => m,
                None => "request failed"@,
            },
        };
        Err("status="@ + dec(status as nat) + ": "@ + m)
    } else {
        match text_of(at(at(nth(at(Some(v), "choices"@), 0), "message"@), "content"@)) {
            Some(c) => Ok(c),
            None => Err("missing choices[0].message.content"@),
        }
    }
}

pub fn read_chat_reply(status: u16, v: &Json) -> (r: Result<String, String>)
    ensures
        match (r, spec_chat_reply(status, *v)) {
            (Ok(a), Ok(b)) => a@ == b,
            (Err(a), Err(b)) => a@ == b,
            _ => false,
        },
{
    if status >= 400 {
        let e = at_exec(Some(v), "error");
        let m = match text_exec(at_exec(e, "message")) {
            Some(m) => chars_of(m.as_str()),
            None => match text_exec(e) {
                Some(m) => chars_of(m.as_str()),
                None => chars_of("request failed"),
            },
        };
        let mut out = chars_of("status=");
        append_vec(&mut out, &dec_vec(status as u64));
        append_str(&mut out, ": ");
        append_vec(&mut out, &m);
        return Err(string_of(out.as_slice()));
    }
    let c = at_exec(at_exec(nth_exec(at_exec(Some(v), "choices"), 0), "message"), "content");
    match text_exec(c) {
        Some(t) => Ok(t.clone()),
        None => Err(string_of(chars_of("missing choices[0].message.content").as_slice())),
    }
}

/// A string member, trimmed, when it is not blank.
pub open spec fn filled_text(v: Option<Json>, key: Seq<char>) -> Option<Seq<char>> {
    match text_of(at(v, key)) {
        Some(s) => if trim(s).len() > 0 {
            Some(trim(s))
        } else {
            None
        },
        None => None,
    }
}

fn filled_text_exec(v: Option<&Json>, key: &str) -> (r: Option<String>)
    ensures
        match (r, filled_text(opt_json(v), key@)) {
            (Some(a), Some(b)) => a@ == b,
            (None, None) => true,
            _ => false,
        },
{
    match text_exec(at_exec(v, key)) {
        Some(s) => {
            let t = trim_vec(&chars_of(s.as_str()));
            if t.len() > 0 {
                Some(string_of(t.as_slice()))
            } else {
                None
            }
        },
        None => None,
    }
}

/// The first entry of a credential pool with a `base_url`.
pub open spec fn pool_base(es: Seq<Json>) -> Option<Seq<char>>
    decreases es.len(),
{
    if es.len() == 0 {
        None
    } else {
        match filled_text(Some(es[0]), "base_url"@) {
            Some(b) => Some(b),
            None => pool_base(es.drop_first()),
        }
    }
}

/// The first entry of a credential pool with an `access_token`: the token,
/// and its `base_url` if it has one.
pub open spec fn pool_token(es: Seq<Json>) -> Option<(Seq<char>, Option<Seq<char>>)>
    decreases es.len(),
{
    if es.len() == 0 {
        None
    } else {
        match filled_text(Some(es[0]), "access_token"@) {
            Some(t) => Some((t, filled_text(Some(es[0]), "base_url"@))),
            None => pool_token(es.drop_first()),
        }
    }
}

/// The xAI OAuth token in a Hermes `auth.json`: the provider's access token
/// (with the first base URL of the credential pool), else the first pool
/// entry that has a token.
pub open spec fn spec_hermes_oauth(v: Json) -> Option<(Seq<char>, Option<Seq<char>>)> {
    let pool = items_of(at(at(Some(v), "credential_pool"@), "xai-oauth"@));
    match filled_text(at(at(at(Some(v), "providers"@), "xai-oauth"@), "tokens"@), "access_token"@) {
        Some(tok) => Some((tok, match pool {
            Some(es) => pool_base(es),
            None => None,
        })),
        None => match pool {
            Some(es) => pool_token(es),
            None => None,
        },
    }
}

fn pool_base_exec(es: &Vec<Json>) -> (r: Option<String>)
    ensures
        match (r, pool_base(es@)) {
            (Some(a), Some(b)) => a@ == b,
            (None, None) => true,
            _ => false,
        },
{
    let mut i: usize = 0;
    assert(es@.skip(0) =~= es@);
    while i < es.len()
        invariant
            i <= es.len(),
            pool_base(es@) == pool_base(es@.skip(i as int)),
        decreases es.len() - i,
    {
        assert(es@.skip(i as int)[0] == es@[i as int]);
        assert(es@.skip(i as int).drop_first() =~= es@.skip(i + 1));
        match filled_text_exec(Some(&es[i]), "base_url") {
            Some(b) => return Some(b),
            None => {},
        }
        i += 1;
    }
    None
}

fn pool_token_exec(es: &Vec<Json>) -> (r: Option<(String, Option<String>)>)
    ensures
        match (r, pool_token(es@)) {
            (Some(a), Some(b)) => a.0@ == b.0 && match (a.1, b.1) {
                (Some(x), Some(y)) => x@ == y,
                (None, None) => true,
                _ => false,
            },
            (None, None) => true,
            _ => false,
        },
{
    let mut i: usize = 0;
    assert(es@.skip(0) =~= es@);
    while i < es.len()
        invariant
            i <= es.len(),
            pool_token(es@) == pool_token(es@.skip(i as int)),
        decreases es.len() - i,
    {
        assert(es@.skip(i as int)[0] == es@[i as int]);
        assert(es@.skip(i as int).drop_first() =~= es@.skip(i + 1));
        match filled_text_exec(Some(&es[i]), "access_token") {
            Some(t) => return Some((t, filled_text_exec(Some(&es[i]), "base_url"))),
            None => {},
        }
        i += 1;
    }
    None
}

pub fn hermes_xai_oauth(v: &Json) -> (r: Option<(String, Option<String>)>)
    ensures
        match (r, spec_hermes_oauth(*v)) {
            (Some(a), Some(b)) => a.0@ == b.0 && match (a.1, b.1) {
                (Some(x), Some(y)) => x@ == y,
                (None, None) => true,
                _ => false,
            },
            (None, None) => true,
            _ => false,
        },
{
    let pool = items_exec(at_exec(at_exec(Some(v), "credential_pool"), "xai-oauth"));
    let tokens = at_exec(at_exec(at_exec(Some(v), "providers"), "xai-oauth"), "tokens");
    match filled_text_exec(tokens, "access_token") {
        Some(tok) => {
            let base = match pool {
                Some(es) => pool_base_exec(es),
                None => None,
            };
            Some((tok, base))
        },
        None => match pool {
            Some(es) => pool_token_exec(es),
            None => None,
        },
    }
}

/// The first model a server lists whose id, lower-cased, does not name an
/// embedding model.
pub open spec fn first_chat_model(ms: Seq<Json>) -> Option<Seq<char>>
    decreases ms.len(),
{
    if ms.len() == 0 {
        None
    } else {
        match text_of(at(Some(ms[0]), "id"@)) {
            Some(id) => if contains(unicode_lower(id), "embed"@) {
                first_chat_model(ms.drop_first())
            } else {
                Some(id)
            },
            None => first_chat_model(ms.drop_first()),
        }
    }
}

/// The chat model that a `/models` listing offers first (`data[*].id`).
pub open spec fn spec_listed_model(v: Json) -> Option<Seq<char>> {
    match items_of(at(Some(v), "data"@)) {
        Some(ms) => first_chat_model(ms),
        None => None,
    }
}

pub fn listed_model(v: &Json) -> (r: Option<String>)
    ensures
        match (r, spec_listed_model(*v)) {
            (Some(a), Some(b)) => a@ == b,
            (None, None) => true,
            _ => false,
        },
{
    let ms = match items_exec(at_exec(Some(v), "data")) {
        Some(ms) => ms,
        None => return None,
    };
    let mut i: usize = 0;
    assert(ms@.skip(0) =~= ms@);
    while i < ms.len()
        invariant
            i <= ms.len(),
            first_chat_model(ms@) == first_chat_model(ms@.skip(i as int)),
            items_of(at(Some(*v), "data"@)) == Some(ms@),
        decreases ms.len() - i,
    {
        assert(ms@.skip(i as int)[0] == ms@[i as int]);
        assert(ms@.skip(i as int).drop_first() =~= ms@.skip(i + 1));
        match text_exec(at_exec(Some(&ms[i]), "id")) {
            Some(id) => {
                let low = to_lower(id.as_str());
                if !contains_vec(&chars_of(low.as_str()), &chars_of("embed")) {
                    return Some(id.clone());
                }
            },
            None => {},
        }
        i += 1;
    }
    None
}

// ------------------------------------------------------------ candidates

/// The settings that choose the brains, as read from the environment
/// (unset or unreadable is `None`).
#[derive(Debug, Clone)]
pub struct BrainEnv {
    pub writer_model: Option<String>,
    pub grok_model: Option<String>,
    pub lot_xai_base_url: Option<String>,
    pub xai_base_url: Option<String>,
    pub lot_xai_token: Option<String>,
    pub xai_api_key: Option<String>,
    pub local_model: Option<String>,
    pub openai_model: Option<String>,
    pub local_api_key: Option<String>,
    pub openai_api_key: Option<String>,
    pub local_base_url: Option<String>,
    pub openai_base_url: Option<String>,
}

/// A brain to ask.
#[derive(Debug, Clone)]
pub struct Candidate {
    pub backend: String,
    pub auth_kind: String,
    pub base_url: String,
    pub token: String,
    pub model: String,
}

/// The first setting that is set, else the default.
pub open spec fn first_set(a: Option<String>, b: Option<String>, d: Seq<char>) -> Seq<char> {
    match a {
        Some(x) => x@,
        None => match b {
            Some(y) => y@,
            None => d,
        },
    }
}

fn first_set_exec(a: &Option<String>, b: &Option<String>, d: &str) -> (r: String)
    ensures
        r@ == first_set(*a, *b, d@),
{
    match a {
        Some(x) => x.clone(),
        None => match b {
            Some(y) => y.clone(),
            None => string_of(chars_of(d).as_slice()),
        },
    }
}

pub open spec fn grok_model(e: BrainEnv) -> Seq<char> {
    first_set(e.writer_model, e.grok_model, "grok-4.6"@)
}

pub open spec fn xai_base(e: BrainEnv) -> Seq<char> {
    first_set(e.lot_xai_base_url, e.xai_base_url, "https://api.x.ai/v1"@)
}

pub open spec fn local_key(e: BrainEnv) -> Seq<char> {
    first_set(e.local_api_key, e.openai_api_key, "ollama"@)
}

pub open spec fn local_model(e: BrainEnv) -> Option<Seq<char>> {
    match e.local_model {
        Some(x) => Some(x@),
        None => match e.openai_model {
            Some(y) => Some(y@),
            None => None,
        },
    }
}

/// A setting, trimmed, when it is set and not blank.
pub open spec fn filled_setting(o: Option<String>) -> Option<Seq<char>> {
    match o {
        Some(x) => if trim(x@).len() > 0 {
            Some(trim(x@))
        } else {
            None
        },
        None => None,
    }
}

fn filled_setting_exec(o: &Option<String>) -> (r: Option<String>)
    ensures
        match (r, filled_setting(*o)) {
            (Some(a), Some(b)) => a@ == b,
            (None, None) => true,
            _ => false,
        },
{
    match o {
        Some(x) => {
            let t = trim_vec(&chars_of(x.as_str()));
            if t.len() > 0 {
                Some(string_of(t.as_slice()))
            } else {
                None
            }
        },
        None => None,
    }
}

/// Keeps the first of the items that share a key (`keys[i]` is the key of
/// `items[i]`).
pub open spec fn keep_first<T>(items: Seq<T>, keys: Seq<Seq<char>>) -> Seq<T>
    decreases items.len(),
{
    if items.len() == 0 {
        seq![]
    } else {
        let r = keep_first(items.drop_last(), keys.drop_last());
        if keys.drop_last().contains(keys.last()) {
            r
        } else {
            r.push(items.last())
        }
    }
}

fn seen_before(keys: &Vec<String>, k: &str) -> (r: bool)
    ensures
        r == strings_view(keys@).contains(k@),
{
    let mut i: usize = 0;
    while i < keys.len()
        invariant
            i <= keys.len(),
            forall|j: int| 0 <= j < i ==> (#[trigger] keys@[j])@ != k@,
        decreases keys.len() - i,
    {
        if crate::text::str_eq(keys[i].as_str(), k) {
            assert(strings_view(keys@)[i as int] == k@);
            return true;
        }
        i += 1;
    }
    assert(!strings_view(keys@).contains(k@)) by {
        assert forall|j: int| 0 <= j < strings_view(keys@).len() implies strings_view(keys@)[j] != k@ by {
            assert(keys@[j]@ != k@);
        }
    }
    false
}

pub open spec fn base_keys(bs: Seq<Seq<char>>) -> Seq<Seq<char>> {
    Seq::new(bs.len(), |i: int| spec_normalize_base(bs[i]))
}

/// The local servers to try: the explicit base URLs (an `OPENAI_BASE_URL`
/// that points at xAI is not local), else Ollama's and LM Studio's default
/// addresses; the same server once.
pub open spec fn spec_local_bases(e: BrainEnv) -> Seq<Seq<char>> {
    keep_first(all_bases(e), base_keys(all_bases(e)))
}

/// The explicit local base URLs, in order.
pub open spec fn explicit_bases(e: BrainEnv) -> Seq<Seq<char>> {
    let a: Seq<Seq<char>> = match filled_setting(e.local_base_url) {
        Some(b) => seq![b],
        None => seq![],
    };
    let b: Seq<Seq<char>> = match filled_setting(e.openai_base_url) {
        Some(x) => if contains(x, "api.x.ai"@) {
            seq![]
        } else {
            seq![x]
        },
        None => seq![],
    };
    a + b
}

pub open spec fn all_bases(e: BrainEnv) -> Seq<Seq<char>> {
    if explicit_bases(e).len() > 0 {
        explicit_bases(e)
    } else {
        seq!["http://127.0.0.1:11434/v1"@, "http://127.0.0.1:1234/v1"@]
    }
}

pub fn local_bases(e: &BrainEnv) -> (r: Vec<String>)
    ensures
        strings_view(r@) == spec_local_bases(*e),
{
    let mut all: Vec<String> = Vec::new();
    match filled_setting_exec(&e.local_base_url) {
        Some(b) => all.push(b),
        None => {},
    }
    match filled_setting_exec(&e.openai_base_url) {
        Some(x) => {
            if !contains_vec(&chars_of(x.as_str()), &chars_of("api.x.ai")) {
                all.push(x);
            }
        },
        None => {},
    }
    if all.len() == 0 {
        all.push(string_of(chars_of("http://127.0.0.1:11434/v1").as_slice()));
        all.push(string_of(chars_of("http://127.0.0.1:1234/v1").as_slice()));
    }
    let ghost av = strings_view(all@);
    assert(av =~= all_bases(*e));
    let mut out: Vec<String> = Vec::new();
    let mut keys: Vec<String> = Vec::new();
    let mut i: usize = 0;
    while i < all.len()
        invariant
            i <= all.len(),
            av == strings_view(all@),
            strings_view(keys@) == base_keys(av).take(i as int),
            strings_view(out@) == keep_first(av.take(i as int), base_keys(av).take(i as int)),
        decreases all.len() - i,
    {
        let k = normalize_base(all[i].as_str());
        let ghost kt = base_keys(av).take(i + 1);
        assert(kt.drop_last() =~= base_keys(av).take(i as int));
        assert(av.take(i + 1).drop_last() =~= av.take(i as int));
        if !seen_before(&keys, k.as_str()) {
            let ghost pre = out@;
            out.push(all[i].clone());
            assert(strings_view(out@) =~= strings_view(pre).push(av[i as int]));
        }
        let ghost kpre = keys@;
        keys.push(k);
        assert(strings_view(keys@) =~= strings_view(kpre).push(spec_normalize_base(av[i as int])));
        i += 1;
        assert(strings_view(keys@) =~= base_keys(av).take(i as int));
    }
    assert(av.take(i as int) =~= av);
    assert(base_keys(av).take(i as int) =~= base_keys(av));
    out
}

/// A candidate as text: backend, auth kind, base URL, token, model.
pub type CandidateText = (Seq<char>, Seq<char>, Seq<char>, Seq<char>, Seq<char>);

pub open spec fn cand_text(c: Candidate) -> CandidateText {
    (c.backend@, c.auth_kind@, c.base_url@, c.token@, c.model@)
}

pub open spec fn cands_text(v: Seq<Candidate>) -> Seq<CandidateText> {
    Seq::new(v.len(), |i: int| cand_text(v[i]))
}

/// Two candidates are the same brain when backend, auth kind, server and
/// model agree.
pub open spec fn cand_key(c: CandidateText) -> Seq<char> {
    c.0 + "|"@ + c.1 + "|"@ + spec_normalize_base(c.2) + "|"@ + c.4
}

pub open spec fn cand_keys(cs: Seq<CandidateText>) -> Seq<Seq<char>> {
    Seq::new(cs.len(), |i: int| cand_key(cs[i]))
}

/// One local candidate per base URL whose model is known (set, or listed by
/// that server: `probed[i]`).
pub open spec fn local_cands(
    bases: Seq<Seq<char>>,
    probed: Seq<Option<Seq<char>>>,
    model: Option<Seq<char>>,
    key: Seq<char>,
) -> Seq<CandidateText>
    decreases bases.len(),
{
    if bases.len() == 0 {
        seq![]
    } else {
        let r = local_cands(bases.drop_last(), probed.drop_last(), model, key);
        let m = match model {
            Some(m) => Some(m),
            None => probed.last(),
        };
        match m {
            Some(m) => r.push(("local"@, "openai_compat"@, bases.last(), key, m)),
            None => r,
        }
    }
}

/// The brains to ask, in order: an explicit xAI token, the Hermes OAuth
/// token, an xAI API key, then the local servers; the same brain once.
pub open spec fn grok_cands(e: BrainEnv, hermes: Option<(Seq<char>, Option<Seq<char>>)>) -> Seq<
    CandidateText,
> {
    let gm = grok_model(e);
    let xb = xai_base(e);
    let c1: Seq<CandidateText> = match filled_setting(e.lot_xai_token) {
        Some(t) => seq![("grok"@, "lot_xai_token"@, xb, t, gm)],
        None => seq![],
    };
    let c2: Seq<CandidateText> = match hermes {
        Some(h) => seq![(
            "grok"@,
            "xai_oauth"@,
            match h.1 {
                Some(b) => b,
                None => xb,
            },
            h.0,
            gm,
        )],
        None => seq![],
    };
    let c3: Seq<CandidateText> = match filled_setting(e.xai_api_key) {
        Some(k) => seq![("grok"@, "xai_api_key"@, xb, k, gm)],
        None => seq![],
    };
    c1 + c2 + c3
}

/// The candidate list before the same brain is dropped a second time.
pub open spec fn all_cands(
    e: BrainEnv,
    hermes: Option<(Seq<char>, Option<Seq<char>>)>,
    bases: Seq<Seq<char>>,
    probed: Seq<Option<Seq<char>>>,
) -> Seq<CandidateText> {
    grok_cands(e, hermes) + local_cands(bases, probed, local_model(e), local_key(e))
}

pub open spec fn spec_candidates(
    e: BrainEnv,
    hermes: Option<(Seq<char>, Option<Seq<char>>)>,
    bases: Seq<Seq<char>>,
    probed: Seq<Option<Seq<char>>>,
) -> Seq<CandidateText> {
    keep_first(all_cands(e, hermes, bases, probed), cand_keys(all_cands(e, hermes, bases, probed)))
}

pub open spec fn probed_text(v: Seq<Option<String>>) -> Seq<Option<Seq<char>>> {
    Seq::new(v.len(), |i: int| opt_text(v[i]))
}

pub open spec fn opt_text(o: Option<String>) -> Option<Seq<char>> {
    match o {
        Some(s) => Some(s@),
        None => None,
    }
}

pub open spec fn hermes_text(h: Option<(String, Option<String>)>) -> Option<(Seq<char>, Option<Seq<char>>)> {
    match h {
        Some(p) => Some((p.0@, opt_text(p.1))),
        None => None,
    }
}

fn make_cand(backend: &str, auth: &str, base: &str, token: &str, model: &str) -> (r: Candidate)
    ensures
        cand_text(r) == (backend@, auth@, base@, token@, model@),
{
    Candidate {
        backend: string_of(chars_of(backend).as_slice()),
        auth_kind: string_of(chars_of(auth).as_slice()),
        base_url: string_of(chars_of(base).as_slice()),
        token: string_of(chars_of(token).as_slice()),
        model: string_of(chars_of(model).as_slice()),
    }
}

fn push_cand(out: &mut Vec<Candidate>, c: Candidate)
    ensures
        cands_text(final(out)@) == cands_text(old(out)@).push(cand_text(c)),
{
    let ghost pre = out@;
    out.push(c);
    assert(cands_text(out@) =~= cands_text(pre).push(cand_text(c)));
}

fn cand_key_exec(c: &Candidate) -> (r: String)
    ensures
        r@ == cand_key(cand_text(*c)),
{
    let mut k = chars_of(c.backend.as_str());
    append_str(&mut k, "|");
    append_str(&mut k, c.auth_kind.as_str());
    append_str(&mut k, "|");
    append_str(&mut k, normalize_base(c.base_url.as_str()).as_str());
    append_str(&mut k, "|");
    append_str(&mut k, c.model.as_str());
    string_of(k.as_slice())
}

/// The candidates, given the settings, the Hermes token (if any), the local
/// base URLs (`local_bases`) and, for each, the model that server listed.
pub fn resolve_candidates(
    e: &BrainEnv,
    hermes: Option<(String, Option<String>)>,
    bases: &Vec<String>,
    probed: &Vec<Option<String>>,
) -> (r: Vec<Candidate>)
    requires
        bases.len() == probed.len(),
    ensures
        cands_text(r@) == spec_candidates(
            *e,
            hermes_text(hermes),
            strings_view(bases@),
            probed_text(probed@),
        ),
{
    let ghost pv = probed_text(probed@);
    let ghost bv = strings_view(bases@);
    let gm = first_set_exec(&e.writer_model, &e.grok_model, "grok-4.6");
    let xb = first_set_exec(&e.lot_xai_base_url, &e.xai_base_url, "https://api.x.ai/v1");
    let key = first_set_exec(&e.local_api_key, &e.openai_api_key, "ollama");
    let lm: Option<String> = match &e.local_model {
        Some(x) => Some(x.clone()),
        None => match &e.openai_model {
            Some(y) => Some(y.clone()),
            None => None,
        },
    };
    let mut all: Vec<Candidate> = Vec::new();
    match filled_setting_exec(&e.lot_xai_token) {
        Some(t) => push_cand(
            &mut all,
            make_cand("grok", "lot_xai_token", xb.as_str(), t.as_str(), gm.as_str()),
        ),
        None => {},
    }
    match &hermes {
        Some(h) => {
            let base = match &h.1 {
                Some(b) => b.clone(),
                None => xb.clone(),
            };
            push_cand(
                &mut all,
                make_cand("grok", "xai_oauth", base.as_str(), h.0.as_str(), gm.as_str()),
            );
        },
        None => {},
    }
    match filled_setting_exec(&e.xai_api_key) {
        Some(k) => push_cand(
            &mut all,
            make_cand("grok", "xai_api_key", xb.as_str(), k.as_str(), gm.as_str()),
        ),
        None => {},
    }
    let ghost head = cands_text(all@);
    assert(head =~= grok_cands(*e, hermes_text(hermes)));
    let mut i: usize = 0;
    while i < bases.len()
        invariant
            i <= bases.len(),
            bases.len() == probed.len(),
            bv == strings_view(bases@),
            pv == probed_text(probed@),
            opt_text(lm) == local_model(*e),
            key@ == local_key(*e),
            cands_text(all@) == head + local_cands(bv.take(i as int), pv.take(i as int), local_model(*e), local_key(*e)),
        decreases bases.len() - i,
    {
        assert(bv.take(i + 1).drop_last() =~= bv.take(i as int));
        assert(pv.take(i + 1).drop_last() =~= pv.take(i as int));
        let m: Option<String> = match &lm {
            Some(x) => Some(x.clone()),
            None => match &probed[i] {
                Some(p) => Some(p.clone()),
                None => None,
            },
        };
        match m {
            Some(model) => {
                push_cand(
                    &mut all,
                    make_cand("local", "openai_compat", bases[i].as_str(), key.as_str(), model.as_str()),
                );
            },
            None => {},
        }
        i += 1;
    }
    assert(bv.take(i as int) =~= bv);
    assert(pv.take(i as int) =~= pv);
    let ghost av = cands_text(all@);
    let mut out: Vec<Candidate> = Vec::new();
    let mut keys: Vec<String> = Vec::new();
    let mut j: usize = 0;
    while j < all.len()
        invariant
            j <= all.len(),
            av == cands_text(all@),
            strings_view(keys@) == cand_keys(av).take(j as int),
            cands_text(out@) == keep_first(av.take(j as int), cand_keys(av).take(j as int)),
        decreases all.len() - j,
    {
        let k = cand_key_exec(&all[j]);
        assert(cand_keys(av).take(j + 1).drop_last() =~= cand_keys(av).take(j as int));
        assert(av.take(j + 1).drop_last() =~= av.take(j as int));
        if !seen_before(&keys, k.as_str()) {
            let c = &all[j];
            let copy = make_cand(
                c.backend.as_str(),
                c.auth_kind.as_str(),
                c.base_url.as_str(),
                c.token.as_str(),
                c.model.as_str(),
            );
            push_cand(&mut out, copy);
        }
        let ghost kpre = keys@;
        keys.push(k);
        assert(strings_view(keys@) =~= strings_view(kpre).push(cand_key(av[j as int])));
        j += 1;
        assert(strings_view(keys@) =~= cand_keys(av).take(j as int));
    }
    assert(av.take(j as int) =~= av);
    assert(cand_keys(av).take(j as int) =~= cand_keys(av));
    out
}

// ------------------------------------------------------------ asking in turn

/// What the attempts so far have said.
pub struct ChatRound {
    pub errors: Vec<String>,
}

/// Starts asking the candidates; refused at once when there is none.
pub fn begin_chat(candidates: &Vec<Candidate>) -> (r: Result<ChatRound, ShowError>)
    ensures
        candidates.len() == 0 ==> (r matches Err(e) && is_msg(e, spec_no_brain(seq![]))),
        candidates.len() > 0 ==> (r matches Ok(round) && round.errors@.len() == 0),
{
    if candidates.len() == 0 {
        let none: Vec<String> = Vec::new();
        assert(strings_view(none@) =~= seq![]);
        return Err(ShowError::Msg(no_brain_message(&none)));
    }
    Ok(ChatRound { errors: Vec::new() })
}

/// Takes a candidate's reply (`Ok` with what it sent, or `Err` with why the
/// request failed): the completion when the reply holds a screenplay, else
/// the attempt is noted and the next candidate is to be asked.
pub fn complete_chat(round: &mut ChatRound, c: &Candidate, reply: Result<String, String>) -> (r:
    Option<Completion>)
    ensures
        match reply {
            Ok(raw) => match spec_judge(c.backend@, c.model@, raw@) {
                Ok(text) => r matches Some(done) && done.text@ == text && done.provenance.backend
                    == c.backend && done.provenance.model == c.model && done.provenance.base_url
                    == c.base_url && done.provenance.auth == c.auth_kind && final(round).errors
                    == old(round).errors,
                Err(line) => r is None && strings_view(final(round).errors@) == strings_view(
                    old(round).errors@,
                ).push(line),
            },
            Err(why) => r is None && strings_view(final(round).errors@) == strings_view(
                old(round).errors@,
            ).push(attempt_line(c.backend@, c.model@, why@)),
        },
{
    let ghost pre = round.errors@;
    match reply {
        Ok(raw) => match judge_completion(c.backend.as_str(), c.model.as_str(), raw.as_str()) {
            Ok(text) => Some(
                Completion {
                    text,
                    provenance: Provenance {
                        backend: c.backend.clone(),
                        model: c.model.clone(),
                        base_url: c.base_url.clone(),
                        auth: c.auth_kind.clone(),
                    },
                },
            ),
            Err(line) => {
                round.errors.push(line);
                assert(strings_view(round.errors@) =~= strings_view(pre).push(line@));
                None
            },
        },
        Err(why) => {
            let line = attempt_error(c.backend.as_str(), c.model.as_str(), why.as_str());
            round.errors.push(line);
            assert(strings_view(round.errors@) =~= strings_view(pre).push(line@));
            None
        },
    }
}

/// The refusal once every candidate has been asked and none answered.
pub fn chat_refusal(round: &ChatRound) -> (r: ShowError)
    ensures
        is_msg(r, spec_no_brain(strings_view(round.errors@))),
{
    ShowError::Msg(no_brain_message(&round.errors))
}


/// The system prompt of a first draft.
pub const DRAFT_SYSTEM: &'static str = "You are Lot Writer, a professional screenwriter. Write a complete screenplay in Fountain format only. Include a Title page (Title, Credit, Author, Draft date), then the script. Use proper Fountain: scene headings (INT./EXT.), action, CHARACTER cues, dialogue. Director names in the brief are coverage influence only — not endorsement, not impersonation. Do not wrap the script in markdown fences. Do not invent API keys or meta commentary. Author line: Lot Writer. Keep it produceable (locations and cast as specified).";

/// The system prompt of a revision.
pub const REVISE_SYSTEM: &'static str = "You are Lot Writer, revising an existing Fountain screenplay. Apply the filmmaker notes. Output the complete revised Fountain only. Director names are coverage influence only — not endorsement, not impersonation. Do not wrap the script in markdown fences. Do not invent API keys or meta commentary. Keep Author: Lot Writer.";

/// The key the local servers are asked with.
pub fn local_api_key(e: &BrainEnv) -> (r: String)
    ensures
        r@ == local_key(*e),
{
    first_set_exec(&e.local_api_key, &e.openai_api_key, "ollama")
}

/// Whether the local servers must be asked which model they serve: only
/// when no local model is set.
pub fn needs_probe(e: &BrainEnv) -> (r: bool)
    ensures
        r == (local_model(*e) is None),
{
    e.local_model.is_none() && e.openai_model.is_none()
}

} // verus!
