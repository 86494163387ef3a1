//! Agent capabilities: read | write | render | export | spend.
//! No setting, or `all`, is full power (a human at the terminal); an explicit
//! `read` is the locked-down agent. Each higher capability implies the ones it
//! needs: `write` implies `read`; `render`, `export` and `spend` imply `write`.

use vstd::prelude::*;
use crate::error::{ShowError, is_msg, fails_with, msg, msg2};
use crate::text::{
    chars_of, string_of, trim, trim_vec, lower, lower_vec, eq_icase, eq_icase_vec, seq_eq, join,
    join_vecs, push_piece, append_str, append_vec, strings_view, trim_start, trim_end, is_ws,
    lower_char,
};

verus! {

/// One capability.
#[derive(Debug, Clone, Copy, PartialEq, Eq, Structural)]
pub enum Cap {
    Read,
    Write,
    Render,
    Export,
    Spend,
}

pub open spec fn cap_name(c: Cap) -> Seq<char> {
    match c {
        Cap::Read => "read"@,
        Cap::Write => "write"@,
        Cap::Render => "render"@,
        Cap::Export => "export"@,
        Cap::Spend => "spend"@,
    }
}

impl Cap {
    /// The capability's name.
    pub fn as_str(self) -> (r: &'static str)
        ensures
            r@ == cap_name(self),
    {
        match self {
            Cap::Read => "read",
            Cap::Write => "write",
            Cap::Render => "render",
            Cap::Export => "export",
            Cap::Spend => "spend",
        }
    }
}

/// The set of capabilities an agent holds.
#[derive(Debug, Clone, Copy, PartialEq, Eq, Structural)]
pub struct Caps {
    pub read: bool,
    pub write: bool,
    pub render: bool,
    pub export: bool,
    pub spend: bool,
}

pub open spec fn all_caps() -> Caps {
    Caps { read: true, write: true, render: true, export: true, spend: true }
}

pub open spec fn no_caps() -> Caps {
    Caps { read: false, write: false, render: false, export: false, spend: false }
}

pub open spec fn read_only_caps() -> Caps {
    Caps { read: true, write: false, render: false, export: false, spend: false }
}

/// Whether `caps` holds `c`.
pub open spec fn holds(caps: Caps, c: Cap) -> bool {
    match c {
        Cap::Read => caps.read,
        Cap::Write => caps.write,
        Cap::Render => caps.render,
        Cap::Export => caps.export,
        Cap::Spend => caps.spend,
    }
}

/// The names of the held capabilities, in the order read, write, render,
/// export, spend.
pub open spec fn cap_names(c: Caps) -> Seq<Seq<char>> {
    let s1: Seq<Seq<char>> = if c.read { seq!["read"@] } else { seq![] };
    let s2 = if c.write { s1.push("write"@) } else { s1 };
    let s3 = if c.render { s2.push("render"@) } else { s2 };
    let s4 = if c.export { s3.push("export"@) } else { s3 };
    if c.spend { s4.push("spend"@) } else { s4 }
}

/// How a set of capabilities is shown in a refusal: `all`, `none`, or the
/// names joined by commas.
pub open spec fn cap_label(c: Caps) -> Seq<char> {
    if c == all_caps() {
        "all"@
    } else if cap_names(c).len() == 0 {
        "none"@
    } else {
        join(cap_names(c), ","@)
    }
}

fn push_name(out: &mut Vec<Vec<char>>, s: &str)
    ensures
        final(out).deep_view() == old(out).deep_view().push(s@),
{
    push_piece(out, chars_of(s));
}

impl Caps {
    pub fn all() -> (r: Caps)
        ensures
            r == all_caps(),
    {
        Caps { read: true, write: true, render: true, export: true, spend: true }
    }

    pub fn read_only() -> (r: Caps)
        ensures
            r == read_only_caps(),
    {
        Caps { read: true, write: false, render: false, export: false, spend: false }
    }

    pub fn allows(self, need: Cap) -> (r: bool)
        ensures
            r == holds(self, need),
    {
        match need {
            Cap::Read => self.read,
            Cap::Write => self.write,
            Cap::Render => self.render,
            Cap::Export => self.export,
            Cap::Spend => self.spend,
        }
    }

    fn name_chars(self) -> (r: Vec<Vec<char>>)
        ensures
            r.deep_view() == cap_names(self),
    {
        let mut out: Vec<Vec<char>> = Vec::new();
        if self.read {
            push_name(&mut out, "read");
        }
        assert(out.deep_view() =~= (if self.read { seq!["read"@] } else { seq![] }));
        if self.write {
            push_name(&mut out, "write");
        }
        if self.render {
            push_name(&mut out, "render");
        }
        if self.export {
            push_name(&mut out, "export");
        }
        if self.spend {
            push_name(&mut out, "spend");
        }
        out
    }

    /// The names of the held capabilities.
    pub fn names(self) -> (r: Vec<String>)
        ensures
            strings_view(r@) == cap_names(self),
    {
        let v = self.name_chars();
        let mut out: Vec<String> = Vec::new();
        let mut i: usize = 0;
        while i < v.len()
            invariant
                i <= v.len(),
                v.deep_view() == cap_names(self),
                out@.len() == i,
                forall|k: int| 0 <= k < i ==> #[trigger] out@[k]@ == v.deep_view()[k],
            decreases v.len() - i,
        {
            let s = string_of(v[i].as_slice());
            out.push(s);
            i += 1;
        }
        assert(strings_view(out@) =~= v.deep_view());
        out
    }

    /// `all`, `none`, or the held names joined by commas.
    pub fn label(self) -> (r: String)
        ensures
            r@ == cap_label(self),
    {
        if self.read && self.write && self.render && self.export && self.spend {
            return string_of(chars_of("all").as_slice());
        }
        let n = self.name_chars();
        if n.len() == 0 {
            string_of(chars_of("none").as_slice())
        } else {
            string_of(join_vecs(&n, &chars_of(",")).as_slice())
        }
    }
}

// ------------------------------------------------------------ parsing a list

/// Separators of a capability list.
pub open spec fn is_cap_sep(c: char) -> bool {
    c == ',' || c == ' ' || c == '+'
}

/// `s.split([',', ' ', '+'])`: the pieces between separators, in order; a
/// string with no separator is one piece.
pub open spec fn split_seps(s: Seq<char>) -> Seq<Seq<char>>
    decreases s.len(),
{
    if s.len() == 0 {
        seq![seq![]]
    } else {
        let r = split_seps(s.drop_last());
        if is_cap_sep(s.last()) {
            r.push(seq![])
        } else {
            r.update(r.len() - 1, r.last().push(s.last()))
        }
    }
}

pub proof fn lemma_split_seps_nonempty(s: Seq<char>)
    ensures
        split_seps(s).len() >= 1,
    decreases s.len(),
{
    if s.len() > 0 {
        lemma_split_seps_nonempty(s.drop_last());
    }
}

/// What a capability word grants, added to `acc`.
pub open spec fn grant(acc: Caps, w: Seq<char>) -> Caps {
    if w == "read"@ {
        Caps { read: true, ..acc }
    } else if w == "write"@ {
        Caps { read: true, write: true, ..acc }
    } else if w == "render"@ {
        Caps { read: true, write: true, render: true, ..acc }
    } else if w == "export"@ {
        Caps { read: true, write: true, export: true, ..acc }
    } else {
        Caps { read: true, write: true, spend: true, ..acc }
    }
}

pub open spec fn is_cap_word(w: Seq<char>) -> bool {
    w == "read"@ || w == "write"@ || w == "render"@ || w == "export"@ || w == "spend"@
}

/// The outcome of reading the pieces of a capability list from left to right.
pub enum CapsOutcome {
    /// Every piece was a capability word; these were granted.
    Granted(Caps),
    /// A piece was `all`.
    All,
    /// A piece was no capability word (lower-cased).
    Unknown(Seq<char>),
}

pub open spec fn read_pieces(ps: Seq<Seq<char>>, acc: Caps) -> CapsOutcome
    decreases ps.len(),
{
    if ps.len() == 0 {
        CapsOutcome::Granted(acc)
    } else {
        let p = trim(ps[0]);
        if p.len() == 0 {
            read_pieces(ps.drop_first(), acc)
        } else {
            let w = lower(p);
            if is_cap_word(w) {
                read_pieces(ps.drop_first(), grant(acc, w))
            } else if w == "all"@ {
                CapsOutcome::All
            } else {
                CapsOutcome::Unknown(w)
            }
        }
    }
}

/// `parse_caps`: the capabilities a list grants, or the refusal's text.
pub open spec fn spec_parse_caps(raw: Seq<char>) -> Result<Caps, Seq<char>> {
    let t = trim(raw);
    if t.len() == 0 || eq_icase(t, "all"@) {
        Ok(all_caps())
    } else {
        match read_pieces(split_seps(t), no_caps()) {
            CapsOutcome::All => Ok(all_caps()),
            CapsOutcome::Unknown(w) => Err("unknown cap: "@ + w + " — use read|write|render|export|spend|all"@),
            CapsOutcome::Granted(c) => if c.read {
                Ok(c)
            } else {
                Err("cap list is empty — use read|write|render|export|spend|all"@)
            },
        }
    }
}

fn split_cap_list(s: &Vec<char>) -> (r: Vec<Vec<char>>)
    ensures
        r.deep_view() == split_seps(s@),
{
    let mut out: Vec<Vec<char>> = Vec::new();
    let mut cur: Vec<char> = Vec::new();
    let mut i: usize = 0;
    assert(s@.take(0) =~= seq![]);
    while i < s.len()
        invariant
            i <= s.len(),
            out.deep_view().push(cur@) == split_seps(s@.take(i as int)),
        decreases s.len() - i,
    {
        let c = s[i];
        let ghost before = s@.take(i as int);
        proof {
            lemma_split_seps_nonempty(before);
        }
        let ghost r = split_seps(before);
        if c == ',' || c == ' ' || c == '+' {
            let done = cur;
            cur = Vec::new();
            push_piece(&mut out, done);
        } else {
            cur.push(c);
            assert(out.deep_view().push(cur@) =~= r.update(r.len() - 1, r.last().push(c)));
        }
        i += 1;
        assert(s@.take(i as int).drop_last() =~= before);
    }
    assert(s@.take(i as int) =~= s@);
    push_piece(&mut out, cur);
    out
}

/// Parses a capability list such as `write,spend` or `read`; empty or `all`
/// is full power.
pub fn parse_caps(raw: &str) -> (r: Result<Caps, ShowError>)
    ensures
        match (r, spec_parse_caps(raw@)) {
            (Ok(c), Ok(d)) => c == d,
            (Err(e), Err(m)) => is_msg(e, m),
            _ => false,
        },
{
    let t = trim_vec(&chars_of(raw));
    if t.len() == 0 || eq_icase_vec(&t, &chars_of("all")) {
        return Ok(Caps::all());
    }
    let pieces = split_cap_list(&t);
    let mut caps = Caps { read: false, write: false, render: false, export: false, spend: false };
    let mut i: usize = 0;
    assert(pieces.deep_view().skip(0) =~= pieces.deep_view());
    while i < pieces.len()
        invariant
            i <= pieces.len(),
            t@ == trim(raw@),
            t@.len() > 0,
            !eq_icase(t@, "all"@),
            pieces.deep_view() == split_seps(t@),
            read_pieces(split_seps(t@), no_caps()) == read_pieces(
                pieces.deep_view().skip(i as int),
                caps,
            ),
        decreases pieces.len() - i,
    {
        let ghost rest = pieces.deep_view().skip(i as int);
        assert(rest.drop_first() =~= pieces.deep_view().skip(i + 1));
        assert(rest[0] == pieces[i as int]@);
        let p = trim_vec(&pieces[i]);
        if p.len() > 0 {
            let w = lower_vec(&p);
            if seq_eq(&w, &chars_of("read")) {
                caps.read = true;
            } else if seq_eq(&w, &chars_of("write")) {
                caps.read = true;
                caps.write = true;
            } else if seq_eq(&w, &chars_of("render")) {
                caps.read = true;
                caps.write = true;
                caps.render = true;
            } else if seq_eq(&w, &chars_of("export")) {
                caps.read = true;
                caps.write = true;
                caps.export = true;
            } else if seq_eq(&w, &chars_of("spend")) {
                caps.read = true;
                caps.write = true;
                caps.spend = true;
            } else if seq_eq(&w, &chars_of("all")) {
                return Ok(Caps::all());
            } else {
                let mut m = chars_of("unknown cap: ");
                append_vec(&mut m, &w);
                append_str(&mut m, " — use read|write|render|export|spend|all");
                return Err(ShowError::Msg(string_of(m.as_slice())));
            }
        }
        i += 1;
    }
    assert(pieces.deep_view().skip(i as int) =~= seq![]);
    if !caps.read {
        return Err(msg("cap list is empty — use read|write|render|export|spend|all"));
    }
    Ok(caps)
}

/// Every capability set that a list grants is closed under implication:
/// `render`, `export` and `spend` each come with `write`, and `write` with
/// `read`; and the set holds `read`.
pub open spec fn implied(c: Caps) -> bool {
    &&& c.write ==> c.read
    &&& c.render ==> c.write
    &&& c.export ==> c.write
    &&& c.spend ==> c.write
}

proof fn lemma_read_pieces_implied(ps: Seq<Seq<char>>, acc: Caps)
    requires
        implied(acc),
    ensures
        read_pieces(ps, acc) matches CapsOutcome::Granted(c) ==> implied(c) && (acc.read ==> c.read)
            && (ps.len() > 0 && (exists|k: int| 0 <= k < ps.len() && #[trigger] trim(ps[k]).len() > 0)
            ==> c.read),
    decreases ps.len(),
{
    if ps.len() > 0 {
        let p = trim(ps[0]);
        let next = if p.len() == 0 {
            acc
        } else {
            grant(acc, lower(p))
        };
        lemma_read_pieces_implied(ps.drop_first(), next);
        if read_pieces(ps, acc) matches CapsOutcome::Granted(c) {
            if exists|k: int| 0 <= k < ps.len() && #[trigger] trim(ps[k]).len() > 0 {
                let k = choose|k: int| 0 <= k < ps.len() && #[trigger] trim(ps[k]).len() > 0;
                if p.len() == 0 {
                    assert(k > 0);
                    assert(ps.drop_first()[k - 1] == ps[k]);
                }
            }
        }
    }
}

/// Law: whatever a capability list grants holds `read`, and each capability
/// comes with the ones it implies.
pub proof fn lemma_parsed_caps_implied(raw: Seq<char>)
    ensures
        spec_parse_caps(raw) matches Ok(c) ==> c.read && implied(c),
{
    let t = trim(raw);
    if !(t.len() == 0 || eq_icase(t, "all"@)) {
        lemma_read_pieces_implied(split_seps(t), no_caps());
    }
}

/// The text added to a refusal, per missing capability.
pub open spec fn need_extra(c: Cap) -> Seq<char> {
    match c {
        Cap::Spend => " stills generate --backend grok needs spend. Did not call Comfy."@,
        Cap::Render => " stills generate --backend comfy / finish --upscale needs render. Did not call Grok."@,
        Cap::Write => " dailies circle and other writes need write."@,
        Cap::Export => " export needs export."@,
        Cap::Read => ""@,
    }
}

/// The refusal when `have` lacks `need`.
pub open spec fn need_message(have: Caps, need: Cap) -> Seq<char> {
    "need "@ + cap_name(need) + " — agent cap is "@ + cap_label(have) + "."@ + need_extra(need)
}

/// The capability override that the process carries (`--cap`, MCP `cap`).
pub struct CapScope {
    pub over: Option<Caps>,
}

impl CapScope {
    pub fn new() -> (r: CapScope)
        ensures
            r.over is None,
    {
        CapScope { over: None }
    }
}

pub fn set_caps(scope: &mut CapScope, caps: Caps)
    ensures
        final(scope).over == Some(caps),
{
    scope.over = Some(caps);
}

pub fn clear_caps(scope: &mut CapScope)
    ensures
        final(scope).over is None,
{
    scope.over = None;
}

/// The capabilities in force: the override if any, else the `LOT_CAP`
/// setting (`env`) when it is set, not blank and parses, else all.
pub open spec fn spec_active(over: Option<Caps>, env: Option<Seq<char>>) -> Caps {
    match over {
        Some(c) => c,
        None => match env {
            Some(s) => if trim(s).len() > 0 {
                match spec_parse_caps(s) {
                    Ok(c) => c,
                    Err(_) => all_caps(),
                }
            } else {
                all_caps()
            },
            None => all_caps(),
        },
    }
}

pub fn active(scope: &CapScope, env: Option<&str>) -> (r: Caps)
    ensures
        r == spec_active(scope.over, match env {
            Some(s) => Some(s@),
            None => None,
        }),
{
    if let Some(c) = scope.over {
        return c;
    }
    match env {
        Some(s) => {
            if trim_vec(&chars_of(s)).len() > 0 {
                match parse_caps(s) {
                    Ok(c) => c,
                    Err(_) => Caps::all(),
                }
            } else {
                Caps::all()
            }
        },
        None => Caps::all(),
    }
}

/// The override while `with_caps` runs its closure.
pub open spec fn scoped(over: Option<Caps>, caps: Option<Caps>) -> Option<Caps> {
    match caps {
        Some(c) => Some(c),
        None => over,
    }
}

/// Runs `f` with `caps` as the override (when given) and puts the previous
/// override back afterwards.
pub fn with_caps<T, F: FnOnce(&CapScope) -> T>(scope: &mut CapScope, caps: Option<Caps>, f: F) -> (r: T)
    requires
        call_requires(f, (&(CapScope { over: scoped(old(scope).over, caps) }),)),
    ensures
        final(scope).over == old(scope).over,
        call_ensures(f, (&(CapScope { over: scoped(old(scope).over, caps) }),), r),
{
    match caps {
        None => f(&*scope),
        Some(c) => {
            let prev = scope.over;
            scope.over = Some(c);
            let out = f(&*scope);
            scope.over = prev;
            out
        },
    }
}

/// `Ok` when `have` holds `need`; else a refusal naming both.
pub fn require(have: Caps, need: Cap) -> (r: Result<(), ShowError>)
    ensures
        r is Ok <==> holds(have, need),
        !holds(have, need) ==> fails_with(r, need_message(have, need)),
{
    if have.allows(need) {
        return Ok(());
    }
    let extra = match need {
        Cap::Spend => " stills generate --backend grok needs spend. Did not call Comfy.",
        Cap::Render => " stills generate --backend comfy / finish --upscale needs render. Did not call Grok.",
        Cap::Write => " dailies circle and other writes need write.",
        Cap::Export => " export needs export.",
        Cap::Read => "",
    };
    let mut m = chars_of("need ");
    append_str(&mut m, need.as_str());
    append_str(&mut m, " — agent cap is ");
    let label = have.label();
    append_str(&mut m, label.as_str());
    append_str(&mut m, ".");
    append_str(&mut m, extra);
    Err(ShowError::Msg(string_of(m.as_slice())))
}

/// Whether paid generation is allowed.
pub fn allow_spend(have: Caps) -> (r: bool)
    ensures
        r == have.spend,
{
    have.allows(Cap::Spend)
}

pub fn require_write(have: Caps) -> (r: Result<(), ShowError>)
    ensures
        r is Ok <==> have.write,
        !have.write ==> fails_with(r, need_message(have, Cap::Write)),
{
    require(have, Cap::Write)
}


/// A word of lower-case ASCII letters has no separator in it.
proof fn lemma_split_word(w: Seq<char>)
    requires
        forall|i: int| 0 <= i < w.len() ==> 'a' <= #[trigger] w[i] <= 'z',
    ensures
        split_seps(w) == seq![w],
    decreases w.len(),
{
    if w.len() > 0 {
        let d = w.drop_last();
        assert forall|i: int| 0 <= i < d.len() implies 'a' <= #[trigger] d[i] <= 'z' by {
            assert(d[i] == w[i]);
        }
        lemma_split_word(d);
        assert(!is_cap_sep(w.last()));
        assert(d.push(w.last()) =~= w);
        assert(seq![d].update(0, d.push(w.last())) =~= seq![w]);
    } else {
        assert(w =~= seq![]);
    }
}

/// A word of lower-case ASCII letters is its own trimmed, lower-cased form.
proof fn lemma_plain_word(w: Seq<char>)
    requires
        w.len() > 0,
        forall|i: int| 0 <= i < w.len() ==> 'a' <= #[trigger] w[i] <= 'z',
    ensures
        trim(w) == w,
        lower(w) == w,
        split_seps(w) == seq![w],
{
    assert('a' <= w[0] <= 'z');
    assert(!is_ws(w[0]));
    assert(trim_start(w) == w);
    assert('a' <= w[w.len() - 1] <= 'z');
    assert(!is_ws(w.last()));
    assert(trim_end(w) == w);
    assert forall|i: int| 0 <= i < w.len() implies lower(w)[i] == w[i] by {
        assert('a' <= w[i] <= 'z');
        assert(lower_char(w[i]) == w[i]);
    }
    assert(lower(w) =~= w);
    lemma_split_word(w);
}

/// Every capability's name reads back as a capability list that holds it
/// (`parse_caps(c.as_str())` allows `c`).
pub proof fn lemma_cap_name_round_trip(c: Cap)
    ensures
        spec_parse_caps(cap_name(c)) matches Ok(x) && holds(x, c),
{
    reveal_strlit("read");
    reveal_strlit("write");
    reveal_strlit("render");
    reveal_strlit("export");
    reveal_strlit("spend");
    reveal_strlit("all");
    let w = cap_name(c);
    lemma_plain_word(w);
    assert(!eq_icase(w, "all"@)) by {
        assert(lower("all"@) =~= "all"@) by {
            lemma_plain_word("all"@);
        }
        if w.len() == 3 {
            assert(w[0] != 'a');
        }
    }
    assert(is_cap_word(w));
    let ps = split_seps(trim(w));
    assert(ps == seq![w]);
    assert(ps.drop_first() =~= Seq::<Seq<char>>::empty());
    assert(read_pieces(ps, no_caps()) == read_pieces(ps.drop_first(), grant(no_caps(), w)));
    assert(read_pieces(ps.drop_first(), grant(no_caps(), w)) == CapsOutcome::Granted(grant(no_caps(), w)));
}


/// A capability's place in the order read, write, render, export, spend.
pub open spec fn cap_rank(c: Cap) -> int {
    match c {
        Cap::Read => 0,
        Cap::Write => 1,
        Cap::Render => 2,
        Cap::Export => 3,
        Cap::Spend => 4,
    }
}

/// The held capabilities, in the order read, write, render, export, spend.
pub open spec fn held_caps(c: Caps) -> Seq<Cap> {
    let s1: Seq<Cap> = if c.read { seq![Cap::Read] } else { seq![] };
    let s2 = if c.write { s1.push(Cap::Write) } else { s1 };
    let s3 = if c.render { s2.push(Cap::Render) } else { s2 };
    let s4 = if c.export { s3.push(Cap::Export) } else { s3 };
    if c.spend { s4.push(Cap::Spend) } else { s4 }
}

/// The names that `Caps::names` gives are the names of the held
/// capabilities and of no other, each once, in the order read, write,
/// render, export, spend; all five for full power, `read` alone for the
/// read-only agent.
pub proof fn lemma_cap_names_law(c: Caps)
    ensures
        cap_names(c) == held_caps(c).map_values(|k: Cap| cap_name(k)),
        forall|i: int, j: int|
            0 <= i < j < held_caps(c).len() ==> cap_rank(#[trigger] held_caps(c)[i]) < cap_rank(
                #[trigger] held_caps(c)[j],
            ),
        forall|k: Cap| #[trigger] held_caps(c).contains(k) <==> holds(c, k),
        forall|k: Cap| #[trigger] cap_names(c).contains(cap_name(k)) <==> holds(c, k),
        cap_names(c).no_duplicates(),
        cap_names(all_caps()).len() == 5,
        cap_names(read_only_caps()) == seq!["read"@],
{
    reveal_strlit("read");
    reveal_strlit("write");
    reveal_strlit("render");
    reveal_strlit("export");
    reveal_strlit("spend");
    let h = held_caps(c);
    let n = cap_names(c);
    assert(n =~= h.map_values(|k: Cap| cap_name(k)));
    assert forall|a: Cap, b: Cap| cap_name(a) == cap_name(b) implies a == b by {
        if a != b {
            assert(cap_name(a).len() != cap_name(b).len() || cap_name(a)[0] != cap_name(b)[0]);
        }
    }
    assert forall|k: Cap| #[trigger] h.contains(k) <==> holds(c, k) by {
        if holds(c, k) {
            let r = cap_rank(k);
            let before = (if c.read && r > 0 { 1int } else { 0 }) + (if c.write && r > 1 {
                1int
            } else {
                0
            }) + (if c.render && r > 2 { 1int } else { 0 }) + (if c.export && r > 3 {
                1int
            } else {
                0
            });
            assert(h[before] == k);
        }
    }
    assert forall|k: Cap| #[trigger] n.contains(cap_name(k)) <==> holds(c, k) by {
        if n.contains(cap_name(k)) {
            let i = choose|i: int| 0 <= i < n.len() && n[i] == cap_name(k);
            assert(cap_name(h[i]) == cap_name(k));
            assert(h.contains(k));
        }
        if holds(c, k) {
            assert(h.contains(k));
            let i = choose|i: int| 0 <= i < h.len() && h[i] == k;
            assert(n[i] == cap_name(k));
        }
    }
    assert forall|i: int, j: int| 0 <= i < j < n.len() implies n[i] != n[j] by {
        assert(cap_rank(h[i]) < cap_rank(h[j]));
    }
    assert(cap_names(read_only_caps()) =~= seq!["read"@]);
}

} // verus!
