//! Declared section adapters: a stdio sidecar or a WASM module, each with a
//! manifest and the sha256 of its adapter. Nothing undeclared runs, and no
//! fork happens silently. Finding manifests on disk, hashing the adapter and
//! running it are the caller's part.

use vstd::prelude::*;
use crate::caps::{Caps, Cap, holds, need_message, require};
use crate::error::{ShowError, fails_with, is_msg, msg, msg2};
use crate::json::{Json, JsonV, jv, jv_members, copy_json, json_parse, json_error, parse_json};
use crate::text::{
    chars_of, string_of, str_eq, trim, trim_vec, lower, lower_vec, eq_icase, eq_icase_vec, seq_eq, split_on,
    split_vec, strings_view,
};

verus! {

pub const NO_PLUGIN: &'static str = "no plugin —";

pub const UNDECLARED: &'static str = "undeclared —";

pub const HASH_MISMATCH: &'static str = "plugin hash mismatch —";

pub const NO_WASM: &'static str = "no wasm runtime —";

/// A plugin's `plugin.json`.
#[derive(Debug)]
pub struct PluginManifest {
    pub id: String,
    pub section: String,
    pub kind: String,
    pub command: String,
    pub args: Vec<String>,
    pub wasm: String,
    pub sha256: String,
}

/// A plugin as listed.
#[derive(Debug)]
pub struct PluginInfo {
    pub id: String,
    pub section: String,
    pub kind: String,
    pub declared: bool,
}

/// A manifest and the directory it was found in.
#[derive(Debug)]
pub struct PluginFound {
    pub manifest: PluginManifest,
    pub dir: String,
}

/// A plugin is declared when its manifest gives the adapter's sha256.
pub open spec fn declared(m: PluginManifest) -> bool {
    trim(m.sha256@).len() > 0
}

pub open spec fn info_of(m: PluginManifest) -> (Seq<char>, Seq<char>, Seq<char>, bool) {
    (m.id@, m.section@, m.kind@, declared(m))
}

pub open spec fn info_view(i: PluginInfo) -> (Seq<char>, Seq<char>, Seq<char>, bool) {
    (i.id@, i.section@, i.kind@, i.declared)
}

fn copy(s: &String) -> (r: String)
    ensures
        r@ == s@,
{
    string_of(chars_of(s.as_str()).as_slice())
}

/// The plugins found, as listed; needs the read cap.
pub fn plugin_list(have: Caps, found: &Vec<PluginFound>) -> (r: Result<Vec<PluginInfo>, ShowError>)
    ensures
        !holds(have, Cap::Read) ==> fails_with(r, need_message(have, Cap::Read)),
        holds(have, Cap::Read) ==> (r matches Ok(v) && v@.len() == found@.len() && forall|i: int|
            0 <= i < found@.len() ==> info_view(#[trigger] v@[i]) == info_of(found@[i].manifest)),
{
    require(have, Cap::Read)?;
    let mut out: Vec<PluginInfo> = Vec::new();
    let mut i: usize = 0;
    while i < found.len()
        invariant
            i <= found.len(),
            out@.len() == i,
            forall|j: int| 0 <= j < i ==> info_view(#[trigger] out@[j]) == info_of(found@[j].manifest),
        decreases found.len() - i,
    {
        let m = &found[i].manifest;
        out.push(
            PluginInfo {
                id: copy(&m.id),
                section: copy(&m.section),
                kind: copy(&m.kind),
                declared: trim_vec(&chars_of(m.sha256.as_str())).len() > 0,
            },
        );
        i += 1;
    }
    Ok(out)
}

/// The manifests kept in discovery order: those with an id that is not
/// blank and not met before.
pub open spec fn kept_ids(ms: Seq<PluginFound>) -> Seq<Seq<char>>
    decreases ms.len(),
{
    if ms.len() == 0 {
        seq![]
    } else {
        let k = kept_ids(ms.drop_last());
        let id = ms.last().manifest.id@;
        if trim(id).len() == 0 || k.contains(id) {
            k
        } else {
            k.push(id)
        }
    }
}

/// Keeps the first manifest of each id, in discovery order, and drops those
/// without an id.
pub fn first_of_each(all: Vec<PluginFound>) -> (r: Vec<PluginFound>)
    ensures
        Seq::new(r@.len(), |i: int| r@[i].manifest.id@) == kept_ids(all@),
        forall|i: int| 0 <= i < r@.len() ==> all@.contains(#[trigger] r@[i]),
{
    let ghost a = all@;
    let mut all = all;
    let mut out: Vec<PluginFound> = Vec::new();
    let mut seen: Vec<String> = Vec::new();
    let mut i: usize = 0;
    let n = all.len();
    assert(a.take(0) =~= seq![]);
    while all.len() > 0
        invariant
            i <= n,
            n == a.len(),
            all@ == a.skip(i as int),
            strings_view(seen@) == kept_ids(a.take(i as int)),
            seen@.len() == out@.len(),
            forall|j: int| 0 <= j < out@.len() ==> (#[trigger] out@[j]).manifest.id@ == seen@[j]@,
            forall|j: int| 0 <= j < out@.len() ==> a.contains(#[trigger] out@[j]),
        decreases all.len(),
    {
        assert(a.take(i + 1).drop_last() =~= a.take(i as int));
        let f = all.remove(0);
        assert(f == a[i as int]);
        let mut dup = false;
        let mut j: usize = 0;
        while j < seen.len()
            invariant
                j <= seen.len(),
                dup <==> exists|q: int| 0 <= q < j && (#[trigger] seen@[q])@ == f.manifest.id@,
            decreases seen.len() - j,
        {
            if str_eq(seen[j].as_str(), f.manifest.id.as_str()) {
                dup = true;
            }
            j += 1;
        }
        proof {
            if dup {
                let q = choose|q: int| 0 <= q < seen@.len() && (#[trigger] seen@[q])@ == f.manifest.id@;
                assert(strings_view(seen@)[q] == f.manifest.id@);
            }
            if strings_view(seen@).contains(f.manifest.id@) {
                let q = choose|q: int| 0 <= q < strings_view(seen@).len() && strings_view(seen@)[q] == f.manifest.id@;
                assert(seen@[q]@ == f.manifest.id@);
            }
        }
        if trim_vec(&chars_of(f.manifest.id.as_str())).len() > 0 && !dup {
            seen.push(copy(&f.manifest.id));
            out.push(f);
        }
        i += 1;
        assert(all@ =~= a.skip(i as int));
    }
    assert(a.take(n as int) =~= a);
    assert(Seq::new(out@.len(), |k: int| out@[k].manifest.id@) =~= strings_view(seen@));
    out
}

/// Roots named by `LOT_PLUGIN_PATH`: split on `;` on Windows and `:`
/// elsewhere, trimmed, blanks dropped.
pub open spec fn spec_path_roots(raw: Seq<char>, windows: bool) -> Seq<Seq<char>> {
    split_on(raw, if windows { seq![';'] } else { seq![':'] }).map_values(|p: Seq<char>| trim(p)).filter(
        |p: Seq<char>| p.len() > 0,
    )
}

pub fn path_roots(raw: &str, windows: bool) -> (r: Vec<String>)
    ensures
        strings_view(r@) == spec_path_roots(raw@, windows),
{
    let mut sep: Vec<char> = Vec::new();
    sep.push(if windows { ';' } else { ':' });
    assert(sep@ =~= if windows { seq![';'] } else { seq![':'] });
    let parts = split_vec(&chars_of(raw), &sep);
    let ghost ps = split_on(raw@, sep@);
    let ghost tr = ps.map_values(|p: Seq<char>| trim(p));
    let mut out: Vec<String> = Vec::new();
    let mut i: usize = 0;
    assert(tr.take(0) =~= seq![]);
    while i < parts.len()
        invariant
            i <= parts.len(),
            parts.deep_view() == ps,
            tr == ps.map_values(|p: Seq<char>| trim(p)),
            strings_view(out@) == tr.take(i as int).filter(|p: Seq<char>| p.len() > 0),
        decreases parts.len() - i,
    {
        assert(tr.take(i + 1).drop_last() =~= tr.take(i as int));
        assert(parts.deep_view()[i as int] == parts@[i as int]@);
        let t = trim_vec(&parts[i]);
        proof {
            reveal(Seq::filter);
        }
        if t.len() > 0 {
            let ghost pre = out@;
            out.push(string_of(t.as_slice()));
            assert(strings_view(out@) =~= strings_view(pre).push(t@));
        }
        i += 1;
    }
    assert(tr.take(parts.len() as int) =~= tr);
    out
}

/// Checks before a call: the write cap, an id, a plugin with that id, and a
/// declared hash. Answers where the plugin is in `found`.
pub open spec fn spec_call_target(have: Caps, id: Seq<char>, found: Seq<PluginFound>) -> Result<int, Seq<char>> {
    if !holds(have, Cap::Write) {
        Err(need_message(have, Cap::Write))
    } else if trim(id).len() == 0 {
        Err("no plugin —"@)
    } else {
        let k = first_with_id(found, trim(id));
        if k < 0 {
            Err("no plugin — "@ + trim(id))
        } else if !declared(found[k].manifest) {
            Err("undeclared —"@)
        } else {
            Ok(k)
        }
    }
}

pub open spec fn first_with_id(found: Seq<PluginFound>, id: Seq<char>) -> int
    decreases found.len(),
{
    if found.len() == 0 {
        -1
    } else if found[0].manifest.id@ == id {
        0
    } else {
        let r = first_with_id(found.drop_first(), id);
        if r < 0 {
            -1
        } else {
            r + 1
        }
    }
}

proof fn lemma_first_with_id(found: Seq<PluginFound>, id: Seq<char>)
    ensures
        -1 <= first_with_id(found, id) < found.len(),
        first_with_id(found, id) >= 0 ==> found[first_with_id(found, id)].manifest.id@ == id,
        forall|j: int| 0 <= j < found.len() && (j < first_with_id(found, id) || first_with_id(found, id) < 0)
            ==> (#[trigger] found[j]).manifest.id@ != id,
    decreases found.len(),
{
    if found.len() > 0 {
        lemma_first_with_id(found.drop_first(), id);
        assert forall|j: int| 1 <= j < found.len() implies found[j] == found.drop_first()[j - 1] by {}
    }
}

pub fn call_target(have: Caps, id: &str, found: &Vec<PluginFound>) -> (r: Result<usize, ShowError>)
    ensures
        match spec_call_target(have, id@, found@) {
            Ok(k) => r matches Ok(i) && i == k,
            Err(m) => fails_with(r, m),
        },
{
    require(have, Cap::Write)?;
    let t = trim_vec(&chars_of(id));
    if t.len() == 0 {
        return Err(msg("no plugin —"));
    }
    let ts = string_of(t.as_slice());
    proof {
        lemma_first_with_id(found@, t@);
    }
    let mut i: usize = 0;
    while i < found.len()
        invariant
            i <= found.len(),
            ts@ == trim(id@),
            ts@.len() > 0,
            forall|j: int| 0 <= j < i ==> (#[trigger] found@[j]).manifest.id@ != ts@,
            -1 <= first_with_id(found@, ts@) < found@.len(),
            first_with_id(found@, ts@) >= 0 ==> found@[first_with_id(found@, ts@)].manifest.id@ == ts@,
            forall|j: int| 0 <= j < found@.len() && (j < first_with_id(found@, ts@) || first_with_id(found@, ts@) < 0)
                ==> (#[trigger] found@[j]).manifest.id@ != ts@,
            holds(have, Cap::Write),
        decreases found.len() - i,
    {
        if str_eq(found[i].manifest.id.as_str(), ts.as_str()) {
            assert(first_with_id(found@, ts@) == i as int);
            if trim_vec(&chars_of(found[i].manifest.sha256.as_str())).len() == 0 {
                return Err(msg("undeclared —"));
            }
            return Ok(i);
        }
        i += 1;
    }
    Err(msg2("no plugin — ", ts.as_str()))
}

/// The adapter a manifest names: its WASM module for a `wasm` kind (any
/// ASCII case), else its command; refused when blank.
pub open spec fn spec_adapter_name(m: PluginManifest) -> Result<Seq<char>, Seq<char>> {
    let name = if lower(m.kind@) == "wasm"@ {
        trim(m.wasm@)
    } else {
        trim(m.command@)
    };
    if name.len() == 0 {
        Err("undeclared —"@)
    } else {
        Ok(name)
    }
}

pub fn adapter_name(m: &PluginManifest) -> (r: Result<String, ShowError>)
    ensures
        match spec_adapter_name(*m) {
            Ok(n) => r matches Ok(s) && s@ == n,
            Err(e) => fails_with(r, e),
        },
{
    let name = if seq_eq(&lower_vec(&chars_of(m.kind.as_str())), &chars_of("wasm")) {
        trim_vec(&chars_of(m.wasm.as_str()))
    } else {
        trim_vec(&chars_of(m.command.as_str()))
    };
    if name.len() == 0 {
        return Err(msg("undeclared —"));
    }
    Ok(string_of(name.as_slice()))
}

/// The adapter's digest must be the declared one (ASCII case ignored).
pub fn hash_check(digest: &str, declared_sha: &str) -> (r: Result<(), ShowError>)
    ensures
        eq_icase(digest@, trim(declared_sha@)) ==> r is Ok,
        !eq_icase(digest@, trim(declared_sha@)) ==> fails_with(r, "plugin hash mismatch —"@),
{
    if !eq_icase_vec(&chars_of(digest), &trim_vec(&chars_of(declared_sha))) {
        return Err(msg("plugin hash mismatch —"));
    }
    Ok(())
}

/// Only stdio adapters run: a WASM one has no runtime here.
pub fn kind_check(kind: &str) -> (r: Result<(), ShowError>)
    ensures
        lower(kind@) == "wasm"@ ==> fails_with(r, "no wasm runtime —"@),
        lower(kind@) != "wasm"@ && lower(kind@) != "stdio"@ ==> fails_with(r, "unknown plugin kind — "@ + lower(kind@)),
        lower(kind@) == "stdio"@ ==> r is Ok,
{
    let k = lower_vec(&chars_of(kind));
    proof {
        reveal_strlit("wasm");
        reveal_strlit("stdio");
        assert("wasm"@[0] != "stdio"@[0]);
        assert("wasm"@ != "stdio"@);
    }
    if seq_eq(&k, &chars_of("wasm")) {
        return Err(msg("no wasm runtime —"));
    }
    if !seq_eq(&k, &chars_of("stdio")) {
        let ks = string_of(k.as_slice());
        return Err(msg2("unknown plugin kind — ", ks.as_str()));
    }
    Ok(())
}

/// The request line sent to an adapter.
pub open spec fn spec_request(verb: Seq<char>, section: Seq<char>, show_dir: Seq<char>, args: Option<JsonV>) -> JsonV {
    JsonV::Object(
        seq![
            ("verb"@, JsonV::Str(verb)),
            ("section"@, JsonV::Str(section)),
            ("show"@, JsonV::Str(show_dir)),
            ("args"@, match args {
                Some(a) => a,
                None => JsonV::Object(seq![]),
            }),
        ],
    )
}

pub fn plugin_request(verb: &str, section: &str, show_dir: &str, args: Option<&Json>) -> (r: Json)
    ensures
        jv(r) == spec_request(verb@, section@, show_dir@, match args { Some(a) => Some(jv(*a)), None => None }),
{
    let a = match args {
        Some(a) => copy_json(a),
        None => Json::Object(Vec::new()),
    };
    let ghost av = jv(a);
    assert(av == match args { Some(x) => jv(*x), None => JsonV::Object(seq![]) }) by {
        if args is None {
            assert(jv_members(Seq::<(String, Json)>::empty()) =~= seq![]);
        }
    }
    let mut ms: Vec<(String, Json)> = Vec::new();
    ms.push((string_of(chars_of("verb").as_slice()), Json::Str(string_of(chars_of(verb).as_slice()))));
    ms.push((string_of(chars_of("section").as_slice()), Json::Str(string_of(chars_of(section).as_slice()))));
    ms.push((string_of(chars_of("show").as_slice()), Json::Str(string_of(chars_of(show_dir).as_slice()))));
    ms.push((string_of(chars_of("args").as_slice()), a));
    let ghost want = seq![
        ("verb"@, JsonV::Str(verb@)),
        ("section"@, JsonV::Str(section@)),
        ("show"@, JsonV::Str(show_dir@)),
        ("args"@, av),
    ];
    assert(jv_members(ms@) =~= want) by {
        reveal_with_fuel(jv_members, 5);
    }
    let r = Json::Object(ms);
    proof {
        let sp = spec_request(verb@, section@, show_dir@, match args { Some(a) => Some(jv(*a)), None => None });
        assert(sp->Object_0 =~= want);
    }
    r
}

/// The reply of an adapter: its first line that is not blank (trimmed),
/// else `{}`.
pub open spec fn spec_reply_line(out: Seq<char>) -> Seq<char> {
    first_filled(crate::brain::text_lines(out))
}

pub open spec fn first_filled(ls: Seq<Seq<char>>) -> Seq<char>
    decreases ls.len(),
{
    if ls.len() == 0 {
        "{}"@
    } else if trim(ls[0]).len() > 0 {
        trim(ls[0])
    } else {
        first_filled(ls.drop_first())
    }
}

pub fn reply_line(out: &str) -> (r: String)
    ensures
        r@ == spec_reply_line(out@),
{
    let ls = crate::brain::lines_vec(&chars_of(out));
    let ghost tl = crate::brain::text_lines(out@);
    let mut i: usize = 0;
    assert(tl.skip(0) =~= tl);
    while i < ls.len()
        invariant
            i <= ls.len(),
            ls.deep_view() == tl,
            tl == crate::brain::text_lines(out@),
            first_filled(tl) == first_filled(tl.skip(i as int)),
        decreases ls.len() - i,
    {
        assert(tl.skip(i as int)[0] == ls@[i as int]@);
        assert(tl.skip(i as int).drop_first() =~= tl.skip(i + 1));
        let t = trim_vec(&ls[i]);
        if t.len() > 0 {
            return string_of(t.as_slice());
        }
        i += 1;
    }
    assert(tl.skip(i as int).len() == 0);
    string_of(chars_of("{}").as_slice())
}

/// The adapter's answer: the JSON of its reply line; refused with the
/// parser's message when it is no JSON.
pub fn plugin_reply(out: &str) -> (r: Result<Json, ShowError>)
    ensures
        match json_parse(spec_reply_line(out@)) {
            Some(v) => r matches Ok(x) && x == v,
            None => fails_with(r, "plugin json — "@ + json_error(spec_reply_line(out@))),
        },
{
    let line = reply_line(out);
    match parse_json(line.as_str()) {
        Ok(v) => Ok(v),
        Err(e) => Err(msg2("plugin json — ", e.as_str())),
    }
}

/// A failed adapter: `plugin failed —` and the first 120 characters of what
/// it wrote to stderr, trimmed.
pub fn plugin_failed(stderr: &str) -> (r: ShowError)
    ensures
        is_msg(r, "plugin failed — "@ + (if trim(stderr@).len() > 120 { trim(stderr@).take(120) } else { trim(stderr@) })),
{
    let t = trim_vec(&chars_of(stderr));
    let cut = if t.len() > 120 {
        crate::text::sub_vec(&t, 0, 120)
    } else {
        t
    };
    assert(cut@ == (if trim(stderr@).len() > 120 { trim(stderr@).take(120) } else { trim(stderr@) }));
    let cs = string_of(cut.as_slice());
    msg2("plugin failed — ", cs.as_str())
}

/// The event a call logs: the plugin, the verb and the section.
pub open spec fn spec_call_extra(id: Seq<char>, verb: Seq<char>, section: Seq<char>) -> JsonV {
    JsonV::Object(seq![("plugin"@, JsonV::Str(id)), ("verb"@, JsonV::Str(verb)), ("section"@, JsonV::Str(section))])
}

pub fn call_extra(id: &str, verb: &str, section: &str) -> (r: Json)
    ensures
        jv(r) == spec_call_extra(id@, verb@, section@),
{
    let mut ms: Vec<(String, Json)> = Vec::new();
    ms.push((string_of(chars_of("plugin").as_slice()), Json::Str(string_of(chars_of(id).as_slice()))));
    ms.push((string_of(chars_of("verb").as_slice()), Json::Str(string_of(chars_of(verb).as_slice()))));
    ms.push((string_of(chars_of("section").as_slice()), Json::Str(string_of(chars_of(section).as_slice()))));
    let ghost want = seq![("plugin"@, JsonV::Str(id@)), ("verb"@, JsonV::Str(verb@)), ("section"@, JsonV::Str(section@))];
    assert(jv_members(ms@) =~= want) by {
        reveal_with_fuel(jv_members, 4);
    }
    let r = Json::Object(ms);
    proof {
        assert(spec_call_extra(id@, verb@, section@)->Object_0 =~= want);
    }
    r
}

/// An undeclared plugin never runs.
pub proof fn lemma_undeclared_never_runs(have: Caps, id: Seq<char>, found: Seq<PluginFound>)
    ensures
        spec_call_target(have, id, found) matches Ok(k) ==> declared(found[k].manifest),
{
}

} // verus!
