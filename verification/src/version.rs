//! The kernel's version and an honest upgrade check: it reads a channel and
//! compares versions, and never downloads a binary.

use vstd::prelude::*;
use crate::error::{ShowError, fails_with, msg};
use crate::json::{Json, json_parse, parse_json, member_str, get_str};
use crate::show::{NAME, VERSION};
use crate::text::{
    chars_of, string_of, str_eq, trim, trim_vec, trim_start_char, trim_start_char_vec, split_on,
    split_vec, spec_parse_u64, parse_u64, has_char, has_char_vec, utf8_len, utf8_len_vec,
    find_first, find_vec, lemma_find_first, sub_vec, starts_with, starts_with_vec,
};

verus! {

/// The setting that names the upgrade channel.
pub const UPGRADE_URL_ENV: &'static str = "LOT_UPGRADE_URL";

pub const NO_CHANNEL: &'static str = "no upgrade channel —";

pub const NO_UPGRADE: &'static str = "no upgrade — use --check";

pub const NO_MANIFEST: &'static str = "no upgrade —";

#[derive(Debug, Clone, PartialEq, Eq)]
pub struct VersionInfo {
    pub ok: bool,
    pub name: &'static str,
    pub version: &'static str,
}

#[derive(Debug, Clone, PartialEq, Eq)]
pub struct UpgradeReport {
    pub ok: bool,
    pub name: &'static str,
    pub version: &'static str,
    pub latest: String,
    pub update: bool,
    pub channel: String,
}

pub fn version_info() -> (r: VersionInfo)
    ensures
        r.ok,
        r.name@ == NAME@,
        r.version@ == VERSION@,
{
    VersionInfo { ok: true, name: NAME, version: VERSION }
}

/// A version as written, without blanks or a leading `v`.
pub open spec fn spec_normalize_version(s: Seq<char>) -> Seq<char> {
    trim(trim_start_char(trim(s), 'v'))
}

pub fn normalize_version(s: &str) -> (r: String)
    ensures
        r@ == spec_normalize_version(s@),
{
    let a = trim_vec(&chars_of(s));
    let b = trim_start_char_vec(&a, 'v');
    string_of(trim_vec(&b).as_slice())
}

/// Major, minor and patch: the major part must be a number; a minor or patch
/// part that is missing or not a number counts as 0.
pub open spec fn spec_semver(s: Seq<char>) -> Option<(nat, nat, nat)> {
    let ps = split_on(spec_normalize_version(s), "."@);
    match spec_parse_u64(ps[0]) {
        Some(maj) => Some((maj, part_value(ps, 1), part_value(ps, 2))),
        None => None,
    }
}

/// Part `i` as a number; 0 when missing or not a number.
pub open spec fn part_value(ps: Seq<Seq<char>>, i: int) -> nat {
    if i < ps.len() {
        match spec_parse_u64(ps[i]) {
            Some(n) => n,
            None => 0,
        }
    } else {
        0
    }
}

pub open spec fn triple_gt(a: (nat, nat, nat), b: (nat, nat, nat)) -> bool {
    a.0 > b.0 || (a.0 == b.0 && (a.1 > b.1 || (a.1 == b.1 && a.2 > b.2)))
}

fn part_or_zero(ps: &Vec<Vec<char>>, i: usize) -> (r: u64)
    ensures
        r == part_value(ps.deep_view(), i as int),
{
    if i < ps.len() {
        assert(ps.deep_view()[i as int] == ps@[i as int]@);
        match parse_u64(&ps[i]) {
            Some(n) => n,
            None => 0,
        }
    } else {
        0
    }
}

pub fn semver_parts(s: &str) -> (r: Option<(u64, u64, u64)>)
    ensures
        match (r, spec_semver(s@)) {
            (Some(a), Some(b)) => a.0 == b.0 && a.1 == b.1 && a.2 == b.2,
            (None, None) => true,
            _ => false,
        },
{
    let n = normalize_version(s);
    let dot = chars_of(".");
    proof {
        reveal_strlit(".");
    }
    let ps = split_vec(&chars_of(n.as_str()), &dot);
    assert(split_on(n@, "."@).len() >= 1);
    assert(ps.deep_view()[0] == ps@[0]@);
    let maj = match parse_u64(&ps[0]) {
        Some(m) => m,
        None => return None,
    };
    Some((maj, part_or_zero(&ps, 1), part_or_zero(&ps, 2)))
}

/// `latest` is newer than `current`: by major, minor, patch when both read as
/// versions, else whenever the two differ.
pub open spec fn spec_is_newer(latest: Seq<char>, current: Seq<char>) -> bool {
    match (spec_semver(latest), spec_semver(current)) {
        (Some(a), Some(b)) => triple_gt(a, b),
        _ => latest != current,
    }
}

pub fn is_newer(latest: &str, current: &str) -> (r: bool)
    ensures
        r == spec_is_newer(latest@, current@),
{
    match (semver_parts(latest), semver_parts(current)) {
        (Some(a), Some(b)) => a.0 > b.0 || (a.0 == b.0 && (a.1 > b.1 || (a.1 == b.1 && a.2 > b.2))),
        _ => !str_eq(latest, current),
    }
}

/// The first line of a text, trimmed.
pub open spec fn first_line(t: Seq<char>) -> Seq<char> {
    let k = find_first(t, "\n"@);
    trim(if k >= 0 { t.take(k) } else { t })
}

/// The latest version a channel's text announces: the `version` (else
/// `latest`) string of a JSON object, or else the first line of plain text
/// (at most 64 bytes, no `<`); `None` when it announces none.
/// The version a parsed channel announces: its `version`, else its
/// `latest`, each normalized, when not empty.
pub open spec fn spec_latest_of(v: Json) -> Option<Seq<char>> {
    let a = match member_str(v, "version"@) {
        Some(s) => spec_normalize_version(s),
        None => seq![],
    };
    let b = match member_str(v, "latest"@) {
        Some(s) => spec_normalize_version(s),
        None => seq![],
    };
    if a.len() > 0 {
        Some(a)
    } else if b.len() > 0 {
        Some(b)
    } else {
        None
    }
}

pub open spec fn spec_parse_latest(body: Seq<char>) -> Option<Seq<char>> {
    let t = trim(body);
    if t.len() == 0 {
        None
    } else {
        match json_parse(t) {
            Some(v) => spec_latest_of(v),
            None => {
                let line = spec_normalize_version(first_line(t));
                if line.len() == 0 || utf8_len(line) > 64 || has_char(line, '<') {
                    None
                } else {
                    Some(line)
                }
            },
        }
    }
}

fn json_version(v: &Json, key: &str) -> (r: String)
    ensures
        r@ == match member_str(*v, key@) {
            Some(s) => spec_normalize_version(s),
            None => seq![],
        },
{
    match get_str(v, key) {
        Some(s) => normalize_version(s.as_str()),
        None => string_of(Vec::<char>::new().as_slice()),
    }
}

/// The version a parsed channel announces (`spec_latest_of`).
pub fn latest_of(v: &Json) -> (r: Option<String>)
    ensures
        match r {
            Some(s) => spec_latest_of(*v) == Some(s@),
            None => spec_latest_of(*v) is None,
        },
{
    let a = json_version(v, "version");
    if crate::text::filled(a.as_str()) {
        return Some(a);
    }
    let b = json_version(v, "latest");
    if crate::text::filled(b.as_str()) {
        return Some(b);
    }
    None
}

pub fn parse_latest(body: &str) -> (r: Result<String, ShowError>)
    ensures
        match spec_parse_latest(body@) {
            Some(v) => r matches Ok(s) && s@ == v,
            None => fails_with(r, NO_MANIFEST@),
        },
{
    let t = trim_vec(&chars_of(body));
    if t.len() == 0 {
        return Err(msg(NO_MANIFEST));
    }
    let ts = string_of(t.as_slice());
    match parse_json(ts.as_str()) {
        Ok(v) => match latest_of(&v) {
            Some(l) => Ok(l),
            None => Err(msg(NO_MANIFEST)),
        },
        Err(_) => {
            proof {
                lemma_find_first(t@, "\n"@);
            }
            let nl = chars_of("\n");
            let first = match find_vec(&t, &nl) {
                Some(k) => sub_vec(&t, 0, k),
                None => sub_vec(&t, 0, t.len()),
            };
            assert(first@ =~= (if find_first(t@, "\n"@) >= 0 {
                t@.take(find_first(t@, "\n"@))
            } else {
                t@
            }));
            let line = normalize_version(string_of(trim_vec(&first).as_slice()).as_str());
            let lv = chars_of(line.as_str());
            if lv.len() == 0 || utf8_len_vec(&lv) > 64 || has_char_vec(&lv, '<') {
                return Err(msg(NO_MANIFEST));
            }
            Ok(line)
        },
    }
}

/// Where a channel is read from.
#[derive(Debug, Clone, PartialEq, Eq)]
pub enum ChannelSource {
    /// A local file, from a `file://` URL or a bare path.
    File(String),
    /// An `http://` or `https://` URL.
    Http(String),
}

/// The channel named by `LOT_UPGRADE_URL` (`env`): trimmed, refused when
/// unset or blank.
pub fn upgrade_channel(env: Option<&str>) -> (r: Result<String, ShowError>)
    ensures
        match env {
            Some(e) => if trim(e@).len() > 0 {
                r matches Ok(c) && c@ == trim(e@)
            } else {
                fails_with(r, NO_CHANNEL@)
            },
            None => fails_with(r, NO_CHANNEL@),
        },
{
    match env {
        Some(e) => {
            let t = trim_vec(&chars_of(e));
            if t.len() > 0 {
                Ok(string_of(t.as_slice()))
            } else {
                Err(msg(NO_CHANNEL))
            }
        },
        None => Err(msg(NO_CHANNEL)),
    }
}

pub open spec fn spec_channel_source(c: Seq<char>) -> ChannelSourceV {
    if starts_with(c, "file://"@) {
        ChannelSourceV::File(trim(c.skip(7)))
    } else if starts_with(c, "http://"@) || starts_with(c, "https://"@) {
        ChannelSourceV::Http(c)
    } else {
        ChannelSourceV::File(c)
    }
}

/// A `ChannelSource` as text.
pub enum ChannelSourceV {
    File(Seq<char>),
    Http(Seq<char>),
}

/// Where to read a channel: a `file://` URL names the (trimmed) path after
/// the scheme, an `http(s)://` URL is fetched, anything else is a path.
pub fn channel_source(channel: &str) -> (r: ChannelSource)
    ensures
        match (r, spec_channel_source(channel@)) {
            (ChannelSource::File(p), ChannelSourceV::File(q)) => p@ == q,
            (ChannelSource::Http(p), ChannelSourceV::Http(q)) => p@ == q,
            _ => false,
        },
{
    let c = chars_of(channel);
    proof {
        reveal_strlit("file://");
    }
    if starts_with_vec(&c, &chars_of("file://")) {
        let rest = sub_vec(&c, 7, c.len());
        return ChannelSource::File(string_of(trim_vec(&rest).as_slice()));
    }
    if starts_with_vec(&c, &chars_of("http://")) || starts_with_vec(&c, &chars_of("https://")) {
        return ChannelSource::Http(string_of(c.as_slice()));
    }
    ChannelSource::File(string_of(c.as_slice()))
}

/// The upgrade report for what the channel announced; refused when it
/// announces no version.
pub fn upgrade_report(channel: &str, body: &str) -> (r: Result<UpgradeReport, ShowError>)
    ensures
        match spec_parse_latest(body@) {
            Some(v) => r matches Ok(u) && u.ok && u.latest@ == v && u.channel@ == channel@
                && u.update == spec_is_newer(v, VERSION@) && u.name@ == NAME@ && u.version@ == VERSION@,
            None => fails_with(r, NO_MANIFEST@),
        },
{
    let latest = match parse_latest(body) {
        Ok(l) => l,
        Err(e) => return Err(e),
    };
    let update = is_newer(latest.as_str(), VERSION);
    Ok(
        UpgradeReport {
            ok: true,
            name: NAME,
            version: VERSION,
            latest,
            update,
            channel: string_of(chars_of(channel).as_slice()),
        },
    )
}

/// Law: a version is never newer than itself, so a channel that announces
/// the running version offers no update.
pub proof fn lemma_not_newer_than_itself(v: Seq<char>)
    ensures
        !spec_is_newer(v, v),
{
}

/// Law: between two versions that both read as versions, at most one is
/// newer than the other.
pub proof fn lemma_newer_is_asymmetric(a: Seq<char>, b: Seq<char>)
    requires
        spec_semver(a) is Some,
        spec_semver(b) is Some,
    ensures
        !(spec_is_newer(a, b) && spec_is_newer(b, a)),
{
}

} // verus!
