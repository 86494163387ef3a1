//! `lot://` cards: an agent reads one resource instead of the whole show.
//! Here are the list of resources and what a URI names; turning a card into
//! JSON is the caller's part.

use vstd::prelude::*;
use crate::error::{ShowError, fails_with, msg, msg2};
use crate::model::{Scene, Shot, Take, first_shot_index, lemma_first_shot_index, spec_shot_nums_match, shot_nums_match};
use crate::school::Rubric;
use crate::show::Show;
use crate::text::{chars_of, string_of, str_eq, trim, trim_vec, starts_with, starts_with_vec, append_str, sub_vec};

verus! {

/// A resource as listed.
#[derive(Debug)]
pub struct ResourceRef {
    pub uri: String,
    pub name: String,
    pub mime_type: &'static str,
    pub description: String,
}

pub open spec fn ref_view(r: ResourceRef) -> (Seq<char>, Seq<char>, Seq<char>, Seq<char>) {
    (r.uri@, r.name@, r.mime_type@, r.description@)
}

pub open spec fn labeled(key: Seq<char>, label: Seq<char>) -> Seq<char> {
    if label.len() == 0 {
        key
    } else {
        key + " "@ + label
    }
}

pub open spec fn scene_ref(sc: Scene) -> (Seq<char>, Seq<char>, Seq<char>, Seq<char>) {
    ("lot://scenes/"@ + sc.id@, labeled(sc.num@, sc.slug@), "application/json"@, "One scene card."@)
}

pub open spec fn shot_ref(sh: Shot) -> (Seq<char>, Seq<char>, Seq<char>, Seq<char>) {
    ("lot://shots/"@ + sh.id@, labeled(sh.num@, sh.name@), "application/json"@, "One shot card."@)
}

pub open spec fn take_ref(tk: Take) -> (Seq<char>, Seq<char>, Seq<char>, Seq<char>) {
    (
        "lot://takes/"@ + tk.id@,
        if tk.filename@.len() == 0 {
            tk.id@
        } else {
            tk.filename@
        },
        "application/json"@,
        "One take card."@,
    )
}

pub open spec fn refs_view(rs: Seq<ResourceRef>) -> Seq<(Seq<char>, Seq<char>, Seq<char>, Seq<char>)> {
    Seq::new(rs.len(), |i: int| ref_view(rs[i]))
}

pub open spec fn scene_refs(ss: Seq<Scene>) -> Seq<(Seq<char>, Seq<char>, Seq<char>, Seq<char>)> {
    Seq::new(ss.len(), |i: int| scene_ref(ss[i]))
}

pub open spec fn shot_refs(ss: Seq<Shot>) -> Seq<(Seq<char>, Seq<char>, Seq<char>, Seq<char>)> {
    Seq::new(ss.len(), |i: int| shot_ref(ss[i]))
}

pub open spec fn take_refs(ts: Seq<Take>) -> Seq<(Seq<char>, Seq<char>, Seq<char>, Seq<char>)> {
    Seq::new(ts.len(), |i: int| take_ref(ts[i]))
}

/// The resources of a show: the show itself, then each scene, shot and take.
pub open spec fn spec_list_for(show: Show) -> Seq<(Seq<char>, Seq<char>, Seq<char>, Seq<char>)> {
    seq![("lot://show"@, show.name@, "application/json"@, "Show meta, phase, school, lock, last event. Not the fountain."@)]
        + scene_refs(show.scenes@) + shot_refs(show.shots@) + take_refs(show.takes@)
}

fn text2(a: &str, b: &str) -> (r: String)
    ensures
        r@ == a@ + b@,
{
    let mut v = chars_of(a);
    append_str(&mut v, b);
    string_of(v.as_slice())
}

fn labeled_exec(key: &str, label: &str) -> (r: String)
    ensures
        r@ == labeled(key@, label@),
{
    if crate::text::filled(label) {
        let mut v = chars_of(key);
        append_str(&mut v, " ");
        append_str(&mut v, label);
        string_of(v.as_slice())
    } else {
        string_of(chars_of(key).as_slice())
    }
}

pub fn list_for(show: &Show) -> (r: Vec<ResourceRef>)
    ensures
        refs_view(r@) == spec_list_for(*show),
{
    let mut out: Vec<ResourceRef> = Vec::new();
    out.push(
        ResourceRef {
            uri: string_of(chars_of("lot://show").as_slice()),
            name: string_of(chars_of(show.name.as_str()).as_slice()),
            mime_type: "application/json",
            description: string_of(chars_of("Show meta, phase, school, lock, last event. Not the fountain.").as_slice()),
        },
    );
    let ghost head = seq![
        ("lot://show"@, show.name@, "application/json"@, "Show meta, phase, school, lock, last event. Not the fountain."@),
    ];
    assert(refs_view(out@) =~= head);
    let mut i: usize = 0;
    while i < show.scenes.len()
        invariant
            i <= show.scenes.len(),
            refs_view(out@) == head + scene_refs(show.scenes@.take(i as int)),
        decreases show.scenes.len() - i,
    {
        let sc = &show.scenes[i];
        let ghost pre = out@;
        out.push(
            ResourceRef {
                uri: text2("lot://scenes/", sc.id.as_str()),
                name: labeled_exec(sc.num.as_str(), sc.slug.as_str()),
                mime_type: "application/json",
                description: string_of(chars_of("One scene card.").as_slice()),
            },
        );
        assert(ref_view(out@.last()) == scene_ref(show.scenes@[i as int]));
        assert(refs_view(out@) =~= refs_view(pre).push(ref_view(out@.last())));
        assert(show.scenes@.take(i + 1) =~= show.scenes@.take(i as int).push(show.scenes@[i as int]));
        assert(scene_refs(show.scenes@.take(i + 1)) =~= scene_refs(show.scenes@.take(i as int)).push(scene_ref(show.scenes@[i as int])));
        i += 1;
        assert(refs_view(out@) =~= head + scene_refs(show.scenes@.take(i as int)));
    }
    assert(show.scenes@.take(i as int) =~= show.scenes@);
    let ghost h2 = head + scene_refs(show.scenes@);
    let mut i: usize = 0;
    while i < show.shots.len()
        invariant
            i <= show.shots.len(),
            refs_view(out@) == h2 + shot_refs(show.shots@.take(i as int)),
        decreases show.shots.len() - i,
    {
        let sh = &show.shots[i];
        let ghost pre = out@;
        out.push(
            ResourceRef {
                uri: text2("lot://shots/", sh.id.as_str()),
                name: labeled_exec(sh.num.as_str(), sh.name.as_str()),
                mime_type: "application/json",
                description: string_of(chars_of("One shot card.").as_slice()),
            },
        );
        assert(ref_view(out@.last()) == shot_ref(show.shots@[i as int]));
        assert(refs_view(out@) =~= refs_view(pre).push(ref_view(out@.last())));
        assert(show.shots@.take(i + 1) =~= show.shots@.take(i as int).push(show.shots@[i as int]));
        assert(shot_refs(show.shots@.take(i + 1)) =~= shot_refs(show.shots@.take(i as int)).push(shot_ref(show.shots@[i as int])));
        i += 1;
        assert(refs_view(out@) =~= h2 + shot_refs(show.shots@.take(i as int)));
    }
    assert(show.shots@.take(i as int) =~= show.shots@);
    let ghost h3 = h2 + shot_refs(show.shots@);
    let mut i: usize = 0;
    while i < show.takes.len()
        invariant
            i <= show.takes.len(),
            refs_view(out@) == h3 + take_refs(show.takes@.take(i as int)),
        decreases show.takes.len() - i,
    {
        let tk = &show.takes[i];
        let ghost pre = out@;
        let name = if crate::text::filled(tk.filename.as_str()) {
            string_of(chars_of(tk.filename.as_str()).as_slice())
        } else {
            string_of(chars_of(tk.id.as_str()).as_slice())
        };
        out.push(
            ResourceRef {
                uri: text2("lot://takes/", tk.id.as_str()),
                name,
                mime_type: "application/json",
                description: string_of(chars_of("One take card.").as_slice()),
            },
        );
        assert(ref_view(out@.last()) == take_ref(show.takes@[i as int]));
        assert(refs_view(out@) =~= refs_view(pre).push(ref_view(out@.last())));
        assert(show.takes@.take(i + 1) =~= show.takes@.take(i as int).push(show.takes@[i as int]));
        assert(take_refs(show.takes@.take(i + 1)) =~= take_refs(show.takes@.take(i as int)).push(take_ref(show.takes@[i as int])));
        i += 1;
        assert(refs_view(out@) =~= h3 + take_refs(show.takes@.take(i as int)));
    }
    assert(show.takes@.take(i as int) =~= show.takes@);
    out
}

/// What a URI names.
#[derive(Debug)]
pub enum ResourceTarget {
    Show,
    Scene(usize),
    Shot(usize),
    Take(usize),
    Rubric(usize),
}

pub open spec fn first_scene(ss: Seq<Scene>, key: Seq<char>) -> int
    decreases ss.len(),
{
    if ss.len() == 0 {
        -1
    } else if ss[0].id@ == key || ss[0].num@ == key {
        0
    } else {
        let r = first_scene(ss.drop_first(), key);
        if r < 0 {
            -1
        } else {
            r + 1
        }
    }
}

pub open spec fn first_shot(ss: Seq<Shot>, key: Seq<char>) -> int
    decreases ss.len(),
{
    if ss.len() == 0 {
        -1
    } else if ss[0].id@ == key || spec_shot_nums_match(ss[0].num@, key) {
        0
    } else {
        let r = first_shot(ss.drop_first(), key);
        if r < 0 {
            -1
        } else {
            r + 1
        }
    }
}

pub open spec fn first_take(ts: Seq<Take>, key: Seq<char>) -> int
    decreases ts.len(),
{
    if ts.len() == 0 {
        -1
    } else if ts[0].id@ == key || ts[0].filename@ == key {
        0
    } else {
        let r = first_take(ts.drop_first(), key);
        if r < 0 {
            -1
        } else {
            r + 1
        }
    }
}

pub open spec fn first_rubric(rs: Seq<Rubric>, id: Seq<char>) -> int
    decreases rs.len(),
{
    if rs.len() == 0 {
        -1
    } else if rs[0].id@ == id {
        0
    } else {
        let r = first_rubric(rs.drop_first(), id);
        if r < 0 {
            -1
        } else {
            r + 1
        }
    }
}

pub open spec fn unknown_resource(uri: Seq<char>) -> Seq<char> {
    "unknown resource — "@ + uri
}

pub open spec fn found_or(k: int, t: ResourceTarget, m: Seq<char>) -> Result<ResourceTarget, Seq<char>> {
    if k < 0 {
        Err(m)
    } else {
        Ok(t)
    }
}

/// What a URI (trimmed) names: `lot://show`, a scene by id or number, a shot
/// by id or number, a take by id or file name, or (with school on) a rubric.
pub open spec fn spec_read_for(show: Show, uri: Seq<char>, rubrics: Seq<Rubric>) -> Result<ResourceTarget, Seq<char>> {
    let u = trim(uri);
    if !starts_with(u, "lot://"@) {
        Err(unknown_resource(u))
    } else {
        let rest = u.skip(6);
        if rest == "show"@ {
            Ok(ResourceTarget::Show)
        } else if starts_with(rest, "scenes/"@) {
            let key = rest.skip(7);
            let k = first_scene(show.scenes@, key);
            found_or(k, ResourceTarget::Scene(k as usize), "unknown scene: "@ + key)
        } else if starts_with(rest, "shots/"@) {
            let key = rest.skip(6);
            let k = first_shot(show.shots@, key);
            found_or(k, ResourceTarget::Shot(k as usize), "unknown shot: "@ + key)
        } else if starts_with(rest, "takes/"@) {
            let key = rest.skip(6);
            let k = first_take(show.takes@, key);
            found_or(k, ResourceTarget::Take(k as usize), "unknown take: "@ + key)
        } else if starts_with(rest, "school/rubric/"@) {
            if !show.school.enabled {
                Err("school off — no rubric"@)
            } else {
                let id = trim(rest.skip(14));
                let k = first_rubric(rubrics, id);
                found_or(k, ResourceTarget::Rubric(k as usize), "no rubric — "@ + id)
            }
        } else {
            Err(unknown_resource(u))
        }
    }
}

pub open spec fn target_matches(r: Result<ResourceTarget, ShowError>, want: Result<ResourceTarget, Seq<char>>) -> bool {
    match (r, want) {
        (Ok(a), Ok(b)) => a == b,
        (Err(e), Err(m)) => crate::error::is_msg(e, m),
        _ => false,
    }
}

fn find_scene(ss: &Vec<Scene>, key: &Vec<char>) -> (r: Option<usize>)
    ensures
        match r {
            Some(k) => k as int == first_scene(ss@, key@),
            None => first_scene(ss@, key@) < 0,
        },
{
    let mut i: usize = 0;
    assert(ss@.skip(0) =~= ss@);
    while i < ss.len()
        invariant
            i <= ss.len(),
            forall|j: int| 0 <= j < i ==> !((#[trigger] ss@[j]).id@ == key@ || ss@[j].num@ == key@),
            first_scene(ss@, key@) == (if first_scene(ss@.skip(i as int), key@) < 0 {
                -1
            } else {
                first_scene(ss@.skip(i as int), key@) + i
            }),
        decreases ss.len() - i,
    {
        assert(ss@.skip(i as int)[0] == ss@[i as int]);
        assert(ss@.skip(i as int).drop_first() =~= ss@.skip(i + 1));
        if crate::text::seq_eq(&chars_of(ss[i].id.as_str()), key) || crate::text::seq_eq(
            &chars_of(ss[i].num.as_str()),
            key,
        ) {
            return Some(i);
        }
        i += 1;
    }
    None
}

fn find_shot_key(ss: &Vec<Shot>, key: &Vec<char>) -> (r: Option<usize>)
    ensures
        match r {
            Some(k) => k as int == first_shot(ss@, key@),
            None => first_shot(ss@, key@) < 0,
        },
{
    let ks = string_of(key.as_slice());
    let mut i: usize = 0;
    assert(ss@.skip(0) =~= ss@);
    while i < ss.len()
        invariant
            i <= ss.len(),
            ks@ == key@,
            first_shot(ss@, key@) == (if first_shot(ss@.skip(i as int), key@) < 0 {
                -1
            } else {
                first_shot(ss@.skip(i as int), key@) + i
            }),
        decreases ss.len() - i,
    {
        assert(ss@.skip(i as int)[0] == ss@[i as int]);
        assert(ss@.skip(i as int).drop_first() =~= ss@.skip(i + 1));
        if crate::text::seq_eq(&chars_of(ss[i].id.as_str()), key) || shot_nums_match(ss[i].num.as_str(), ks.as_str()) {
            return Some(i);
        }
        i += 1;
    }
    None
}

fn find_take_key(ts: &Vec<Take>, key: &Vec<char>) -> (r: Option<usize>)
    ensures
        match r {
            Some(k) => k as int == first_take(ts@, key@),
            None => first_take(ts@, key@) < 0,
        },
{
    let mut i: usize = 0;
    assert(ts@.skip(0) =~= ts@);
    while i < ts.len()
        invariant
            i <= ts.len(),
            first_take(ts@, key@) == (if first_take(ts@.skip(i as int), key@) < 0 {
                -1
            } else {
                first_take(ts@.skip(i as int), key@) + i
            }),
        decreases ts.len() - i,
    {
        assert(ts@.skip(i as int)[0] == ts@[i as int]);
        assert(ts@.skip(i as int).drop_first() =~= ts@.skip(i + 1));
        if crate::text::seq_eq(&chars_of(ts[i].id.as_str()), key) || crate::text::seq_eq(
            &chars_of(ts[i].filename.as_str()),
            key,
        ) {
            return Some(i);
        }
        i += 1;
    }
    None
}

fn find_rubric(rs: &Vec<Rubric>, id: &Vec<char>) -> (r: Option<usize>)
    ensures
        match r {
            Some(k) => k as int == first_rubric(rs@, id@),
            None => first_rubric(rs@, id@) < 0,
        },
{
    let mut i: usize = 0;
    assert(rs@.skip(0) =~= rs@);
    while i < rs.len()
        invariant
            i <= rs.len(),
            first_rubric(rs@, id@) == (if first_rubric(rs@.skip(i as int), id@) < 0 {
                -1
            } else {
                first_rubric(rs@.skip(i as int), id@) + i
            }),
        decreases rs.len() - i,
    {
        assert(rs@.skip(i as int)[0] == rs@[i as int]);
        assert(rs@.skip(i as int).drop_first() =~= rs@.skip(i + 1));
        if crate::text::seq_eq(&chars_of(rs[i].id.as_str()), id) {
            return Some(i);
        }
        i += 1;
    }
    None
}

fn rest_after(s: &Vec<char>, n: usize) -> (r: Vec<char>)
    requires
        n <= s.len(),
    ensures
        r@ == s@.skip(n as int),
{
    let r = sub_vec(s, n, s.len());
    assert(r@ =~= s@.skip(n as int));
    r
}

pub fn read_for(show: &Show, uri: &str, rubrics: &Vec<Rubric>) -> (r: Result<ResourceTarget, ShowError>)
    ensures
        target_matches(r, spec_read_for(*show, uri@, rubrics@)),
{
    proof {
        reveal_strlit("lot://");
        reveal_strlit("scenes/");
        reveal_strlit("shots/");
        reveal_strlit("takes/");
        reveal_strlit("school/rubric/");
    }
    let u = trim_vec(&chars_of(uri));
    if !starts_with_vec(&u, &chars_of("lot://")) {
        let us = string_of(u.as_slice());
        return Err(msg2("unknown resource — ", us.as_str()));
    }
    let rest = rest_after(&u, 6);
    if crate::text::seq_eq(&rest, &chars_of("show")) {
        return Ok(ResourceTarget::Show);
    }
    if starts_with_vec(&rest, &chars_of("scenes/")) {
        let key = rest_after(&rest, 7);
        let ks = string_of(key.as_slice());
        return match find_scene(&show.scenes, &key) {
            Some(k) => Ok(ResourceTarget::Scene(k)),
            None => Err(msg2("unknown scene: ", ks.as_str())),
        };
    }
    if starts_with_vec(&rest, &chars_of("shots/")) {
        let key = rest_after(&rest, 6);
        let ks = string_of(key.as_slice());
        return match find_shot_key(&show.shots, &key) {
            Some(k) => Ok(ResourceTarget::Shot(k)),
            None => Err(msg2("unknown shot: ", ks.as_str())),
        };
    }
    if starts_with_vec(&rest, &chars_of("takes/")) {
        let key = rest_after(&rest, 6);
        let ks = string_of(key.as_slice());
        return match find_take_key(&show.takes, &key) {
            Some(k) => Ok(ResourceTarget::Take(k)),
            None => Err(msg2("unknown take: ", ks.as_str())),
        };
    }
    if starts_with_vec(&rest, &chars_of("school/rubric/")) {
        if !show.school.enabled {
            return Err(msg("school off — no rubric"));
        }
        let id = trim_vec(&rest_after(&rest, 14));
        let ids = string_of(id.as_slice());
        return match find_rubric(rubrics, &id) {
            Some(k) => Ok(ResourceTarget::Rubric(k)),
            None => Err(msg2("no rubric — ", ids.as_str())),
        };
    }
    let us = string_of(u.as_slice());
    Err(msg2("unknown resource — ", us.as_str()))
}

} // verus!
