//! The slate: each shot's continuity canon, its per-target rewrites, and the
//! LoRAs. A target never replaces the canon, and no rewrite is invented when
//! the brain or the prompt server does not answer.

use vstd::prelude::*;
use crate::error::{ShowError, is_msg, fails_with, msg, msg2};
use crate::json::{json_parse, parse_json, member_str, get_str, Json, text_of, at, at_exec, text_exec};
use crate::model::{Shot, SlateLora, PromptTarget, first_shot_index, lemma_first_shot_index, find_shot, copy_lora};
use crate::packs::{PackFile, PackItem, spec_resolve_target, resolve_prompt_target, lookup, lookup_index, spec_display_name};
use crate::show::{Show, bump, spec_bumped};
use crate::text::{
    chars_of, string_of, str_eq, trim, trim_vec, trim_end_char, trim_end_char_vec, ends_with,
    ends_with_vec, append_str, append_vec, join, join_vecs, push_piece, filled, dec, dec_vec,
};

verus! {

// ------------------------------------------------------------ lists keyed by id

pub open spec fn target_text(t: PromptTarget) -> (Seq<char>, Seq<char>) {
    (t.target@, t.prompt@)
}

pub open spec fn targets_text(ts: Seq<PromptTarget>) -> Seq<(Seq<char>, Seq<char>)> {
    Seq::new(ts.len(), |i: int| target_text(ts[i]))
}

/// Position of the first pair whose key is `k`, or -1.
pub open spec fn key_index<V>(ps: Seq<(Seq<char>, V)>, k: Seq<char>) -> int
    decreases ps.len(),
{
    if ps.len() == 0 {
        -1
    } else if ps[0].0 == k {
        0
    } else {
        let r = key_index(ps.drop_first(), k);
        if r < 0 {
            -1
        } else {
            r + 1
        }
    }
}

pub proof fn lemma_key_index<V>(ps: Seq<(Seq<char>, V)>, k: Seq<char>)
    ensures
        -1 <= key_index(ps, k) < ps.len(),
        key_index(ps, k) >= 0 ==> ps[key_index(ps, k)].0 == k,
        key_index(ps, k) < 0 ==> forall|j: int| 0 <= j < ps.len() ==> (#[trigger] ps[j]).0 != k,
        forall|j: int| 0 <= j < key_index(ps, k) ==> (#[trigger] ps[j]).0 != k,
    decreases ps.len(),
{
    if ps.len() > 0 {
        lemma_key_index(ps.drop_first(), k);
        assert forall|j: int| 1 <= j < ps.len() implies ps[j] == ps.drop_first()[j - 1] by {}
    }
}

/// The pairs with `(k, v)` put in: in place of the first pair with key `k`,
/// else at the end.
pub open spec fn put<V>(ps: Seq<(Seq<char>, V)>, k: Seq<char>, v: V) -> Seq<(Seq<char>, V)> {
    let i = key_index(ps, k);
    if i >= 0 {
        ps.update(i, (k, v))
    } else {
        ps.push((k, v))
    }
}

/// Puts a per-target prompt in (`prompt_targets.insert(target, prompt)`).
pub fn put_target(ts: &mut Vec<PromptTarget>, target: &str, prompt: &str)
    ensures
        targets_text(final(ts)@) == put(targets_text(old(ts)@), target@, prompt@),
{
    let ghost tv = targets_text(ts@);
    proof {
        lemma_key_index(tv, target@);
    }
    let mut i: usize = 0;
    while i < ts.len()
        invariant
            i <= ts.len(),
            tv == targets_text(ts@),
            *ts == *old(ts),
            forall|j: int| 0 <= j < i ==> (#[trigger] tv[j]).0 != target@,
            -1 <= key_index(tv, target@) < tv.len(),
            key_index(tv, target@) >= 0 ==> tv[key_index(tv, target@)].0 == target@,
            key_index(tv, target@) < 0 ==> forall|j: int| 0 <= j < tv.len() ==> (#[trigger] tv[j]).0 != target@,
            forall|j: int| 0 <= j < key_index(tv, target@) ==> (#[trigger] tv[j]).0 != target@,
        decreases ts.len() - i,
    {
        if str_eq(ts[i].target.as_str(), target) {
            assert(tv[i as int].0 == target@);
            assert(key_index(tv, target@) == i as int);
            let t = PromptTarget {
                target: string_of(chars_of(target).as_slice()),
                prompt: string_of(chars_of(prompt).as_slice()),
            };
            ts.remove(i);
            ts.insert(i, t);
            assert(targets_text(ts@) =~= put(tv, target@, prompt@));
            return;
        }
        i += 1;
    }
    ts.push(PromptTarget {
        target: string_of(chars_of(target).as_slice()),
        prompt: string_of(chars_of(prompt).as_slice()),
    });
    assert(targets_text(ts@) =~= put(tv, target@, prompt@));
}

pub open spec fn lora_text(l: SlateLora) -> (Seq<char>, (Seq<char>, Seq<char>)) {
    (l.id@, (l.weight@, l.model@))
}

pub open spec fn loras_text(ls: Seq<SlateLora>) -> Seq<(Seq<char>, (Seq<char>, Seq<char>))> {
    Seq::new(ls.len(), |i: int| lora_text(ls[i]))
}

/// Puts a LoRA in: in place of the first with the same id, else at the end.
pub fn upsert_lora(list: &mut Vec<SlateLora>, lora: SlateLora)
    ensures
        loras_text(final(list)@) == put(loras_text(old(list)@), lora.id@, (lora.weight@, lora.model@)),
{
    let ghost lv = loras_text(list@);
    proof {
        lemma_key_index(lv, lora.id@);
    }
    let mut i: usize = 0;
    while i < list.len()
        invariant
            i <= list.len(),
            lv == loras_text(list@),
            *list == *old(list),
            forall|j: int| 0 <= j < i ==> (#[trigger] lv[j]).0 != lora.id@,
            -1 <= key_index(lv, lora.id@) < lv.len(),
            key_index(lv, lora.id@) >= 0 ==> lv[key_index(lv, lora.id@)].0 == lora.id@,
            key_index(lv, lora.id@) < 0 ==> forall|j: int| 0 <= j < lv.len() ==> (#[trigger] lv[j]).0 != lora.id@,
            forall|j: int| 0 <= j < key_index(lv, lora.id@) ==> (#[trigger] lv[j]).0 != lora.id@,
        decreases list.len() - i,
    {
        if str_eq(list[i].id.as_str(), lora.id.as_str()) {
            assert(lv[i as int].0 == lora.id@);
            assert(key_index(lv, lora.id@) == i as int);
            list.remove(i);
            list.insert(i, lora);
            assert(loras_text(list@) =~= put(lv, lora.id@, (lora.weight@, lora.model@)));
            return;
        }
        i += 1;
    }
    let ghost l = lora;
    list.push(lora);
    assert(loras_text(list@) =~= put(lv, l.id@, (l.weight@, l.model@)));
}

/// The show's LoRAs with the shot's put in over them.
pub open spec fn merged(base: Seq<(Seq<char>, (Seq<char>, Seq<char>))>, shot: Seq<(Seq<char>, (Seq<char>, Seq<char>))>) -> Seq<(Seq<char>, (Seq<char>, Seq<char>))>
    decreases shot.len(),
{
    if shot.len() == 0 {
        base
    } else {
        put(merged(base, shot.drop_last()), shot.last().0, shot.last().1)
    }
}

pub fn merge_loras(show: &Vec<SlateLora>, shot: &Vec<SlateLora>) -> (r: Vec<SlateLora>)
    ensures
        loras_text(r@) == merged(loras_text(show@), loras_text(shot@)),
{
    let mut out = crate::model::copy_loras(show);
    let mut i: usize = 0;
    while i < shot.len()
        invariant
            i <= shot.len(),
            loras_text(out@) == merged(loras_text(show@), loras_text(shot@).take(i as int)),
        decreases shot.len() - i,
    {
        upsert_lora(&mut out, copy_lora(&shot[i]));
        i += 1;
        assert(loras_text(shot@).take(i as int).drop_last() =~= loras_text(shot@).take(i - 1));
    }
    assert(loras_text(shot@).take(i as int) =~= loras_text(shot@));
    out
}

// ------------------------------------------------------------ small texts

/// The motion previs marks of a shot, as one line.
pub open spec fn spec_motion_line(s: Shot) -> Seq<char> {
    join(motion_bits(s), "; "@)
}

pub open spec fn motion_bits(s: Shot) -> Seq<Seq<char>> {
    let a: Seq<Seq<char>> = match s.motion_mode {
        Some(m) => seq!["mode="@ + m@],
        None => seq![],
    };
    let b: Seq<Seq<char>> = if s.motion_move@.len() > 0 {
        seq!["move="@ + s.motion_move@]
    } else {
        seq![]
    };
    let c: Seq<Seq<char>> = if s.motion_notes@.len() > 0 {
        seq![s.motion_notes@]
    } else {
        seq![]
    };
    a + b + c
}

pub fn motion_line(s: &Shot) -> (r: String)
    ensures
        r@ == spec_motion_line(*s),
{
    let mut bits: Vec<Vec<char>> = Vec::new();
    match &s.motion_mode {
        Some(m) => {
            let mut v = chars_of("mode=");
            append_str(&mut v, m.as_str());
            push_piece(&mut bits, v);
        },
        None => {},
    }
    if filled(s.motion_move.as_str()) {
        let mut v = chars_of("move=");
        append_str(&mut v, s.motion_move.as_str());
        push_piece(&mut bits, v);
    }
    if filled(s.motion_notes.as_str()) {
        push_piece(&mut bits, chars_of(s.motion_notes.as_str()));
    }
    assert(bits.deep_view() =~= motion_bits(*s));
    string_of(join_vecs(&bits, &chars_of("; ")).as_slice())
}

/// The prompt-server endpoint: the base without trailing slashes, ending in
/// `/rewrite`.
pub open spec fn spec_rewrite_url(base: Seq<char>) -> Seq<char> {
    let b = trim_end_char(trim(base), '/');
    if ends_with(b, "/rewrite"@) {
        b
    } else {
        b + "/rewrite"@
    }
}

pub fn prompt_server_rewrite_url(base: &str) -> (r: String)
    ensures
        r@ == spec_rewrite_url(base@),
{
    let b = trim_end_char_vec(&trim_vec(&chars_of(base)), '/');
    if ends_with_vec(&b, &chars_of("/rewrite")) {
        string_of(b.as_slice())
    } else {
        let mut v = b;
        append_str(&mut v, "/rewrite");
        string_of(v.as_slice())
    }
}

/// The prompt a shot sends to a target: the target's rewrite when it has a
/// non-blank one, else the canon; trimmed.
pub open spec fn spec_prompt_for(s: Shot, target: Seq<char>) -> Seq<char> {
    let ts = targets_text(s.prompt_targets@);
    let k = key_index(ts, target);
    if k >= 0 && trim(ts[k].1).len() > 0 {
        trim(ts[k].1)
    } else {
        trim(s.prompt@)
    }
}

pub fn prompt_for_target(s: &Shot, target: &str) -> (r: String)
    ensures
        r@ == spec_prompt_for(*s, target@),
{
    let ghost ts = targets_text(s.prompt_targets@);
    proof {
        lemma_key_index(ts, target@);
    }
    let mut i: usize = 0;
    while i < s.prompt_targets.len()
        invariant
            i <= s.prompt_targets.len(),
            ts == targets_text(s.prompt_targets@),
            forall|j: int| 0 <= j < i ==> (#[trigger] ts[j]).0 != target@,
            -1 <= key_index(ts, target@) < ts.len(),
            key_index(ts, target@) >= 0 ==> ts[key_index(ts, target@)].0 == target@,
            key_index(ts, target@) < 0 ==> forall|j: int| 0 <= j < ts.len() ==> (#[trigger] ts[j]).0 != target@,
            forall|j: int| 0 <= j < key_index(ts, target@) ==> (#[trigger] ts[j]).0 != target@,
        decreases s.prompt_targets.len() - i,
    {
        if str_eq(s.prompt_targets[i].target.as_str(), target) {
            assert(ts[i as int].0 == target@);
            assert(key_index(ts, target@) == i as int);
            let t = trim_vec(&chars_of(s.prompt_targets[i].prompt.as_str()));
            if t.len() > 0 {
                return string_of(t.as_slice());
            }
            return string_of(trim_vec(&chars_of(s.prompt.as_str())).as_slice());
        }
        i += 1;
    }
    string_of(trim_vec(&chars_of(s.prompt.as_str())).as_slice())
}

/// What a brain's rewrite comes to: the `prompt` of a JSON reply, else the
/// reply itself; trimmed.
pub open spec fn spec_extract_prompt(raw: Seq<char>) -> Seq<char> {
    let t = trim(raw);
    match json_parse(t) {
        Some(v) => match member_str(v, "prompt"@) {
            Some(p) => trim(p),
            None => t,
        },
        None => t,
    }
}

pub fn extract_prompt(raw: &str) -> (r: String)
    ensures
        r@ == spec_extract_prompt(raw@),
{
    let t = string_of(trim_vec(&chars_of(raw)).as_slice());
    match parse_json(t.as_str()) {
        Ok(v) => match get_str(&v, "prompt") {
            Some(p) => string_of(trim_vec(&chars_of(p.as_str())).as_slice()),
            None => t,
        },
        Err(_) => t,
    }
}

pub open spec fn no_server_tail() -> Seq<char> {
    ". Did not invent a rewrite."@
}

/// The rewrite a prompt server answered: its `prompt`, trimmed and not blank;
/// a status of 400 and up, or no prompt, is refused.
pub open spec fn spec_server_prompt(status: u16, v: Json) -> Result<Seq<char>, Seq<char>> {
    if status >= 400 {
        Err("no prompt server — status="@ + dec(status as nat) + ". Did not invent a rewrite."@)
    } else {
        match text_of(at(Some(v), "prompt"@)) {
            Some(p) => if trim(p).len() > 0 {
                Ok(trim(p))
            } else {
                Err("no prompt server — response missing prompt. Did not invent a rewrite."@)
            },
            None => Err("no prompt server — response missing prompt. Did not invent a rewrite."@),
        }
    }
}

pub fn server_prompt(status: u16, v: &Json) -> (r: Result<String, ShowError>)
    ensures
        match (r, spec_server_prompt(status, *v)) {
            (Ok(a), Ok(b)) => a@ == b,
            (Err(e), Err(m)) => is_msg(e, m),
            _ => false,
        },
{
    if status >= 400 {
        let mut m = chars_of("no prompt server — status=");
        append_vec(&mut m, &dec_vec(status as u64));
        append_str(&mut m, ". Did not invent a rewrite.");
        return Err(ShowError::Msg(string_of(m.as_slice())));
    }
    match text_exec(at_exec(Some(v), "prompt")) {
        Some(p) => {
            let t = trim_vec(&chars_of(p.as_str()));
            if t.len() > 0 {
                Ok(string_of(t.as_slice()))
            } else {
                Err(msg("no prompt server — response missing prompt. Did not invent a rewrite."))
            }
        },
        None => Err(msg("no prompt server — response missing prompt. Did not invent a rewrite.")),
    }
}

// ------------------------------------------------------------ the show

pub open spec fn unknown_shot(num: Seq<char>) -> Seq<char> {
    "unknown shot: "@ + num
}

/// Every shot but the `k`-th kept as it was.
pub open spec fn others_kept(a: Seq<Shot>, b: Seq<Shot>, k: int) -> bool {
    a.len() == b.len() && forall|j: int| 0 <= j < a.len() && j != k ==> a[j] == b[j]
}

/// Sets a shot's canon prompt, or its rewrite for a target (which also
/// becomes the canon when the shot has none). The phase becomes `slate`.
pub fn slate_set(
    show: &mut Show,
    targets: &PackFile,
    shot_num: &str,
    prompt: &str,
    target: Option<&str>,
    now: &str,
) -> (r: Result<(), ShowError>)
    requires
        old(show).rev < u64::MAX,
    ensures
        ({
            let text = trim(prompt@);
            let t = match target {
                Some(x) => if trim(x@).len() > 0 {
                    Some(spec_resolve_target(*targets, x@))
                } else {
                    None
                },
                None => None,
            };
            let k = first_shot_index(old(show).shots@, shot_num@);
            if text.len() == 0 {
                fails_with(r, "slate needs --prompt"@) && *final(show) == *old(show)
            } else if t matches Some(Err(_)) {
                fails_with(r, t->Some_0->Err_0) && *final(show) == *old(show)
            } else if k < 0 {
                fails_with(r, unknown_shot(shot_num@)) && *final(show) == *old(show)
            } else {
                let before = old(show).shots@[k];
                let after = final(show).shots@[k];
                &&& r is Ok
                &&& others_kept(old(show).shots@, final(show).shots@, k)
                &&& after == Shot { prompt: after.prompt, prompt_targets: after.prompt_targets, ..before }
                &&& match t {
                    Some(Ok(id)) => {
                        &&& targets_text(after.prompt_targets@) == put(
                            targets_text(before.prompt_targets@),
                            id,
                            text,
                        )
                        &&& after.prompt@ == if trim(before.prompt@).len() == 0 {
                            text
                        } else {
                            before.prompt@
                        }
                    },
                    _ => after.prompt@ == text && after.prompt_targets == before.prompt_targets,
                }
                &&& final(show).phase@ == "slate"@
                &&& spec_bumped(
                    Show { shots: final(show).shots, phase: final(show).phase, ..*old(show) },
                    *final(show),
                    now@,
                )
            }
        }),
{
    let text = string_of(trim_vec(&chars_of(prompt)).as_slice());
    if !filled(text.as_str()) {
        return Err(msg("slate needs --prompt"));
    }
    let tid: Option<String> = match target {
        Some(x) => {
            if filled(string_of(trim_vec(&chars_of(x)).as_slice()).as_str()) {
                match resolve_prompt_target(targets, x) {
                    Ok(id) => Some(id),
                    Err(e) => return Err(e),
                }
            } else {
                None
            }
        },
        None => None,
    };
    proof {
        lemma_first_shot_index(show.shots@, shot_num@);
    }
    let k = match find_shot(&show.shots, shot_num) {
        Some(k) => k,
        None => return Err(msg2("unknown shot: ", shot_num)),
    };
    let ghost before = show.shots@[k as int];
    let mut sh = show.shots.remove(k);
    match &tid {
        Some(id) => {
            if !filled(string_of(trim_vec(&chars_of(sh.prompt.as_str())).as_slice()).as_str()) {
                sh.prompt = text.clone();
            }
            put_target(&mut sh.prompt_targets, id.as_str(), text.as_str());
        },
        None => {
            sh.prompt = text.clone();
        },
    }
    let ghost after = sh;
    show.shots.insert(k, sh);
    assert(show.shots@[k as int] == after);
    assert(others_kept(old(show).shots@, show.shots@, k as int));
    show.phase = string_of(chars_of("slate").as_slice());
    bump(show, now);
    Ok(())
}

/// Sets the show's default prompt target. The phase becomes `slate`.
pub fn slate_target(show: &mut Show, targets: &PackFile, id: &str, now: &str) -> (r: Result<(), ShowError>)
    requires
        old(show).rev < u64::MAX,
    ensures
        match spec_resolve_target(*targets, id@) {
            Err(m) => fails_with(r, m) && *final(show) == *old(show),
            Ok(t) => {
                &&& r is Ok
                &&& final(show).slate.default_target matches Some(d) && d@ == t
                &&& final(show).phase@ == "slate"@
                &&& final(show).slate.loras == old(show).slate.loras
                &&& spec_bumped(
                    Show { slate: final(show).slate, phase: final(show).phase, ..*old(show) },
                    *final(show),
                    now@,
                )
            },
        },
{
    let t = match resolve_prompt_target(targets, id) {
        Ok(t) => t,
        Err(e) => return Err(e),
    };
    show.slate.default_target = Some(t);
    show.phase = string_of(chars_of("slate").as_slice());
    bump(show, now);
    Ok(())
}

/// The LoRA a `slate lora` makes: trimmed id, weight (1.0 when blank) and
/// model.
pub open spec fn spec_new_lora(id: Seq<char>, weight: Option<Seq<char>>, model: Option<Seq<char>>) -> (Seq<char>, (Seq<char>, Seq<char>)) {
    (
        trim(id),
        (
            match weight {
                Some(w) => if trim(w).len() > 0 {
                    trim(w)
                } else {
                    "1.0"@
                },
                None => "1.0"@,
            },
            match model {
                Some(m) => trim(m),
                None => seq![],
            },
        ),
    )
}

pub open spec fn opt_str(o: Option<&str>) -> Option<Seq<char>> {
    match o {
        Some(s) => Some(s@),
        None => None,
    }
}

/// Adds or replaces a LoRA on a shot (when a shot number is given) or on the
/// whole slate. The phase becomes `slate`.
pub fn slate_lora(
    show: &mut Show,
    shot_num: Option<&str>,
    id: &str,
    weight: Option<&str>,
    model: Option<&str>,
    now: &str,
) -> (r: Result<(), ShowError>)
    requires
        old(show).rev < u64::MAX,
    ensures
        ({
            let l = spec_new_lora(id@, opt_str(weight), opt_str(model));
            let num = match shot_num {
                Some(n) => if trim(n@).len() > 0 {
                    Some(trim(n@))
                } else {
                    None
                },
                None => None,
            };
            if trim(id@).len() == 0 {
                fails_with(r, "slate lora needs --id"@) && *final(show) == *old(show)
            } else {
                match num {
                    Some(n) => {
                        let k = first_shot_index(old(show).shots@, n);
                        if k < 0 {
                            fails_with(r, unknown_shot(n)) && *final(show) == *old(show)
                        } else {
                            let before = old(show).shots@[k];
                            let after = final(show).shots@[k];
                            &&& r is Ok
                            &&& others_kept(old(show).shots@, final(show).shots@, k)
                            &&& after == Shot { loras: after.loras, ..before }
                            &&& loras_text(after.loras@) == put(loras_text(before.loras@), l.0, l.1)
                            &&& final(show).phase@ == "slate"@
                            &&& spec_bumped(
                                Show { shots: final(show).shots, phase: final(show).phase, ..*old(show) },
                                *final(show),
                                now@,
                            )
                        }
                    },
                    None => {
                        &&& r is Ok
                        &&& loras_text(final(show).slate.loras@) == put(
                            loras_text(old(show).slate.loras@),
                            l.0,
                            l.1,
                        )
                        &&& final(show).slate.default_target == old(show).slate.default_target
                        &&& final(show).phase@ == "slate"@
                        &&& spec_bumped(
                            Show { slate: final(show).slate, phase: final(show).phase, ..*old(show) },
                            *final(show),
                            now@,
                        )
                    },
                }
            }
        }),
{
    let idt = trim_vec(&chars_of(id));
    if idt.len() == 0 {
        return Err(msg("slate lora needs --id"));
    }
    let w = match weight {
        Some(x) => {
            let t = trim_vec(&chars_of(x));
            if t.len() > 0 {
                t
            } else {
                chars_of("1.0")
            }
        },
        None => chars_of("1.0"),
    };
    let m = match model {
        Some(x) => trim_vec(&chars_of(x)),
        None => Vec::new(),
    };
    let lora = SlateLora {
        id: string_of(idt.as_slice()),
        weight: string_of(w.as_slice()),
        model: string_of(m.as_slice()),
    };
    let num: Option<String> = match shot_num {
        Some(n) => {
            let t = trim_vec(&chars_of(n));
            if t.len() > 0 {
                Some(string_of(t.as_slice()))
            } else {
                None
            }
        },
        None => None,
    };
    match num {
        Some(n) => {
            proof {
                lemma_first_shot_index(show.shots@, n@);
            }
            let k = match find_shot(&show.shots, n.as_str()) {
                Some(k) => k,
                None => return Err(msg2("unknown shot: ", n.as_str())),
            };
            let ghost before = show.shots@[k as int];
            let mut sh = show.shots.remove(k);
            upsert_lora(&mut sh.loras, lora);
            let ghost after = sh;
            show.shots.insert(k, sh);
            assert(show.shots@[k as int] == after);
            assert(others_kept(old(show).shots@, show.shots@, k as int));
        },
        None => {
            upsert_lora(&mut show.slate.loras, lora);
        },
    }
    show.phase = string_of(chars_of("slate").as_slice());
    bump(show, now);
    Ok(())
}

/// Puts a compiled rewrite in: it becomes the shot's prompt for `target`
/// and `target` the default. The phase becomes `slate`.
pub fn slate_apply_rewrite(show: &mut Show, k: usize, target: &str, rewrite: &str, now: &str)
    requires
        old(show).rev < u64::MAX,
        k < old(show).shots.len(),
    ensures
        ({
            let before = old(show).shots@[k as int];
            let after = final(show).shots@[k as int];
            &&& others_kept(old(show).shots@, final(show).shots@, k as int)
            &&& after == Shot { prompt_targets: after.prompt_targets, ..before }
            &&& targets_text(after.prompt_targets@) == put(targets_text(before.prompt_targets@), target@, rewrite@)
            &&& final(show).slate.default_target matches Some(d) && d@ == target@
            &&& final(show).slate.loras == old(show).slate.loras
            &&& final(show).phase@ == "slate"@
            &&& spec_bumped(
                Show { shots: final(show).shots, slate: final(show).slate, phase: final(show).phase, ..*old(show) },
                *final(show),
                now@,
            )
        }),
{
    let ghost before = show.shots@[k as int];
    let mut sh = show.shots.remove(k);
    put_target(&mut sh.prompt_targets, target, rewrite);
    let ghost after = sh;
    show.shots.insert(k, sh);
    assert(show.shots@[k as int] == after);
    assert(others_kept(old(show).shots@, show.shots@, k as int));
    show.slate.default_target = Some(string_of(chars_of(target).as_slice()));
    show.phase = string_of(chars_of("slate").as_slice());
    bump(show, now);
}

} // verus!
