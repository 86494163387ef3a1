//! Moving a show from one phase to the next. A dry run reports what is
//! missing; a commit advances exactly one phase, and only when nothing blocks it.

use vstd::prelude::*;
use crate::error::{ShowError, is_msg, fails_with};
use crate::model::{Shot, Take};
use crate::show::{Show, Stems, bump, spec_bumped};
use crate::text::{
    chars_of, string_of, str_eq, trim, trim_vec, lower, lower_vec, join, join_vecs, push_piece,
    append_str, strings_view, filled, strings_chars,
};

verus! {

/// The pipeline, in order.
pub open spec fn phases() -> Seq<Seq<char>> {
    seq![
        "writer"@,
        "breakdown"@,
        "wall"@,
        "picture"@,
        "stage"@,
        "motion"@,
        "board"@,
        "slate"@,
        "dailies"@,
        "stems"@,
        "cut"@,
    ]
}

/// Number of phases.
pub const PHASE_COUNT: usize = 11;

/// The name of phase `i` of the pipeline.
pub fn phase_name(i: usize) -> (r: &'static str)
    requires
        i < PHASE_COUNT,
    ensures
        r@ == phases()[i as int],
{
    match i {
        0 => "writer",
        1 => "breakdown",
        2 => "wall",
        3 => "picture",
        4 => "stage",
        5 => "motion",
        6 => "board",
        7 => "slate",
        8 => "dailies",
        9 => "stems",
        _ => "cut",
    }
}

/// Position of `p` in `ps`, or -1.
pub open spec fn index_in(ps: Seq<Seq<char>>, p: Seq<char>) -> int
    decreases ps.len(),
{
    if ps.len() == 0 {
        -1
    } else if ps[0] == p {
        0
    } else {
        let r = index_in(ps.drop_first(), p);
        if r < 0 {
            -1
        } else {
            r + 1
        }
    }
}

pub proof fn lemma_index_in(ps: Seq<Seq<char>>, p: Seq<char>)
    ensures
        -1 <= index_in(ps, p) < ps.len(),
        index_in(ps, p) >= 0 ==> ps[index_in(ps, p)] == p,
        index_in(ps, p) >= 0 ==> forall|j: int| 0 <= j < index_in(ps, p) ==> ps[j] != p,
        index_in(ps, p) == -1 ==> forall|j: int| 0 <= j < ps.len() ==> ps[j] != p,
    decreases ps.len(),
{
    if ps.len() > 0 {
        lemma_index_in(ps.drop_first(), p);
        assert forall|j: int| 1 <= j < ps.len() implies ps[j] == ps.drop_first()[j - 1] by {}
    }
}

/// The phase after `p`; none after `cut` or for an unknown phase.
pub open spec fn spec_next_phase(p: Seq<char>) -> Option<Seq<char>> {
    let i = index_in(phases(), p);
    if 0 <= i && i + 1 < phases().len() {
        Some(phases()[i + 1])
    } else {
        None
    }
}

fn phase_index(p: &str) -> (r: Option<usize>)
    ensures
        match r {
            Some(i) => i < PHASE_COUNT && index_in(phases(), p@) == i,
            None => index_in(phases(), p@) == -1,
        },
{
    proof {
        lemma_index_in(phases(), p@);
    }
    let mut i: usize = 0;
    while i < PHASE_COUNT
        invariant
            i <= PHASE_COUNT,
            phases().len() == PHASE_COUNT,
            forall|j: int| 0 <= j < i ==> phases()[j] != p@,
            -1 <= index_in(phases(), p@) < phases().len(),
            index_in(phases(), p@) >= 0 ==> phases()[index_in(phases(), p@)] == p@,
            index_in(phases(), p@) >= 0 ==> forall|j: int|
                0 <= j < index_in(phases(), p@) ==> phases()[j] != p@,
            index_in(phases(), p@) == -1 ==> forall|j: int|
                0 <= j < phases().len() ==> phases()[j] != p@,
        decreases PHASE_COUNT - i,
    {
        if str_eq(phase_name(i), p) {
            return Some(i);
        }
        i += 1;
    }
    None
}

/// The phase after `phase` in the pipeline.
pub fn next_phase(phase: &str) -> (r: Option<String>)
    ensures
        match (r, spec_next_phase(phase@)) {
            (Some(s), Some(t)) => s@ == t,
            (None, None) => true,
            _ => false,
        },
{
    match phase_index(phase) {
        Some(i) => {
            if i + 1 < PHASE_COUNT {
                Some(string_of(chars_of(phase_name(i + 1)).as_slice()))
            } else {
                None
            }
        },
        None => None,
    }
}

/// A stored phase, trimmed and lower-cased; blank means `writer`.
pub open spec fn spec_normalize_phase(raw: Seq<char>) -> Seq<char> {
    let t = lower(trim(raw));
    if t.len() == 0 {
        "writer"@
    } else {
        t
    }
}

pub fn normalize_phase(raw: &str) -> (r: String)
    ensures
        r@ == spec_normalize_phase(raw@),
{
    let t = lower_vec(&trim_vec(&chars_of(raw)));
    if t.len() == 0 {
        string_of(chars_of("writer").as_slice())
    } else {
        string_of(t.as_slice())
    }
}

// ------------------------------------------------------------ what a handoff reads

/// What a handoff reads from disk beside `show.json`.
#[derive(Debug, Clone, Copy, PartialEq, Eq, Structural)]
pub struct DiskFacts {
    /// The writer's `draft_path` names a file.
    pub draft_file: bool,
    /// `screenplay.fountain` is a file in the show directory.
    pub screenplay_file: bool,
    /// `stage/block.json` is a file.
    pub stage_block: bool,
    /// `motion/previs.json` is a file.
    pub motion_previs: bool,
    /// `board/board.json` is a file.
    pub board_json: bool,
    /// `export.fcpxml` is a file.
    pub export_fcpxml: bool,
}

pub open spec fn has_draft(show: Show, f: DiskFacts) -> bool {
    (show.writer.draft_path is Some && f.draft_file) || f.screenplay_file
}

/// A test on one shot.
#[derive(Debug, Clone, Copy, PartialEq, Eq, Structural)]
pub enum ShotTest {
    Locked,
    Marked,
    Moving,
    Still,
    Prompted,
}

pub open spec fn shot_passes(t: ShotTest, s: Shot) -> bool {
    match t {
        ShotTest::Locked => s.locked,
        ShotTest::Marked => s.stage_marks@.len() > 0 || s.size@.len() > 0 || s.angle@.len() > 0
            || s.lens@.len() > 0 || s.move_kind@.len() > 0,
        ShotTest::Moving => s.plate_path is Some || s.motion_move@.len() > 0
            || s.motion_notes@.len() > 0,
        ShotTest::Still => s.still_path is Some,
        ShotTest::Prompted => trim(s.prompt@).len() > 0,
    }
}

pub open spec fn any_shot(shots: Seq<Shot>, t: ShotTest) -> bool {
    exists|i: int| 0 <= i < shots.len() && shot_passes(t, #[trigger] shots[i])
}

pub open spec fn any_circled(takes: Seq<Take>) -> bool {
    exists|i: int| 0 <= i < takes.len() && #[trigger] takes[i].circled
}

pub open spec fn stems_started(s: Stems) -> bool {
    trim(s.soundtrack_brief@).len() > 0 || s.soundtrack_cue is Some || s.soundtrack_path is Some
        || trim(s.vo_text@).len() > 0 || s.vo_path is Some
}

fn shot_passes_exec(t: ShotTest, s: &Shot) -> (r: bool)
    ensures
        r == shot_passes(t, *s),
{
    match t {
        ShotTest::Locked => s.locked,
        ShotTest::Marked => s.stage_marks.len() > 0 || filled(s.size.as_str()) || filled(
            s.angle.as_str(),
        ) || filled(s.lens.as_str()) || filled(s.move_kind.as_str()),
        ShotTest::Moving => s.plate_path.is_some() || filled(s.motion_move.as_str()) || filled(
            s.motion_notes.as_str(),
        ),
        ShotTest::Still => s.still_path.is_some(),
        ShotTest::Prompted => trim_vec(&chars_of(s.prompt.as_str())).len() > 0,
    }
}

pub fn any_shot_exec(shots: &Vec<Shot>, t: ShotTest) -> (r: bool)
    ensures
        r == any_shot(shots@, t),
{
    let mut i: usize = 0;
    while i < shots.len()
        invariant
            i <= shots.len(),
            forall|j: int| 0 <= j < i ==> !shot_passes(t, #[trigger] shots@[j]),
        decreases shots.len() - i,
    {
        if shot_passes_exec(t, &shots[i]) {
            return true;
        }
        i += 1;
    }
    false
}

pub fn any_circled_exec(takes: &Vec<Take>) -> (r: bool)
    ensures
        r == any_circled(takes@),
{
    let mut i: usize = 0;
    while i < takes.len()
        invariant
            i <= takes.len(),
            forall|j: int| 0 <= j < i ==> !(#[trigger] takes@[j]).circled,
        decreases takes.len() - i,
    {
        if takes[i].circled {
            return true;
        }
        i += 1;
    }
    false
}

fn stems_started_exec(s: &Stems) -> (r: bool)
    ensures
        r == stems_started(*s),
{
    trim_vec(&chars_of(s.soundtrack_brief.as_str())).len() > 0 || s.soundtrack_cue.is_some()
        || s.soundtrack_path.is_some() || trim_vec(&chars_of(s.vo_text.as_str())).len() > 0
        || s.vo_path.is_some()
}

fn has_draft_exec(show: &Show, f: &DiskFacts) -> (r: bool)
    ensures
        r == has_draft(*show, *f),
{
    (show.writer.draft_path.is_some() && f.draft_file) || f.screenplay_file
}

// ------------------------------------------------------------ what blocks a phase

pub open spec fn one_if(c: bool, m: Seq<char>) -> Seq<Seq<char>> {
    if c {
        seq![m]
    } else {
        seq![]
    }
}

/// What blocks leaving `phase`, in the words of `lot handoff`.
pub open spec fn spec_missing_for(phase: Seq<char>, show: Show, f: DiskFacts) -> Seq<Seq<char>> {
    if phase == "writer"@ {
        one_if(trim(show.writer.brief@).len() == 0, "no brief"@) + one_if(
            !has_draft(show, f),
            "no draft — lot writer draft"@,
        )
    } else if phase == "breakdown"@ {
        one_if(show.scenes@.len() == 0, "no scenes — lot breakdown parse"@) + one_if(
            show.shots@.len() == 0,
            "no shots — lot breakdown parse"@,
        )
    } else if phase == "wall"@ {
        one_if(show.wall@.len() == 0, "no beat — lot wall add --text"@)
    } else if phase == "picture"@ {
        one_if(!any_shot(show.shots@, ShotTest::Locked), "no shot locked — lot picture lock --shot"@)
    } else if phase == "stage"@ {
        one_if(
            !(any_shot(show.shots@, ShotTest::Marked) || f.stage_block),
            "no stage mark or camera — lot stage place / lot stage camera"@,
        )
    } else if phase == "motion"@ {
        one_if(
            !(any_shot(show.shots@, ShotTest::Moving) || f.motion_previs),
            "no plate or marks — lot motion plate / lot motion marks"@,
        )
    } else if phase == "board"@ {
        one_if(
            !(any_shot(show.shots@, ShotTest::Still) || f.board_json),
            "no still — lot stills generate --shot --backend"@,
        )
    } else if phase == "slate"@ {
        one_if(
            !any_shot(show.shots@, ShotTest::Prompted),
            "no slate canon — lot slate set --shot --prompt"@,
        )
    } else if phase == "dailies"@ {
        one_if(!any_circled(show.takes@), "no circled take — lot dailies circle --take"@)
    } else if phase == "stems"@ {
        one_if(
            !stems_started(show.stems),
            "no soundtrack or vo — lot stems soundtrack / lot stems vo"@,
        )
    } else if phase == "cut"@ {
        seq!["cut — no next"@]
    } else {
        seq!["unknown phase — "@ + phase]
    }
}

fn push_if(out: &mut Vec<String>, c: bool, m: &str)
    ensures
        strings_view(final(out)@) == strings_view(old(out)@) + one_if(c, m@),
{
    let ghost pre = out@;
    if c {
        out.push(string_of(chars_of(m).as_slice()));
        assert(strings_view(out@) =~= strings_view(pre) + one_if(c, m@));
    } else {
        assert(strings_view(out@) =~= strings_view(pre) + one_if(c, m@));
    }
}

fn is_phase(p: &str, name: &str) -> (r: bool)
    ensures
        r == (p@ == name@),
{
    str_eq(p, name)
}

/// What blocks leaving `phase`.
pub fn missing_for(phase: &str, show: &Show, f: &DiskFacts) -> (r: Vec<String>)
    ensures
        strings_view(r@) == spec_missing_for(phase@, *show, *f),
{
    let mut m: Vec<String> = Vec::new();
    assert(strings_view(m@) =~= seq![]);
    if is_phase(phase, "writer") {
        push_if(&mut m, trim_vec(&chars_of(show.writer.brief.as_str())).len() == 0, "no brief");
        push_if(&mut m, !has_draft_exec(show, f), "no draft — lot writer draft");
    } else if is_phase(phase, "breakdown") {
        push_if(&mut m, show.scenes.len() == 0, "no scenes — lot breakdown parse");
        push_if(&mut m, show.shots.len() == 0, "no shots — lot breakdown parse");
    } else if is_phase(phase, "wall") {
        push_if(&mut m, show.wall.len() == 0, "no beat — lot wall add --text");
    } else if is_phase(phase, "picture") {
        push_if(
            &mut m,
            !any_shot_exec(&show.shots, ShotTest::Locked),
            "no shot locked — lot picture lock --shot",
        );
    } else if is_phase(phase, "stage") {
        let ok = any_shot_exec(&show.shots, ShotTest::Marked) || f.stage_block;
        push_if(&mut m, !ok, "no stage mark or camera — lot stage place / lot stage camera");
    } else if is_phase(phase, "motion") {
        let ok = any_shot_exec(&show.shots, ShotTest::Moving) || f.motion_previs;
        push_if(&mut m, !ok, "no plate or marks — lot motion plate / lot motion marks");
    } else if is_phase(phase, "board") {
        let ok = any_shot_exec(&show.shots, ShotTest::Still) || f.board_json;
        push_if(&mut m, !ok, "no still — lot stills generate --shot --backend");
    } else if is_phase(phase, "slate") {
        push_if(
            &mut m,
            !any_shot_exec(&show.shots, ShotTest::Prompted),
            "no slate canon — lot slate set --shot --prompt",
        );
    } else if is_phase(phase, "dailies") {
        push_if(
            &mut m,
            !any_circled_exec(&show.takes),
            "no circled take — lot dailies circle --take",
        );
    } else if is_phase(phase, "stems") {
        push_if(
            &mut m,
            !stems_started_exec(&show.stems),
            "no soundtrack or vo — lot stems soundtrack / lot stems vo",
        );
    } else if is_phase(phase, "cut") {
        push_if(&mut m, true, "cut — no next");
    } else {
        let mut t = chars_of("unknown phase — ");
        append_str(&mut t, phase);
        let ghost pre = m@;
        m.push(string_of(t.as_slice()));
        assert(strings_view(m@) =~= seq!["unknown phase — "@ + phase@]);
    }
    m
}

/// What blocks leaving the show's current phase.
pub fn phase_missing(show: &Show, f: &DiskFacts) -> (r: Vec<String>)
    ensures
        strings_view(r@) == spec_missing_for(spec_normalize_phase(show.phase@), *show, *f),
{
    let p = normalize_phase(show.phase.as_str());
    missing_for(p.as_str(), show, f)
}

/// Whether a section already has work, in `show.json` or on disk.
pub open spec fn section_touched(phase: Seq<char>, show: Show, f: DiskFacts) -> bool {
    if phase == "writer"@ {
        trim(show.writer.brief@).len() > 0 || has_draft(show, f) || show.writer.cast@.len() > 0
            || show.writer.locked
    } else if phase == "breakdown"@ {
        show.scenes@.len() > 0 || show.shots@.len() > 0
    } else if phase == "wall"@ {
        show.wall@.len() > 0
    } else if phase == "picture"@ {
        any_shot(show.shots@, ShotTest::Locked)
    } else if phase == "stage"@ {
        any_shot(show.shots@, ShotTest::Marked) || f.stage_block
    } else if phase == "motion"@ {
        any_shot(show.shots@, ShotTest::Moving) || f.motion_previs
    } else if phase == "board"@ {
        any_shot(show.shots@, ShotTest::Still) || f.board_json
    } else if phase == "slate"@ {
        any_shot(show.shots@, ShotTest::Prompted)
    } else if phase == "dailies"@ {
        show.takes@.len() > 0
    } else if phase == "stems"@ {
        stems_started(show.stems)
    } else if phase == "cut"@ {
        show.finish.path is Some || f.export_fcpxml
    } else {
        false
    }
}

fn section_touched_exec(phase: &str, show: &Show, f: &DiskFacts) -> (r: bool)
    ensures
        r == section_touched(phase@, *show, *f),
{
    if is_phase(phase, "writer") {
        trim_vec(&chars_of(show.writer.brief.as_str())).len() > 0 || has_draft_exec(show, f)
            || show.writer.cast.len() > 0 || show.writer.locked
    } else if is_phase(phase, "breakdown") {
        show.scenes.len() > 0 || show.shots.len() > 0
    } else if is_phase(phase, "wall") {
        show.wall.len() > 0
    } else if is_phase(phase, "picture") {
        any_shot_exec(&show.shots, ShotTest::Locked)
    } else if is_phase(phase, "stage") {
        any_shot_exec(&show.shots, ShotTest::Marked) || f.stage_block
    } else if is_phase(phase, "motion") {
        any_shot_exec(&show.shots, ShotTest::Moving) || f.motion_previs
    } else if is_phase(phase, "board") {
        any_shot_exec(&show.shots, ShotTest::Still) || f.board_json
    } else if is_phase(phase, "slate") {
        any_shot_exec(&show.shots, ShotTest::Prompted)
    } else if is_phase(phase, "dailies") {
        show.takes.len() > 0
    } else if is_phase(phase, "stems") {
        stems_started_exec(&show.stems)
    } else if is_phase(phase, "cut") {
        show.finish.path.is_some() || f.export_fcpxml
    } else {
        false
    }
}

/// The phases whose section has work, in pipeline order.
pub open spec fn spec_dirty(ps: Seq<Seq<char>>, show: Show, f: DiskFacts) -> Seq<Seq<char>> {
    ps.filter(|p: Seq<char>| section_touched(p, show, f))
}

pub fn dirty_sections(show: &Show, f: &DiskFacts) -> (r: Vec<String>)
    ensures
        strings_view(r@) == spec_dirty(phases(), *show, *f),
{
    let mut out: Vec<String> = Vec::new();
    let mut i: usize = 0;
    assert(phases().take(0).filter(|p: Seq<char>| section_touched(p, *show, *f)) =~= seq![]);
    assert(strings_view(out@) =~= seq![]);
    while i < PHASE_COUNT
        invariant
            i <= PHASE_COUNT,
            phases().len() == PHASE_COUNT,
            strings_view(out@) == phases().take(i as int).filter(
                |p: Seq<char>| section_touched(p, *show, *f),
            ),
        decreases PHASE_COUNT - i,
    {
        let name = phase_name(i);
        let ghost pre = out@;
        let ghost before = phases().take(i as int);
        let ghost after = phases().take(i + 1);
        assert(after.drop_last() =~= before);
        reveal(Seq::filter);
        if section_touched_exec(name, show, f) {
            out.push(string_of(chars_of(name).as_slice()));
            assert(strings_view(out@) =~= strings_view(pre).push(name@));
        } else {
            assert(strings_view(out@) =~= strings_view(pre));
        }
        i += 1;
    }
    assert(phases().take(PHASE_COUNT as int) =~= phases());
    out
}

/// A handoff report: a dry run, or what a commit did.
#[derive(Debug, Clone, PartialEq, Eq)]
pub struct Handoff {
    pub phase: String,
    pub from: String,
    pub next: Option<String>,
    pub ready: bool,
    pub missing: Vec<String>,
    pub dry_run: bool,
    pub committed: bool,
}

pub open spec fn opt_str(o: Option<String>) -> Option<Seq<char>> {
    match o {
        Some(s) => Some(s@),
        None => None,
    }
}

/// The report for a show standing at phase `p`.
pub open spec fn report_at(h: Handoff, p: Seq<char>, show: Show, f: DiskFacts) -> bool {
    &&& h.phase@ == p
    &&& opt_str(h.next) == spec_next_phase(p)
    &&& strings_view(h.missing@) == spec_missing_for(p, show, f)
    &&& h.ready == (spec_missing_for(p, show, f).len() == 0 && spec_next_phase(p) is Some)
}

/// A dry run: where the show stands and what blocks the next phase.
pub fn inspect(show: &Show, f: &DiskFacts) -> (r: Handoff)
    ensures
        report_at(r, spec_normalize_phase(show.phase@), *show, *f),
        r.from@ == spec_normalize_phase(show.phase@),
        r.dry_run,
        !r.committed,
{
    let phase = normalize_phase(show.phase.as_str());
    let next = next_phase(phase.as_str());
    let missing = missing_for(phase.as_str(), show, f);
    let ready = missing.len() == 0 && next.is_some();
    let from = phase.clone();
    Handoff { phase, from, next, ready, missing, dry_run: true, committed: false }
}

/// Why a commit is refused, if it is.
pub open spec fn spec_blocked(h: Handoff) -> Option<Seq<char>> {
    if h.next is None {
        Some("cut — no next"@)
    } else if h.ready {
        None
    } else {
        Some("handoff blocked — "@ + join(strings_view(h.missing@), "; "@))
    }
}

pub fn blocked_msg(h: &Handoff) -> (r: Option<String>)
    ensures
        opt_str(r) == spec_blocked(*h),
{
    if h.next.is_none() {
        return Some(string_of(chars_of("cut — no next").as_slice()));
    }
    if h.ready {
        return None;
    }
    let mut m = chars_of("handoff blocked — ");
    let joined = join_vecs(&strings_chars(&h.missing), &chars_of("; "));
    let mut k: usize = 0;
    let ghost start = m@;
    while k < joined.len()
        invariant
            k <= joined.len(),
            m@ == start + joined@.take(k as int),
        decreases joined.len() - k,
    {
        m.push(joined[k]);
        k += 1;
        assert(m@ =~= start + joined@.take(k as int));
    }
    assert(joined@.take(k as int) =~= joined@);
    Some(string_of(m.as_slice()))
}

/// Commits the handoff: when the current phase has a next and nothing is
/// missing, the show moves exactly one phase on (revision bumped, stamped
/// `now`); otherwise it is refused and the show is left as it was.
pub fn handoff_commit(show: &mut Show, f: &DiskFacts, now: &str) -> (r: Result<Handoff, ShowError>)
    requires
        old(show).rev < u64::MAX,
    ensures
        ({
            let p = spec_normalize_phase(old(show).phase@);
            let way_clear = spec_missing_for(p, *old(show), *f).len() == 0 && spec_next_phase(p) is Some;
            &&& r is Ok <==> way_clear
            &&& way_clear ==> {
                let to = spec_next_phase(p)->Some_0;
                &&& final(show).phase@ == to
                &&& spec_bumped(Show { phase: final(show).phase, ..*old(show) }, *final(show), now@)
                &&& r matches Ok(h) && h.committed && !h.dry_run && h.from@ == p
                    && report_at(h, to, *final(show), *f)
            }
            &&& !way_clear ==> *final(show) == *old(show) && fails_with(
                r,
                if spec_next_phase(p) is None {
                    "cut — no next"@
                } else {
                    "handoff blocked — "@ + join(spec_missing_for(p, *old(show), *f), "; "@)
                },
            )
        }),
{
    let report = inspect(show, f);
    match blocked_msg(&report) {
        Some(m) => {
            return Err(ShowError::Msg(m));
        },
        None => {},
    }
    let to = match report.next {
        Some(t) => t,
        None => {
            return Err(ShowError::Msg(string_of(chars_of("cut — no next").as_slice())));
        },
    };
    let ghost mid = Show { phase: to, ..*show };
    show.phase = to;
    bump(show, now);
    let next = next_phase(show.phase.as_str());
    let missing = missing_for(show.phase.as_str(), show, f);
    let ready = missing.len() == 0 && next.is_some();
    Ok(
        Handoff {
            phase: show.phase.clone(),
            from: report.phase,
            next,
            ready,
            missing,
            dry_run: false,
            committed: true,
        },
    )
}

/// Law: the pipeline runs writer, breakdown, wall, picture, stage, motion,
/// board, slate, dailies, stems, cut; each phase's next is the one after it,
/// and `cut` has none.
pub proof fn lemma_pipeline_order()
    ensures
        forall|i: int| 0 <= i < 10 ==> spec_next_phase(#[trigger] phases()[i]) == Some(phases()[i + 1]),
        spec_next_phase("cut"@) is None,
{
    reveal_strlit("writer");
    reveal_strlit("breakdown");
    reveal_strlit("wall");
    reveal_strlit("picture");
    reveal_strlit("stage");
    reveal_strlit("motion");
    reveal_strlit("board");
    reveal_strlit("slate");
    reveal_strlit("dailies");
    reveal_strlit("stems");
    reveal_strlit("cut");
    let ps = phases();
    reveal_with_fuel(index_in, 12);
    assert("writer"@[0] == 'w' && "writer"@[1] == 'r' && "writer"@[2] == 'i' && "writer"@.len() == 6);
    assert("breakdown"@[0] == 'b' && "breakdown"@[1] == 'r' && "breakdown"@[2] == 'e' && "breakdown"@.len() == 9);
    assert("wall"@[0] == 'w' && "wall"@[1] == 'a' && "wall"@[2] == 'l' && "wall"@.len() == 4);
    assert("picture"@[0] == 'p' && "picture"@[1] == 'i' && "picture"@[2] == 'c' && "picture"@.len() == 7);
    assert("stage"@[0] == 's' && "stage"@[1] == 't' && "stage"@[2] == 'a' && "stage"@.len() == 5);
    assert("motion"@[0] == 'm' && "motion"@[1] == 'o' && "motion"@[2] == 't' && "motion"@.len() == 6);
    assert("board"@[0] == 'b' && "board"@[1] == 'o' && "board"@[2] == 'a' && "board"@.len() == 5);
    assert("slate"@[0] == 's' && "slate"@[1] == 'l' && "slate"@[2] == 'a' && "slate"@.len() == 5);
    assert("dailies"@[0] == 'd' && "dailies"@[1] == 'a' && "dailies"@[2] == 'i' && "dailies"@.len() == 7);
    assert("stems"@[0] == 's' && "stems"@[1] == 't' && "stems"@[2] == 'e' && "stems"@.len() == 5);
    assert("cut"@[0] == 'c' && "cut"@[1] == 'u' && "cut"@[2] == 't' && "cut"@.len() == 3);
    assert(index_in(ps, ps[0]) == 0);
    assert(index_in(ps, ps[1]) == 1);
    assert(index_in(ps, ps[2]) == 2);
    assert(index_in(ps, ps[3]) == 3);
    assert(index_in(ps, ps[4]) == 4);
    assert(index_in(ps, ps[5]) == 5);
    assert(index_in(ps, ps[6]) == 6);
    assert(index_in(ps, ps[7]) == 7);
    assert(index_in(ps, ps[8]) == 8);
    assert(index_in(ps, ps[9]) == 9);
    assert(index_in(ps, ps[10]) == 10);
    assert(index_in(ps, "cut"@) == 10);
}

} // verus!
