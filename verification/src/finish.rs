//! The optional end of the pipeline: an upscale and/or a frame-rate pickup of
//! a take. Never a silent stub: the engines run outside the library, and
//! only a video they actually wrote is recorded.

use vstd::prelude::*;
use crate::budget::{require_render, render_cap_msg, sat_inc};
use crate::caps::{Caps, Cap, require, holds, need_message};
use crate::error::{ShowError, fails_with, msg};
use crate::model::{Take, MediaItem};
use crate::paths::{file_stem_of, path_file_stem};
use crate::show::{Show, Budget, FinishState, bump, spec_bumped};
use crate::text::{chars_of, string_of, trim, trim_vec, append_str, append_vec, filled};
use crate::rate::{check_float_text, is_float_text, float_text_positive};

verus! {

pub open spec fn finish_needs_msg() -> Seq<char> {
    "finish needs --upscale and/or --fps (optional end of pipeline)"@
}

pub open spec fn fps_number_msg(t: Seq<char>) -> Seq<char> {
    "finish --fps must be a number (got "@ + t + ")"@
}

pub open spec fn fps_positive_msg() -> Seq<char> {
    "finish --fps must be > 0"@
}

/// The frame rate asked for, when given and not blank (trimmed).
pub open spec fn asked_rate(fps: Option<&str>) -> Option<Seq<char>> {
    match fps {
        Some(s) => if trim(s@).len() > 0 {
            Some(trim(s@))
        } else {
            None
        },
        None => None,
    }
}

/// The requested frame rate (trimmed, when given and not blank). Refused
/// when neither an upscale nor a frame rate is asked for, when the rate is
/// not a number, and when it is not above zero.
///
/// The rate is read by the grammar that `f64::from_str` documents; a
/// positive decimal so small that an `f64` would round it to zero (below
/// about 2.5e-324) is taken here as above zero.
pub fn finish_request(upscale: bool, fps: Option<&str>) -> (r: Result<Option<String>, ShowError>)
    ensures
        !upscale && asked_rate(fps) is None ==> fails_with(r, finish_needs_msg()),
        upscale && asked_rate(fps) is None ==> r == Ok::<Option<String>, ShowError>(None),
        asked_rate(fps) matches Some(t) ==> (if !is_float_text(t) {
            fails_with(r, fps_number_msg(t))
        } else if !float_text_positive(t) {
            fails_with(r, fps_positive_msg())
        } else {
            r matches Ok(Some(a)) && a@ == t
        }),
{
    let rate = match fps {
        Some(s) => {
            let t = trim_vec(&chars_of(s));
            if t.len() > 0 {
                Some(t)
            } else {
                None
            }
        },
        None => None,
    };
    match rate {
        None => {
            if !upscale {
                return Err(msg("finish needs --upscale and/or --fps (optional end of pipeline)"));
            }
            Ok(None)
        },
        Some(t) => {
            let (number, positive) = check_float_text(&t);
            if !number {
                let mut m = chars_of("finish --fps must be a number (got ");
                append_vec(&mut m, &t);
                append_str(&mut m, ")");
                return Err(ShowError::Msg(string_of(m.as_slice())));
            }
            if !positive {
                return Err(msg("finish --fps must be > 0"));
            }
            Ok(Some(string_of(t.as_slice())))
        },
    }
}

/// An upscale needs the `render` capability and room under the render cap.
pub fn finish_allowed(show: &Show, have: Caps, upscale: bool) -> (r: Result<(), ShowError>)
    ensures
        !upscale ==> r is Ok,
        upscale && !holds(have, Cap::Render) ==> fails_with(r, need_message(have, Cap::Render)),
        upscale && holds(have, Cap::Render) ==> match show.budget.render_cap {
            Some(cap) => if show.budget.render_used >= cap {
                fails_with(r, render_cap_msg(show.budget.render_used, cap))
            } else {
                r is Ok
            },
            None => r is Ok,
        },
{
    if !upscale {
        return Ok(());
    }
    match require(have, Cap::Render) {
        Ok(()) => {},
        Err(e) => return Err(e),
    }
    require_render(show)
}

/// The last circled take, else the last take, else -1.
pub open spec fn finish_take(takes: Seq<Take>) -> int
    decreases takes.len(),
{
    if takes.len() == 0 {
        -1
    } else if takes.last().circled {
        takes.len() - 1
    } else {
        let r = finish_take(takes.drop_last());
        if r >= 0 {
            r
        } else {
            takes.len() - 1
        }
    }
}

pub open spec fn last_circled(takes: Seq<Take>) -> int
    decreases takes.len(),
{
    if takes.len() == 0 {
        -1
    } else if takes.last().circled {
        takes.len() - 1
    } else {
        last_circled(takes.drop_last())
    }
}

pub proof fn lemma_last_circled(takes: Seq<Take>)
    ensures
        -1 <= last_circled(takes) < takes.len(),
        last_circled(takes) >= 0 ==> takes[last_circled(takes)].circled,
    decreases takes.len(),
{
    if takes.len() > 0 {
        lemma_last_circled(takes.drop_last());
    }
}

/// Which take to finish: the last circled one, else the last one.
pub open spec fn spec_finish_src(takes: Seq<Take>) -> int {
    if last_circled(takes) >= 0 {
        last_circled(takes)
    } else {
        takes.len() - 1
    }
}

pub open spec fn no_src_msg() -> Seq<char> {
    "finish needs --file or a take (lot dailies ingest / circle)"@
}

/// The file to finish: the one given, else the last circled take, else the
/// last take.
pub fn resolve_src(show: &Show, file: Option<&str>) -> (r: Result<String, ShowError>)
    ensures
        match file {
            Some(f) => r matches Ok(p) && p@ == f@,
            None => if show.takes@.len() == 0 {
                fails_with(r, no_src_msg())
            } else {
                r matches Ok(p) && p@ == show.takes@[spec_finish_src(show.takes@)].path@
            },
        },
{
    match file {
        Some(f) => return Ok(string_of(chars_of(f).as_slice())),
        None => {},
    }
    proof {
        lemma_last_circled(show.takes@);
    }
    let mut i = show.takes.len();
    assert(show.takes@.take(i as int) =~= show.takes@);
    while i > 0
        invariant
            i <= show.takes.len(),
            last_circled(show.takes@) == last_circled(show.takes@.take(i as int)),
            file is None,
        decreases i,
    {
        if show.takes[i - 1].circled {
            assert(show.takes@.take(i as int).last() == show.takes@[i - 1]);
            return Ok(show.takes[i - 1].path.clone());
        }
        assert(show.takes@.take(i as int).drop_last() =~= show.takes@.take(i - 1));
        i -= 1;
    }
    assert(show.takes@.take(0) =~= seq![]);
    if show.takes.len() == 0 {
        return Err(msg("finish needs --file or a take (lot dailies ingest / circle)"));
    }
    Ok(show.takes[show.takes.len() - 1].path.clone())
}

/// The name of the finished file: the source's stem (`take` when it has
/// none) and `-finish.mp4`.
pub open spec fn spec_finish_name(src: Seq<char>) -> Seq<char> {
    let stem = match path_file_stem(src) {
        Some(s) => s,
        None => "take"@,
    };
    stem + "-finish.mp4"@
}

pub fn finish_name(src: &str) -> (r: String)
    ensures
        r@ == spec_finish_name(src@),
{
    let mut v = match file_stem_of(src) {
        Some(s) => chars_of(s.as_str()),
        None => chars_of("take"),
    };
    append_str(&mut v, "-finish.mp4");
    string_of(v.as_slice())
}

/// The ffmpeg video filter: a Lanczos double-size scale and/or the frame
/// rate, joined by a comma.
pub open spec fn spec_finish_filter(upscale: bool, fps: Option<Seq<char>>) -> Seq<char> {
    match (upscale, fps) {
        (true, Some(r)) => "scale=iw*2:ih*2:flags=lanczos,fps="@ + r,
        (true, None) => "scale=iw*2:ih*2:flags=lanczos"@,
        (false, Some(r)) => "fps="@ + r,
        (false, None) => seq![],
    }
}

pub fn finish_filter(upscale: bool, fps: Option<&str>) -> (r: String)
    ensures
        r@ == spec_finish_filter(upscale, match fps {
            Some(s) => Some(s@),
            None => None,
        }),
{
    let mut v: Vec<char> = Vec::new();
    match (upscale, fps) {
        (true, Some(rate)) => {
            append_str(&mut v, "scale=iw*2:ih*2:flags=lanczos,fps=");
            append_str(&mut v, rate);
        },
        (true, None) => {
            append_str(&mut v, "scale=iw*2:ih*2:flags=lanczos");
        },
        (false, Some(rate)) => {
            append_str(&mut v, "fps=");
            append_str(&mut v, rate);
        },
        (false, None) => {},
    }
    string_of(v.as_slice())
}

/// Records a finished video: the finish state, the render count (for an
/// upscale), the video as show media; the phase becomes `cut`.
pub fn finish_record(show: &mut Show, path: &str, upscaled: bool, fps: Option<&str>, now: &str)
    requires
        old(show).rev < u64::MAX,
    ensures
        final(show).finish.path matches Some(p) && p@ == path@,
        final(show).finish.upscaled == upscaled,
        match (final(show).finish.fps, fps) {
            (Some(a), Some(b)) => a@ == b@,
            (None, None) => true,
            _ => false,
        },
        final(show).budget == (if upscaled {
            Budget { render_used: sat_inc(old(show).budget.render_used), ..old(show).budget }
        } else {
            old(show).budget
        }),
        final(show).media@.drop_last() == old(show).media@,
        final(show).media@.len() == old(show).media@.len() + 1,
        final(show).media@.last().path@ == path@,
        final(show).media@.last().kind@ == "finish"@,
        final(show).media@.last().sha256@.len() == 0,
        final(show).media@.last().duration_ms is None,
        final(show).phase@ == "cut"@,
        spec_bumped(
            Show {
                finish: final(show).finish,
                budget: final(show).budget,
                media: final(show).media,
                phase: final(show).phase,
                ..*old(show)
            },
            *final(show),
            now@,
        ),
{
    show.finish.path = Some(string_of(chars_of(path).as_slice()));
    show.finish.upscaled = upscaled;
    show.finish.fps = match fps {
        Some(r) => Some(string_of(chars_of(r).as_slice())),
        None => None,
    };
    if upscaled {
        show.budget.render_used = show.budget.render_used.saturating_add(1);
    }
    let ghost pre = show.media@;
    show.media.push(
        MediaItem {
            path: string_of(chars_of(path).as_slice()),
            sha256: string_of(Vec::<char>::new().as_slice()),
            kind: string_of(chars_of("finish").as_slice()),
            duration_ms: None,
        },
    );
    assert(show.media@.drop_last() =~= pre);
    show.phase = string_of(chars_of("cut").as_slice());
    bump(show, now);
}

} // verus!
