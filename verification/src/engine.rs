//! The render engine: validates the script's resolution, builds the
//! frame plan, and drives the compositor across every output frame,
//! producing one serialized PPM image per frame plus a render report.
//!
//! The engine computes frames only; writing `frame_<index>.ppm` files
//! into an output directory, probing for the external encoder and
//! invoking it are the I/O shell's work around this crate.

use vstd::prelude::*;
use vstd::string::StrSliceExecFns;
use vstd::string::StringExecFns;

use crate::assets::AssetStore;
use crate::compositor::{
    failure_model, frame_failures, spec_compose, Compositor, FailureModel,
};
use crate::digits::{dec_chars, dec_string, lemma_ten_pow_monotone, ten_pow};
use crate::error::{AssetResolutionError, ConfigFault, RenderError};
use crate::frame_buffer::{ppm_bytes, FrameBuffer, MAX_PIXELS};
use crate::script::{Metadata, Resolution, VideoScript};
use crate::timeline::{Timeline, MAX_FRAMES};

verus! {

/// A decimal digit.
pub open spec fn is_digit(c: char) -> bool {
    '0' <= c && c <= '9'
}

/// The value of one decimal digit character.
pub open spec fn digit_val(c: char) -> int {
    c as int - 48
}

/// The value of a digit string, most significant first.
pub open spec fn digits_val(s: Seq<char>) -> int
    decreases s.len(),
{
    if s.len() == 0 {
        0
    } else {
        digits_val(s.drop_last()) * 10 + digit_val(s.last())
    }
}

/// A side of a `<width>x<height>` name: one to ten decimal digits.
pub open spec fn valid_number(s: Seq<char>) -> bool {
    &&& 1 <= s.len() <= 10
    &&& forall|i: int| 0 <= i < s.len() ==> is_digit(#[trigger] s[i])
}

/// Splitting the name at position `i` (an `x`) leaves a valid number
/// on each side.
pub open spec fn valid_split(s: Seq<char>, i: int) -> bool {
    &&& 0 <= i < s.len()
    &&& s[i] == 'x'
    &&& valid_number(s.subrange(0, i))
    &&& valid_number(s.subrange(i + 1, s.len() as int))
}

/// Parses a resolution name of the form `<width>x<height>`, each side
/// one to ten decimal digits; anything else is unknown. The split is
/// unique, because a digit is never `x`.
pub open spec fn parse_res(s: Seq<char>) -> Option<(int, int)> {
    if exists|i: int| valid_split(s, i) {
        let i = choose|i: int| valid_split(s, i);
        Some(
            (digits_val(s.subrange(0, i)), digits_val(s.subrange(i + 1, s.len() as int))),
        )
    } else {
        None
    }
}

/// A digit string's value is nonnegative and below ten to its length.
proof fn lemma_digits_val_pow(s: Seq<char>)
    requires
        forall|i: int| 0 <= i < s.len() ==> is_digit(#[trigger] s[i]),
    ensures
        0 <= digits_val(s) < ten_pow(s.len()),
    decreases s.len(),
{
    if s.len() > 0 {
        assert(forall|i: int|
            0 <= i < s.drop_last().len() ==> is_digit(#[trigger] s.drop_last()[i]));
        lemma_digits_val_pow(s.drop_last());
        assert(is_digit(s.last()));
    }
}

/// At most one split position can be valid.
proof fn lemma_split_unique(s: Seq<char>, i1: int, i2: int)
    requires
        valid_split(s, i1),
        valid_split(s, i2),
    ensures
        i1 == i2,
{
    if i1 < i2 {
        assert(s.subrange(i1 + 1, s.len() as int)[i2 - i1 - 1] == 'x');
        assert(!is_digit('x'));
    }
    if i2 < i1 {
        assert(s.subrange(i2 + 1, s.len() as int)[i1 - i2 - 1] == 'x');
        assert(!is_digit('x'));
    }
}

/// The width and height a script's metadata asks for, or the
/// configuration fault that rejects it: an unparsable name, or an
/// area over the pixel cap.
pub open spec fn resolution_of(m: Metadata) -> Result<(u32, u32), ConfigFault> {
    match m.resolution {
        Resolution::Explicit { width, height } => if width * height <= MAX_PIXELS {
            Ok((width, height))
        } else {
            Err(ConfigFault::ResolutionTooLarge)
        },
        Resolution::Named(s) => match parse_res(s@) {
            None => Err(ConfigFault::UnknownResolution),
            Some(wh) => if wh.0 > u32::MAX || wh.1 > u32::MAX {
                Err(ConfigFault::ResolutionTooLarge)
            } else if wh.0 * wh.1 > MAX_PIXELS {
                Err(ConfigFault::ResolutionTooLarge)
            } else {
                Ok(((wh.0 as u32), (wh.1 as u32)))
            },
        },
    }
}

/// The position of the first `x` in `s`, or its length if none.
fn find_x(s: &String) -> (r: usize)
    ensures
        r <= s@.len(),
        r < s@.len() ==> s@[r as int] == 'x',
        forall|j: int| 0 <= j < r ==> s@[j] != 'x',
        r == s@.len() ==> forall|j: int| 0 <= j < s@.len() ==> s@[j] != 'x',
{
    let n = s.as_str().unicode_len();
    let mut i: usize = 0;
    while i < n
        invariant
            n == s@.len(),
            i <= n,
            forall|j: int| 0 <= j < i ==> s@[j] != 'x',
        decreases n - i,
    {
        if s.as_str().get_char(i) == 'x' {
            return i;
        }
        i += 1;
    }
    n
}

/// Parses `s[from .. to]` as a decimal number of one to ten digits.
fn parse_digits(s: &String, from: usize, to: usize) -> (r: Option<u64>)
    requires
        from <= to <= s@.len(),
    ensures
        r is Some <==> valid_number(s@.subrange(from as int, to as int)),
        r matches Some(v) ==> v == digits_val(s@.subrange(from as int, to as int)),
{
    if to - from < 1 || to - from > 10 {
        return None;
    }
    let ghost sub = s@.subrange(from as int, to as int);
    let mut acc: u64 = 0;
    let mut i: usize = from;
    proof {
        assert(sub.subrange(0, 0) =~= Seq::<char>::empty());
    }
    while i < to
        invariant
            from <= i <= to <= s@.len(),
            to - from <= 10,
            sub == s@.subrange(from as int, to as int),
            forall|j: int| 0 <= j < i - from ==> is_digit(#[trigger] sub[j]),
            acc == digits_val(sub.subrange(0, i - from)),
            acc < 10_000_000_000,
        decreases to - i,
    {
        let c = s.as_str().get_char(i);
        if c < '0' || c > '9' {
            proof {
                assert(sub[i - from] == s@[i as int]);
            }
            return None;
        }
        let d: u32 = (c as u32) - 48;
        proof {
            assert(sub.subrange(0, i - from + 1).drop_last() =~= sub.subrange(0, i - from));
            assert(sub.subrange(0, i - from + 1).last() == s@[i as int]);
            assert(forall|j: int|
                0 <= j < i - from + 1 ==> is_digit(#[trigger] sub.subrange(0, i - from + 1)[j]));
            lemma_digits_val_pow(sub.subrange(0, i - from + 1));
            lemma_ten_pow_monotone((i - from + 1) as nat, 10);
            reveal_with_fuel(ten_pow, 11);
            assert(ten_pow(10) == 10_000_000_000);
        }
        acc = acc * 10 + (d as u64);
        i += 1;
    }
    proof {
        assert(sub.subrange(0, to - from) =~= sub);
    }
    Some(acc)
}

/// Resolves the metadata's resolution to a concrete width and height,
/// or fails with the configuration fault [`resolution_of`] names.
pub fn resolve_resolution(m: &Metadata) -> (r: Result<(u32, u32), RenderError>)
    ensures
        resolution_of(*m) matches Ok(wh) ==> r == Ok::<(u32, u32), RenderError>(wh),
        resolution_of(*m) matches Err(f) ==> r == Err::<(u32, u32), RenderError>(
            RenderError::Config(f),
        ),
        r matches Ok(p) ==> (p.0 as int) * (p.1 as int) <= MAX_PIXELS,
{
    match &m.resolution {
        Resolution::Explicit { width, height } => {
            proof {
                assert((*width as int) * (*height as int) < 18446744073709551616int)
                    by (nonlinear_arith)
                    requires
                        width <= 4294967295,
                        height <= 4294967295,
                ;
            }
            let area: u64 = (*width as u64) * (*height as u64);
            if area <= MAX_PIXELS {
                Ok((*width, *height))
            } else {
                Err(RenderError::Config(ConfigFault::ResolutionTooLarge))
            }
        },
        Resolution::Named(s) => {
            let n = s.as_str().unicode_len();
            let xi = find_x(s);
            if xi >= n {
                proof {
                    assert forall|i: int| !valid_split(s@, i) by {
                        if 0 <= i < s@.len() {
                        }
                    };
                }
                return Err(RenderError::Config(ConfigFault::UnknownResolution));
            }
            let left = parse_digits(s, 0, xi);
            let right = parse_digits(s, xi + 1, n);
            match (left, right) {
                (Some(wv), Some(hv)) => {
                    proof {
                        assert(valid_split(s@, xi as int));
                        let i0 = choose|i: int| valid_split(s@, i);
                        lemma_split_unique(s@, i0, xi as int);
                    }
                    if wv > 0xffff_ffffu64 || hv > 0xffff_ffffu64 {
                        Err(RenderError::Config(ConfigFault::ResolutionTooLarge))
                    } else {
                        let w = wv as u32;
                        let h = hv as u32;
                        proof {
                            assert((w as int) * (h as int) < 18446744073709551616int)
                                by (nonlinear_arith)
                                requires
                                    w <= 4294967295,
                                    h <= 4294967295,
                            ;
                        }
                        let area: u64 = (w as u64) * (h as u64);
                        if area <= MAX_PIXELS {
                            Ok((w, h))
                        } else {
                            Err(RenderError::Config(ConfigFault::ResolutionTooLarge))
                        }
                    }
                },
                _ => {
                    proof {
                        assert forall|i: int| !valid_split(s@, i) by {
                            if 0 <= i < s@.len() {
                                if i < xi as int {
                                } else if i > xi as int {
                                    if valid_split(s@, i) {
                                        assert(s@.subrange(0, i)[xi as int] == 'x');
                                        assert(!is_digit('x'));
                                    }
                                }
                            }
                        };
                    }
                    Err(RenderError::Config(ConfigFault::UnknownResolution))
                },
            }
        },
    }
}

/// The per-layer failures aggregated over the first `upto` frames of
/// a plan, frame by frame, in frame order.
pub open spec fn all_failures(
    tl: Timeline,
    scenes: Seq<crate::script::Scene>,
    store: AssetStore,
    fps: int,
    upto: int,
) -> Seq<FailureModel>
    decreases upto,
{
    if upto <= 0 {
        Seq::empty()
    } else {
        all_failures(tl, scenes, store, fps, upto - 1) + frame_failures(
            tl.spec_resolve(upto - 1),
            scenes,
            store,
            fps,
        )
    }
}

/// The render report: how many frames were produced, and every
/// per-layer failure met along the way, in frame order.
#[derive(Debug, Clone)]
pub struct RenderReport {
    pub total_frames: u64,
    pub failures: Vec<AssetResolutionError>,
}

/// A completed render: the plan it followed, one serialized PPM per
/// frame index, and the report.
#[derive(Debug, Clone)]
pub struct RenderOutput {
    pub plan: Timeline,
    pub frames: Vec<Vec<u8>>,
    pub report: RenderReport,
}

/// What a successful render of `script` against `store` must hold,
/// at resolution `w × h`: a plan matching the script, one PPM per
/// frame whose bytes are exactly the composed frame, and the complete
/// failure list. Every field is a function of the inputs alone.
pub open spec fn render_ok_spec(
    script: VideoScript,
    store: AssetStore,
    w: u32,
    h: u32,
    out: RenderOutput,
) -> bool {
    let fps = script.metadata.fps as int;
    &&& out.plan.wf()
    &&& out.plan.matches_script(script.scenes@, fps)
    &&& out.plan.spec_total() <= MAX_FRAMES
    &&& out.report.total_frames == out.plan.spec_total()
    &&& out.frames@.len() == out.plan.spec_total()
    &&& forall|i: int|
        0 <= i < out.frames@.len() ==> (#[trigger] out.frames@[i])@ == ppm_bytes(
            w as int,
            h as int,
            spec_compose(
                w as int,
                h as int,
                out.plan.spec_resolve(i),
                script.scenes@,
                store,
                fps,
            ),
        )
    &&& out.report.failures@.map_values(|e: AssetResolutionError| failure_model(e))
        == all_failures(out.plan, script.scenes@, store, fps, out.plan.spec_total())
}

/// The render engine. It holds no state: a render is a pure function
/// of the script and the decoded assets.
pub struct RenderEngine;

impl RenderEngine {
    /// Renders every frame of `script`: validates the resolution,
    /// builds the frame plan, and composites and serializes each frame
    /// in index order. Either every frame is produced, or a
    /// configuration fault is reported before any frame work; the
    /// output is pinned byte for byte by `render_ok_spec`, so a second
    /// render of the same inputs is identical.
    pub fn render(script: &VideoScript, store: &AssetStore) -> (r: Result<
        RenderOutput,
        RenderError,
    >)
        requires
            store.wf(),
        ensures
            r is Ok <==> {
                &&& resolution_of(script.metadata) is Ok
                &&& 1 <= script.metadata.fps
                &&& forall|k: int|
                    0 <= k < script.scenes@.len() ==> script.scenes@[k].duration_ms >= 1
                &&& forall|k: int|
                    0 <= k < script.scenes@.len() ==> crate::timeline::scene_transition_ok(
                        script.scenes@,
                        k,
                    )
                &&& crate::timeline::prefix_ms(script.scenes@, script.scenes@.len() as int)
                    <= crate::timeline::MAX_TOTAL_MS
            },
            r matches Ok(out) ==> resolution_of(script.metadata) matches Ok(wh)
                && render_ok_spec(*script, *store, wh.0, wh.1, out),
            resolution_of(script.metadata) matches Err(f) ==> r == Err::<
                RenderOutput,
                RenderError,
            >(RenderError::Config(f)),
            resolution_of(script.metadata) is Ok && script.metadata.fps == 0 ==> r == Err::<
                RenderOutput,
                RenderError,
            >(RenderError::Config(ConfigFault::ZeroFps)),
            r matches Err(RenderError::Config(ConfigFault::ZeroDuration { scene_index }))
                ==> script.scenes@[scene_index as int].duration_ms == 0 && forall|j: int|
                0 <= j < scene_index ==> script.scenes@[j].duration_ms >= 1,
            resolution_of(script.metadata) is Ok && 1 <= script.metadata.fps && (exists|k: int|
                0 <= k < script.scenes@.len() && script.scenes@[k].duration_ms == 0)
                ==> r matches Err(RenderError::Config(ConfigFault::ZeroDuration { scene_index })),
            r matches Err(RenderError::Config(ConfigFault::TransitionTooLong { scene_index }))
                ==> !crate::timeline::scene_transition_ok(script.scenes@, scene_index as int)
                && forall|j: int|
                0 <= j < scene_index ==> crate::timeline::scene_transition_ok(
                    script.scenes@,
                    j,
                ),
            resolution_of(script.metadata) is Ok && 1 <= script.metadata.fps && (forall|k: int|
                0 <= k < script.scenes@.len() ==> script.scenes@[k].duration_ms >= 1) && (
            exists|k: int|
                0 <= k < script.scenes@.len() && !crate::timeline::scene_transition_ok(
                    script.scenes@,
                    k,
                )) ==> r matches Err(
                RenderError::Config(ConfigFault::TransitionTooLong { scene_index }),
            ),
            resolution_of(script.metadata) is Ok && 1 <= script.metadata.fps && (forall|k: int|
                0 <= k < script.scenes@.len() ==> script.scenes@[k].duration_ms >= 1) && (
            forall|k: int|
                0 <= k < script.scenes@.len() ==> crate::timeline::scene_transition_ok(
                    script.scenes@,
                    k,
                )) && crate::timeline::prefix_ms(script.scenes@, script.scenes@.len() as int)
                > crate::timeline::MAX_TOTAL_MS ==> r == Err::<RenderOutput, RenderError>(
                RenderError::Config(ConfigFault::ScriptTooLong),
            ),
    {
        let wh = match resolve_resolution(&script.metadata) {
            Ok(p) => p,
            Err(e) => {
                return Err(e);
            },
        };
        let tl = match Timeline::build(&script.scenes, script.metadata.fps) {
            Ok(t) => t,
            Err(e) => {
                return Err(e);
            },
        };
        let total = tl.total_frames();
        let mut frames: Vec<Vec<u8>> = Vec::new();
        let mut failures: Vec<AssetResolutionError> = Vec::new();
        proof {
            assert((wh.0 as int) * (wh.1 as int) <= MAX_PIXELS);
        }
        let mut buffer = FrameBuffer::make(wh.0, wh.1);
        let ghost fps = script.metadata.fps as int;
        let mut i: u64 = 0;
        proof {
            assert(failures@.map_values(|e: AssetResolutionError| failure_model(e))
                =~= Seq::<FailureModel>::empty());
        }
        while i < total
            invariant
                store.wf(),
                tl.wf(),
                tl.matches_script(script.scenes@, fps),
                fps == script.metadata.fps as int,
                1 <= script.metadata.fps,
                total == tl.spec_total(),
                total <= MAX_FRAMES,
                i <= total,
                buffer.wf(),
                buffer.width == wh.0,
                buffer.height == wh.1,
                frames@.len() == i,
                forall|j: int|
                    0 <= j < i ==> (#[trigger] frames@[j])@ == ppm_bytes(
                        wh.0 as int,
                        wh.1 as int,
                        spec_compose(
                            wh.0 as int,
                            wh.1 as int,
                            tl.spec_resolve(j),
                            script.scenes@,
                            *store,
                            fps,
                        ),
                    ),
                failures@.map_values(|e: AssetResolutionError| failure_model(e))
                    == all_failures(tl, script.scenes@, *store, fps, i as int),
            decreases total - i,
        {
            let ctx = tl.resolve(i).unwrap();
            proof {
                tl.lemma_scene_of_bounds(i as int);
                let k = tl.scene_of(i as int);
                tl.lemma_starts_monotone(k + 1, tl.starts@.len() - 1);
            }
            let mut fr = Compositor::compose(&mut buffer, &ctx, script, store);
            let bytes = buffer.serialize_ppm();
            frames.push(bytes);
            failures.append(&mut fr);
            proof {
                assert(failures@.map_values(|e: AssetResolutionError| failure_model(e))
                    =~= all_failures(tl, script.scenes@, *store, fps, i as int + 1));
            }
            i += 1;
        }
        Ok(
            RenderOutput {
                plan: tl,
                frames,
                report: RenderReport { total_frames: total, failures },
            },
        )
    }
}

/// Two well-formed plans with the same boundaries, windows and frame
/// rate resolve every frame identically.
proof fn lemma_scene_of_from_agrees(t1: Timeline, t2: Timeline, i: int, j: int)
    requires
        t1.starts@ == t2.starts@,
        0 <= j,
    ensures
        t1.scene_of_from(i, j) == t2.scene_of_from(i, j),
    decreases t1.starts@.len() - j,
{
    if !(j + 1 >= t1.starts@.len() || i < t1.starts@[j + 1]) {
        lemma_scene_of_from_agrees(t1, t2, i, j + 1);
    }
}

pub proof fn lemma_plan_resolve_agrees(t1: Timeline, t2: Timeline, i: int)
    requires
        t1.starts@ == t2.starts@,
        t1.windows@ == t2.windows@,
    ensures
        t1.spec_resolve(i) == t2.spec_resolve(i),
{
    lemma_scene_of_from_agrees(t1, t2, i, 0);
}

/// Rendering is deterministic: any two outputs that a successful
/// render of the same script, the same assets and the same resolution
/// can hand out hold byte-identical frame files and identical reports.
#[verifier::rlimit(100)]
#[verifier::spinoff_prover]
pub proof fn lemma_render_deterministic(
    script: VideoScript,
    store: AssetStore,
    w: u32,
    h: u32,
    o1: RenderOutput,
    o2: RenderOutput,
)
    requires
        render_ok_spec(script, store, w, h, o1),
        render_ok_spec(script, store, w, h, o2),
    ensures
        o1.frames@.len() == o2.frames@.len(),
        forall|i: int|
            0 <= i < o1.frames@.len() ==> (#[trigger] o1.frames@[i])@ == o2.frames@[i]@,
        o1.report.total_frames == o2.report.total_frames,
        o1.report.failures@.map_values(|e: AssetResolutionError| failure_model(e))
            == o2.report.failures@.map_values(|e: AssetResolutionError| failure_model(e)),
{
    let fps = script.metadata.fps as int;
    let n = script.scenes@.len() as int;
    assert forall|k: int| 0 <= k < o1.plan.starts@.len() implies o1.plan.starts@[k]
        == o2.plan.starts@[k] by {
        assert(o1.plan.starts@[k] == crate::timeline::boundary(script.scenes@, fps, k));
        assert(o2.plan.starts@[k] == crate::timeline::boundary(script.scenes@, fps, k));
    };
    assert(o1.plan.starts@ =~= o2.plan.starts@);
    assert forall|k: int| 0 <= k < o1.plan.windows@.len() implies o1.plan.windows@[k]
        == o2.plan.windows@[k] by {
        assert(o1.plan.windows@[k] == crate::timeline::spec_window(script.scenes@, fps, k));
        assert(o2.plan.windows@[k] == crate::timeline::spec_window(script.scenes@, fps, k));
    };
    assert(o1.plan.windows@ =~= o2.plan.windows@);
    assert forall|i: int| 0 <= i < o1.frames@.len() implies (#[trigger] o1.frames@[i])@
        == o2.frames@[i]@ by {
        lemma_plan_resolve_agrees(o1.plan, o2.plan, i);
    };
    lemma_all_failures_agree(
        o1.plan,
        o2.plan,
        script.scenes@,
        store,
        fps,
        o1.plan.spec_total(),
    );
}

proof fn lemma_all_failures_agree(
    t1: Timeline,
    t2: Timeline,
    scenes: Seq<crate::script::Scene>,
    store: AssetStore,
    fps: int,
    upto: int,
)
    requires
        t1.starts@ == t2.starts@,
        t1.windows@ == t2.windows@,
    ensures
        all_failures(t1, scenes, store, fps, upto) == all_failures(
            t2,
            scenes,
            store,
            fps,
            upto,
        ),
    decreases upto,
{
    if upto > 0 {
        lemma_all_failures_agree(t1, t2, scenes, store, fps, upto - 1);
        lemma_plan_resolve_agrees(t1, t2, upto - 1);
    }
}

/// The file name of one output frame: `frame_<index>.ppm`, plain
/// decimal, monotonically sortable by numeric index.
pub fn frame_file_name(frame_index: u64) -> (r: String)
    ensures
        r@ == "frame_"@ + dec_chars(frame_index as int) + ".ppm"@,
{
    let mut s = "frame_".to_owned();
    s.append(dec_string(frame_index).as_str());
    s.append(".ppm");
    s
}

} // verus!
