//! The deterministic mapping from script time to discrete frame indices.
//!
//! Scene boundaries are placed by cumulative rounding: the running total
//! of scene milliseconds is converted to frames once per boundary, never
//! per scene, so frame counts cannot drift across long scripts. The
//! timeline also answers which scene owns a frame and whether the frame
//! lies in a transition window between two adjacent scenes.

use vstd::prelude::*;

use crate::error::{ConfigFault, RenderError};
use crate::rounding::{
    lemma_round_div_monotone, lemma_round_div_upper, lemma_round_div_zero, round_div,
    round_mul_div,
};
use crate::script::Scene;

verus! {

/// The longest supported script, in summed scene milliseconds
/// (about 31.7 years). The cap keeps every frame index inside `u64`.
pub const MAX_TOTAL_MS: u64 = 1_000_000_000_000;

/// An upper bound on the frame count of any plan within
/// [`MAX_TOTAL_MS`]: room enough for every frame-local computation to
/// stay inside `u64`.
pub const MAX_FRAMES: u64 = 5_000_000_000_000_000_000;

/// Milliseconds quantized to frames at `fps`, rounding half up.
pub open spec fn frames_at(ms: int, fps: int) -> int {
    round_div(ms * fps, 1000)
}

/// The summed duration of the first `k` scenes, in milliseconds.
pub open spec fn prefix_ms(scenes: Seq<Scene>, k: int) -> int
    decreases k,
{
    if k <= 0 {
        0
    } else {
        prefix_ms(scenes, k - 1) + scenes[k - 1].duration_ms
    }
}

/// The frame index at which scene `k` starts: the cumulative-rounding
/// boundary rule.
pub open spec fn boundary(scenes: Seq<Scene>, fps: int, k: int) -> int {
    frames_at(prefix_ms(scenes, k), fps)
}

/// The total frame count of a script: the last boundary.
pub open spec fn spec_frame_count(scenes: Seq<Scene>, fps: int) -> int {
    boundary(scenes, fps, scenes.len() as int)
}

/// Whether the transition carried by scene `k` is admissible: no longer
/// than either adjacent scene. A transition on the final scene has no
/// following scene and is not constrained (it is ignored).
pub open spec fn scene_transition_ok(scenes: Seq<Scene>, k: int) -> bool {
    match scenes[k].transition {
        Some(t) => k + 1 < scenes.len() ==> t.duration_ms <= scenes[k].duration_ms
            && t.duration_ms <= scenes[k + 1].duration_ms,
        None => true,
    }
}

/// The transition window length, in frames, at the end of scene `k`:
/// the transition's duration quantized to frames, clamped to the scene's
/// own frame span; zero where the scene carries no transition or is last.
pub open spec fn spec_window(scenes: Seq<Scene>, fps: int, k: int) -> int {
    match scenes[k].transition {
        Some(t) => if k + 1 < scenes.len() {
            let w = frames_at(t.duration_ms as int, fps);
            let span = boundary(scenes, fps, k + 1) - boundary(scenes, fps, k);
            if w <= span {
                w
            } else {
                span
            }
        } else {
            0
        },
        None => 0,
    }
}

/// A frame's place inside a transition: the `pos`-th of `len` frames
/// blending scene `from_scene` (outgoing) into `to_scene` (incoming).
/// The blend factor of the frame is the rational `pos / len`: `0` at the
/// window's first frame, rising linearly by `1 / len` per frame.
#[derive(Debug, Clone, Copy, PartialEq, Eq)]
pub struct TransitionWindow {
    pub from_scene: usize,
    pub to_scene: usize,
    pub pos: u64,
    pub len: u64,
}

/// Everything the compositor needs to know about one frame: the owning
/// scene, the frame's local offset and the scene's frame span (for
/// time-local effects), and the transition window, if any.
#[derive(Debug, Clone, Copy, PartialEq, Eq)]
pub struct FrameContext {
    pub frame_index: u64,
    pub scene_index: usize,
    pub local_frame: u64,
    pub scene_frames: u64,
    pub transition: Option<TransitionWindow>,
}

/// The shape every context handed out by `resolve` has, relative to a
/// script of `nscenes` scenes.
pub open spec fn ctx_valid(ctx: FrameContext, nscenes: int) -> bool {
    &&& ctx.scene_index < nscenes
    &&& 1 <= ctx.scene_frames
    &&& ctx.local_frame < ctx.scene_frames
    &&& match ctx.transition {
        Some(tw) => {
            &&& tw.from_scene == ctx.scene_index
            &&& tw.to_scene == ctx.scene_index + 1
            &&& tw.to_scene < nscenes
            &&& 1 <= tw.len
            &&& tw.pos < tw.len
        },
        None => true,
    }
}

/// The frame plan: one start boundary per scene plus the total, and the
/// per-scene transition window lengths.
#[derive(Debug, Clone)]
pub struct Timeline {
    pub fps: u32,
    /// `starts[k]` is the first frame index of scene `k`;
    /// `starts[scenes.len()]` is the total frame count.
    pub starts: Vec<u64>,
    /// `windows[k]` is the frame length of the transition window at the
    /// end of scene `k` (zero: none). The last scene's window is zero.
    pub windows: Vec<u64>,
}

impl Timeline {
    /// Internal consistency of a plan: monotone boundaries from zero,
    /// and windows that fit inside their scene's span.
    pub open spec fn wf(self) -> bool {
        &&& 1 <= self.fps
        &&& 1 <= self.starts@.len()
        &&& self.starts@[0] == 0
        &&& forall|k: int|
            0 <= k && k + 1 < self.starts@.len() ==> #[trigger] self.starts@[k]
                <= self.starts@[k + 1]
        &&& self.windows@.len() == self.starts@.len() - 1
        &&& forall|k: int|
            0 <= k < self.windows@.len() ==> self.windows@[k] <= self.starts@[k + 1]
                - self.starts@[k]
        &&& self.windows@.len() >= 1 ==> self.windows@[self.windows@.len() - 1] == 0
    }

    /// The total frame count of the plan.
    pub open spec fn spec_total(self) -> int {
        self.starts@[self.starts@.len() - 1] as int
    }

    /// The plan built from `scenes` at `fps`: every boundary follows the
    /// cumulative-rounding rule and every window follows `spec_window`.
    pub open spec fn matches_script(self, scenes: Seq<Scene>, fps: int) -> bool {
        &&& self.fps == fps
        &&& self.starts@.len() == scenes.len() + 1
        &&& forall|k: int|
            0 <= k <= scenes.len() ==> self.starts@[k] == boundary(scenes, fps, k)
        &&& forall|k: int| 0 <= k < scenes.len() ==> self.windows@[k] == spec_window(
            scenes,
            fps,
            k,
        )
    }

    /// Builds the frame plan.
    ///
    /// Fails with a configuration fault — and builds nothing — if the
    /// frame rate is zero, any scene lasts zero milliseconds, a
    /// transition outlasts one of its two scenes, or the summed length
    /// exceeds [`MAX_TOTAL_MS`]. On success the plan satisfies the
    /// cumulative-rounding rule exactly: the total frame count is the
    /// running millisecond total of all scenes, quantized once.
    pub fn build(scenes: &Vec<Scene>, fps: u32) -> (r: Result<Timeline, RenderError>)
        ensures
            r is Ok <==> {
                &&& 1 <= fps
                &&& forall|k: int| 0 <= k < scenes@.len() ==> scenes@[k].duration_ms >= 1
                &&& forall|k: int| 0 <= k < scenes@.len() ==> scene_transition_ok(scenes@, k)
                &&& prefix_ms(scenes@, scenes@.len() as int) <= MAX_TOTAL_MS
            },
            r matches Ok(tl) ==> tl.wf() && tl.matches_script(scenes@, fps as int)
                && tl.spec_total() == spec_frame_count(scenes@, fps as int)
                && tl.spec_total() <= MAX_FRAMES,
            fps == 0 ==> r == Err::<Timeline, RenderError>(
                RenderError::Config(ConfigFault::ZeroFps),
            ),
            r matches Err(RenderError::Config(ConfigFault::ZeroDuration { scene_index }))
                ==> scenes@[scene_index as int].duration_ms == 0 && forall|j: int|
                0 <= j < scene_index ==> scenes@[j].duration_ms >= 1,
            1 <= fps && (exists|k: int|
                0 <= k < scenes@.len() && scenes@[k].duration_ms == 0) ==> r matches Err(
                RenderError::Config(ConfigFault::ZeroDuration { scene_index }),
            ),
            r matches Err(RenderError::Config(ConfigFault::TransitionTooLong { scene_index }))
                ==> !scene_transition_ok(scenes@, scene_index as int) && forall|j: int|
                0 <= j < scene_index ==> scene_transition_ok(scenes@, j),
            (1 <= fps && (forall|k: int|
                0 <= k < scenes@.len() ==> scenes@[k].duration_ms >= 1) && (exists|k: int|
                0 <= k < scenes@.len() && !scene_transition_ok(scenes@, k))) ==> r matches Err(
                RenderError::Config(ConfigFault::TransitionTooLong { scene_index }),
            ),
            (1 <= fps && (forall|k: int|
                0 <= k < scenes@.len() ==> scenes@[k].duration_ms >= 1) && (forall|k: int|
                0 <= k < scenes@.len() ==> scene_transition_ok(scenes@, k)) && prefix_ms(
                scenes@,
                scenes@.len() as int,
            ) > MAX_TOTAL_MS) ==> r == Err::<Timeline, RenderError>(
                RenderError::Config(ConfigFault::ScriptTooLong),
            ),
    {
        let n = scenes.len();
        if fps == 0 {
            return Err(RenderError::Config(ConfigFault::ZeroFps));
        }
        let mut k: usize = 0;
        while k < n
            invariant
                n == scenes@.len(),
                1 <= fps,
                k <= n,
                forall|j: int| 0 <= j < k ==> scenes@[j].duration_ms >= 1,
            decreases n - k,
        {
            if scenes[k].duration_ms == 0 {
                return Err(RenderError::Config(ConfigFault::ZeroDuration { scene_index: k }));
            }
            k += 1;
        }
        let mut k: usize = 0;
        while k < n
            invariant
                n == scenes@.len(),
                1 <= fps,
                k <= n,
                forall|j: int| 0 <= j < n ==> scenes@[j].duration_ms >= 1,
                forall|j: int| 0 <= j < k ==> scene_transition_ok(scenes@, j),
            decreases n - k,
        {
            let bad = match &scenes[k].transition {
                Some(t) => {
                    if k + 1 < n {
                        t.duration_ms > scenes[k].duration_ms || t.duration_ms > scenes[k
                            + 1].duration_ms
                    } else {
                        false
                    }
                },
                None => false,
            };
            if bad {
                proof {
                    assert(!scene_transition_ok(scenes@, k as int));
                }
                return Err(
                    RenderError::Config(ConfigFault::TransitionTooLong { scene_index: k }),
                );
            }
            k += 1;
        }
        let mut cum: u64 = 0;
        let mut starts: Vec<u64> = Vec::new();
        starts.push(0u64);
        proof {
            lemma_round_div_zero(1000);
            assert(starts@[0] == boundary(scenes@, fps as int, 0));
        }
        let mut k: usize = 0;
        while k < n
            invariant
                n == scenes@.len(),
                k <= n,
                1 <= fps,
                forall|j: int| 0 <= j < n ==> scenes@[j].duration_ms >= 1,
                forall|j: int| 0 <= j < n ==> scene_transition_ok(scenes@, j),
                cum == prefix_ms(scenes@, k as int),
                cum <= MAX_TOTAL_MS,
                starts@.len() == k + 1,
                forall|j: int|
                    0 <= j <= k ==> starts@[j] == boundary(scenes@, fps as int, j),
                forall|j: int|
                    0 <= j && j + 1 < starts@.len() ==> #[trigger] starts@[j] <= starts@[j + 1],
                forall|j: int| 0 <= j < starts@.len() ==> starts@[j] <= u64::MAX,
            decreases n - k,
        {
            let d = scenes[k].duration_ms;
            let next_cum: u64 = cum + (d as u64);
            proof {
                assert(next_cum == prefix_ms(scenes@, k as int + 1));
            }
            if next_cum > MAX_TOTAL_MS {
                proof {
                    lemma_prefix_ms_monotone(scenes@, k as int + 1, n as int);
                }
                return Err(RenderError::Config(ConfigFault::ScriptTooLong));
            }
            proof {
                assert((next_cum as int) * (fps as int) <= 1_000_000_000_000int
                    * 4294967295int) by (nonlinear_arith)
                    requires
                        next_cum <= 1_000_000_000_000,
                        fps <= 4294967295,
                ;
                lemma_round_div_upper(
                    (next_cum as int) * (fps as int),
                    1000,
                    u64::MAX as int,
                );
                assert((next_cum as int) * (fps as int) >= 0) by (nonlinear_arith);
                assert((cum as int) * (fps as int) <= (next_cum as int) * (fps as int))
                    by (nonlinear_arith)
                    requires
                        cum <= next_cum,
                        fps >= 1,
                ;
                assert((cum as int) * (fps as int) >= 0) by (nonlinear_arith);
                lemma_round_div_monotone(
                    (cum as int) * (fps as int),
                    (next_cum as int) * (fps as int),
                    1000,
                );
            }
            let b = round_mul_div(next_cum, fps as u64, 1000);
            starts.push(b);
            cum = next_cum;
            k += 1;
        }
        let mut windows: Vec<u64> = Vec::new();
        let mut k: usize = 0;
        while k < n
            invariant
                n == scenes@.len(),
                k <= n,
                1 <= fps,
                starts@.len() == n + 1,
                forall|j: int|
                    0 <= j <= n ==> starts@[j] == boundary(scenes@, fps as int, j),
                forall|j: int|
                    0 <= j && j + 1 < starts@.len() ==> #[trigger] starts@[j] <= starts@[j + 1],
                windows@.len() == k,
                forall|j: int|
                    0 <= j < k ==> windows@[j] == spec_window(scenes@, fps as int, j),
                forall|j: int|
                    0 <= j < k ==> windows@[j] <= starts@[j + 1] - starts@[j],
            decreases n - k,
        {
            let span: u64 = starts[k + 1] - starts[k];
            let win: u64 = match &scenes[k].transition {
                Some(t) => {
                    if k + 1 < n {
                        proof {
                            assert((t.duration_ms as int) * (fps as int) <= 4294967295int
                                * 4294967295int) by (nonlinear_arith)
                                requires
                                    t.duration_ms <= 4294967295,
                                    fps <= 4294967295,
                            ;
                            assert((t.duration_ms as int) * (fps as int) >= 0)
                                by (nonlinear_arith);
                            lemma_round_div_upper(
                                (t.duration_ms as int) * (fps as int),
                                1000,
                                u64::MAX as int,
                            );
                        }
                        let w = round_mul_div(t.duration_ms as u64, fps as u64, 1000);
                        if w <= span {
                            w
                        } else {
                            span
                        }
                    } else {
                        0
                    }
                },
                None => 0,
            };
            windows.push(win);
            k += 1;
        }
        let tl = Timeline { fps, starts, windows };
        proof {
            if n >= 1 {
                assert(tl.windows@[n - 1] == spec_window(scenes@, fps as int, n - 1));
            }
            assert((cum as int) * (fps as int) <= 1_000_000_000_000int * 4294967295int)
                by (nonlinear_arith)
                requires
                    cum <= 1_000_000_000_000,
                    fps <= 4294967295,
            ;
            assert((cum as int) * (fps as int) >= 0) by (nonlinear_arith)
                requires
                    cum >= 0,
                    fps >= 0,
            ;
            lemma_round_div_upper((cum as int) * (fps as int), 1000, MAX_FRAMES as int);
        }
        Ok(tl)
    }

    /// The scene owning frame `i`, searched from scene `j` on: the
    /// first boundary interval that reaches past `i`. Empty scenes
    /// (whose rounded span is zero frames) own no frame and are skipped.
    pub open spec fn scene_of_from(self, i: int, j: int) -> int
        decreases self.starts@.len() - j,
    {
        if j + 1 >= self.starts@.len() || i < self.starts@[j + 1] {
            j
        } else {
            self.scene_of_from(i, j + 1)
        }
    }

    /// The scene owning frame `i`.
    pub open spec fn scene_of(self, i: int) -> int {
        self.scene_of_from(i, 0)
    }

    /// The context `resolve` hands out for an in-range frame `i`.
    pub open spec fn spec_resolve(self, i: int) -> FrameContext {
        let k = self.scene_of(i);
        let start = self.starts@[k] as int;
        let end = self.starts@[k + 1] as int;
        let win = self.windows@[k] as int;
        let transition = if win > 0 && i >= end - win {
            Some(
                TransitionWindow {
                    from_scene: k as usize,
                    to_scene: (k + 1) as usize,
                    pos: (i - (end - win)) as u64,
                    len: win as u64,
                },
            )
        } else {
            None
        };
        FrameContext {
            frame_index: i as u64,
            scene_index: k as usize,
            local_frame: (i - start) as u64,
            scene_frames: (end - start) as u64,
            transition,
        }
    }

    /// Answers what is active at `frame_index`: the owning scene, the
    /// frame's local offset, and — inside a transition window — the two
    /// blended scenes with the window position that fixes the blend
    /// factor. An index outside `0 .. total_frames` fails with
    /// [`RenderError::OutOfRange`], and only such an index does.
    pub fn resolve(&self, frame_index: u64) -> (r: Result<FrameContext, RenderError>)
        requires
            self.wf(),
        ensures
            r is Ok <==> frame_index < self.spec_total(),
            frame_index < self.spec_total() ==> r == Ok::<FrameContext, RenderError>(
                self.spec_resolve(frame_index as int),
            ),
            frame_index >= self.spec_total() ==> r == Err::<FrameContext, RenderError>(
                RenderError::OutOfRange {
                    frame_index,
                    total_frames: (self.spec_total() as u64),
                },
            ),
            r matches Ok(ctx) ==> ctx_valid(ctx, self.starts@.len() - 1),
    {
        let n = self.starts.len();
        let total = self.starts[n - 1];
        if frame_index >= total {
            return Err(RenderError::OutOfRange { frame_index, total_frames: total });
        }
        proof {
            self.lemma_starts_monotone(0, n - 1);
        }
        let mut k: usize = 0;
        while frame_index >= self.starts[k + 1]
            invariant
                self.wf(),
                n == self.starts@.len(),
                k + 1 < n,
                frame_index < self.starts@[n - 1],
                frame_index >= self.starts@[k as int],
                self.scene_of(frame_index as int) == self.scene_of_from(
                    frame_index as int,
                    k as int,
                ),
            decreases n - k,
        {
            proof {
                if k + 2 == n {
                    assert(false);
                } else {
                    self.lemma_starts_monotone(k + 2, n - 1);
                }
            }
            k += 1;
        }
        proof {
            assert(self.scene_of(frame_index as int) == k as int);
        }
        let start = self.starts[k];
        let end = self.starts[k + 1];
        let win = self.windows[k];
        let transition = if win > 0 && frame_index >= end - win {
            Some(
                TransitionWindow {
                    from_scene: k,
                    to_scene: k + 1,
                    pos: frame_index - (end - win),
                    len: win,
                },
            )
        } else {
            None
        };
        let ctx = FrameContext {
            frame_index,
            scene_index: k,
            local_frame: frame_index - start,
            scene_frames: end - start,
            transition,
        };
        proof {
            if win > 0 {
                assert(k + 1 < self.windows@.len() + 1);
                if k as int == self.windows@.len() - 1 {
                    assert(self.windows@[k as int] == 0);
                }
            }
        }
        Ok(ctx)
    }

    /// For an in-range frame, the owning scene's boundaries truly
    /// bracket the frame.
    pub proof fn lemma_scene_of_from_bounds(self, i: int, j: int)
        requires
            self.wf(),
            0 <= j < self.starts@.len(),
            self.starts@[j] <= i,
            i < self.starts@[self.starts@.len() - 1],
        ensures
            j <= self.scene_of_from(i, j),
            self.scene_of_from(i, j) + 1 < self.starts@.len(),
            self.starts@[self.scene_of_from(i, j)] <= i,
            i < self.starts@[self.scene_of_from(i, j) + 1],
        decreases self.starts@.len() - j,
    {
        if j + 1 >= self.starts@.len() {
            assert(false);
        } else if i < self.starts@[j + 1] {
        } else {
            self.lemma_scene_of_from_bounds(i, j + 1);
        }
    }

    pub proof fn lemma_scene_of_bounds(self, i: int)
        requires
            self.wf(),
            0 <= i < self.spec_total(),
        ensures
            0 <= self.scene_of(i),
            self.scene_of(i) + 1 < self.starts@.len(),
            self.starts@[self.scene_of(i)] <= i,
            i < self.starts@[self.scene_of(i) + 1],
    {
        self.lemma_scene_of_from_bounds(i, 0);
    }

    /// The scene owning a frame is the one whose boundaries bracket it.
    pub proof fn lemma_scene_of_unique(self, i: int, j: int, k: int)
        requires
            self.wf(),
            0 <= j <= k,
            k + 1 < self.starts@.len(),
            self.starts@[j] <= i,
            self.starts@[k] <= i,
            i < self.starts@[k + 1],
        ensures
            self.scene_of_from(i, j) == k,
        decreases k - j,
    {
        if j < k {
            self.lemma_starts_monotone(j + 1, k);
            self.lemma_scene_of_unique(i, j + 1, k);
        }
    }

    /// Boundaries are monotone across any gap, not only between
    /// neighbours.
    pub proof fn lemma_starts_monotone(self, a: int, b: int)
        requires
            self.wf(),
            0 <= a <= b < self.starts@.len(),
        ensures
            self.starts@[a] <= self.starts@[b],
        decreases b - a,
    {
        if a < b {
            self.lemma_starts_monotone(a, b - 1);
        }
    }

    /// The total number of output frames of the plan.
    pub fn total_frames(&self) -> (r: u64)
        requires
            self.wf(),
        ensures
            r == self.spec_total(),
    {
        self.starts[self.starts.len() - 1]
    }
}

/// The blend factor of a transition window is linear in the frame
/// index: the window's first frame blends at factor `0 / len`, each
/// following frame raises the numerator by exactly one, and the
/// window's last frame blends at `(len - 1) / len`, one step short
/// of fully the incoming scene.
#[verifier::rlimit(50)]
pub proof fn lemma_transition_blend_linear(tl: Timeline, i: u64, tw: TransitionWindow)
    requires
        tl.wf(),
        (i as int) < tl.spec_total(),
        tl.spec_resolve(i as int).transition == Some(tw),
    ensures
        tw.pos < tw.len,
        tw.pos == 0 <==> i as int == tl.starts@[tw.to_scene as int] - tw.len,
        i as int == tl.starts@[tw.to_scene as int] - 1 ==> tw.pos == tw.len - 1,
        tw.pos + 1 < tw.len ==> (i as int) + 1 < tl.spec_total()
            && tl.spec_resolve(i as int + 1).transition == Some(
            TransitionWindow {
                from_scene: tw.from_scene,
                to_scene: tw.to_scene,
                pos: (tw.pos + 1) as u64,
                len: tw.len,
            },
        ),
{
    let k = tl.scene_of(i as int);
    tl.lemma_scene_of_bounds(i as int);
    assert(tl.starts@.len() == vstd::std_specs::vec::spec_vec_len(&tl.starts));
    let end = tl.starts@[k + 1] as int;
    let win = tl.windows@[k] as int;
    assert(tw.to_scene == k + 1);
    assert(tw.len == win && tw.pos == i - (end - win));
    if tw.pos + 1 < tw.len {
        tl.lemma_starts_monotone(k + 1, tl.starts@.len() - 1);
        assert((i as int) + 1 < tl.spec_total());
        tl.lemma_scene_of_unique(i as int + 1, 0, k);
        assert(tl.spec_resolve(i as int + 1).transition == Some(
            TransitionWindow {
                from_scene: tw.from_scene,
                to_scene: tw.to_scene,
                pos: (tw.pos + 1) as u64,
                len: tw.len,
            },
        ));
    }
}

/// Prefix sums of nonnegative durations are monotone in the prefix.
pub proof fn lemma_prefix_ms_monotone(scenes: Seq<Scene>, a: int, b: int)
    requires
        0 <= a <= b <= scenes.len(),
    ensures
        prefix_ms(scenes, a) <= prefix_ms(scenes, b),
    decreases b - a,
{
    if a < b {
        lemma_prefix_ms_monotone(scenes, a, b - 1);
    }
}

} // verus!
