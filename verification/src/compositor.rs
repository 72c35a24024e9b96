//! The per-frame compositor: a pure function from a frame's temporal
//! position, the script and the decoded assets to the frame's pixels.
//!
//! For every frame the raster is cleared to the background, the owning
//! scene's layers are blended bottom-to-top, and — inside a transition
//! window — the incoming scene is composited into its own transparent
//! buffer and blended whole over the result at the window's blend
//! factor. A layer whose source does not resolve contributes nothing
//! and is reported; the rest of the frame still renders.

use vstd::prelude::*;

use crate::assets::{Asset, AssetStore};
use crate::error::AssetResolutionError;
use crate::frame_buffer::{
    blend_data, clear_data, scale255, FrameBuffer, PixelPatch, MAX_PIXELS,
};
use crate::rounding::{lemma_round_div_upper, round_div, round_mul_div};
use crate::script::{Color, Effect, Layer, Scene, VideoScript};
use crate::timeline::{ctx_valid, frames_at, FrameContext, MAX_FRAMES};

verus! {

/// The background every frame starts from: opaque black.
pub open spec fn background() -> Color {
    Color { r: 0, g: 0, b: 0, a: 255 }
}

/// The color an off-screen compositing buffer starts from: fully
/// transparent, so that only its layers show through when it is
/// blended over the main raster.
pub open spec fn transparent() -> Color {
    Color { r: 0, g: 0, b: 0, a: 0 }
}

/// The alpha multiplier one effect contributes at a local time:
/// `local` frames into a span of `span` frames, full scale 255.
pub open spec fn effect_alpha(e: Effect, local: int, span: int, fps: int) -> int {
    match e {
        Effect::FadeIn { duration_ms } => {
            let f = frames_at(duration_ms as int, fps);
            if f <= 0 || local >= f {
                255
            } else {
                round_div(local * 255, f)
            }
        },
        Effect::FadeOut { duration_ms } => {
            let f = frames_at(duration_ms as int, fps);
            let remaining = span - local;
            if f <= 0 || remaining >= f {
                255
            } else {
                round_div(remaining * 255, f)
            }
        },
        Effect::Opacity { percent } => {
            let pc: int = if percent > 100 {
                100
            } else {
                percent as int
            };
            round_div(pc * 255, 100)
        },
    }
}

/// The combined alpha multiplier of an effect list, applied in
/// declared order: each effect scales what the previous ones left.
pub open spec fn effects_alpha(effects: Seq<Effect>, local: int, span: int, fps: int) -> int
    decreases effects.len(),
{
    if effects.len() == 0 {
        255
    } else {
        scale255(
            effects_alpha(effects.drop_last(), local, span, fps),
            effect_alpha(effects.last(), local, span, fps),
        )
    }
}

/// What one layer would paint: its pixels, size, placement and alpha.
pub ghost struct Contribution {
    pub rgba: Seq<u8>,
    pub pw: int,
    pub ph: int,
    pub px: int,
    pub py: int,
    pub alpha: int,
}

/// Resolves one layer against the asset store at a local time.
/// `None` is a per-layer failure: missing source, content of the wrong
/// kind, or a text patch past the size caps.
pub open spec fn layer_contribution(
    layer: Layer,
    store: AssetStore,
    local: int,
    span: int,
    fps: int,
) -> Option<Contribution> {
    match layer {
        Layer::Text { content, font, font_size, color, position, effects } => {
            match store.lookup_of(font@) {
                Some(Asset::Font(fm)) => {
                    let g = (font_size * fm.glyph_width) as int / fm.glyph_height as int;
                    let pw = content@.len() * g;
                    if pw > u32::MAX || pw * font_size > MAX_PIXELS {
                        None
                    } else {
                        Some(
                            Contribution {
                                rgba: clear_data(pw, font_size as int, color),
                                pw,
                                ph: font_size as int,
                                px: position.x as int,
                                py: position.y as int,
                                alpha: effects_alpha(effects@, local, span, fps),
                            },
                        )
                    }
                },
                _ => None,
            }
        },
        Layer::Image { source, position, transform, effects } => {
            match store.lookup_of(source@) {
                Some(Asset::Image(p)) => Some(
                    Contribution {
                        rgba: p.rgba@,
                        pw: p.width as int,
                        ph: p.height as int,
                        px: position.x + transform.dx,
                        py: position.y + transform.dy,
                        alpha: effects_alpha(effects@, local, span, fps),
                    },
                ),
                _ => None,
            }
        },
        Layer::Video { source, position, playback_offset_ms, effects } => {
            match store.lookup_of(source@) {
                Some(Asset::Video(v)) => {
                    let fi = (frames_at(playback_offset_ms as int, fps) + local) % (
                    v.frames@.len() as int);
                    Some(
                        Contribution {
                            rgba: v.frames@[fi].rgba@,
                            pw: v.frames@[fi].width as int,
                            ph: v.frames@[fi].height as int,
                            px: position.x as int,
                            py: position.y as int,
                            alpha: effects_alpha(effects@, local, span, fps),
                        },
                    )
                },
                _ => None,
            }
        },
    }
}

/// The raster after one layer: blended if it resolves, untouched if
/// not.
pub open spec fn compose_layer(
    data: Seq<u8>,
    w: int,
    layer: Layer,
    store: AssetStore,
    local: int,
    span: int,
    fps: int,
) -> Seq<u8> {
    match layer_contribution(layer, store, local, span, fps) {
        Some(c) => blend_data(data, w, c.rgba, c.pw, c.ph, c.px, c.py, c.alpha),
        None => data,
    }
}

/// The raster after a whole layer stack, painted bottom-to-top in
/// declared order.
pub open spec fn compose_layers(
    data: Seq<u8>,
    w: int,
    layers: Seq<Layer>,
    store: AssetStore,
    local: int,
    span: int,
    fps: int,
) -> Seq<u8>
    decreases layers.len(),
{
    if layers.len() == 0 {
        data
    } else {
        compose_layer(
            compose_layers(data, w, layers.drop_last(), store, local, span, fps),
            w,
            layers.last(),
            store,
            local,
            span,
            fps,
        )
    }
}

/// The mathematical shadow of one recorded per-layer failure.
pub ghost struct FailureModel {
    pub frame: int,
    pub scene: int,
    pub layer: int,
    pub source: Seq<char>,
}

pub open spec fn failure_model(e: AssetResolutionError) -> FailureModel {
    FailureModel {
        frame: e.frame_index as int,
        scene: e.scene_index as int,
        layer: e.layer_index as int,
        source: e.source@,
    }
}

/// The failures one layer stack produces at one frame: exactly the
/// layers whose contribution is `None`, in layer order.
pub open spec fn scene_failures(
    frame: int,
    scene_idx: int,
    layers: Seq<Layer>,
    store: AssetStore,
    local: int,
    span: int,
    fps: int,
) -> Seq<FailureModel>
    decreases layers.len(),
{
    if layers.len() == 0 {
        Seq::empty()
    } else {
        let rest = scene_failures(
            frame,
            scene_idx,
            layers.drop_last(),
            store,
            local,
            span,
            fps,
        );
        if layer_contribution(layers.last(), store, local, span, fps) is None {
            rest.push(
                FailureModel {
                    frame,
                    scene: scene_idx,
                    layer: layers.len() - 1,
                    source: layers.last().spec_source(),
                },
            )
        } else {
            rest
        }
    }
}

/// One whole frame: background, the owning scene's stack, then — in a
/// transition window — the incoming scene's stack composited on
/// transparent and blended over at factor `pos / len`.
pub open spec fn spec_compose(
    w: int,
    h: int,
    ctx: FrameContext,
    scenes: Seq<Scene>,
    store: AssetStore,
    fps: int,
) -> Seq<u8> {
    let base = clear_data(w, h, background());
    let steady = compose_layers(
        base,
        w,
        scenes[ctx.scene_index as int].layers@,
        store,
        ctx.local_frame as int,
        ctx.scene_frames as int,
        fps,
    );
    match ctx.transition {
        None => steady,
        Some(tw) => {
            let incoming = compose_layers(
                clear_data(w, h, transparent()),
                w,
                scenes[tw.to_scene as int].layers@,
                store,
                tw.pos as int,
                tw.len as int,
                fps,
            );
            blend_data(steady, w, incoming, w, h, 0, 0, round_div(tw.pos as int * 255, tw.len as int))
        },
    }
}

/// The failures of one whole frame: the owning scene's, then — in a
/// transition window — the incoming scene's.
pub open spec fn frame_failures(
    ctx: FrameContext,
    scenes: Seq<Scene>,
    store: AssetStore,
    fps: int,
) -> Seq<FailureModel> {
    let steady = scene_failures(
        ctx.frame_index as int,
        ctx.scene_index as int,
        scenes[ctx.scene_index as int].layers@,
        store,
        ctx.local_frame as int,
        ctx.scene_frames as int,
        fps,
    );
    match ctx.transition {
        None => steady,
        Some(tw) => steady + scene_failures(
            ctx.frame_index as int,
            tw.to_scene as int,
            scenes[tw.to_scene as int].layers@,
            store,
            tw.pos as int,
            tw.len as int,
            fps,
        ),
    }
}

/// A scene with no layers composes to the untouched background: every
/// frame the scene owns outside a transition window is the pure clear
/// color.
pub proof fn lemma_empty_scene_background(
    w: int,
    h: int,
    ctx: FrameContext,
    scenes: Seq<Scene>,
    store: AssetStore,
    fps: int,
)
    requires
        0 <= ctx.scene_index < scenes.len(),
        scenes[ctx.scene_index as int].layers@.len() == 0,
        ctx.transition is None,
    ensures
        spec_compose(w, h, ctx, scenes, store, fps) == clear_data(w, h, background()),
{
}

/// A resolved asset of a well-formed store is itself well-formed.
proof fn lemma_lookup_wf(entries: Seq<(String, Asset)>, name: Seq<char>)
    requires
        forall|i: int| 0 <= i < entries.len() ==> (#[trigger] entries[i]).1.wf(),
    ensures
        AssetStore::spec_lookup(entries, name) matches Some(a) ==> a.wf(),
    decreases entries.len(),
{
    if entries.len() > 0 && entries[0].0@ != name {
        assert(forall|i: int|
            0 <= i < entries.drop_first().len() ==> (#[trigger] entries.drop_first()[i]).1.wf());
        lemma_lookup_wf(entries.drop_first(), name);
    }
}

pub proof fn lemma_effect_alpha_bounds(e: Effect, local: int, span: int, fps: int)
    requires
        0 <= local < span,
    ensures
        0 <= effect_alpha(e, local, span, fps) <= 255,
{
    match e {
        Effect::FadeIn { duration_ms } => {
            let f = frames_at(duration_ms as int, fps);
            if !(f <= 0 || local >= f) {
                crate::rounding::lemma_round_div_le_num(local * 255, f);
                assert(2 * (local * 255) < 511 * f) by (nonlinear_arith)
                    requires
                        0 <= local < f,
                ;
                lemma_round_div_upper(local * 255, f, 256);
                assert(local * 255 >= 0) by (nonlinear_arith)
                    requires
                        local >= 0,
                ;
            }
        },
        Effect::FadeOut { duration_ms } => {
            let f = frames_at(duration_ms as int, fps);
            let remaining = span - local;
            if !(f <= 0 || remaining >= f) {
                assert(2 * (remaining * 255) < 511 * f) by (nonlinear_arith)
                    requires
                        0 <= remaining < f,
                ;
                lemma_round_div_upper(remaining * 255, f, 256);
                assert(remaining * 255 >= 0) by (nonlinear_arith)
                    requires
                        remaining >= 0,
                ;
            }
        },
        Effect::Opacity { percent } => {
            let pc: int = if percent > 100 {
                100
            } else {
                percent as int
            };
            assert(0 <= round_div(pc * 255, 100) <= 255) by (nonlinear_arith)
                requires
                    0 <= pc <= 100,
            ;
        },
    }
}

pub proof fn lemma_effects_alpha_bounds(effects: Seq<Effect>, local: int, span: int, fps: int)
    requires
        0 <= local < span,
    ensures
        0 <= effects_alpha(effects, local, span, fps) <= 255,
    decreases effects.len(),
{
    if effects.len() > 0 {
        lemma_effects_alpha_bounds(effects.drop_last(), local, span, fps);
        lemma_effect_alpha_bounds(effects.last(), local, span, fps);
        crate::frame_buffer::lemma_scale255_bounds(
            effects_alpha(effects.drop_last(), local, span, fps),
            effect_alpha(effects.last(), local, span, fps),
        );
    }
}

/// A `pw × ph` patch wholly filled with `color`: the box-glyph
/// rasterization of a text layer.
fn solid_patch(pw: u32, ph: u32, color: Color) -> (r: PixelPatch)
    requires
        pw * ph <= MAX_PIXELS,
    ensures
        r.wf(),
        r.width == pw,
        r.height == ph,
        r.rgba@ == clear_data(pw as int, ph as int, color),
{
    let n: u64 = (pw as u64) * (ph as u64) * 4;
    let mut rgba: Vec<u8> = Vec::new();
    let mut i: u64 = 0;
    while i < n
        invariant
            n == pw * ph * 4,
            i <= n,
            rgba@.len() == i,
            forall|j: int|
                0 <= j < i ==> rgba@[j] == crate::frame_buffer::channel_of(color, j % 4),
        decreases n - i,
    {
        let rem: u64 = i % 4;
        let b: u8 = if rem == 0 {
            color.r
        } else if rem == 1 {
            color.g
        } else if rem == 2 {
            color.b
        } else {
            color.a
        };
        rgba.push(b);
        i += 1;
    }
    proof {
        assert(rgba@ =~= clear_data(pw as int, ph as int, color));
    }
    PixelPatch { width: pw, height: ph, rgba }
}

/// Milliseconds to frames at `fps`, by the pipeline's rounding rule.
fn ms_to_frames(ms: u32, fps: u32) -> (r: u64)
    requires
        1 <= fps,
    ensures
        r as int == frames_at(ms as int, fps as int),
        r <= 20_000_000_000_000_000,
{
    proof {
        assert(0 <= (ms as int) * (fps as int) <= 4294967295int * 4294967295int)
            by (nonlinear_arith)
            requires
                ms <= 4294967295,
                fps <= 4294967295,
        ;
        lemma_round_div_upper((ms as int) * (fps as int), 1000, 20_000_000_000_000_000int);
    }
    round_mul_div(ms as u64, fps as u64, 1000)
}

/// The alpha multiplier one effect contributes, in exec form.
fn effect_alpha_exec(e: &Effect, local: u64, span: u64, fps: u32) -> (r: u8)
    requires
        local < span,
        span <= MAX_FRAMES,
        1 <= fps,
    ensures
        r as int == effect_alpha(*e, local as int, span as int, fps as int),
{
    match e {
        Effect::FadeIn { duration_ms } => {
            let f = ms_to_frames(*duration_ms, fps);
            if f == 0 || local >= f {
                255
            } else {
                proof {
                    assert(0 <= (local as int) * 255 && 2 * ((local as int) * 255) < 511 * (
                    f as int)) by (nonlinear_arith)
                        requires
                            0 <= local < f,
                    ;
                    lemma_round_div_upper((local as int) * 255, f as int, 256);
                }
                round_mul_div(local, 255, f) as u8
            }
        },
        Effect::FadeOut { duration_ms } => {
            let f = ms_to_frames(*duration_ms, fps);
            let remaining = span - local;
            if f == 0 || remaining >= f {
                255
            } else {
                proof {
                    assert(0 <= (remaining as int) * 255 && 2 * ((remaining as int) * 255)
                        < 511 * (f as int)) by (nonlinear_arith)
                        requires
                            0 <= remaining < f,
                    ;
                    lemma_round_div_upper((remaining as int) * 255, f as int, 256);
                }
                round_mul_div(remaining, 255, f) as u8
            }
        },
        Effect::Opacity { percent } => {
            let pc: u8 = if *percent > 100 {
                100
            } else {
                *percent
            };
            proof {
                assert(0 <= (pc as int) * 255 && 2 * ((pc as int) * 255) < 511 * 100)
                    by (nonlinear_arith)
                    requires
                        pc <= 100,
                ;
                lemma_round_div_upper((pc as int) * 255, 100, 256);
            }
            round_mul_div(pc as u64, 255, 100) as u8
        },
    }
}

/// The combined alpha of a layer's effect list, in exec form.
fn effects_alpha_exec(effects: &Vec<Effect>, local: u64, span: u64, fps: u32) -> (r: u8)
    requires
        local < span,
        span <= MAX_FRAMES,
        1 <= fps,
    ensures
        r as int == effects_alpha(effects@, local as int, span as int, fps as int),
{
    let mut a: u32 = 255;
    let n = effects.len();
    let mut i: usize = 0;
    proof {
        assert(effects@.take(0) =~= Seq::<Effect>::empty());
    }
    while i < n
        invariant
            n == effects@.len(),
            i <= n,
            local < span,
            span <= MAX_FRAMES,
            1 <= fps,
            a as int == effects_alpha(
                effects@.take(i as int),
                local as int,
                span as int,
                fps as int,
            ),
            a <= 255,
        decreases n - i,
    {
        let e = effect_alpha_exec(&effects[i], local, span, fps);
        proof {
            assert(0 <= (a as int) * (e as int) <= 65025) by (nonlinear_arith)
                requires
                    a <= 255,
                    e <= 255,
            ;
            crate::frame_buffer::lemma_scale255_bounds(a as int, e as int);
            assert(effects@.take(i as int + 1).drop_last() =~= effects@.take(i as int));
            assert(effects@.take(i as int + 1).last() == effects@[i as int]);
        }
        a = ((a * (e as u32)) + 127) / 255;
        i += 1;
    }
    proof {
        assert(effects@.take(n as int) =~= effects@);
    }
    a as u8
}

/// Blends one scene's layer stack, bottom-to-top, over the current
/// raster contents; returns the per-layer failures, in layer order.
#[verifier::rlimit(100)]
fn render_scene_layers(
    buffer: &mut FrameBuffer,
    scene: &Scene,
    frame_index: u64,
    scene_index: usize,
    store: &AssetStore,
    fps: u32,
    local: u64,
    span: u64,
) -> (fails: Vec<AssetResolutionError>)
    requires
        old(buffer).wf(),
        store.wf(),
        1 <= fps,
        local < span,
        span <= MAX_FRAMES,
    ensures
        final(buffer).width == old(buffer).width,
        final(buffer).height == old(buffer).height,
        final(buffer).wf(),
        final(buffer).data@ == compose_layers(
            old(buffer).data@,
            old(buffer).width as int,
            scene.layers@,
            *store,
            local as int,
            span as int,
            fps as int,
        ),
        fails@.map_values(|e: AssetResolutionError| failure_model(e)) == scene_failures(
            frame_index as int,
            scene_index as int,
            scene.layers@,
            *store,
            local as int,
            span as int,
            fps as int,
        ),
{
    let ghost orig = buffer.data@;
    let ghost w = buffer.width as int;
    let mut fails: Vec<AssetResolutionError> = Vec::new();
    let n = scene.layers.len();
    let mut i: usize = 0;
    proof {
        assert(scene.layers@.take(0) =~= Seq::<Layer>::empty());
        assert(fails@.map_values(|e: AssetResolutionError| failure_model(e))
            =~= Seq::<FailureModel>::empty());
    }
    while i < n
        invariant
            n == scene.layers@.len(),
            i <= n,
            store.wf(),
            1 <= fps,
            local < span,
            span <= MAX_FRAMES,
            buffer.width == old(buffer).width,
            buffer.height == old(buffer).height,
            w == old(buffer).width as int,
            buffer.wf(),
            orig == old(buffer).data@,
            buffer.data@ == compose_layers(
                orig,
                w,
                scene.layers@.take(i as int),
                *store,
                local as int,
                span as int,
                fps as int,
            ),
            fails@.map_values(|e: AssetResolutionError| failure_model(e)) == scene_failures(
                frame_index as int,
                scene_index as int,
                scene.layers@.take(i as int),
                *store,
                local as int,
                span as int,
                fps as int,
            ),
        decreases n - i,
    {
        let ghost pre = buffer.data@;
        let ghost pre_fails = fails@;
        let layer = &scene.layers[i];
        let mut ok = false;
        match layer {
            Layer::Text { content, font, font_size, color, position, effects } => {
                match store.lookup(font) {
                    Some(a) => match a {
                        Asset::Font(fm) => {
                            proof {
                                lemma_lookup_wf(store.entries@, font@);
                                assert(0 <= (font_size as int) * (fm.glyph_width as int)
                                    <= 4294967295int * 4294967295int) by (nonlinear_arith)
                                    requires
                                        font_size <= 4294967295,
                                        fm.glyph_width <= 4294967295,
                                ;
                            }
                            let g: u64 = ((*font_size as u64) * (fm.glyph_width as u64)) / (
                            fm.glyph_height as u64);
                            let nchars: usize = content.unicode_len();
                            proof {
                                assert(0 <= (nchars as int) * (g as int)
                                    < 340282366920938463463374607431768211455int)
                                    by (nonlinear_arith)
                                    requires
                                        nchars <= 18446744073709551615u64,
                                        g <= 18446744073709551615u64,
                                ;
                            }
                            let pw128: u128 = (nchars as u128) * (g as u128);
                            if pw128 <= 0xffff_ffffu128 {
                                let pwv: u32 = pw128 as u32;
                                proof {
                                    assert(0 <= (pwv as int) * (font_size as int)
                                        <= 4294967295int * 4294967295int) by (nonlinear_arith)
                                        requires
                                            pwv <= 4294967295,
                                            font_size <= 4294967295,
                                    ;
                                }
                                let area: u64 = (pwv as u64) * (*font_size as u64);
                                if area <= MAX_PIXELS {
                                    let patch = solid_patch(pwv, *font_size, *color);
                                    let al = effects_alpha_exec(effects, local, span, fps);
                                    buffer.blend_region(
                                        &patch,
                                        position.x as i64,
                                        position.y as i64,
                                        al,
                                    );
                                    ok = true;
                                }
                            }
                        },
                        _ => {},
                    },
                    None => {},
                }
                if !ok {
                    fails.push(
                        AssetResolutionError {
                            frame_index,
                            scene_index,
                            layer_index: i,
                            source: font.clone(),
                        },
                    );
                }
            },
            Layer::Image { source, position, transform, effects } => {
                match store.lookup(source) {
                    Some(a) => match a {
                        Asset::Image(p) => {
                            proof {
                                lemma_lookup_wf(store.entries@, source@);
                            }
                            let al = effects_alpha_exec(effects, local, span, fps);
                            buffer.blend_region(
                                p,
                                (position.x as i64) + (transform.dx as i64),
                                (position.y as i64) + (transform.dy as i64),
                                al,
                            );
                            ok = true;
                        },
                        _ => {},
                    },
                    None => {},
                }
                if !ok {
                    fails.push(
                        AssetResolutionError {
                            frame_index,
                            scene_index,
                            layer_index: i,
                            source: source.clone(),
                        },
                    );
                }
            },
            Layer::Video { source, position, playback_offset_ms, effects } => {
                match store.lookup(source) {
                    Some(a) => match a {
                        Asset::Video(v) => {
                            proof {
                                lemma_lookup_wf(store.entries@, source@);
                            }
                            let off = ms_to_frames(*playback_offset_ms, fps);
                            let nf: u64 = v.frames.len() as u64;
                            let fi: u64 = (off + local) % nf;
                            let p = &v.frames[fi as usize];
                            let al = effects_alpha_exec(effects, local, span, fps);
                            buffer.blend_region(p, position.x as i64, position.y as i64, al);
                            ok = true;
                        },
                        _ => {},
                    },
                    None => {},
                }
                if !ok {
                    fails.push(
                        AssetResolutionError {
                            frame_index,
                            scene_index,
                            layer_index: i,
                            source: source.clone(),
                        },
                    );
                }
            },
        }
        proof {
            assert(scene.layers@.take(i as int + 1).drop_last() =~= scene.layers@.take(
                i as int,
            ));
            assert(scene.layers@.take(i as int + 1).last() == scene.layers@[i as int]);
            if !ok {
                assert(fails@ == pre_fails.push(fails@.last()));
                assert(fails@.map_values(|e: AssetResolutionError| failure_model(e))
                    =~= pre_fails.map_values(|e: AssetResolutionError| failure_model(e)).push(
                    failure_model(fails@.last()),
                ));
            } else {
                assert(fails@.map_values(|e: AssetResolutionError| failure_model(e))
                    == pre_fails.map_values(|e: AssetResolutionError| failure_model(e)));
            }
        }
        i += 1;
    }
    proof {
        assert(scene.layers@.take(n as int) =~= scene.layers@);
    }
    fails
}

/// The per-frame compositor. It carries no state of its own: each
/// frame is a pure function of the frame context, the script and the
/// decoded assets.
pub struct Compositor;

impl Compositor {
    /// Composites one frame into `buffer`: clears it to the
    /// background, paints the owning scene's layers bottom-to-top,
    /// and — inside a transition window — blends the incoming scene
    /// over the result at the window's factor. Unresolvable layers
    /// are skipped and returned as per-layer failures; the frame
    /// itself always renders.
    #[verifier::rlimit(100)]
    pub fn compose(
        buffer: &mut FrameBuffer,
        ctx: &FrameContext,
        script: &VideoScript,
        store: &AssetStore,
    ) -> (fails: Vec<AssetResolutionError>)
        requires
            old(buffer).wf(),
            store.wf(),
            ctx_valid(*ctx, script.scenes@.len() as int),
            1 <= script.metadata.fps,
            ctx.scene_frames <= MAX_FRAMES,
            ctx.transition matches Some(tw) ==> tw.len <= MAX_FRAMES,
        ensures
            final(buffer).width == old(buffer).width,
            final(buffer).height == old(buffer).height,
            final(buffer).wf(),
            final(buffer).data@ == spec_compose(
                old(buffer).width as int,
                old(buffer).height as int,
                *ctx,
                script.scenes@,
                *store,
                script.metadata.fps as int,
            ),
            fails@.map_values(|e: AssetResolutionError| failure_model(e)) == frame_failures(
                *ctx,
                script.scenes@,
                *store,
                script.metadata.fps as int,
            ),
    {
        buffer.clear(Color { r: 0, g: 0, b: 0, a: 255 });
        let scene = &script.scenes[ctx.scene_index];
        let mut fails = render_scene_layers(
            buffer,
            scene,
            ctx.frame_index,
            ctx.scene_index,
            store,
            script.metadata.fps,
            ctx.local_frame,
            ctx.scene_frames,
        );
        match ctx.transition {
            None => {},
            Some(tw) => {
                let mut temp = FrameBuffer::make(buffer.width, buffer.height);
                let scene_in = &script.scenes[tw.to_scene];
                let mut fails_in = render_scene_layers(
                    &mut temp,
                    scene_in,
                    ctx.frame_index,
                    tw.to_scene,
                    store,
                    script.metadata.fps,
                    tw.pos,
                    tw.len,
                );
                let patch = temp.to_patch();
                proof {
                    assert(0 <= (tw.pos as int) * 255 && 2 * ((tw.pos as int) * 255) < 511 * (
                    tw.len as int)) by (nonlinear_arith)
                        requires
                            0 <= tw.pos < tw.len,
                    ;
                    lemma_round_div_upper((tw.pos as int) * 255, tw.len as int, 256);
                }
                let ga = round_mul_div(tw.pos, 255, tw.len) as u8;
                buffer.blend_region(&patch, 0, 0, ga);
                fails.append(&mut fails_in);
                proof {
                    assert(fails@.map_values(|e: AssetResolutionError| failure_model(e))
                        =~= frame_failures(
                        *ctx,
                        script.scenes@,
                        *store,
                        script.metadata.fps as int,
                    ));
                }
            },
        }
        fails
    }
}

} // verus!
