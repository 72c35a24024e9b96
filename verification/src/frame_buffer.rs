//! The raster target: a fixed-size RGBA pixel grid with blit/blend
//! primitives and PPM serialization.
//!
//! Blending is standard source-over, `out = src·srcA + dst·(1−srcA)`
//! per channel, evaluated in integer working precision wider than the
//! stored 8-bit channels and rounded half up once per channel, so that
//! no rounding bias accumulates across layers and every frame is
//! reproducible bit for bit.

use vstd::prelude::*;
use vstd::pervasive::VecAdditionalExecFns;

use crate::digits::dec_rep;
use crate::error::{ConfigFault, RenderError};
use crate::script::Color;

verus! {

/// The largest raster (and patch) area, in pixels, the pipeline
/// accepts: keeps every byte index comfortably inside `usize`.
pub const MAX_PIXELS: u64 = 268_435_456;

/// `a` scaled by `b / 255`, rounded half up: the 8-bit fixed-point
/// product of two channel values.
pub open spec fn scale255(a: int, b: int) -> int {
    (a * b + 127) / 255
}

/// One color channel of source-over blending: source channel `s` with
/// effective alpha `ea` over destination channel `d`.
pub open spec fn over_channel(s: int, d: int, ea: int) -> int {
    (s * ea + d * (255 - ea) + 127) / 255
}

/// The alpha channel of source-over blending: effective source alpha
/// `ea` over destination alpha `da`.
pub open spec fn over_alpha(ea: int, da: int) -> int {
    ea + scale255(da, 255 - ea)
}

pub proof fn lemma_scale255_bounds(a: int, b: int)
    requires
        0 <= a <= 255,
        0 <= b <= 255,
    ensures
        0 <= scale255(a, b) <= 255,
        b == 255 ==> scale255(a, b) == a,
{
    assert(0 <= (a * b + 127) / 255 <= 255) by (nonlinear_arith)
        requires 0 <= a <= 255 && 0 <= b <= 255;
    if b == 255 {
        assert((a * 255 + 127) / 255 == a) by (nonlinear_arith)
            requires 0 <= a <= 255;
    }
}

pub proof fn lemma_over_channel_bounds(s: int, d: int, ea: int)
    requires
        0 <= s <= 255,
        0 <= d <= 255,
        0 <= ea <= 255,
    ensures
        0 <= over_channel(s, d, ea) <= 255,
{
    assert(0 <= (s * ea + d * (255 - ea) + 127) / 255 <= 255) by (nonlinear_arith)
        requires 0 <= s <= 255 && 0 <= d <= 255 && 0 <= ea <= 255;
}

pub proof fn lemma_over_alpha_bounds(ea: int, da: int)
    requires
        0 <= ea <= 255,
        0 <= da <= 255,
    ensures
        0 <= over_alpha(ea, da) <= 255,
{
    assert(0 <= (da * (255 - ea) + 127) / 255 <= 255 - ea) by (nonlinear_arith)
        requires 0 <= ea <= 255 && 0 <= da <= 255;
}

/// The channel of `c` selected by `k`: red, green, blue, alpha in the
/// storage order of the raster.
pub open spec fn channel_of(c: Color, k: int) -> u8 {
    if k == 0 {
        c.r
    } else if k == 1 {
        c.g
    } else if k == 2 {
        c.b
    } else {
        c.a
    }
}

/// The contents of a `width × height` raster wholly filled with `c`.
pub open spec fn clear_data(width: int, height: int, c: Color) -> Seq<u8> {
    Seq::new((width * height * 4) as nat, |i: int| channel_of(c, i % 4))
}

/// The byte at `idx` after blending `patch` (size `pw × ph`, placed at
/// `(px, py)`, global alpha `ga`) over the raster `dst` of width `w`.
/// Raster pixels the patch does not cover — including every pixel when
/// the patch lies partly or wholly off the raster — keep their bytes.
pub open spec fn blend_byte(
    dst: Seq<u8>,
    w: int,
    patch: Seq<u8>,
    pw: int,
    ph: int,
    px: int,
    py: int,
    ga: int,
    idx: int,
) -> u8 {
    let p = idx / 4;
    let c = idx % 4;
    let x = p % w;
    let y = p / w;
    if px <= x < px + pw && py <= y < py + ph {
        let sbase = 4 * ((y - py) * pw + (x - px));
        let ea = scale255(patch[sbase + 3] as int, ga);
        if c == 3 {
            over_alpha(ea, dst[idx] as int) as u8
        } else {
            over_channel(patch[sbase + c] as int, dst[idx] as int, ea) as u8
        }
    } else {
        dst[idx]
    }
}

/// The whole raster after one blend: `blend_byte` at every index.
pub open spec fn blend_data(
    dst: Seq<u8>,
    w: int,
    patch: Seq<u8>,
    pw: int,
    ph: int,
    px: int,
    py: int,
    ga: int,
) -> Seq<u8> {
    Seq::new(dst.len(), |idx: int| blend_byte(dst, w, patch, pw, ph, px, py, ga, idx))
}

/// Which byte indices a row-by-row blend sweep has already rewritten,
/// once it stands at patch row `sy`, column `sx`: the raster pixels the
/// patch covers whose patch-local coordinates come strictly before
/// `(sy, sx)` in row-major order.
pub open spec fn blend_processed(
    w: int,
    pw: int,
    ph: int,
    px: int,
    py: int,
    sy: int,
    sx: int,
    idx: int,
) -> bool {
    let p = idx / 4;
    let x = p % w;
    let y = p / w;
    &&& px <= x < px + pw
    &&& py <= y < py + ph
    &&& (y - py < sy || (y - py == sy && x - px < sx))
}

/// A byte index of a `w × h` RGBA raster decomposes into a pixel
/// (row-major) and a channel.
proof fn lemma_idx_decompose(w: int, h: int, idx: int)
    requires
        1 <= w,
        0 <= idx < w * h * 4,
    ensures
        0 <= idx / 4 < w * h,
        0 <= idx % 4 < 4,
        idx == 4 * (idx / 4) + idx % 4,
        0 <= (idx / 4) % w < w,
        0 <= (idx / 4) / w < h,
        idx / 4 == ((idx / 4) / w) * w + (idx / 4) % w,
{
    vstd::arithmetic::div_mod::lemma_fundamental_div_mod(idx, 4);
    vstd::arithmetic::div_mod::lemma_mod_division_less_than_divisor(idx, 4);
    let p = idx / 4;
    vstd::arithmetic::div_mod::lemma_fundamental_div_mod(p, w);
    vstd::arithmetic::div_mod::lemma_mod_division_less_than_divisor(p, w);
    assert(0 <= p / w < h) by (nonlinear_arith)
        requires
            w >= 1,
            w * (p / w) + p % w == p,
            0 <= p % w < w,
            0 <= p < w * h,
    ;
}

/// The byte index of channel `c` of raster pixel `(x, y)`.
proof fn lemma_idx_compose(w: int, h: int, x: int, y: int, c: int)
    requires
        1 <= w,
        0 <= x < w,
        0 <= y < h,
        0 <= c < 4,
    ensures
        0 <= 4 * (y * w + x) + c < w * h * 4,
        (4 * (y * w + x) + c) / 4 == y * w + x,
        (4 * (y * w + x) + c) % 4 == c,
        (y * w + x) / w == y,
        (y * w + x) % w == x,
{
    let pp = y * w + x;
    assert(0 <= y * w + x <= w * h - 1) by (nonlinear_arith)
        requires
            0 <= x < w,
            0 <= y < h,
            1 <= w,
    ;
    assert(4 * pp + c < w * h * 4);
    vstd::arithmetic::div_mod::lemma_fundamental_div_mod_converse(4 * pp + c, 4, pp, c);
    vstd::arithmetic::div_mod::lemma_fundamental_div_mod_converse(pp, w, y, x);
}

/// `scale255` on channel bytes, in exec form.
fn scale_u8(a: u8, b: u8) -> (r: u32)
    ensures
        r == scale255(a as int, b as int),
        r <= 255,
{
    proof {
        assert(0 <= (a as int) * (b as int) <= 65025) by (nonlinear_arith)
            requires
                a <= 255,
                b <= 255,
        ;
        lemma_scale255_bounds(a as int, b as int);
    }
    ((a as u32) * (b as u32) + 127) / 255
}

/// One color channel of source-over blending, in exec form.
fn over_channel_u8(src: u8, dst: u8, ea: u32) -> (r: u8)
    requires
        ea <= 255,
    ensures
        r as int == over_channel(src as int, dst as int, ea as int),
{
    proof {
        assert(0 <= (src as int) * (ea as int) <= 65025 && 0 <= (dst as int) * (255 - ea as int)
            <= 65025) by (nonlinear_arith)
            requires
                src <= 255,
                dst <= 255,
                0 <= ea <= 255,
        ;
        lemma_over_channel_bounds(src as int, dst as int, ea as int);
    }
    (((src as u32) * ea + (dst as u32) * (255 - ea) + 127) / 255) as u8
}

/// The alpha channel of source-over blending, in exec form.
fn over_alpha_u8(ea: u32, da: u8) -> (r: u8)
    requires
        ea <= 255,
    ensures
        r as int == over_alpha(ea as int, da as int),
{
    proof {
        assert(0 <= (da as int) * (255 - ea as int) <= 65025) by (nonlinear_arith)
            requires
                da <= 255,
                0 <= ea <= 255,
        ;
        lemma_over_alpha_bounds(ea as int, da as int);
    }
    (ea + ((da as u32) * (255 - ea) + 127) / 255) as u8
}

/// The header of a binary PPM (`P6`) image: `P6`, newline, width,
/// space, height, newline, `255`, newline, all ASCII.
pub open spec fn ppm_header(w: int, h: int) -> Seq<u8> {
    seq![80u8, 54u8, 10u8] + dec_rep(w) + seq![32u8] + dec_rep(h) + seq![
        10u8,
        50u8,
        53u8,
        53u8,
        10u8,
    ]
}

/// The RGB bytes of an RGBA raster: alpha dropped, order kept.
pub open spec fn rgb_of(data: Seq<u8>) -> Seq<u8> {
    Seq::new((data.len() / 4 * 3) as nat, |i: int| data[(i / 3) * 4 + i % 3])
}

/// A whole binary PPM file: header, then tightly packed RGB triplets.
pub open spec fn ppm_bytes(w: int, h: int, data: Seq<u8>) -> Seq<u8> {
    ppm_header(w, h) + rgb_of(data)
}

/// A rectangle of decoded RGBA pixels, tightly packed row-major:
/// the form in which every layer's visual contribution reaches the
/// blending primitives.
#[derive(Debug, Clone)]
pub struct PixelPatch {
    pub width: u32,
    pub height: u32,
    pub rgba: Vec<u8>,
}

impl PixelPatch {
    /// Tightly packed, four bytes per pixel, within the area cap.
    pub open spec fn wf(self) -> bool {
        &&& self.rgba@.len() == self.width * self.height * 4
        &&& self.width * self.height <= MAX_PIXELS
    }

    /// Wraps raw RGBA bytes as a patch, or nothing if the byte count
    /// does not match the dimensions or the area exceeds the cap.
    pub fn new(width: u32, height: u32, rgba: Vec<u8>) -> (r: Option<PixelPatch>)
        ensures
            r matches Some(p) ==> p.wf() && p.width == width && p.height == height
                && p.rgba@ == rgba@,
            r is Some <==> rgba@.len() == width * height * 4 && width * height
                <= MAX_PIXELS,
    {
        proof {
            assert((width as int) * (height as int) < 18446744073709551616int)
                by (nonlinear_arith)
                requires
                    width <= 4294967295,
                    height <= 4294967295,
            ;
        }
        let area: u64 = (width as u64) * (height as u64);
        if area > MAX_PIXELS {
            return None;
        }
        let need: u64 = area * 4;
        if (rgba.len() as u64) != need {
            return None;
        }
        Some(PixelPatch { width, height, rgba })
    }
}

/// One fixed-size raster target. Width and height are set at
/// construction and never change; `data` holds `width × height` RGBA
/// pixels, row-major, four bytes each.
#[derive(Debug, Clone)]
pub struct FrameBuffer {
    pub width: u32,
    pub height: u32,
    pub data: Vec<u8>,
}

impl FrameBuffer {
    pub open spec fn wf(self) -> bool {
        &&& self.data@.len() == self.width * self.height * 4
        &&& self.width * self.height <= MAX_PIXELS
    }

    /// A raster of the given size with every pixel fully transparent
    /// black. Sizes over [`MAX_PIXELS`] are refused as configuration
    /// errors.
    pub fn new(width: u32, height: u32) -> (r: Result<FrameBuffer, RenderError>)
        ensures
            r is Ok <==> width * height <= MAX_PIXELS,
            r matches Ok(fb) ==> fb.wf() && fb.width == width && fb.height == height
                && fb.data@ == clear_data(
                width as int,
                height as int,
                Color { r: 0, g: 0, b: 0, a: 0 },
            ),
            r matches Err(e) ==> e == RenderError::Config(ConfigFault::ResolutionTooLarge),
    {
        proof {
            assert((width as int) * (height as int) < 18446744073709551616int)
                by (nonlinear_arith)
                requires
                    width <= 4294967295,
                    height <= 4294967295,
            ;
        }
        let area: u64 = (width as u64) * (height as u64);
        if area > MAX_PIXELS {
            return Err(RenderError::Config(ConfigFault::ResolutionTooLarge));
        }
        Ok(Self::make(width, height))
    }

    /// A raster of a size already known to be inside the cap, every
    /// pixel fully transparent black.
    pub fn make(width: u32, height: u32) -> (fb: FrameBuffer)
        requires
            width * height <= MAX_PIXELS,
        ensures
            fb.wf(),
            fb.width == width,
            fb.height == height,
            fb.data@ == clear_data(width as int, height as int, Color { r: 0, g: 0, b: 0, a: 0 }),
    {
        let mut fb = FrameBuffer { width, height, data: Vec::new() };
        fb.fill(Color { r: 0, g: 0, b: 0, a: 0 });
        fb
    }

    /// Replaces the whole contents with `color` (all pixels alike).
    fn fill(&mut self, color: Color)
        requires
            old(self).width * old(self).height <= MAX_PIXELS,
        ensures
            final(self).width == old(self).width,
            final(self).height == old(self).height,
            final(self).wf(),
            final(self).data@ == clear_data(
                old(self).width as int,
                old(self).height as int,
                color,
            ),
    {
        let n: u64 = (self.width as u64) * (self.height as u64) * 4;
        let mut data: Vec<u8> = Vec::new();
        let mut i: u64 = 0;
        while i < n
            invariant
                n == self.width * self.height * 4,
                n <= MAX_PIXELS * 4,
                i <= n,
                data@.len() == i,
                forall|j: int| 0 <= j < i ==> data@[j] == channel_of(color, j % 4),
            decreases n - i,
        {
            let rem: u64 = i % 4;
            let b: u8 = if rem == 0 {
                color.r
            } else if rem == 1 {
                color.g
            } else if rem == 2 {
                color.b
            } else {
                color.a
            };
            data.push(b);
            i += 1;
        }
        self.data = data;
        proof {
            assert(self.data@ =~= clear_data(self.width as int, self.height as int, color));
        }
    }

    /// Alpha-composites `patch` over the raster: the patch's top-left
    /// corner lands at `(px, py)`, every source alpha is scaled by the
    /// global alpha `ga`, and each covered raster pixel receives
    /// source-over blending; pixels the patch does not cover keep their
    /// bytes, and a patch reaching past any edge is clipped.
    #[verifier::rlimit(100)]
    pub fn blend_region(&mut self, patch: &PixelPatch, px: i64, py: i64, ga: u8)
        requires
            old(self).wf(),
            patch.wf(),
            -4_294_967_296 <= px <= 4_294_967_296,
            -4_294_967_296 <= py <= 4_294_967_296,
        ensures
            final(self).width == old(self).width,
            final(self).height == old(self).height,
            final(self).wf(),
            final(self).data@ == blend_data(
                old(self).data@,
                old(self).width as int,
                patch.rgba@,
                patch.width as int,
                patch.height as int,
                px as int,
                py as int,
                ga as int,
            ),
    {
        let w = self.width;
        let h = self.height;
        let pw = patch.width;
        let ph = patch.height;
        let ghost orig = self.data@;
        let mut sy: u32 = 0;
        while sy < ph
            invariant
                self.width == w && self.height == h,
                w == old(self).width && h == old(self).height,
                pw == patch.width && ph == patch.height,
                old(self).wf(),
                patch.wf(),
                -4_294_967_296 <= px <= 4_294_967_296,
                -4_294_967_296 <= py <= 4_294_967_296,
                orig == old(self).data@,
                sy <= ph,
                self.data@.len() == orig.len(),
                forall|idx: int|
                    0 <= idx < orig.len() ==> #[trigger] self.data@[idx] == (
                    if blend_processed(
                        w as int,
                        pw as int,
                        ph as int,
                        px as int,
                        py as int,
                        sy as int,
                        0,
                        idx,
                    ) {
                        blend_byte(
                            orig,
                            w as int,
                            patch.rgba@,
                            pw as int,
                            ph as int,
                            px as int,
                            py as int,
                            ga as int,
                            idx,
                        )
                    } else {
                        orig[idx]
                    }),
            decreases ph - sy,
        {
            let mut sx: u32 = 0;
            while sx < pw
                invariant
                    self.width == w && self.height == h,
                    w == old(self).width && h == old(self).height,
                    pw == patch.width && ph == patch.height,
                    old(self).wf(),
                    patch.wf(),
                    -4_294_967_296 <= px <= 4_294_967_296,
                    -4_294_967_296 <= py <= 4_294_967_296,
                    orig == old(self).data@,
                    sy < ph,
                    sx <= pw,
                    self.data@.len() == orig.len(),
                    forall|idx: int|
                        0 <= idx < orig.len() ==> #[trigger] self.data@[idx] == (
                        if blend_processed(
                            w as int,
                            pw as int,
                            ph as int,
                            px as int,
                            py as int,
                            sy as int,
                            sx as int,
                            idx,
                        ) {
                            blend_byte(
                                orig,
                                w as int,
                                patch.rgba@,
                                pw as int,
                                ph as int,
                                px as int,
                                py as int,
                                ga as int,
                                idx,
                            )
                        } else {
                            orig[idx]
                        }),
                decreases pw - sx,
            {
                let ghost pre = self.data@;
                let dx: i64 = px + (sx as i64);
                let dy: i64 = py + (sy as i64);
                if 0 <= dx && dx < (w as i64) && 0 <= dy && dy < (h as i64) {
                    proof {
                        assert((dy as int) * (w as int) + (dx as int) < (w as int) * (
                        h as int)) by (nonlinear_arith)
                            requires
                                0 <= dx < w,
                                0 <= dy < h,
                        ;
                        assert((sy as int) * (pw as int) + (sx as int) < (pw as int) * (
                        ph as int)) by (nonlinear_arith)
                            requires
                                0 <= sx < pw,
                                0 <= sy < ph,
                        ;
                        lemma_idx_compose(w as int, h as int, dx as int, dy as int, 0);
                        lemma_idx_compose(w as int, h as int, dx as int, dy as int, 1);
                        lemma_idx_compose(w as int, h as int, dx as int, dy as int, 2);
                        lemma_idx_compose(w as int, h as int, dx as int, dy as int, 3);
                        lemma_idx_compose(pw as int, ph as int, sx as int, sy as int, 0);
                        lemma_idx_compose(pw as int, ph as int, sx as int, sy as int, 1);
                        lemma_idx_compose(pw as int, ph as int, sx as int, sy as int, 2);
                        lemma_idx_compose(pw as int, ph as int, sx as int, sy as int, 3);
                    }
                    let dpix: u64 = (dy as u64) * (w as u64) + (dx as u64);
                    let di: usize = (dpix * 4) as usize;
                    let spix: u64 = (sy as u64) * (pw as u64) + (sx as u64);
                    let si: usize = (spix * 4) as usize;
                    let sa = patch.rgba[si + 3];
                    let ea: u32 = scale_u8(sa, ga);
                    let s0 = patch.rgba[si];
                    let s1 = patch.rgba[si + 1];
                    let s2 = patch.rgba[si + 2];
                    let d0 = self.data[di];
                    let d1 = self.data[di + 1];
                    let d2 = self.data[di + 2];
                    let da = self.data[di + 3];
                    let v0 = over_channel_u8(s0, d0, ea);
                    let v1 = over_channel_u8(s1, d1, ea);
                    let v2 = over_channel_u8(s2, d2, ea);
                    let va = over_alpha_u8(ea, da);
                    self.data.set(di, v0);
                    self.data.set(di + 1, v1);
                    self.data.set(di + 2, v2);
                    self.data.set(di + 3, va);
                    proof {
                        let wi = w as int;
                        let hi = h as int;
                        let pwi = pw as int;
                        let phi = ph as int;
                        let pxi = px as int;
                        let pyi = py as int;
                        let gai = ga as int;
                        let dpixi = (dy as int) * wi + (dx as int);
                        let dii = 4 * dpixi;
                        assert forall|idx: int| 0 <= idx < orig.len() implies self.data@[idx]
                            == (if blend_processed(
                            wi,
                            pwi,
                            phi,
                            pxi,
                            pyi,
                            sy as int,
                            sx as int + 1,
                            idx,
                        ) {
                            blend_byte(orig, wi, patch.rgba@, pwi, phi, pxi, pyi, gai, idx)
                        } else {
                            orig[idx]
                        }) by {
                            lemma_idx_decompose(wi, hi, idx);
                            let p = idx / 4;
                            let c = idx % 4;
                            let x = p % wi;
                            let y = p / wi;
                            if dii <= idx < dii + 4 {
                                assert(p == dpixi);
                                assert(x == dx as int && y == dy as int);
                                assert(!blend_processed(
                                    wi,
                                    pwi,
                                    phi,
                                    pxi,
                                    pyi,
                                    sy as int,
                                    sx as int,
                                    idx,
                                ));
                                assert(pre[idx] == orig[idx]);
                            } else {
                                assert(self.data@[idx] == pre[idx]);
                                if blend_processed(
                                    wi,
                                    pwi,
                                    phi,
                                    pxi,
                                    pyi,
                                    sy as int,
                                    sx as int + 1,
                                    idx,
                                ) != blend_processed(
                                    wi,
                                    pwi,
                                    phi,
                                    pxi,
                                    pyi,
                                    sy as int,
                                    sx as int,
                                    idx,
                                ) {
                                    assert(y - pyi == sy as int && x - pxi == sx as int);
                                    assert(p == dpixi);
                                    assert(false);
                                }
                            }
                        };
                    }
                } else {
                    proof {
                        let wi = w as int;
                        let hi = h as int;
                        let pwi = pw as int;
                        let phi = ph as int;
                        let pxi = px as int;
                        let pyi = py as int;
                        let gai = ga as int;
                        assert forall|idx: int| 0 <= idx < orig.len() implies self.data@[idx]
                            == (if blend_processed(
                            wi,
                            pwi,
                            phi,
                            pxi,
                            pyi,
                            sy as int,
                            sx as int + 1,
                            idx,
                        ) {
                            blend_byte(orig, wi, patch.rgba@, pwi, phi, pxi, pyi, gai, idx)
                        } else {
                            orig[idx]
                        }) by {
                            lemma_idx_decompose(wi, hi, idx);
                        };
                    }
                }
                sx += 1;
            }
            proof {
                let wi = w as int;
                let hi = h as int;
                let pwi = pw as int;
                let phi = ph as int;
                let pxi = px as int;
                let pyi = py as int;
                let gai = ga as int;
                assert forall|idx: int| 0 <= idx < orig.len() implies self.data@[idx] == (
                if blend_processed(wi, pwi, phi, pxi, pyi, sy as int + 1, 0, idx) {
                    blend_byte(orig, wi, patch.rgba@, pwi, phi, pxi, pyi, gai, idx)
                } else {
                    orig[idx]
                }) by {
                    lemma_idx_decompose(wi, hi, idx);
                };
            }
            sy += 1;
        }
        proof {
            let wi = w as int;
            let hi = h as int;
            let bd = blend_data(
                orig,
                wi,
                patch.rgba@,
                pw as int,
                ph as int,
                px as int,
                py as int,
                ga as int,
            );
            assert forall|idx: int| 0 <= idx < orig.len() implies self.data@[idx] == bd[idx] by {
                lemma_idx_decompose(wi, hi, idx);
            };
            assert(self.data@ =~= bd);
        }
    }

    /// Clears the raster to `color`: afterwards every pixel holds
    /// exactly that color.
    pub fn clear(&mut self, color: Color)
        requires
            old(self).wf(),
        ensures
            final(self).width == old(self).width,
            final(self).height == old(self).height,
            final(self).wf(),
            final(self).data@ == clear_data(
                old(self).width as int,
                old(self).height as int,
                color,
            ),
    {
        self.fill(color);
    }

    /// A copy of the raster as a patch: how the incoming scene of a
    /// transition, composited into its own buffer, is blended whole
    /// over the outgoing scene.
    pub fn to_patch(&self) -> (r: PixelPatch)
        requires
            self.wf(),
        ensures
            r.wf(),
            r.width == self.width,
            r.height == self.height,
            r.rgba@ == self.data@,
    {
        let mut rgba: Vec<u8> = Vec::new();
        let n = self.data.len();
        let mut i: usize = 0;
        while i < n
            invariant
                n == self.data@.len(),
                i <= n,
                rgba@ == self.data@.subrange(0, i as int),
            decreases n - i,
        {
            rgba.push(self.data[i]);
            proof {
                assert(rgba@ =~= self.data@.subrange(0, i as int + 1));
            }
            i += 1;
        }
        proof {
            assert(rgba@ =~= self.data@);
        }
        PixelPatch { width: self.width, height: self.height, rgba }
    }

    /// Serializes the raster as a binary PPM image: `P6`, the
    /// dimensions, `255`, then one RGB triplet per pixel in row-major
    /// order, alpha dropped. Identical contents give identical bytes.
    pub fn serialize_ppm(&self) -> (r: Vec<u8>)
        requires
            self.wf(),
        ensures
            r@ == ppm_bytes(self.width as int, self.height as int, self.data@),
    {
        let mut out: Vec<u8> = Vec::new();
        out.push(80);
        out.push(54);
        out.push(10);
        let mut wd = crate::digits::u64_to_dec(self.width as u64);
        out.append(&mut wd);
        out.push(32);
        let mut hd = crate::digits::u64_to_dec(self.height as u64);
        out.append(&mut hd);
        out.push(10);
        out.push(50);
        out.push(53);
        out.push(53);
        out.push(10);
        let ghost hdr = ppm_header(self.width as int, self.height as int);
        proof {
            assert(out@ =~= hdr);
        }
        let area: u64 = (self.width as u64) * (self.height as u64);
        let mut p: u64 = 0;
        while p < area
            invariant
                self.wf(),
                area == self.width * self.height,
                p <= area,
                hdr == ppm_header(self.width as int, self.height as int),
                out@ == hdr + Seq::new(
                    (3 * p) as nat,
                    |i: int| self.data@[(i / 3) * 4 + i % 3],
                ),
            decreases area - p,
        {
            proof {
                let gp = p as int;
                vstd::arithmetic::div_mod::lemma_fundamental_div_mod_converse(
                    3 * gp,
                    3,
                    gp,
                    0,
                );
                vstd::arithmetic::div_mod::lemma_fundamental_div_mod_converse(
                    3 * gp + 1,
                    3,
                    gp,
                    1,
                );
                vstd::arithmetic::div_mod::lemma_fundamental_div_mod_converse(
                    3 * gp + 2,
                    3,
                    gp,
                    2,
                );
            }
            let base: usize = (p * 4) as usize;
            let b0 = self.data[base];
            let b1 = self.data[base + 1];
            let b2 = self.data[base + 2];
            out.push(b0);
            out.push(b1);
            out.push(b2);
            proof {
                assert(out@ =~= hdr + Seq::new(
                    (3 * (p as int + 1)) as nat,
                    |i: int| self.data@[(i / 3) * 4 + i % 3],
                ));
            }
            p += 1;
        }
        proof {
            vstd::arithmetic::div_mod::lemma_fundamental_div_mod_converse(
                self.data@.len() as int,
                4,
                area as int,
                0,
            );
            assert(rgb_of(self.data@) =~= Seq::new(
                (3 * (area as int)) as nat,
                |i: int| self.data@[(i / 3) * 4 + i % 3],
            ));
            assert(out@ =~= ppm_bytes(self.width as int, self.height as int, self.data@));
        }
        out
    }
}

} // verus!
