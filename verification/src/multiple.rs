//! Two-image operations: blend modes, alpha compositing, watermark
//! placement, and background replacement.

use vstd::prelude::*;
use vstd::arithmetic::div_mod::lemma_fundamental_div_mod;
use vstd::arithmetic::div_mod::lemma_fundamental_div_mod_converse;
use crate::PhotonError;
use crate::PhotonImage;
use crate::Rgb;
use crate::lemma_row_major;
use crate::colour_spaces::round_div;
use crate::transform::clamp_u8;
use crate::transform::lemma_buf_multiple_of_four;

verus! {

/// The supported blend modes, each a per-channel formula on the base
/// and overlay colour channels.
#[derive(Clone, Copy, Debug, PartialEq, Eq, Structural)]
pub enum BlendMode {
    Overlay,
    Multiply,
    Screen,
    Darken,
    Lighten,
    Dodge,
    Burn,
    Difference,
    Exclusion,
    SoftLight,
}

/// Source-over combination of a base and an overlay alpha byte.
pub open spec fn alpha_over(ab: u8, ao: u8) -> u8 {
    clamp_u8(ao + round_div(ab * (255 - ao), 255))
}

/// One blend mode applied to a base channel `a` and an overlay channel
/// `b`, on bytes; the standard formulae on `[0, 1]` scaled by 255 and
/// rounded to nearest (soft light uses the quadratic pegtop form).
pub open spec fn blend_ch(mode: BlendMode, a: u8, b: u8) -> u8 {
    match mode {
        BlendMode::Multiply => clamp_u8(round_div(a * b, 255)),
        BlendMode::Screen => clamp_u8(255 - round_div((255 - a) * (255 - b), 255)),
        BlendMode::Darken => if a <= b {
            a
        } else {
            b
        },
        BlendMode::Lighten => if a >= b {
            a
        } else {
            b
        },
        BlendMode::Overlay => if a < 128 {
            clamp_u8(round_div(2 * a * b, 255))
        } else {
            clamp_u8(255 - round_div(2 * (255 - a) * (255 - b), 255))
        },
        BlendMode::Dodge => if b == 255 {
            255u8
        } else {
            clamp_u8((a * 255) / (255 - b as int))
        },
        BlendMode::Burn => if b == 0 {
            0u8
        } else {
            clamp_u8(255 - ((255 - a) * 255) / (b as int))
        },
        BlendMode::Difference => if a >= b {
            (a - b) as u8
        } else {
            (b - a) as u8
        },
        BlendMode::Exclusion => clamp_u8(a + b - round_div(2 * a * b, 255)),
        BlendMode::SoftLight => clamp_u8(
            round_div(255 * (a * a) + 2 * (a * b) * (255 - a), 65025int),
        ),
    }
}

/// The blended buffer: colour bytes by the mode's channel formula,
/// alpha bytes by source-over.
pub open spec fn blend_spec(sb: Seq<u8>, so: Seq<u8>, mode: BlendMode) -> Seq<u8> {
    Seq::new(
        sb.len(),
        |i: int|
            if i % 4 == 3 {
                alpha_over(sb[i], so[i])
            } else {
                blend_ch(mode, sb[i], so[i])
            },
    )
}

/// Multiply two bounded values; the caps keep the product inside
/// `u64` and give callers a usable bound.
fn mulb(x: u64, cx: u64, y: u64, cy: u64) -> (r: u64)
    requires
        x <= cx,
        y <= cy,
        cx <= 0xffff_ffff,
        cy <= 0xffff_ffff,
    ensures
        r as int == (x as int) * (y as int),
        r as int <= (cx as int) * (cy as int),
{
    proof {
        assert((x as int) * (y as int) <= (cx as int) * (cy as int) && 0 <= (x as int) * (
        y as int)) by (nonlinear_arith)
            requires
                0 <= x <= cx,
                0 <= y <= cy,
        ;
        assert((cx as int) * (cy as int) <= 0xffff_ffff * 0xffff_ffff) by (nonlinear_arith)
            requires
                cx <= 0xffff_ffff,
                cy <= 0xffff_ffff,
        ;
    }
    x * y
}

/// Rounded division on wide values.
fn round_div_u64(a: u64, b: u64) -> (r: u64)
    requires
        0 < b,
        a <= 0x1000_0000_0000_0000,
        b <= 0x1000_0000_0000_0000,
    ensures
        r as int == round_div(a as int, b as int),
        r <= a,
{
    proof {
        crate::colour_spaces::lemma_round_div_char(a as int, b as int);
        let q = round_div(a as int, b as int);
        assert(q <= a) by (nonlinear_arith)
            requires
                2 * ((a as int) - q * (b as int)) >= -(b as int),
                1 <= b as int,
                0 <= q,
                0 <= a as int,
        ;
    }
    (2 * a + b) / (2 * b)
}

/// One blend channel, executable form.
fn blend_ch_e(mode: BlendMode, a: u8, b: u8) -> (v: u8)
    ensures
        v == blend_ch(mode, a, b),
{
    let ai = a as u64;
    let bi = b as u64;
    match mode {
        BlendMode::Multiply => {
            let t = mulb(ai, 255, bi, 255);
            let q = round_div_u64(t, 255);
            if q > 255 {
                255
            } else {
                q as u8
            }
        },
        BlendMode::Screen => {
            let t = mulb(255 - ai, 255, 255 - bi, 255);
            let q = round_div_u64(t, 255);
            if q > 255 {
                0
            } else {
                (255 - q) as u8
            }
        },
        BlendMode::Darken => if a <= b {
            a
        } else {
            b
        },
        BlendMode::Lighten => if a >= b {
            a
        } else {
            b
        },
        BlendMode::Overlay => {
            if a < 128 {
                let t = mulb(2 * ai, 510, bi, 255);
                let q = round_div_u64(t, 255);
                if q > 255 {
                    255
                } else {
                    q as u8
                }
            } else {
                let t = mulb(2 * (255 - ai), 510, 255 - bi, 255);
                let q = round_div_u64(t, 255);
                if q > 255 {
                    0
                } else {
                    (255 - q) as u8
                }
            }
        },
        BlendMode::Dodge => {
            if b == 255 {
                255
            } else {
                let q = (ai * 255) / (255 - bi);
                if q > 255 {
                    255
                } else {
                    q as u8
                }
            }
        },
        BlendMode::Burn => {
            if b == 0 {
                0
            } else {
                let q = ((255 - ai) * 255) / bi;
                if q > 255 {
                    0
                } else {
                    (255 - q) as u8
                }
            }
        },
        BlendMode::Difference => if a >= b {
            a - b
        } else {
            b - a
        },
        BlendMode::Exclusion => {
            let t = mulb(2 * ai, 510, bi, 255);
            let q = round_div_u64(t, 255);
            let sm = ai + bi;
            if q > sm {
                0
            } else if sm - q > 255 {
                255
            } else {
                (sm - q) as u8
            }
        },
        BlendMode::SoftLight => {
            let p1 = mulb(ai, 255, ai, 255);
            let p2 = mulb(255, 255, p1, 65025);
            let t = mulb(ai, 255, bi, 255);
            let t3 = mulb(2 * t, 130050, 255 - ai, 255);
            let num = p2 + t3;
            let q = round_div_u64(num, 65025);
            if q > 255 {
                255
            } else {
                q as u8
            }
        },
    }
}

/// Blend the overlay into the base image with the given mode.  The
/// images must agree in width and height, else `SizeMismatch` and the
/// base is unchanged.
pub fn blend(img: &mut PhotonImage, overlay: &PhotonImage, mode: BlendMode) -> (res: Result<
    (),
    PhotonError,
>)
    requires
        old(img).wf(),
        overlay.wf(),
    ensures
        final(img).wf(),
        final(img).spec_width() == old(img).spec_width(),
        final(img).spec_height() == old(img).spec_height(),
        old(img).same_dims(overlay) ==> res is Ok && final(img).data() == blend_spec(
            old(img).data(),
            overlay.data(),
            mode,
        ),
        !old(img).same_dims(overlay) ==> res == Err::<(), PhotonError>(PhotonError::SizeMismatch)
            && final(img).data() == old(img).data(),
{
    if img.width != overlay.width || img.height != overlay.height {
        return Err(PhotonError::SizeMismatch);
    }
    let ghost sb = img.data();
    let n = img.raw_pixels.len();
    let mut out: Vec<u8> = Vec::new();
    let mut i: usize = 0;
    while i < n
        invariant
            img.data() == sb,
            n == sb.len(),
            n == overlay.data().len(),
            i <= n,
            out@.len() == i,
            forall|j: int|
                0 <= j < i ==> out@[j] == (if j % 4 == 3 {
                    alpha_over(sb[j], overlay.data()[j])
                } else {
                    blend_ch(mode, sb[j], overlay.data()[j])
                }),
        decreases n - i,
    {
        let a = img.raw_pixels[i];
        let b = overlay.raw_pixels[i];
        if i % 4 == 3 {
            out.push(alpha_over_e(a, b));
        } else {
            out.push(blend_ch_e(mode, a, b));
        }
        i += 1;
    }
    proof {
        assert(out@ =~= blend_spec(sb, overlay.data(), mode));
    }
    img.raw_pixels = out;
    Ok(())
}

/// Source-over alpha, executable form.
fn alpha_over_e(ab: u8, ao: u8) -> (v: u8)
    ensures
        v == alpha_over(ab, ao),
{
    let t = mulb(ab as u64, 255, 255 - ao as u64, 255);
    let q = round_div_u64(t, 255);
    let s = ao as u64 + q;
    if s > 255 {
        255
    } else {
        s as u8
    }
}

/// Porter-Duff source-over on one straight-alpha pixel, with
/// premultiplied arithmetic inside: the overlay pixel `o` over the
/// base pixel `b`.
pub open spec fn comp_px(b: (u8, u8, u8, u8), o: (u8, u8, u8, u8)) -> (u8, u8, u8, u8) {
    let ar = alpha_over(b.3, o.3);
    if ar == 0 {
        (0u8, 0u8, 0u8, 0u8)
    } else {
        (comp_ch(b.0, b.3, o.0, o.3, ar), comp_ch(b.1, b.3, o.1, o.3, ar), comp_ch(
            b.2,
            b.3,
            o.2,
            o.3,
            ar,
        ), ar)
    }
}

/// One source-over colour channel: premultiply, combine, divide by the
/// combined alpha.
pub open spec fn comp_ch(cb: u8, ab: u8, co: u8, ao: u8, ar: u8) -> u8 {
    clamp_u8(round_div(co * ao * 255 + cb * ab * (255 - ao), 255 * ar))
}

/// Source-over on one pixel, executable form.
fn comp_px_e(b: (u8, u8, u8, u8), o: (u8, u8, u8, u8)) -> (t: (u8, u8, u8, u8))
    ensures
        t == comp_px(b, o),
{
    let ar = alpha_over_e(b.3, o.3);
    if ar == 0 {
        (0, 0, 0, 0)
    } else {
        (comp_ch_e(b.0, b.3, o.0, o.3, ar), comp_ch_e(b.1, b.3, o.1, o.3, ar), comp_ch_e(
            b.2,
            b.3,
            o.2,
            o.3,
            ar,
        ), ar)
    }
}

fn comp_ch_e(cb: u8, ab: u8, co: u8, ao: u8, ar: u8) -> (v: u8)
    requires
        ar > 0,
    ensures
        v == comp_ch(cb, ab, co, ao, ar),
{
    let t1 = mulb(co as u64, 255, ao as u64, 255);
    let t2 = mulb(t1, 65025, 255, 255);
    let t3 = mulb(cb as u64, 255, ab as u64, 255);
    let t4 = mulb(t3, 65025, 255 - ao as u64, 255);
    let num = t2 + t4;
    let q = round_div_u64(num, 255 * (ar as u64));
    if q > 255 {
        255
    } else {
        q as u8
    }
}

/// Byte `i` of the base after placing the overlay at `(ox, oy)`:
/// covered pixels are source-over composites, everything else is
/// untouched.
pub open spec fn wm_byte(
    sb: Seq<u8>,
    so: Seq<u8>,
    w: int,
    wo: int,
    ho: int,
    ox: int,
    oy: int,
    i: int,
) -> u8 {
    let px = i / 4;
    let x = px % w;
    let y = px / w;
    if ox <= x < ox + wo && oy <= y < oy + ho {
        let p = 4 * px;
        let q = 4 * ((y - oy) * wo + (x - ox));
        let t = comp_px(
            (sb[p], sb[p + 1], sb[p + 2], sb[p + 3]),
            (so[q], so[q + 1], so[q + 2], so[q + 3]),
        );
        if i % 4 == 0 {
            t.0
        } else if i % 4 == 1 {
            t.1
        } else if i % 4 == 2 {
            t.2
        } else {
            t.3
        }
    } else {
        sb[i]
    }
}

/// The base buffer after watermark placement.
pub open spec fn watermark_spec(
    sb: Seq<u8>,
    so: Seq<u8>,
    w: int,
    wo: int,
    ho: int,
    ox: int,
    oy: int,
) -> Seq<u8> {
    Seq::new(sb.len(), |i: int| wm_byte(sb, so, w, wo, ho, ox, oy, i))
}

/// Place the overlay over the base at offset `(ox, oy)`, compositing
/// source-over; the part of the overlay that falls outside the base is
/// clipped.  A negative offset leaves the base unchanged, as does an
/// offset at or beyond the base's extent.
pub fn watermark(img: &mut PhotonImage, overlay: &PhotonImage, ox: i64, oy: i64)
    requires
        old(img).wf(),
        overlay.wf(),
    ensures
        final(img).wf(),
        final(img).spec_width() == old(img).spec_width(),
        final(img).spec_height() == old(img).spec_height(),
        (0 <= ox && 0 <= oy) ==> final(img).data() == watermark_spec(
            old(img).data(),
            overlay.data(),
            old(img).spec_width() as int,
            overlay.spec_width() as int,
            overlay.spec_height() as int,
            ox as int,
            oy as int,
        ),
        !(0 <= ox && 0 <= oy) ==> final(img).data() == old(img).data(),
{
    if ox < 0 || oy < 0 {
        return ;
    }
    let ghost sb = img.data();
    let w = img.width;
    let h = img.height;
    let wo = overlay.width;
    let ho = overlay.height;
    let n = img.raw_pixels.len();
    let no = overlay.raw_pixels.len();
    proof {
        lemma_buf_multiple_of_four(n as int, w as int, h as int);
    }
    let npix = n / 4;
    let mut out: Vec<u8> = Vec::new();
    let mut px: usize = 0;
    while px < npix
        invariant
            img.wf(),
            overlay.wf(),
            no == overlay.data().len(),
            img.data() == sb,
            w == img.spec_width(),
            h == img.spec_height(),
            wo == overlay.spec_width(),
            ho == overlay.spec_height(),
            0 <= ox,
            0 <= oy,
            n == sb.len(),
            n == 4 * npix,
            npix == (w as int) * (h as int),
            px <= npix,
            out@.len() == 4 * px,
            forall|j: int|
                0 <= j < 4 * px ==> out@[j] == wm_byte(
                    sb,
                    overlay.data(),
                    w as int,
                    wo as int,
                    ho as int,
                    ox as int,
                    oy as int,
                    j,
                ),
        decreases npix - px,
    {
        let x = (px % (w as usize)) as u64;
        let y = (px / (w as usize)) as u64;
        proof {
            lemma_fundamental_div_mod(px as int, w as int);
            assert((w as int) * (px as int / (w as int)) + px as int % (w as int) < (w as int) * (
            h as int) ==> px as int / (w as int) <= (h as int) - 1) by (nonlinear_arith)
                requires
                    1 <= w as int,
                    0 <= px as int % (w as int) < w as int,
            ;
        }
        let base = 4 * px;
        let covered = (ox as u64) <= x && x < (ox as u64) + (wo as u64) && (oy as u64) <= y && y
            < (oy as u64) + (ho as u64);
        if covered {
            let lx = (x - ox as u64) as usize;
            let ly = (y - oy as u64) as usize;
            proof {
                lemma_row_major(lx as int, ly as int, wo as int, ho as int);
            }
            let q = 4 * (ly * (wo as usize) + lx);
            let bp = (
                img.raw_pixels[base],
                img.raw_pixels[base + 1],
                img.raw_pixels[base + 2],
                img.raw_pixels[base + 3],
            );
            let op = (
                overlay.raw_pixels[q],
                overlay.raw_pixels[q + 1],
                overlay.raw_pixels[q + 2],
                overlay.raw_pixels[q + 3],
            );
            let t = comp_px_e(bp, op);
            out.push(t.0);
            out.push(t.1);
            out.push(t.2);
            out.push(t.3);
        } else {
            out.push(img.raw_pixels[base]);
            out.push(img.raw_pixels[base + 1]);
            out.push(img.raw_pixels[base + 2]);
            out.push(img.raw_pixels[base + 3]);
        }
        proof {
            lemma_fundamental_div_mod_converse(4 * px, 4, px as int, 0);
            lemma_fundamental_div_mod_converse(4 * px + 1, 4, px as int, 1);
            lemma_fundamental_div_mod_converse(4 * px + 2, 4, px as int, 2);
            lemma_fundamental_div_mod_converse(4 * px + 3, 4, px as int, 3);
        }
        px += 1;
    }
    proof {
        assert(out@ =~= watermark_spec(
            sb,
            overlay.data(),
            w as int,
            wo as int,
            ho as int,
            ox as int,
            oy as int,
        ));
    }
    img.raw_pixels = out;
}

/// Alpha-composite the overlay over the whole base image,
/// source-over with premultiplied arithmetic inside.  The images must
/// agree in width and height, else `SizeMismatch` and the base is
/// unchanged.
pub fn composite(img: &mut PhotonImage, overlay: &PhotonImage) -> (res: Result<(), PhotonError>)
    requires
        old(img).wf(),
        overlay.wf(),
    ensures
        final(img).wf(),
        final(img).spec_width() == old(img).spec_width(),
        final(img).spec_height() == old(img).spec_height(),
        old(img).same_dims(overlay) ==> res is Ok && final(img).data() == watermark_spec(
            old(img).data(),
            overlay.data(),
            old(img).spec_width() as int,
            overlay.spec_width() as int,
            overlay.spec_height() as int,
            0,
            0,
        ),
        !old(img).same_dims(overlay) ==> res == Err::<(), PhotonError>(PhotonError::SizeMismatch)
            && final(img).data() == old(img).data(),
{
    if img.width != overlay.width || img.height != overlay.height {
        return Err(PhotonError::SizeMismatch);
    }
    watermark(img, overlay, 0, 0);
    Ok(())
}

/// An overlay placed wholly outside the base changes nothing.
pub proof fn lemma_watermark_outside(
    sb: Seq<u8>,
    so: Seq<u8>,
    w: int,
    h: int,
    wo: int,
    ho: int,
    ox: int,
    oy: int,
)
    requires
        sb.len() == 4 * w * h,
        1 <= w,
        1 <= h,
        ox >= w || oy >= h || ox + wo <= 0 || oy + ho <= 0,
    ensures
        watermark_spec(sb, so, w, wo, ho, ox, oy) =~= sb,
{
    assert forall|i: int| 0 <= i < sb.len() implies watermark_spec(sb, so, w, wo, ho, ox, oy)[i]
        == sb[i] by {
        lemma_fundamental_div_mod(i, 4);
        let px = i / 4;
        lemma_buf_multiple_of_four(sb.len() as int, w, h);
        lemma_fundamental_div_mod(px, w);
        assert(w * (px / w) + px % w < w * h ==> px / w <= h - 1) by (nonlinear_arith)
            requires
                1 <= w,
                0 <= px % w < w,
        ;
    }
}

/// Squared Euclidean distance between a pixel's colour and a target
/// colour in RGB space.
pub open spec fn dist_sq(r: u8, g: u8, b: u8, c: Rgb) -> int {
    (r - c.r) * (r - c.r) + (g - c.g) * (g - c.g) + (b - c.b) * (b - c.b)
}

/// Byte `i` after background replacement: pixels whose colour lies
/// within `tol` of `src` take `dst`'s colour, keeping their alpha.
pub open spec fn replace_bg_byte(s: Seq<u8>, src: Rgb, dst: Rgb, tol: int, i: int) -> u8 {
    let p = 4 * (i / 4);
    if i % 4 != 3 && dist_sq(s[p], s[p + 1], s[p + 2], src) <= tol * tol {
        if i % 4 == 0 {
            dst.r
        } else if i % 4 == 1 {
            dst.g
        } else {
            dst.b
        }
    } else {
        s[i]
    }
}

pub open spec fn replace_bg_spec(s: Seq<u8>, src: Rgb, dst: Rgb, tol: int) -> Seq<u8> {
    Seq::new(s.len(), |i: int| replace_bg_byte(s, src, dst, tol, i))
}

/// Squared distance, executable form.
fn dist_sq_e(r: u8, g: u8, b: u8, c: Rgb) -> (d: u32)
    ensures
        d as int == dist_sq(r, g, b, c),
{
    let dr: u32 = if r >= c.r {
        (r - c.r) as u32
    } else {
        (c.r - r) as u32
    };
    let dg: u32 = if g >= c.g {
        (g - c.g) as u32
    } else {
        (c.g - g) as u32
    };
    let db: u32 = if b >= c.b {
        (b - c.b) as u32
    } else {
        (c.b - b) as u32
    };
    proof {
        assert((dr as int) * (dr as int) == (r - c.r) * (r - c.r) && (dr as int) * (dr as int)
            <= 255 * 255) by (nonlinear_arith)
            requires
                dr as int == (if r >= c.r {
                    r - c.r
                } else {
                    c.r - r
                }),
                r <= 255u8,
                c.r <= 255u8,
        ;
        assert((dg as int) * (dg as int) == (g - c.g) * (g - c.g) && (dg as int) * (dg as int)
            <= 255 * 255) by (nonlinear_arith)
            requires
                dg as int == (if g >= c.g {
                    g - c.g
                } else {
                    c.g - g
                }),
                g <= 255u8,
                c.g <= 255u8,
        ;
        assert((db as int) * (db as int) == (b - c.b) * (b - c.b) && (db as int) * (db as int)
            <= 255 * 255) by (nonlinear_arith)
            requires
                db as int == (if b >= c.b {
                    b - c.b
                } else {
                    c.b - b
                }),
                b <= 255u8,
                c.b <= 255u8,
        ;
    }
    dr * dr + dg * dg + db * db
}

/// Replace the background: every pixel whose colour lies within
/// Euclidean distance `tol` of `src` takes `dst`'s colour (alpha
/// kept).  `tol` beyond 441, the diameter of the RGB cube, is
/// `InvalidArgument` and the image is unchanged.
pub fn replace_background(img: &mut PhotonImage, src: Rgb, dst: Rgb, tol: u32) -> (res: Result<
    (),
    PhotonError,
>)
    requires
        old(img).wf(),
    ensures
        final(img).wf(),
        final(img).spec_width() == old(img).spec_width(),
        final(img).spec_height() == old(img).spec_height(),
        tol <= 441 ==> res is Ok && final(img).data() == replace_bg_spec(
            old(img).data(),
            src,
            dst,
            tol as int,
        ),
        tol > 441 ==> res == Err::<(), PhotonError>(PhotonError::InvalidArgument)
            && final(img).data() == old(img).data(),
{
    if tol > 441 {
        return Err(PhotonError::InvalidArgument);
    }
    let ghost s0 = img.data();
    let n = img.raw_pixels.len();
    proof {
        lemma_buf_multiple_of_four(
            n as int,
            img.spec_width() as int,
            img.spec_height() as int,
        );
    }
    let npix = n / 4;
    let mut out: Vec<u8> = Vec::new();
    let mut px: usize = 0;
    while px < npix
        invariant
            img.data() == s0,
            n == s0.len(),
            n == 4 * npix,
            tol <= 441,
            px <= npix,
            out@.len() == 4 * px,
            forall|j: int|
                0 <= j < 4 * px ==> out@[j] == replace_bg_byte(s0, src, dst, tol as int, j),
        decreases npix - px,
    {
        let base = 4 * px;
        let r = img.raw_pixels[base];
        let g = img.raw_pixels[base + 1];
        let b = img.raw_pixels[base + 2];
        let a = img.raw_pixels[base + 3];
        let d = dist_sq_e(r, g, b, src);
        proof {
            assert((tol as int) * (tol as int) <= 441 * 441) by (nonlinear_arith)
                requires
                    tol <= 441u32,
            ;
        }
        if d <= tol * tol {
            out.push(dst.r);
            out.push(dst.g);
            out.push(dst.b);
            out.push(a);
        } else {
            out.push(r);
            out.push(g);
            out.push(b);
            out.push(a);
        }
        proof {
            lemma_fundamental_div_mod_converse(4 * px, 4, px as int, 0);
            lemma_fundamental_div_mod_converse(4 * px + 1, 4, px as int, 1);
            lemma_fundamental_div_mod_converse(4 * px + 2, 4, px as int, 2);
            lemma_fundamental_div_mod_converse(4 * px + 3, 4, px as int, 3);
        }
        px += 1;
    }
    proof {
        assert(out@ =~= replace_bg_spec(s0, src, dst, tol as int));
    }
    img.raw_pixels = out;
    Ok(())
}

/// Byte `i` after background replacement by an overlay: pixels whose
/// colour lies within `tol` of `src` take the overlay's colour at the
/// same position, keeping their alpha.
pub open spec fn replace_bg_img_byte(
    s: Seq<u8>,
    so: Seq<u8>,
    src: Rgb,
    tol: int,
    i: int,
) -> u8 {
    let p = 4 * (i / 4);
    if i % 4 != 3 && dist_sq(s[p], s[p + 1], s[p + 2], src) <= tol * tol {
        so[i]
    } else {
        s[i]
    }
}

pub open spec fn replace_bg_img_spec(s: Seq<u8>, so: Seq<u8>, src: Rgb, tol: int) -> Seq<u8> {
    Seq::new(s.len(), |i: int| replace_bg_img_byte(s, so, src, tol, i))
}

/// Replace the background with overlay pixels: every pixel whose
/// colour lies within Euclidean distance `tol` of `src` takes the
/// overlay's colour at the same position (alpha kept).  `tol` beyond
/// 441 is `InvalidArgument`; differing dimensions are `SizeMismatch`;
/// either way the image is unchanged.
pub fn replace_background_with_image(
    img: &mut PhotonImage,
    src: Rgb,
    overlay: &PhotonImage,
    tol: u32,
) -> (res: Result<(), PhotonError>)
    requires
        old(img).wf(),
        overlay.wf(),
    ensures
        final(img).wf(),
        final(img).spec_width() == old(img).spec_width(),
        final(img).spec_height() == old(img).spec_height(),
        (tol <= 441 && old(img).same_dims(overlay)) ==> res is Ok && final(img).data()
            == replace_bg_img_spec(old(img).data(), overlay.data(), src, tol as int),
        tol > 441 ==> res == Err::<(), PhotonError>(PhotonError::InvalidArgument)
            && final(img).data() == old(img).data(),
        (tol <= 441 && !old(img).same_dims(overlay)) ==> res == Err::<(), PhotonError>(
            PhotonError::SizeMismatch,
        ) && final(img).data() == old(img).data(),
{
    if tol > 441 {
        return Err(PhotonError::InvalidArgument);
    }
    if img.width != overlay.width || img.height != overlay.height {
        return Err(PhotonError::SizeMismatch);
    }
    let ghost s0 = img.data();
    let n = img.raw_pixels.len();
    proof {
        lemma_buf_multiple_of_four(
            n as int,
            img.spec_width() as int,
            img.spec_height() as int,
        );
    }
    let npix = n / 4;
    let mut out: Vec<u8> = Vec::new();
    let mut px: usize = 0;
    while px < npix
        invariant
            img.data() == s0,
            n == s0.len(),
            n == overlay.data().len(),
            n == 4 * npix,
            tol <= 441,
            px <= npix,
            out@.len() == 4 * px,
            forall|j: int|
                0 <= j < 4 * px ==> out@[j] == replace_bg_img_byte(
                    s0,
                    overlay.data(),
                    src,
                    tol as int,
                    j,
                ),
        decreases npix - px,
    {
        let base = 4 * px;
        let r = img.raw_pixels[base];
        let g = img.raw_pixels[base + 1];
        let b = img.raw_pixels[base + 2];
        let a = img.raw_pixels[base + 3];
        let d = dist_sq_e(r, g, b, src);
        proof {
            assert((tol as int) * (tol as int) <= 441 * 441) by (nonlinear_arith)
                requires
                    tol <= 441u32,
            ;
        }
        if d <= tol * tol {
            out.push(overlay.raw_pixels[base]);
            out.push(overlay.raw_pixels[base + 1]);
            out.push(overlay.raw_pixels[base + 2]);
            out.push(a);
        } else {
            out.push(r);
            out.push(g);
            out.push(b);
            out.push(a);
        }
        proof {
            lemma_fundamental_div_mod_converse(4 * px, 4, px as int, 0);
            lemma_fundamental_div_mod_converse(4 * px + 1, 4, px as int, 1);
            lemma_fundamental_div_mod_converse(4 * px + 2, 4, px as int, 2);
            lemma_fundamental_div_mod_converse(4 * px + 3, 4, px as int, 3);
        }
        px += 1;
    }
    proof {
        assert(out@ =~= replace_bg_img_spec(s0, overlay.data(), src, tol as int));
    }
    img.raw_pixels = out;
    Ok(())
}

/// Whether every pixel of the buffer is exactly the given RGBA value.
pub open spec fn uniform_px(s: Seq<u8>, pr: u8, pg: u8, pb: u8, pa: u8) -> bool {
    forall|i: int|
        0 <= i < s.len() ==> #[trigger] s[i] == (if i % 4 == 0 {
            pr
        } else if i % 4 == 1 {
            pg
        } else if i % 4 == 2 {
            pb
        } else {
            pa
        })
}

/// Whether every pixel of the buffer is fully opaque.
pub open spec fn opaque(s: Seq<u8>) -> bool {
    forall|i: int| 0 <= i < s.len() && i % 4 == 3 ==> #[trigger] s[i] == 255
}

/// `round_div` of an exact multiple of the divisor is exact.
proof fn lemma_round_div_multiple(k: int, b: int)
    requires
        0 <= k,
        0 < b,
    ensures
        round_div(k * b, b) == k,
{
    assert(2 * (k * b) + b == k * (2 * b) + b) by (nonlinear_arith);
    lemma_fundamental_div_mod_converse(2 * (k * b) + b, 2 * b, k, b);
}

/// Blend identity: screening an opaque image with opaque black
/// reproduces it byte for byte.
pub proof fn lemma_screen_black(sb: Seq<u8>, so: Seq<u8>)
    requires
        sb.len() == so.len(),
        opaque(sb),
        uniform_px(so, 0, 0, 0, 255),
    ensures
        blend_spec(sb, so, BlendMode::Screen) =~= sb,
{
    assert forall|i: int| 0 <= i < sb.len() implies blend_spec(sb, so, BlendMode::Screen)[i]
        == sb[i] by {
        lemma_fundamental_div_mod(i, 4);
        if i % 4 == 3 {
            assert(so[i] == 255);
            assert((sb[i] as int) * (255 - 255) == 0) by (nonlinear_arith);
            assert(round_div(0, 255) == 0) by {
                lemma_fundamental_div_mod_converse(255, 510, 0, 255);
            };
        } else {
            assert(so[i] == 0);
            lemma_round_div_multiple(255 - sb[i], 255);
        }
    }
}

/// Blend identity: multiplying an opaque image by opaque white
/// reproduces it byte for byte.
pub proof fn lemma_multiply_white(sb: Seq<u8>, so: Seq<u8>)
    requires
        sb.len() == so.len(),
        opaque(sb),
        uniform_px(so, 255, 255, 255, 255),
    ensures
        blend_spec(sb, so, BlendMode::Multiply) =~= sb,
{
    assert forall|i: int| 0 <= i < sb.len() implies blend_spec(sb, so, BlendMode::Multiply)[i]
        == sb[i] by {
        lemma_fundamental_div_mod(i, 4);
        if i % 4 == 3 {
            assert((sb[i] as int) * (255 - 255) == 0) by (nonlinear_arith);
            assert(round_div(0, 255) == 0) by {
                lemma_fundamental_div_mod_converse(255, 510, 0, 255);
            };
        } else {
            lemma_round_div_multiple(sb[i] as int, 255);
        }
    }
}

/// Blend identity: the difference of an opaque image with itself is
/// zero in every colour channel, with the image's own alpha.
pub proof fn lemma_difference_self(sb: Seq<u8>)
    requires
        opaque(sb),
    ensures
        blend_spec(sb, sb, BlendMode::Difference) =~= Seq::new(
            sb.len(),
            |i: int|
                if i % 4 == 3 {
                    sb[i]
                } else {
                    0u8
                },
        ),
{
    assert forall|i: int| 0 <= i < sb.len() implies blend_spec(sb, sb, BlendMode::Difference)[i]
        == (if i % 4 == 3 {
            sb[i]
        } else {
            0u8
        }) by {
        lemma_fundamental_div_mod(i, 4);
        if i % 4 == 3 {
            assert((sb[i] as int) * (255 - 255) == 0) by (nonlinear_arith);
            assert(round_div(0, 255) == 0) by {
                lemma_fundamental_div_mod_converse(255, 510, 0, 255);
            };
        }
    }
}

} // verus!
