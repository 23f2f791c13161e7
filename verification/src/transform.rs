//! The per-pixel transform driver: applies a pure pixel function,
//! chosen from an enumerated catalogue, to every pixel of an image in
//! scanline order, optionally scoped to a subset of the R, G, B
//! channels.  Alpha is never touched by any catalogue entry.

use vstd::prelude::*;
use vstd::arithmetic::div_mod::lemma_fundamental_div_mod;
use vstd::arithmetic::div_mod::lemma_fundamental_div_mod_converse;
use crate::PhotonImage;
use crate::colour_spaces::Hsl;
use crate::colour_spaces::Hsv;
use crate::colour_spaces::round_div;
use crate::colour_spaces::round_div_u32;
use crate::colour_spaces::srgb_linear;
use crate::colour_spaces::srgb_linearize;
use crate::colour_spaces::srgb_compand;
use crate::colour_spaces::srgb_compand_spec;
use crate::colour_spaces::hue_fix;
use crate::colour_spaces::hsl_s;
use crate::colour_spaces::hsl_l;
use crate::colour_spaces::hsv_s;
use crate::colour_spaces::max3;
use crate::colour_spaces::hsl_to_rgb_spec;
use crate::colour_spaces::hsv_to_rgb_spec;
use crate::colour_spaces::rgb_to_hsl;
use crate::colour_spaces::hsl_to_rgb;
use crate::colour_spaces::rgb_to_hsv;
use crate::colour_spaces::hsv_to_rgb;
use crate::colour_spaces::lemma_round_div_range;

verus! {

/// One of the image's three colour channels.
#[derive(Clone, Copy, Debug, PartialEq, Eq, Structural)]
pub enum Channel {
    Red,
    Green,
    Blue,
}

/// The colour space in which a saturation or lightness adjustment
/// works.
#[derive(Clone, Copy, Debug, PartialEq, Eq, Structural)]
pub enum Space {
    Hsl,
    Hsv,
}

/// Which of the R, G, B channels a transform may write; unselected
/// channels are copied verbatim.  Alpha is never written.
#[derive(Clone, Copy, Debug, PartialEq, Eq, Structural)]
pub struct ChannelMask {
    pub r: bool,
    pub g: bool,
    pub b: bool,
}

impl ChannelMask {
    /// The mask selecting all three colour channels.
    pub fn all() -> (m: ChannelMask)
        ensures
            m == (ChannelMask { r: true, g: true, b: true }),
    {
        ChannelMask { r: true, g: true, b: true }
    }

    /// The mask selecting a single channel.
    pub fn only(c: Channel) -> (m: ChannelMask)
        ensures
            m.r == (c == Channel::Red),
            m.g == (c == Channel::Green),
            m.b == (c == Channel::Blue),
    {
        ChannelMask {
            r: matches!(c, Channel::Red),
            g: matches!(c, Channel::Green),
            b: matches!(c, Channel::Blue),
        }
    }
}

pub open spec fn full_mask() -> ChannelMask {
    ChannelMask { r: true, g: true, b: true }
}

/// The catalogue of pure pixel transforms the driver can apply.
#[derive(Clone, Copy, Debug, PartialEq, Eq, Structural)]
pub enum PixelOp {
    /// Replace every colour channel `c` by `255 - c`.
    Invert,
    /// Invert only channels below 128, leaving bright channels alone.
    Solarize,
    /// The classic sepia matrix, rounded to nearest and saturated.
    Sepia,
    /// Grey from the plain channel average, rounded to nearest.
    GreyAverage,
    /// Grey from Rec.709 luma computed on linearised channels and
    /// companded back.
    GreyLuminance,
    /// Convert to HSL, drop saturation to zero, convert back.
    Desaturate,
    /// Black-or-white by comparing Rec.709 linear luma against the
    /// linearised threshold.
    Threshold(u8),
    /// Add a signed amount to one channel, saturating into `[0, 255]`.
    ChannelAdd(Channel, i16),
    /// Zero one channel.
    ChannelRemove(Channel),
    /// Exchange two channels.
    ChannelSwap(Channel, Channel),
    /// Rotate the hue by whole degrees in HSL space.
    HueRotate(u32),
    /// Adjust saturation by a signed percentage in the given space.
    Saturate(Space, i16),
    /// Adjust lightness (HSL) or value (HSV) by a signed percentage;
    /// negative amounts darken.
    Lighten(Space, i16),
}

/// Clip an integer into a byte.
pub open spec fn clamp_u8(v: int) -> u8 {
    if v < 0 {
        0u8
    } else if v > 255 {
        255u8
    } else {
        v as u8
    }
}

/// Rec.709 weighted sum of linearised channels, scaled by
/// `10000 * 100000`.
pub open spec fn luma_weighted(r: u8, g: u8, b: u8) -> int {
    2126 * srgb_linear(r) + 7152 * srgb_linear(g) + 722 * srgb_linear(b)
}

pub open spec fn chan_val(t: (u8, u8, u8), c: Channel) -> u8 {
    match c {
        Channel::Red => t.0,
        Channel::Green => t.1,
        Channel::Blue => t.2,
    }
}

pub open spec fn with_chan(t: (u8, u8, u8), c: Channel, v: u8) -> (u8, u8, u8) {
    match c {
        Channel::Red => (v, t.1, t.2),
        Channel::Green => (t.0, v, t.2),
        Channel::Blue => (t.0, t.1, v),
    }
}

/// Magnitude of a signed percentage, clipped to 100.
pub open spec fn pct_mag(pct: i16) -> int {
    if pct >= 0 {
        if pct > 100 {
            100
        } else {
            pct as int
        }
    } else {
        if pct < -100 {
            100
        } else {
            -(pct as int)
        }
    }
}

/// A clipped percentage of `scale`, rounded to nearest.
pub open spec fn pct_amount(pct: i16, scale: int) -> int {
    round_div(pct_mag(pct) * scale, 100)
}

/// Move `cur` up (when `up`) or down by `delta`, saturating into
/// `[0, hi]`.
pub open spec fn adjust_sat(cur: int, delta: int, hi: int, up: bool) -> int {
    if up {
        if cur + delta > hi {
            hi
        } else {
            cur + delta
        }
    } else {
        if cur - delta < 0 {
            0
        } else {
            cur - delta
        }
    }
}

pub open spec fn tup_u8(t: (int, int, int)) -> (u8, u8, u8) {
    (t.0 as u8, t.1 as u8, t.2 as u8)
}

/// Solarize one channel: invert it if it is below 128.
pub open spec fn solarize_ch(c: u8) -> u8 {
    if c < 128 {
        (255 - c) as u8
    } else {
        c
    }
}

/// What each catalogue entry does to one pixel's colour channels.
/// Alpha is not an input and is never changed.
pub open spec fn apply_op(op: PixelOp, r: u8, g: u8, b: u8) -> (u8, u8, u8) {
    match op {
        PixelOp::Invert => ((255 - r) as u8, (255 - g) as u8, (255 - b) as u8),
        PixelOp::Solarize => (solarize_ch(r), solarize_ch(g), solarize_ch(b)),
        PixelOp::Sepia => (
            clamp_u8(round_div(393 * r + 769 * g + 189 * b, 1000)),
            clamp_u8(round_div(349 * r + 686 * g + 168 * b, 1000)),
            clamp_u8(round_div(272 * r + 534 * g + 131 * b, 1000)),
        ),
        PixelOp::GreyAverage => {
            let y = clamp_u8(round_div(r + g + b, 3));
            (y, y, y)
        },
        PixelOp::GreyLuminance => {
            let y = srgb_compand_spec(round_div(luma_weighted(r, g, b), 10000) as u32);
            (y, y, y)
        },
        PixelOp::Threshold(t) => {
            if luma_weighted(r, g, b) >= 10000 * srgb_linear(t) {
                (255u8, 255u8, 255u8)
            } else {
                (0u8, 0u8, 0u8)
            }
        },
        PixelOp::Desaturate => tup_u8(hsl_to_rgb_spec(hue_fix(r, g, b), 0, hsl_l(r, g, b))),
        PixelOp::ChannelAdd(c, amt) => with_chan(
            (r, g, b),
            c,
            clamp_u8(chan_val((r, g, b), c) + amt),
        ),
        PixelOp::ChannelRemove(c) => with_chan((r, g, b), c, 0u8),
        PixelOp::ChannelSwap(c1, c2) => with_chan(
            with_chan((r, g, b), c1, chan_val((r, g, b), c2)),
            c2,
            chan_val((r, g, b), c1),
        ),
        PixelOp::HueRotate(deg) => {
            let delta = round_div(((deg % 360) as int) * 64, 15);
            let h2 = (hue_fix(r, g, b) + delta) % 1536;
            tup_u8(hsl_to_rgb_spec(h2, hsl_s(r, g, b), hsl_l(r, g, b)))
        },
        PixelOp::Saturate(space, pct) => match space {
            Space::Hsl => {
                let s2 = adjust_sat(hsl_s(r, g, b), pct_amount(pct, 65536), 65536, pct >= 0);
                tup_u8(hsl_to_rgb_spec(hue_fix(r, g, b), s2, hsl_l(r, g, b)))
            },
            Space::Hsv => {
                let s2 = adjust_sat(hsv_s(r, g, b), pct_amount(pct, 65536), 65536, pct >= 0);
                tup_u8(hsv_to_rgb_spec(hue_fix(r, g, b), s2, max3(r, g, b) as int))
            },
        },
        PixelOp::Lighten(space, pct) => match space {
            Space::Hsl => {
                let l2 = adjust_sat(hsl_l(r, g, b), pct_amount(pct, 510), 510, pct >= 0);
                tup_u8(hsl_to_rgb_spec(hue_fix(r, g, b), hsl_s(r, g, b), l2))
            },
            Space::Hsv => {
                let v2 = adjust_sat(max3(r, g, b) as int, pct_amount(pct, 255), 255, pct >= 0);
                tup_u8(hsv_to_rgb_spec(hue_fix(r, g, b), hsv_s(r, g, b), v2))
            },
        },
    }
}

/// Mask the transformed channels against the originals.
pub open spec fn masked(mask: ChannelMask, out: (u8, u8, u8), orig: (u8, u8, u8)) -> (u8, u8, u8) {
    (
        if mask.r {
            out.0
        } else {
            orig.0
        },
        if mask.g {
            out.1
        } else {
            orig.1
        },
        if mask.b {
            out.2
        } else {
            orig.2
        },
    )
}

/// Byte `i` of the transformed buffer: the pixel holding `i` is read,
/// transformed, masked, and the right component picked; alpha bytes are
/// copied unchanged.
pub open spec fn map_byte(s: Seq<u8>, op: PixelOp, mask: ChannelMask, i: int) -> u8
    recommends
        0 <= i < s.len(),
        s.len() % 4 == 0,
{
    let p = 4 * (i / 4);
    let orig = (s[p], s[p + 1], s[p + 2]);
    let out = masked(mask, apply_op(op, s[p], s[p + 1], s[p + 2]), orig);
    if i % 4 == 0 {
        out.0
    } else if i % 4 == 1 {
        out.1
    } else if i % 4 == 2 {
        out.2
    } else {
        s[i]
    }
}

/// The whole transformed buffer.
pub open spec fn map_spec(s: Seq<u8>, op: PixelOp, mask: ChannelMask) -> Seq<u8> {
    Seq::new(s.len(), |i: int| map_byte(s, op, mask, i))
}

/// Alpha preservation: no catalogue entry, under any mask, changes an
/// alpha byte.
pub proof fn lemma_map_alpha_preserved(s: Seq<u8>, op: PixelOp, mask: ChannelMask)
    requires
        s.len() % 4 == 0,
    ensures
        forall|i: int|
            0 <= i < s.len() && i % 4 == 3 ==> #[trigger] map_spec(s, op, mask)[i] == s[i],
{
    assert forall|i: int| 0 <= i < s.len() && i % 4 == 3 implies #[trigger] map_spec(s, op, mask)[i]
        == s[i] by {
        lemma_fundamental_div_mod(i, 4);
    }
}

/// Apply one catalogue entry to one pixel's channels, executable form.
pub fn apply_op_e(op: PixelOp, r: u8, g: u8, b: u8) -> (t: (u8, u8, u8))
    ensures
        t == apply_op(op, r, g, b),
{
    match op {
        PixelOp::Invert => (255 - r, 255 - g, 255 - b),
        PixelOp::Solarize => (solarize_ch_e(r), solarize_ch_e(g), solarize_ch_e(b)),
        PixelOp::Sepia => {
            let rr = sepia_ch(393, 769, 189, r, g, b);
            let gg = sepia_ch(349, 686, 168, r, g, b);
            let bb = sepia_ch(272, 534, 131, r, g, b);
            (rr, gg, bb)
        },
        PixelOp::GreyAverage => {
            let y = round_div_u32(r as u32 + g as u32 + b as u32, 3);
            assert(y <= 255) by {
                crate::colour_spaces::lemma_round_div_char((r + g + b) as int, 3);
            };
            ((y as u8), (y as u8), (y as u8))
        },
        PixelOp::GreyLuminance => {
            let w = 2126 * srgb_linearize(r) + 7152 * srgb_linearize(g) + 722 * srgb_linearize(b);
            let y = srgb_compand(round_div_u32(w, 10000));
            (y, y, y)
        },
        PixelOp::Threshold(t) => {
            let w = 2126 * srgb_linearize(r) + 7152 * srgb_linearize(g) + 722 * srgb_linearize(b);
            if w >= 10000 * srgb_linearize(t) {
                (255u8, 255u8, 255u8)
            } else {
                (0u8, 0u8, 0u8)
            }
        },
        PixelOp::Desaturate => {
            let c = rgb_to_hsl(r, g, b);
            hsl_to_rgb(Hsl { h: c.h, s: 0, l: c.l })
        },
        PixelOp::ChannelAdd(c, amt) => {
            let cur = chan_val_e((r, g, b), c);
            let v = cur as i32 + amt as i32;
            let nv: u8 = if v < 0 {
                0
            } else if v > 255 {
                255
            } else {
                v as u8
            };
            with_chan_e((r, g, b), c, nv)
        },
        PixelOp::ChannelRemove(c) => with_chan_e((r, g, b), c, 0u8),
        PixelOp::ChannelSwap(c1, c2) => {
            let v1 = chan_val_e((r, g, b), c1);
            let v2 = chan_val_e((r, g, b), c2);
            with_chan_e(with_chan_e((r, g, b), c1, v2), c2, v1)
        },
        PixelOp::HueRotate(deg) => {
            let c = rgb_to_hsl(r, g, b);
            let delta = round_div_u32((deg % 360) * 64, 15);
            proof {
                lemma_round_div_range((deg % 360) as int, 360, 64);
                assert(((deg % 360) as int) * 64 <= 360 * 64) by (nonlinear_arith)
                    requires
                        deg % 360 < 360,
                ;
                crate::colour_spaces::lemma_round_div_char(((deg % 360) as int) * 64, 15);
            }
            let h2 = (c.h + delta) % 1536;
            hsl_to_rgb(Hsl { h: h2, s: c.s, l: c.l })
        },
        PixelOp::Saturate(space, pct) => match space {
            Space::Hsl => {
                let c = rgb_to_hsl(r, g, b);
                let delta = pct_amount_e(pct, 65536);
                let s2 = adjust_sat_e(c.s, delta, 65536, pct >= 0);
                hsl_to_rgb(Hsl { h: c.h, s: s2, l: c.l })
            },
            Space::Hsv => {
                let c = rgb_to_hsv(r, g, b);
                let delta = pct_amount_e(pct, 65536);
                let s2 = adjust_sat_e(c.s, delta, 65536, pct >= 0);
                hsv_to_rgb(Hsv { h: c.h, s: s2, v: c.v })
            },
        },
        PixelOp::Lighten(space, pct) => match space {
            Space::Hsl => {
                let c = rgb_to_hsl(r, g, b);
                let delta = pct_amount_e(pct, 510);
                let l2 = adjust_sat_e(c.l, delta, 510, pct >= 0);
                hsl_to_rgb(Hsl { h: c.h, s: c.s, l: l2 })
            },
            Space::Hsv => {
                let c = rgb_to_hsv(r, g, b);
                let delta = pct_amount_e(pct, 255);
                let v2 = adjust_sat_e(c.v, delta, 255, pct >= 0);
                hsv_to_rgb(Hsv { h: c.h, s: c.s, v: v2 })
            },
        },
    }
}

fn solarize_ch_e(c: u8) -> (v: u8)
    ensures
        v == solarize_ch(c),
{
    if c < 128 {
        255 - c
    } else {
        c
    }
}

/// One sepia output channel: a weighted per-mille sum, rounded and
/// saturated.
fn sepia_ch(wr: u32, wg: u32, wb: u32, r: u8, g: u8, b: u8) -> (v: u8)
    requires
        wr <= 1000,
        wg <= 1000,
        wb <= 1000,
    ensures
        v == clamp_u8(round_div((wr * r + wg * g + wb * b) as int, 1000)),
{
    proof {
        assert((wr as int) * (r as int) <= 1000 * 255 && (wg as int) * (g as int) <= 1000 * 255
            && (wb as int) * (b as int) <= 1000 * 255) by (nonlinear_arith)
            requires
                wr <= 1000u32,
                wg <= 1000u32,
                wb <= 1000u32,
                r <= 255u8,
                g <= 255u8,
                b <= 255u8,
        ;
    }
    let sum = wr * (r as u32) + wg * (g as u32) + wb * (b as u32);
    let q = round_div_u32(sum, 1000);
    proof {
        crate::colour_spaces::lemma_round_div_char(sum as int, 1000);
    }
    if q > 255 {
        255
    } else {
        q as u8
    }
}

fn chan_val_e(t: (u8, u8, u8), c: Channel) -> (v: u8)
    ensures
        v == chan_val(t, c),
{
    match c {
        Channel::Red => t.0,
        Channel::Green => t.1,
        Channel::Blue => t.2,
    }
}

fn with_chan_e(t: (u8, u8, u8), c: Channel, v: u8) -> (o: (u8, u8, u8))
    ensures
        o == with_chan(t, c, v),
{
    match c {
        Channel::Red => (v, t.1, t.2),
        Channel::Green => (t.0, v, t.2),
        Channel::Blue => (t.0, t.1, v),
    }
}

/// A clipped percentage of `scale`, executable form.
fn pct_amount_e(pct: i16, scale: u32) -> (r: u32)
    requires
        1 <= scale <= 65536,
    ensures
        r as int == pct_amount(pct, scale as int),
        r <= scale,
{
    let mag: u32 = if pct >= 0 {
        if pct > 100 {
            100
        } else {
            pct as u32
        }
    } else {
        if pct < -100 {
            100
        } else {
            (0 - pct as i32) as u32
        }
    };
    assert(mag as int == pct_mag(pct));
    assert(mag * scale <= 100 * 65536) by (nonlinear_arith)
        requires
            mag <= 100u32,
            scale <= 65536u32,
    ;
    proof {
        lemma_round_div_range(mag as int, 100, scale as int);
    }
    round_div_u32(mag * scale, 100)
}

fn adjust_sat_e(cur: u32, delta: u32, hi: u32, up: bool) -> (r: u32)
    requires
        cur <= hi,
        delta <= hi,
        hi <= 65536,
    ensures
        r as int == adjust_sat(cur as int, delta as int, hi as int, up),
        r <= hi,
{
    if up {
        if cur + delta > hi {
            hi
        } else {
            cur + delta
        }
    } else {
        if cur < delta {
            0
        } else {
            cur - delta
        }
    }
}

/// Apply a catalogue entry to every pixel of the image, scanline order,
/// masked to the selected channels.  Dimensions are unchanged and the
/// buffer becomes exactly [`map_spec`] of the old buffer.
pub fn map_pixels(img: &mut PhotonImage, op: PixelOp, mask: ChannelMask)
    requires
        old(img).wf(),
    ensures
        final(img).wf(),
        final(img).spec_width() == old(img).spec_width(),
        final(img).spec_height() == old(img).spec_height(),
        final(img).data() == map_spec(old(img).data(), op, mask),
{
    let ghost s0 = img.data();
    let n = img.raw_pixels.len();
    proof {
        lemma_buf_multiple_of_four(
            n as int,
            img.spec_width() as int,
            img.spec_height() as int,
        );
    }
    let npix = n / 4;
    let mut out: Vec<u8> = Vec::new();
    let mut px: usize = 0;
    while px < npix
        invariant
            img.data() == s0,
            n == s0.len(),
            n == 4 * npix,
            px <= npix,
            out@.len() == 4 * px,
            forall|j: int| 0 <= j < 4 * px ==> out@[j] == map_byte(s0, op, mask, j),
        decreases npix - px,
    {
        let base = 4 * px;
        let r = img.raw_pixels[base];
        let g = img.raw_pixels[base + 1];
        let b = img.raw_pixels[base + 2];
        let a = img.raw_pixels[base + 3];
        let t = apply_op_e(op, r, g, b);
        let rr = if mask.r {
            t.0
        } else {
            r
        };
        let gg = if mask.g {
            t.1
        } else {
            g
        };
        let bb = if mask.b {
            t.2
        } else {
            b
        };
        out.push(rr);
        out.push(gg);
        out.push(bb);
        out.push(a);
        proof {
            lemma_fundamental_div_mod_converse(4 * px, 4, px as int, 0);
            lemma_fundamental_div_mod_converse(4 * px + 1, 4, px as int, 1);
            lemma_fundamental_div_mod_converse(4 * px + 2, 4, px as int, 2);
            lemma_fundamental_div_mod_converse(4 * px + 3, 4, px as int, 3);
        }
        px += 1;
    }
    proof {
        assert(out@ =~= map_spec(s0, op, mask));
    }
    img.raw_pixels = out;
}

/// A well-formed buffer length is a multiple of four.
pub proof fn lemma_buf_multiple_of_four(n: int, w: int, h: int)
    requires
        n == 4 * w * h,
        0 <= w,
        0 <= h,
    ensures
        n % 4 == 0,
        n / 4 == w * h,
{
    assert(4 * w * h == 4 * (w * h)) by (nonlinear_arith);
    assert(0 <= w * h) by (nonlinear_arith)
        requires
            0 <= w,
            0 <= h,
    ;
    lemma_fundamental_div_mod_converse(n, 4, w * h, 0);
}

/// A catalogue entry whose pixel action undoes itself undoes itself on
/// whole images: applying it twice under a full mask restores every
/// byte.
pub proof fn lemma_map_involution(s: Seq<u8>, op: PixelOp)
    requires
        s.len() % 4 == 0,
        forall|r: u8, g: u8, b: u8|
            #[trigger] apply_op_twice(op, r, g, b) == (r, g, b),
    ensures
        map_spec(map_spec(s, op, full_mask()), op, full_mask()) =~= s,
{
    let s1 = map_spec(s, op, full_mask());
    assert forall|i: int| 0 <= i < s.len() implies map_spec(s1, op, full_mask())[i] == s[i] by {
        let p = 4 * (i / 4);
        lemma_fundamental_div_mod(i, 4);
        lemma_fundamental_div_mod_converse(p, 4, i / 4, 0);
        lemma_fundamental_div_mod_converse(p + 1, 4, i / 4, 1);
        lemma_fundamental_div_mod_converse(p + 2, 4, i / 4, 2);
        lemma_fundamental_div_mod_converse(p + 3, 4, i / 4, 3);
        assert(s1[p] == map_byte(s, op, full_mask(), p));
        assert(s1[p + 1] == map_byte(s, op, full_mask(), p + 1));
        assert(s1[p + 2] == map_byte(s, op, full_mask(), p + 2));
        assert(apply_op_twice(op, s[p], s[p + 1], s[p + 2]) == (s[p], s[p + 1], s[p + 2]));
    }
}

/// The pixel action of `op` applied twice.
pub open spec fn apply_op_twice(op: PixelOp, r: u8, g: u8, b: u8) -> (u8, u8, u8) {
    let t = apply_op(op, r, g, b);
    apply_op(op, t.0, t.1, t.2)
}

/// A catalogue entry whose pixel action is the identity leaves every
/// byte of every image unchanged.
pub proof fn lemma_map_identity(s: Seq<u8>, op: PixelOp)
    requires
        s.len() % 4 == 0,
        forall|r: u8, g: u8, b: u8| #[trigger] apply_op(op, r, g, b) == (r, g, b),
    ensures
        map_spec(s, op, full_mask()) =~= s,
{
    assert forall|i: int| 0 <= i < s.len() implies map_spec(s, op, full_mask())[i] == s[i] by {
        let p = 4 * (i / 4);
        lemma_fundamental_div_mod(i, 4);
        assert(apply_op(op, s[p], s[p + 1], s[p + 2]) == (s[p], s[p + 1], s[p + 2]));
    }
}

} // verus!
