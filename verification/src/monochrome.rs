//! Monochrome effects: thresholding, greyscaling and sepia toning.

use vstd::prelude::*;
use vstd::arithmetic::div_mod::lemma_fundamental_div_mod;
use crate::PhotonImage;
use crate::colour_spaces::lemma_srgb_strict_mono;
use crate::colour_spaces::srgb_linear;
use crate::transform::ChannelMask;
use crate::transform::PixelOp;
use crate::transform::full_mask;
use crate::transform::luma_weighted;
use crate::transform::map_byte;
use crate::transform::map_pixels;
use crate::transform::map_spec;

verus! {

/// Threshold the image at `t`: a pixel becomes white when its Rec.709
/// luma, computed on linearised channels, reaches the linearised
/// threshold, black otherwise; alpha is unchanged.
pub fn threshold(img: &mut PhotonImage, t: u8)
    requires
        old(img).wf(),
    ensures
        final(img).wf(),
        final(img).spec_width() == old(img).spec_width(),
        final(img).spec_height() == old(img).spec_height(),
        final(img).data() == map_spec(old(img).data(), PixelOp::Threshold(t), full_mask()),
{
    map_pixels(img, PixelOp::Threshold(t), ChannelMask::all());
}

/// Greyscale by Rec.709 luminance on linearised channels, companded
/// back to an sRGB byte.
pub fn greyscale(img: &mut PhotonImage)
    requires
        old(img).wf(),
    ensures
        final(img).wf(),
        final(img).spec_width() == old(img).spec_width(),
        final(img).spec_height() == old(img).spec_height(),
        final(img).data() == map_spec(old(img).data(), PixelOp::GreyLuminance, full_mask()),
{
    map_pixels(img, PixelOp::GreyLuminance, ChannelMask::all());
}

/// Greyscale by the plain channel average, rounded to nearest.
pub fn greyscale_average(img: &mut PhotonImage)
    requires
        old(img).wf(),
    ensures
        final(img).wf(),
        final(img).spec_width() == old(img).spec_width(),
        final(img).spec_height() == old(img).spec_height(),
        final(img).data() == map_spec(old(img).data(), PixelOp::GreyAverage, full_mask()),
{
    map_pixels(img, PixelOp::GreyAverage, ChannelMask::all());
}

/// Sepia-tone the image with the classic weight matrix.
pub fn sepia(img: &mut PhotonImage)
    requires
        old(img).wf(),
    ensures
        final(img).wf(),
        final(img).spec_width() == old(img).spec_width(),
        final(img).spec_height() == old(img).spec_height(),
        final(img).data() == map_spec(old(img).data(), PixelOp::Sepia, full_mask()),
{
    map_pixels(img, PixelOp::Sepia, ChannelMask::all());
}

/// Threshold monotonicity: raising the threshold never turns a black
/// output byte white.  A colour byte that thresholding at `t1` sent to
/// zero is also sent to zero by thresholding at any `t2 >= t1`.
pub proof fn lemma_threshold_monotone(s: Seq<u8>, t1: u8, t2: u8, i: int)
    requires
        s.len() % 4 == 0,
        t1 <= t2,
        0 <= i < s.len(),
        i % 4 != 3,
        map_spec(s, PixelOp::Threshold(t1), full_mask())[i] == 0,
    ensures
        map_spec(s, PixelOp::Threshold(t2), full_mask())[i] == 0,
{
    let p = 4 * (i / 4);
    lemma_fundamental_div_mod(i, 4);
    if t1 < t2 {
        lemma_srgb_strict_mono(t1, t2);
    }
    assert(luma_weighted(s[p], s[p + 1], s[p + 2]) < 10000 * srgb_linear(t1));
    assert(map_byte(s, PixelOp::Threshold(t2), full_mask(), i) == 0);
}

} // verus!
