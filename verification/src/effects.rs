//! Whole-image point effects: inversion and solarisation.

use vstd::prelude::*;
use crate::PhotonImage;
use crate::transform::ChannelMask;
use crate::transform::PixelOp;
use crate::transform::apply_op_twice;
use crate::transform::full_mask;
use crate::transform::lemma_map_involution;
use crate::transform::map_pixels;
use crate::transform::map_spec;

verus! {

/// Invert the image: every colour channel `c` becomes `255 - c`; alpha
/// is unchanged.
pub fn invert(img: &mut PhotonImage)
    requires
        old(img).wf(),
    ensures
        final(img).wf(),
        final(img).spec_width() == old(img).spec_width(),
        final(img).spec_height() == old(img).spec_height(),
        final(img).data() == map_spec(old(img).data(), PixelOp::Invert, full_mask()),
{
    map_pixels(img, PixelOp::Invert, ChannelMask::all());
}

/// Solarize the image: colour channels below 128 are inverted, bright
/// channels kept; alpha is unchanged.
pub fn solarize(img: &mut PhotonImage)
    requires
        old(img).wf(),
    ensures
        final(img).wf(),
        final(img).spec_width() == old(img).spec_width(),
        final(img).spec_height() == old(img).spec_height(),
        final(img).data() == map_spec(old(img).data(), PixelOp::Solarize, full_mask()),
{
    map_pixels(img, PixelOp::Solarize, ChannelMask::all());
}

/// Inverting twice restores every byte of the image.
pub proof fn lemma_invert_involution(s: Seq<u8>)
    requires
        s.len() % 4 == 0,
    ensures
        map_spec(map_spec(s, PixelOp::Invert, full_mask()), PixelOp::Invert, full_mask()) =~= s,
{
    assert forall|r: u8, g: u8, b: u8| #[trigger] apply_op_twice(PixelOp::Invert, r, g, b) == (
        r,
        g,
        b,
    ) by {}
    lemma_map_involution(s, PixelOp::Invert);
}

} // verus!
