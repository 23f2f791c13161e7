//! Channel manipulation: add to, zero, or exchange individual R, G, B
//! channels.

use vstd::prelude::*;
use crate::PhotonImage;
use crate::transform::Channel;
use crate::transform::ChannelMask;
use crate::transform::PixelOp;
use crate::transform::apply_op_twice;
use crate::transform::full_mask;
use crate::transform::lemma_map_involution;
use crate::transform::map_pixels;
use crate::transform::map_spec;

verus! {

/// Add a signed amount to one channel of every pixel, saturating into
/// `[0, 255]`; the other channels and alpha are unchanged.
pub fn channel_add(img: &mut PhotonImage, c: Channel, amt: i16)
    requires
        old(img).wf(),
    ensures
        final(img).wf(),
        final(img).spec_width() == old(img).spec_width(),
        final(img).spec_height() == old(img).spec_height(),
        final(img).data() == map_spec(old(img).data(), PixelOp::ChannelAdd(c, amt), full_mask()),
{
    map_pixels(img, PixelOp::ChannelAdd(c, amt), ChannelMask::all());
}

/// Zero one channel of every pixel.
pub fn channel_remove(img: &mut PhotonImage, c: Channel)
    requires
        old(img).wf(),
    ensures
        final(img).wf(),
        final(img).spec_width() == old(img).spec_width(),
        final(img).spec_height() == old(img).spec_height(),
        final(img).data() == map_spec(old(img).data(), PixelOp::ChannelRemove(c), full_mask()),
{
    map_pixels(img, PixelOp::ChannelRemove(c), ChannelMask::all());
}

/// Exchange two channels of every pixel.
pub fn channel_swap(img: &mut PhotonImage, c1: Channel, c2: Channel)
    requires
        old(img).wf(),
    ensures
        final(img).wf(),
        final(img).spec_width() == old(img).spec_width(),
        final(img).spec_height() == old(img).spec_height(),
        final(img).data() == map_spec(old(img).data(), PixelOp::ChannelSwap(c1, c2), full_mask()),
{
    map_pixels(img, PixelOp::ChannelSwap(c1, c2), ChannelMask::all());
}

/// Swapping the same pair of channels twice restores every byte of the
/// image.
pub proof fn lemma_channel_swap_involution(s: Seq<u8>, c1: Channel, c2: Channel)
    requires
        s.len() % 4 == 0,
    ensures
        map_spec(
            map_spec(s, PixelOp::ChannelSwap(c1, c2), full_mask()),
            PixelOp::ChannelSwap(c1, c2),
            full_mask(),
        ) =~= s,
{
    assert forall|r: u8, g: u8, b: u8| #[trigger] apply_op_twice(
        PixelOp::ChannelSwap(c1, c2),
        r,
        g,
        b,
    ) == (r, g, b) by {}
    lemma_map_involution(s, PixelOp::ChannelSwap(c1, c2));
}

} // verus!
