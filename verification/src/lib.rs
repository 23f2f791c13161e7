//! In-memory raster image processing: an RGBA8 image container with
//! per-pixel transforms, colour-space adjustments, convolutions and
//! two-image compositing, all specified and verified down to the byte.
//!
//! An image is a contiguous row-major buffer of interleaved R,G,B,A bytes
//! whose length is always `4 * width * height`.  Transforms mutate the
//! buffer in place; two-image operations read the overlay without
//! mutating it.  Every public operation that can fail returns a
//! [`PhotonError`] and leaves the image byte-for-byte unchanged.

use vstd::prelude::*;

pub mod channels;
pub mod codec;
pub mod colour_spaces;
pub mod conv;
pub mod effects;
pub mod monochrome;
pub mod multiple;
pub mod transform;

verus! {

/// Error taxonomy of the library. Every public operation that can fail
/// returns one of these; no verified operation panics.
#[derive(Clone, Copy, Debug, PartialEq, Eq, Structural)]
pub enum PhotonError {
    /// Malformed construction input (wrong byte count, bad kernel shape,
    /// parameter out of range, undecodable data).
    InvalidArgument,
    /// A pixel accessor was called with coordinates outside the image.
    OutOfBounds,
    /// A two-image operation was given images of differing dimensions.
    SizeMismatch,
}

/// RGB colour: three 8-bit components, used as a parameter value
/// (background colours, replacement colours, and the like).
#[derive(Clone, Copy, Debug, PartialEq, Eq, Structural)]
pub struct Rgb {
    pub r: u8,
    pub g: u8,
    pub b: u8,
}

/// One RGBA pixel: four 8-bit components in the image's channel order.
#[derive(Clone, Copy, Debug, PartialEq, Eq, Structural)]
pub struct Rgba {
    pub r: u8,
    pub g: u8,
    pub b: u8,
    pub a: u8,
}

impl Rgb {
    pub fn new(r: u8, g: u8, b: u8) -> (c: Rgb)
        ensures
            c == (Rgb { r, g, b }),
    {
        Rgb { r, g, b }
    }

    /// Build an RGB colour from a byte vector; the vector must hold
    /// exactly three bytes, else `InvalidArgument`.
    pub fn from_bytes(bytes: Vec<u8>) -> (res: Result<Rgb, PhotonError>)
        ensures
            bytes@.len() == 3 ==> res == Ok::<Rgb, PhotonError>(Rgb {
                r: bytes@[0],
                g: bytes@[1],
                b: bytes@[2],
            }),
            bytes@.len() != 3 ==> res == Err::<Rgb, PhotonError>(PhotonError::InvalidArgument),
    {
        if bytes.len() != 3 {
            return Err(PhotonError::InvalidArgument);
        }
        Ok(Rgb { r: bytes[0], g: bytes[1], b: bytes[2] })
    }

    pub fn get_red(&self) -> (r: u8)
        ensures
            r == self.r,
    {
        self.r
    }

    pub fn get_green(&self) -> (g: u8)
        ensures
            g == self.g,
    {
        self.g
    }

    pub fn get_blue(&self) -> (b: u8)
        ensures
            b == self.b,
    {
        self.b
    }

    pub fn set_red(&mut self, r: u8)
        ensures
            *final(self) == (Rgb { r, ..*old(self) }),
    {
        self.r = r;
    }

    pub fn set_green(&mut self, g: u8)
        ensures
            *final(self) == (Rgb { g, ..*old(self) }),
    {
        self.g = g;
    }

    pub fn set_blue(&mut self, b: u8)
        ensures
            *final(self) == (Rgb { b, ..*old(self) }),
    {
        self.b = b;
    }
}

impl Rgba {
    pub fn new(r: u8, g: u8, b: u8, a: u8) -> (p: Rgba)
        ensures
            p == (Rgba { r, g, b, a }),
    {
        Rgba { r, g, b, a }
    }
}

/// Dimensions a raster image may have: both sides at least one pixel
/// and at most `2^31 - 1`.
pub open spec fn valid_dims(width: u32, height: u32) -> bool {
    &&& 1 <= width <= 0x7fff_ffff
    &&& 1 <= height <= 0x7fff_ffff
}

/// Row-major addressing stays inside the buffer.
pub proof fn lemma_row_major(x: int, y: int, w: int, h: int)
    requires
        0 <= x < w,
        0 <= y < h,
    ensures
        0 <= y * w,
        0 <= y * w + x,
        y * w + x < w * h,
        4 * (y * w + x) + 4 <= 4 * w * h,
{
    assert(0 <= y * w && 0 <= y * w + x && y * w + x < w * h && 4 * (y * w + x) + 4 <= 4 * w
        * h) by (nonlinear_arith)
        requires
            0 <= x < w,
            0 <= y < h,
    ;
}

/// The image container: width, height and a row-major RGBA8 byte buffer.
/// The buffer length is `4 * width * height` at all times; width and
/// height never change after construction.
#[derive(Clone, Debug)]
pub struct PhotonImage {
    pub(crate) raw_pixels: Vec<u8>,
    pub(crate) width: u32,
    pub(crate) height: u32,
}

impl PhotonImage {
    /// The image width, for use in contracts.
    pub closed spec fn spec_width(&self) -> u32 {
        self.width
    }

    /// The image height, for use in contracts.
    pub closed spec fn spec_height(&self) -> u32 {
        self.height
    }

    /// The byte buffer, for use in contracts.
    pub closed spec fn data(&self) -> Seq<u8> {
        self.raw_pixels@
    }

    /// Well-formedness: the structural invariant every constructed image
    /// has and every operation preserves.
    pub open spec fn wf(&self) -> bool {
        &&& valid_dims(self.spec_width(), self.spec_height())
        &&& self.data().len() == 4 * (self.spec_width() as int) * (self.spec_height() as int)
    }

    /// Two images agree in width and height.
    pub open spec fn same_dims(&self, other: &PhotonImage) -> bool {
        self.spec_width() == other.spec_width() && self.spec_height() == other.spec_height()
    }

    /// Construct an image from raw bytes, checking that the byte count
    /// matches the dimensions; `InvalidArgument` otherwise.
    pub fn new(raw_pixels: Vec<u8>, width: u32, height: u32) -> (res: Result<
        PhotonImage,
        PhotonError,
    >)
        ensures
            (valid_dims(width, height) && raw_pixels@.len() == 4 * (width as int) * (
            height as int)) ==> {
                &&& res is Ok
                &&& res->Ok_0.wf()
                &&& res->Ok_0.spec_width() == width
                &&& res->Ok_0.spec_height() == height
                &&& res->Ok_0.data() == raw_pixels@
            },
            !(valid_dims(width, height) && raw_pixels@.len() == 4 * (width as int) * (
            height as int)) ==> res == Err::<PhotonImage, PhotonError>(
                PhotonError::InvalidArgument,
            ),
    {
        if width < 1 || width > 0x7fff_ffff || height < 1 || height > 0x7fff_ffff {
            return Err(PhotonError::InvalidArgument);
        }
        proof {
            assert(4 * (width as u128) * (height as u128) < u128::MAX) by (nonlinear_arith)
                requires
                    width <= 0x7fff_ffffu32,
                    height <= 0x7fff_ffffu32,
            ;
        }
        let expected: u128 = 4 * (width as u128) * (height as u128);
        if (raw_pixels.len() as u128) != expected {
            return Err(PhotonError::InvalidArgument);
        }
        Ok(PhotonImage { raw_pixels, width, height })
    }

    /// Construct a blank image of the given dimensions: every pixel is
    /// opaque black `(0, 0, 0, 255)`.
    pub fn blank(width: u32, height: u32) -> (res: Result<PhotonImage, PhotonError>)
        ensures
            valid_dims(width, height) ==> {
                &&& res is Ok
                &&& res->Ok_0.wf()
                &&& res->Ok_0.spec_width() == width
                &&& res->Ok_0.spec_height() == height
                &&& forall|i: int|
                    0 <= i < res->Ok_0.data().len() ==> res->Ok_0.data()[i] == (if i % 4 == 3 {
                        255u8
                    } else {
                        0u8
                    })
            },
            !valid_dims(width, height) ==> res == Err::<PhotonImage, PhotonError>(
                PhotonError::InvalidArgument,
            ),
    {
        if width < 1 || width > 0x7fff_ffff || height < 1 || height > 0x7fff_ffff {
            return Err(PhotonError::InvalidArgument);
        }
        proof {
            assert(0 <= 4 * (width as int) * (height as int) <= 0xffff_ffff_ffff_ffff)
                by (nonlinear_arith)
                requires
                    1 <= width <= 0x7fff_ffffu32,
                    1 <= height <= 0x7fff_ffffu32,
            ;
        }
        let n: u64 = 4u64 * (width as u64) * (height as u64);
        let mut v: Vec<u8> = Vec::new();
        let mut i: u64 = 0;
        while i < n
            invariant
                i <= n,
                v@.len() == i,
                forall|j: int| 0 <= j < i ==> v@[j] == (if j % 4 == 3 { 255u8 } else { 0u8 }),
            decreases n - i,
        {
            if i % 4 == 3 {
                v.push(255u8);
            } else {
                v.push(0u8);
            }
            i += 1;
        }
        Ok(PhotonImage { raw_pixels: v, width, height })
    }

    /// Image width in pixels.
    pub fn get_width(&self) -> (w: u32)
        ensures
            w == self.spec_width(),
    {
        self.width
    }

    /// Image height in pixels.
    pub fn get_height(&self) -> (h: u32)
        ensures
            h == self.spec_height(),
    {
        self.height
    }

    /// A copy of the raw byte buffer.
    pub fn get_raw_pixels(&self) -> (v: Vec<u8>)
        ensures
            v@ == self.data(),
    {
        self.raw_pixels.clone()
    }

    /// Read the pixel at `(x, y)`; `OutOfBounds` when the coordinates
    /// fall outside `[0, width) x [0, height)`.
    pub fn get_pixel(&self, x: u32, y: u32) -> (res: Result<Rgba, PhotonError>)
        requires
            self.wf(),
        ensures
            (x < self.spec_width() && y < self.spec_height()) ==> {
                let base = 4 * ((y as int) * (self.spec_width() as int) + (x as int));
                res == Ok::<Rgba, PhotonError>(Rgba {
                    r: self.data()[base],
                    g: self.data()[base + 1],
                    b: self.data()[base + 2],
                    a: self.data()[base + 3],
                })
            },
            !(x < self.spec_width() && y < self.spec_height()) ==> res == Err::<
                Rgba,
                PhotonError,
            >(PhotonError::OutOfBounds),
    {
        if x >= self.width || y >= self.height {
            return Err(PhotonError::OutOfBounds);
        }
        let _buf_len: usize = self.raw_pixels.len();
        proof {
            lemma_row_major(x as int, y as int, self.width as int, self.height as int);
        }
        let base: usize = 4 * ((y as usize) * (self.width as usize) + (x as usize));
        Ok(
            Rgba {
                r: self.raw_pixels[base],
                g: self.raw_pixels[base + 1],
                b: self.raw_pixels[base + 2],
                a: self.raw_pixels[base + 3],
            },
        )
    }

    /// Write the pixel at `(x, y)`; `OutOfBounds` when the coordinates
    /// fall outside the image, in which case nothing changes.
    pub fn set_pixel(&mut self, x: u32, y: u32, px: Rgba) -> (res: Result<(), PhotonError>)
        requires
            old(self).wf(),
        ensures
            final(self).wf(),
            final(self).spec_width() == old(self).spec_width(),
            final(self).spec_height() == old(self).spec_height(),
            (x < old(self).spec_width() && y < old(self).spec_height()) ==> {
                let base = 4 * ((y as int) * (old(self).spec_width() as int) + (x as int));
                &&& res is Ok
                &&& final(self).data() == old(self).data().update(base, px.r).update(
                    base + 1,
                    px.g,
                ).update(base + 2, px.b).update(base + 3, px.a)
            },
            !(x < old(self).spec_width() && y < old(self).spec_height()) ==> {
                &&& res == Err::<(), PhotonError>(PhotonError::OutOfBounds)
                &&& final(self).data() == old(self).data()
            },
    {
        if x >= self.width || y >= self.height {
            return Err(PhotonError::OutOfBounds);
        }
        let _buf_len: usize = self.raw_pixels.len();
        proof {
            lemma_row_major(x as int, y as int, self.width as int, self.height as int);
        }
        let base: usize = 4 * ((y as usize) * (self.width as usize) + (x as usize));
        self.raw_pixels.set(base, px.r);
        self.raw_pixels.set(base + 1, px.g);
        self.raw_pixels.set(base + 2, px.b);
        self.raw_pixels.set(base + 3, px.a);
        Ok(())
    }
}

} // verus!
