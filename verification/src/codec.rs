//! The codec boundary: base64 text and encoded image files enter the
//! library here, through trusted wrappers around the `base64` and
//! `image` crates, and leave it as checked `PhotonImage` values.

use vstd::prelude::*;
use crate::PhotonError;
use crate::PhotonImage;
use crate::valid_dims;

verus! {

#[verifier::external_type_specification]
#[verifier::external_body]
pub struct ExDecodeError(base64::DecodeError);

#[verifier::external_type_specification]
#[verifier::external_body]
pub struct ExImageError(image::ImageError);

/// What a base64 text decodes to: the byte sequence when the text is
/// valid standard base64, `None` when it is malformed.
pub uninterp spec fn base64_decoded(s: Seq<char>) -> Option<Seq<u8>>;

/// Relies on base64's `STANDARD` engine `decode`: the result depends
/// on the input text alone, and exactly the malformed texts are
/// errors.
#[verifier::external_body]
fn base64_decode_raw(s: &str) -> (r: Result<Vec<u8>, base64::DecodeError>)
    ensures
        r is Ok <==> base64_decoded(s@) is Some,
        r is Ok ==> r->Ok_0@ == base64_decoded(s@)->0,
{
    base64::Engine::decode(&base64::engine::general_purpose::STANDARD, s)
}

/// Decode a base64 string to its bytes: succeeds on exactly the valid
/// texts, `InvalidArgument` on malformed input.
pub fn base64_to_vec(s: &str) -> (r: Result<Vec<u8>, PhotonError>)
    ensures
        r is Ok <==> base64_decoded(s@) is Some,
        r is Ok ==> r->Ok_0@ == base64_decoded(s@)->0,
        r is Err ==> r == Err::<Vec<u8>, PhotonError>(PhotonError::InvalidArgument),
{
    match base64_decode_raw(s) {
        Ok(v) => Ok(v),
        Err(_) => Err(PhotonError::InvalidArgument),
    }
}

/// What an encoded image file decodes to: its width, height and RGBA8
/// pixels when the bytes are a decodable image, `None` otherwise.
pub uninterp spec fn image_decoded(bytes: Seq<u8>) -> Option<(u32, u32, Seq<u8>)>;

/// Relies on `image::load_from_memory` and
/// `DynamicImage::to_rgba8`: decoding depends on the bytes alone,
/// exactly the undecodable inputs are errors, and a decoded image's
/// RGBA buffer holds four bytes per pixel of its reported dimensions
/// (`ImageBuffer` allocates `width * height * 4` bytes).
#[verifier::external_body]
fn decode_image_raw(bytes: &[u8]) -> (r: Result<(u32, u32, Vec<u8>), image::ImageError>)
    ensures
        r is Ok <==> image_decoded(bytes@) is Some,
        r is Ok ==> {
            let d = image_decoded(bytes@)->0;
            &&& r->Ok_0.0 == d.0
            &&& r->Ok_0.1 == d.1
            &&& r->Ok_0.2@ == d.2
            &&& r->Ok_0.2@.len() == 4 * (r->Ok_0.0 as int) * (r->Ok_0.1 as int)
        },
{
    match image::load_from_memory(bytes) {
        Ok(img) => {
            let w = img.width();
            let h = img.height();
            let data = img.to_rgba8().into_raw();
            Ok((w, h, data))
        },
        Err(e) => Err(e),
    }
}

/// The image a base64 text carries: its base64 decoding fed to the
/// image decoder.
pub open spec fn base64_image_decoded(s: Seq<char>) -> Option<(u32, u32, Seq<u8>)> {
    match base64_decoded(s) {
        Some(bytes) => image_decoded(bytes),
        None => None,
    }
}

/// Whether a decoded file yields an image the container admits.
pub open spec fn decoded_admissible(d: Option<(u32, u32, Seq<u8>)>) -> bool {
    match d {
        Some(t) => valid_dims(t.0, t.1),
        None => false,
    }
}

impl PhotonImage {
    /// Decode an encoded image file (PNG, JPEG) held in a byte vector:
    /// succeeds on exactly the decodable files with in-range
    /// dimensions, producing their RGBA8 pixels; `InvalidArgument`
    /// otherwise.
    pub fn new_from_byteslice(vec: Vec<u8>) -> (res: Result<PhotonImage, PhotonError>)
        ensures
            res is Ok <==> decoded_admissible(image_decoded(vec@)),
            res is Ok ==> {
                let d = image_decoded(vec@)->0;
                &&& res->Ok_0.wf()
                &&& res->Ok_0.spec_width() == d.0
                &&& res->Ok_0.spec_height() == d.1
                &&& res->Ok_0.data() == d.2
            },
            res is Err ==> res == Err::<PhotonImage, PhotonError>(PhotonError::InvalidArgument),
    {
        match decode_image_raw(vec.as_slice()) {
            Ok((w, h, data)) => PhotonImage::new(data, w, h),
            Err(_) => Err(PhotonError::InvalidArgument),
        }
    }

    /// Decode a base64-encoded image file: succeeds on exactly the
    /// valid texts carrying decodable files with in-range dimensions;
    /// `InvalidArgument` otherwise.
    pub fn new_from_base64(base64_str: &str) -> (res: Result<PhotonImage, PhotonError>)
        ensures
            res is Ok <==> decoded_admissible(base64_image_decoded(base64_str@)),
            res is Ok ==> {
                let d = base64_image_decoded(base64_str@)->0;
                &&& res->Ok_0.wf()
                &&& res->Ok_0.spec_width() == d.0
                &&& res->Ok_0.spec_height() == d.1
                &&& res->Ok_0.data() == d.2
            },
            res is Err ==> res == Err::<PhotonImage, PhotonError>(PhotonError::InvalidArgument),
    {
        match base64_to_vec(base64_str) {
            Ok(v) => PhotonImage::new_from_byteslice(v),
            Err(e) => Err(e),
        }
    }
}

} // verus!
