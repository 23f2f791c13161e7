//! Codec boundary tests: base64 and image-file decoding.

use photon::PhotonError;
use photon::PhotonImage;
use photon::codec::base64_to_vec;

const RED_DOT_PNG: [u8; 70] = [
    137, 80, 78, 71, 13, 10, 26, 10, 0, 0, 0, 13, 73, 72, 68, 82, 0, 0, 0, 1, 0, 0, 0, 1, 8, 6,
    0, 0, 0, 31, 21, 196, 137, 0, 0, 0, 13, 73, 68, 65, 84, 120, 156, 99, 248, 207, 192, 240, 31,
    0, 5, 0, 1, 255, 137, 153, 61, 29, 0, 0, 0, 0, 73, 69, 78, 68, 174, 66, 96, 130,
];

const RED_DOT_B64: &str =
    "iVBORw0KGgoAAAANSUhEUgAAAAEAAAABCAYAAAAfFcSJAAAADUlEQVR4nGP4z8DwHwAFAAH/iZk9HQAAAABJRU5ErkJggg==";

#[test]
fn base64_decodes_text() {
    assert_eq!(base64_to_vec("aGVsbG8=").unwrap(), b"hello".to_vec());
}

#[test]
fn base64_rejects_malformed_text() {
    assert_eq!(base64_to_vec("not base64!!!"), Err(PhotonError::InvalidArgument));
}

#[test]
fn png_bytes_decode_to_red_pixel() {
    let img = PhotonImage::new_from_byteslice(RED_DOT_PNG.to_vec()).unwrap();
    assert_eq!(img.get_width(), 1);
    assert_eq!(img.get_height(), 1);
    assert_eq!(img.get_raw_pixels(), vec![255, 0, 0, 255]);
}

#[test]
fn base64_png_decodes_to_red_pixel() {
    let img = PhotonImage::new_from_base64(RED_DOT_B64).unwrap();
    assert_eq!(img.get_raw_pixels(), vec![255, 0, 0, 255]);
}

#[test]
fn garbage_bytes_are_invalid() {
    assert!(matches!(
        PhotonImage::new_from_byteslice(vec![1, 2, 3, 4, 5]),
        Err(PhotonError::InvalidArgument)
    ));
}

#[test]
fn accessors_and_pixel_io() {
    let mut img = PhotonImage::blank(2, 2).unwrap();
    assert_eq!(img.get_raw_pixels(), vec![0, 0, 0, 255, 0, 0, 0, 255, 0, 0, 0, 255, 0, 0, 0, 255]);
    let px = photon::Rgba::new(9, 8, 7, 6);
    img.set_pixel(1, 1, px).unwrap();
    let got = img.get_pixel(1, 1).unwrap();
    assert_eq!((got.r, got.g, got.b, got.a), (9, 8, 7, 6));
    let mut c = photon::Rgb::new(1, 2, 3);
    c.set_red(10);
    c.set_green(20);
    c.set_blue(30);
    assert_eq!((c.get_red(), c.get_green(), c.get_blue()), (10, 20, 30));
}
