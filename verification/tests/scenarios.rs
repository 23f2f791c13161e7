//! End-to-end scenarios on small images.

use photon::PhotonImage;
use photon::channels::channel_swap;
use photon::colour_spaces::hue_rotate;
use photon::conv::box_blur;
use photon::conv::convolve;
use photon::effects::invert;
use photon::monochrome::threshold;
use photon::multiple::watermark;
use photon::transform::Channel;

fn image_from(bytes: Vec<u8>, w: u32, h: u32) -> PhotonImage {
    PhotonImage::new(bytes, w, h).unwrap()
}

#[test]
fn invert_two_by_one() {
    let mut img = image_from(vec![10, 20, 30, 255, 200, 100, 50, 128], 2, 1);
    invert(&mut img);
    assert_eq!(img.get_raw_pixels(), vec![245, 235, 225, 255, 55, 155, 205, 128]);
}

#[test]
fn threshold_at_128_on_bright_pixel() {
    let mut img = image_from(vec![100, 150, 200, 255], 1, 1);
    threshold(&mut img, 128);
    assert_eq!(img.get_raw_pixels(), vec![255, 255, 255, 255]);
}

#[test]
fn channel_swap_red_blue() {
    let mut img = image_from(vec![10, 20, 30, 40], 1, 1);
    channel_swap(&mut img, Channel::Red, Channel::Blue);
    assert_eq!(img.get_raw_pixels(), vec![30, 20, 10, 40]);
}

#[test]
fn box_blur_three_by_three() {
    let mut bytes = Vec::new();
    for i in 0..9 {
        let v = if i == 4 { 200 } else { 100 };
        bytes.push(v);
        bytes.push(v);
        bytes.push(v);
        bytes.push(255);
    }
    let mut img = image_from(bytes, 3, 3);
    let k = box_blur();
    convolve(&mut img, &k);
    let out = img.get_raw_pixels();
    for px in 0..9 {
        assert_eq!(out[4 * px], 111, "pixel {}", px);
        assert_eq!(out[4 * px + 1], 111);
        assert_eq!(out[4 * px + 2], 111);
        assert_eq!(out[4 * px + 3], 255);
    }
}

#[test]
fn hue_rotate_full_turn_is_identity() {
    let bytes = vec![
        10, 20, 30, 255, 200, 100, 50, 128, 0, 0, 0, 255, 255, 255, 255, 0, 13, 77, 201, 9, 250,
        1, 128, 200,
    ];
    let mut img = image_from(bytes.clone(), 3, 2);
    hue_rotate(&mut img, 360);
    let out = img.get_raw_pixels();
    for i in 0..bytes.len() {
        let d = (out[i] as i32 - bytes[i] as i32).abs();
        assert!(d <= 2, "byte {} moved by {}", i, d);
    }
}

#[test]
fn watermark_wholly_outside_is_identity() {
    let mut base = PhotonImage::blank(10, 10).unwrap();
    let before = base.get_raw_pixels();
    let overlay = PhotonImage::blank(4, 4).unwrap();
    watermark(&mut base, &overlay, 20, 20);
    assert_eq!(base.get_raw_pixels(), before);
}
