//! Concrete checks of the library's stated properties.

use photon::PhotonError;
use photon::PhotonImage;
use photon::Rgb;
use photon::channels::channel_add;
use photon::channels::channel_swap;
use photon::colour_spaces::hsl_to_rgb;
use photon::colour_spaces::hsv_to_rgb;
use photon::colour_spaces::hue_rotate;
use photon::colour_spaces::rgb_to_hsl;
use photon::colour_spaces::rgb_to_hsv;
use photon::colour_spaces::srgb_compand;
use photon::colour_spaces::srgb_linearize;
use photon::conv::Kernel;
use photon::conv::box_blur;
use photon::conv::convolve;
use photon::effects::invert;
use photon::effects::solarize;
use photon::monochrome::greyscale;
use photon::monochrome::sepia;
use photon::monochrome::threshold;
use photon::multiple::BlendMode;
use photon::multiple::blend;
use photon::multiple::replace_background;
use photon::transform::Channel;
use photon::transform::ChannelMask;
use photon::transform::PixelOp;
use photon::transform::Space;
use photon::transform::map_pixels;

fn sample_image() -> PhotonImage {
    let bytes = vec![
        10, 20, 30, 255, 200, 100, 50, 128, 0, 0, 0, 255, 255, 255, 255, 0, 13, 77, 201, 9, 250,
        1, 128, 200,
    ];
    PhotonImage::new(bytes, 3, 2).unwrap()
}

#[test]
fn buffer_length_invariant_after_operations() {
    let mut img = sample_image();
    let n = img.get_raw_pixels().len();
    assert_eq!(n, 4 * 3 * 2);
    invert(&mut img);
    assert_eq!(img.get_raw_pixels().len(), n);
    sepia(&mut img);
    assert_eq!(img.get_raw_pixels().len(), n);
    let k = box_blur();
    convolve(&mut img, &k);
    assert_eq!(img.get_raw_pixels().len(), n);
    assert_eq!(img.get_width(), 3);
    assert_eq!(img.get_height(), 2);
}

#[test]
fn alpha_preserved_by_colour_transforms() {
    let orig = sample_image();
    let alphas: Vec<u8> = orig.get_raw_pixels().iter().skip(3).step_by(4).cloned().collect();
    let mut a = sample_image();
    sepia(&mut a);
    let mut b = sample_image();
    greyscale(&mut b);
    let mut c = sample_image();
    solarize(&mut c);
    let mut d = sample_image();
    threshold(&mut d, 100);
    for img in [&a, &b, &c, &d] {
        let got: Vec<u8> = img.get_raw_pixels().iter().skip(3).step_by(4).cloned().collect();
        assert_eq!(got, alphas);
    }
}

#[test]
fn channel_add_saturates() {
    let mut img = PhotonImage::new(vec![250, 20, 30, 77], 1, 1).unwrap();
    channel_add(&mut img, Channel::Red, 100);
    assert_eq!(img.get_raw_pixels(), vec![255, 20, 30, 77]);
    channel_add(&mut img, Channel::Green, -100);
    assert_eq!(img.get_raw_pixels(), vec![255, 0, 30, 77]);
}

#[test]
fn invert_twice_is_identity() {
    let mut img = sample_image();
    let before = img.get_raw_pixels();
    invert(&mut img);
    invert(&mut img);
    assert_eq!(img.get_raw_pixels(), before);
}

#[test]
fn channel_swap_twice_is_identity() {
    let mut img = sample_image();
    let before = img.get_raw_pixels();
    channel_swap(&mut img, Channel::Green, Channel::Blue);
    channel_swap(&mut img, Channel::Green, Channel::Blue);
    assert_eq!(img.get_raw_pixels(), before);
}

#[test]
fn hue_rotation_is_additive_within_tolerance() {
    let mut split = sample_image();
    hue_rotate(&mut split, 40);
    hue_rotate(&mut split, 50);
    let mut joint = sample_image();
    hue_rotate(&mut joint, 90);
    let a = split.get_raw_pixels();
    let b = joint.get_raw_pixels();
    for i in 0..a.len() {
        let d = (a[i] as i32 - b[i] as i32).abs();
        assert!(d <= 2, "byte {} differs by {}", i, d);
    }
}

#[test]
fn colour_space_round_trips_are_exact() {
    let samples: [(u8, u8, u8); 12] = [
        (0, 0, 0),
        (255, 255, 255),
        (255, 0, 0),
        (0, 255, 0),
        (0, 0, 255),
        (10, 20, 30),
        (200, 100, 50),
        (1, 254, 128),
        (128, 128, 128),
        (13, 77, 201),
        (250, 1, 128),
        (99, 100, 101),
    ];
    for (r, g, b) in samples {
        let hsl = rgb_to_hsl(r, g, b);
        assert_eq!(hsl_to_rgb(hsl), (r, g, b), "hsl {:?}", (r, g, b));
        let hsv = rgb_to_hsv(r, g, b);
        assert_eq!(hsv_to_rgb(hsv), (r, g, b), "hsv {:?}", (r, g, b));
        for c in [r, g, b] {
            assert_eq!(srgb_compand(srgb_linearize(c)), c, "linear {}", c);
        }
    }
}

#[test]
fn exhaustive_channel_round_trip_through_linear_srgb() {
    for c in 0..=255u8 {
        assert_eq!(srgb_compand(srgb_linearize(c)), c);
    }
}

#[test]
fn threshold_monotone_in_threshold() {
    let mut low = sample_image();
    threshold(&mut low, 60);
    let mut high = sample_image();
    threshold(&mut high, 180);
    let lo = low.get_raw_pixels();
    let hi = high.get_raw_pixels();
    for px in 0..6 {
        if lo[4 * px] == 0 {
            assert_eq!(hi[4 * px], 0, "raising t revived pixel {}", px);
        }
    }
}

#[test]
fn gain_matching_kernel_keeps_uniform_image() {
    let mut bytes = Vec::new();
    for _ in 0..25 {
        bytes.extend_from_slice(&[70, 140, 210, 31]);
    }
    let before = bytes.clone();
    let mut img = PhotonImage::new(bytes, 5, 5).unwrap();
    let k = box_blur();
    convolve(&mut img, &k);
    assert_eq!(img.get_raw_pixels(), before);
    let k2 = photon::conv::gaussian_blur();
    convolve(&mut img, &k2);
    assert_eq!(img.get_raw_pixels(), before);
}

#[test]
fn edge_magnitude_combines_channels_euclideanly() {
    let a = PhotonImage::new(vec![3, 0, 6, 255], 1, 1).unwrap();
    let b = PhotonImage::new(vec![4, 0, 8, 200], 1, 1).unwrap();
    let m = photon::conv::edge_magnitude(&a, &b).unwrap();
    assert_eq!(m.get_raw_pixels(), vec![5, 0, 10, 255]);
}

#[test]
fn sobel_magnitude_of_uniform_image_is_black() {
    let mut bytes = Vec::new();
    for _ in 0..9 {
        bytes.extend_from_slice(&[50, 100, 150, 255]);
    }
    let mut gx = PhotonImage::new(bytes.clone(), 3, 3).unwrap();
    convolve(&mut gx, &photon::conv::sobel_x());
    let mut gy = PhotonImage::new(bytes, 3, 3).unwrap();
    convolve(&mut gy, &photon::conv::sobel_y());
    let m = photon::conv::edge_magnitude(&gx, &gy).unwrap();
    let out = m.get_raw_pixels();
    for px in 0..9 {
        assert_eq!(&out[4 * px..4 * px + 4], &[0, 0, 0, 255]);
    }
}

#[test]
fn blend_identities() {
    let mut bytes = Vec::new();
    for v in [(10u8, 200u8, 99u8), (0, 255, 128), (77, 3, 250), (1, 2, 3)] {
        bytes.extend_from_slice(&[v.0, v.1, v.2, 255]);
    }
    let base = PhotonImage::new(bytes.clone(), 2, 2).unwrap();
    let black = PhotonImage::blank(2, 2).unwrap();
    let mut white_bytes = Vec::new();
    for _ in 0..4 {
        white_bytes.extend_from_slice(&[255, 255, 255, 255]);
    }
    let white = PhotonImage::new(white_bytes, 2, 2).unwrap();

    let mut screened = PhotonImage::new(bytes.clone(), 2, 2).unwrap();
    blend(&mut screened, &black, BlendMode::Screen).unwrap();
    assert_eq!(screened.get_raw_pixels(), base.get_raw_pixels());

    let mut multiplied = PhotonImage::new(bytes.clone(), 2, 2).unwrap();
    blend(&mut multiplied, &white, BlendMode::Multiply).unwrap();
    assert_eq!(multiplied.get_raw_pixels(), base.get_raw_pixels());

    let mut diffed = PhotonImage::new(bytes.clone(), 2, 2).unwrap();
    let same = PhotonImage::new(bytes.clone(), 2, 2).unwrap();
    blend(&mut diffed, &same, BlendMode::Difference).unwrap();
    let out = diffed.get_raw_pixels();
    for px in 0..4 {
        assert_eq!(&out[4 * px..4 * px + 3], &[0, 0, 0]);
        assert_eq!(out[4 * px + 3], bytes[4 * px + 3]);
    }
}

#[test]
fn grey_average_and_sepia_exact_values() {
    let mut img = PhotonImage::new(vec![10, 20, 30, 77], 1, 1).unwrap();
    photon::monochrome::greyscale_average(&mut img);
    assert_eq!(img.get_raw_pixels(), vec![20, 20, 20, 77]);
    let mut img2 = PhotonImage::new(vec![10, 20, 30, 77], 1, 1).unwrap();
    sepia(&mut img2);
    assert_eq!(img2.get_raw_pixels(), vec![25, 22, 17, 77]);
}

#[test]
fn solarize_inverts_only_dark_channels() {
    let mut img = PhotonImage::new(vec![10, 200, 127, 9], 1, 1).unwrap();
    solarize(&mut img);
    assert_eq!(img.get_raw_pixels(), vec![245, 200, 128, 9]);
}

#[test]
fn hue_rotate_red_by_a_third_turn_gives_green() {
    let mut img = PhotonImage::new(vec![255, 0, 0, 255], 1, 1).unwrap();
    hue_rotate(&mut img, 120);
    assert_eq!(img.get_raw_pixels(), vec![0, 255, 0, 255]);
    hue_rotate(&mut img, 120);
    assert_eq!(img.get_raw_pixels(), vec![0, 0, 255, 255]);
}

#[test]
fn desaturate_gives_achromatic_pixels() {
    let mut img = sample_image();
    photon::colour_spaces::desaturate(&mut img);
    let out = img.get_raw_pixels();
    let orig = sample_image().get_raw_pixels();
    for px in 0..6 {
        assert_eq!(out[4 * px], out[4 * px + 1]);
        assert_eq!(out[4 * px + 1], out[4 * px + 2]);
        assert_eq!(out[4 * px + 3], orig[4 * px + 3]);
    }
}

#[test]
fn lighten_and_darken_move_value_oppositely() {
    let mut up = PhotonImage::new(vec![100, 60, 20, 255], 1, 1).unwrap();
    photon::colour_spaces::lighten(&mut up, Space::Hsv, 20);
    let mut down = PhotonImage::new(vec![100, 60, 20, 255], 1, 1).unwrap();
    photon::colour_spaces::darken(&mut down, Space::Hsv, 20);
    let u = up.get_raw_pixels();
    let d = down.get_raw_pixels();
    assert!(u[0] > 100, "lighten raised the maximum channel: {}", u[0]);
    assert!(d[0] < 100, "darken lowered the maximum channel: {}", d[0]);
    assert_eq!(u[3], 255);
    assert_eq!(d[3], 255);
}

#[test]
fn saturate_full_percent_saturates_hsl() {
    let mut img = PhotonImage::new(vec![150, 100, 100, 255], 1, 1).unwrap();
    photon::colour_spaces::saturate(&mut img, Space::Hsl, 100);
    let out = img.get_raw_pixels();
    assert!(out[0] > 150 && out[1] < 100, "saturation spread the channels: {:?}", out);
}

#[test]
fn channel_mask_limits_transform_to_selected_channels() {
    let mut img = PhotonImage::new(vec![10, 20, 30, 40], 1, 1).unwrap();
    map_pixels(&mut img, PixelOp::Invert, ChannelMask::only(Channel::Red));
    assert_eq!(img.get_raw_pixels(), vec![245, 20, 30, 40]);
}

#[test]
fn composite_semi_transparent_overlay() {
    let mut base = PhotonImage::new(vec![100, 50, 0, 255], 1, 1).unwrap();
    let overlay = PhotonImage::new(vec![200, 100, 50, 128], 1, 1).unwrap();
    photon::multiple::composite(&mut base, &overlay).unwrap();
    assert_eq!(base.get_raw_pixels(), vec![150, 75, 25, 255]);
}

#[test]
fn watermark_clips_to_covered_pixels() {
    let mut base = PhotonImage::blank(2, 2).unwrap();
    let overlay = PhotonImage::new(vec![10, 20, 30, 255], 1, 1).unwrap();
    photon::multiple::watermark(&mut base, &overlay, 1, 0);
    assert_eq!(
        base.get_raw_pixels(),
        vec![0, 0, 0, 255, 10, 20, 30, 255, 0, 0, 0, 255, 0, 0, 0, 255]
    );
}

#[test]
fn kernel_constructor_accepts_valid_shapes() {
    let k = Kernel::new(vec![1, 1, 1, 1, 1, 1, 1, 1, 1], 3, 9, 0).unwrap();
    let mut img = PhotonImage::new(vec![10, 20, 30, 255], 1, 1).unwrap();
    convolve(&mut img, &k);
    assert_eq!(img.get_raw_pixels(), vec![10, 20, 30, 255]);
    assert!(Kernel::new(vec![1; 9], 3, 0, 0).is_err());
    assert!(Kernel::new(vec![200000; 9], 3, 9, 0).is_err());
}

#[test]
fn prewitt_responses_vanish_on_uniform_image() {
    let mut bytes = Vec::new();
    for _ in 0..9 {
        bytes.extend_from_slice(&[50, 100, 150, 255]);
    }
    let mut gx = PhotonImage::new(bytes.clone(), 3, 3).unwrap();
    convolve(&mut gx, &photon::conv::prewitt_x());
    let mut gy = PhotonImage::new(bytes, 3, 3).unwrap();
    convolve(&mut gy, &photon::conv::prewitt_y());
    let m = photon::conv::edge_magnitude(&gx, &gy).unwrap();
    let out = m.get_raw_pixels();
    for px in 0..9 {
        assert_eq!(&out[4 * px..4 * px + 4], &[0, 0, 0, 255]);
    }
}

#[test]
fn replace_background_with_overlay_pixels() {
    let mut base = PhotonImage::new(vec![10, 10, 10, 200, 250, 0, 0, 90], 2, 1).unwrap();
    let overlay = PhotonImage::new(vec![1, 2, 3, 4, 5, 6, 7, 8], 2, 1).unwrap();
    photon::multiple::replace_background_with_image(&mut base, Rgb::new(10, 10, 10), &overlay, 5)
        .unwrap();
    assert_eq!(base.get_raw_pixels(), vec![1, 2, 3, 200, 250, 0, 0, 90]);
    let small = PhotonImage::blank(1, 1).unwrap();
    assert_eq!(
        photon::multiple::replace_background_with_image(
            &mut base,
            Rgb::new(0, 0, 0),
            &small,
            5
        ),
        Err(PhotonError::SizeMismatch)
    );
}

#[test]
fn error_variants_are_reachable() {
    assert_eq!(Rgb::from_bytes(vec![1, 2]), Err(PhotonError::InvalidArgument));
    assert!(matches!(
        PhotonImage::new(vec![0, 0, 0, 255], 2, 1),
        Err(PhotonError::InvalidArgument)
    ));
    let img = PhotonImage::blank(2, 2).unwrap();
    assert_eq!(img.get_pixel(2, 0), Err(PhotonError::OutOfBounds));
    let mut base = PhotonImage::blank(2, 2).unwrap();
    let other = PhotonImage::blank(3, 2).unwrap();
    assert_eq!(blend(&mut base, &other, BlendMode::Multiply), Err(PhotonError::SizeMismatch));
    assert_eq!(
        replace_background(&mut base, Rgb::new(0, 0, 0), Rgb::new(1, 2, 3), 500),
        Err(PhotonError::InvalidArgument)
    );
    assert!(Kernel::new(vec![1, 1, 1, 1], 2, 1, 0).is_err());
}
