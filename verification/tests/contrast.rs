use photo_filters::contrast::{contrast_channel, contrast_pixel};
use photo_filters::{Rgba, Scalar};

fn scalar(x: f32) -> Scalar {
    Scalar::from_bits(x.to_bits())
}

/// What the channels 0, 7, 100, 127, 128, 129, 200 and 255 become.
fn levels(amount: f32) -> [u8; 8] {
    let channels: [u8; 8] = [0, 7, 100, 127, 128, 129, 200, 255];
    let mut out = [0u8; 8];
    for i in 0..8 {
        out[i] = contrast_channel(channels[i], scalar(amount)).unwrap();
    }
    out
}

#[test]
fn contrast_channel_by_whole_amounts() {
    assert_eq!(levels(10.0), [0, 0, 94, 126, 128, 129, 215, 255]);
    assert_eq!(levels(-10.0), [24, 29, 105, 127, 128, 128, 186, 230]);
    assert_eq!(levels(30.0), [0, 0, 80, 126, 128, 129, 249, 255]);
    assert_eq!(levels(25.0), [0, 0, 84, 126, 128, 129, 240, 255]);
    assert_eq!(levels(-25.0), [56, 59, 112, 127, 128, 128, 168, 199]);
}

#[test]
fn contrast_channel_by_fractions() {
    assert_eq!(levels(12.5), [0, 0, 92, 126, 128, 129, 219, 255]);
    assert_eq!(levels(0.1), [0, 6, 99, 126, 128, 129, 200, 255]);
    assert_eq!(levels(-0.1), [0, 7, 100, 127, 128, 128, 199, 254]);
}

#[test]
fn contrast_channel_of_nothing_is_the_channel() {
    for c in 0..=255u8 {
        assert_eq!(contrast_channel(c, scalar(0.0)), Some(c));
        assert_eq!(contrast_channel(c, scalar(-0.0)), Some(c));
    }
}

#[test]
fn contrast_channel_at_minus_hundred_is_the_midpoint() {
    for c in 0..=255u8 {
        assert_eq!(contrast_channel(c, scalar(-100.0)), Some(128));
    }
}

#[test]
fn contrast_channel_at_minus_two_hundred_is_the_channel() {
    for c in 0..=255u8 {
        assert_eq!(contrast_channel(c, scalar(-200.0)), Some(c));
    }
}

#[test]
fn contrast_channel_takes_the_least_amount_for_something() {
    assert_eq!(levels(1.0e-7), [0, 6, 99, 126, 128, 129, 200, 255]);
    assert_eq!(levels(1.0e-45), [0, 6, 99, 126, 128, 129, 200, 255]);
    assert_eq!(levels(-1.0e-40), [0, 7, 100, 127, 128, 128, 199, 254]);
}

#[test]
fn contrast_channel_leaves_black_midpoint_and_white_for_huge_amounts() {
    for amount in [1.0e9f32, -1.0e9, 3.0e38, -3.0e38, f32::MAX, f32::MIN] {
        assert_eq!(levels(amount), [0, 0, 0, 0, 128, 255, 255, 255]);
    }
}

#[test]
fn contrast_channel_agrees_with_double_precision() {
    for amount in [-150.0f32, -60.0, -10.0, -0.75, 0.5, 3.25, 10.0, 40.0, 150.0] {
        for c in 0..=255u8 {
            let factor = ((100.0 + amount as f64) / 100.0).powi(2);
            let exact = (c as f64 - 128.0) * factor + 128.0;
            if (exact - exact.round()).abs() < 1.0e-9 {
                continue;
            }
            let expected = exact.floor().clamp(0.0, 255.0) as u8;
            assert_eq!(contrast_channel(c, scalar(amount)), Some(expected), "{} {}", c, amount);
        }
    }
}

#[test]
fn contrast_channel_has_nothing_for_an_amount_that_is_not_finite() {
    for amount in [f32::NAN, f32::INFINITY, f32::NEG_INFINITY] {
        assert_eq!(contrast_channel(9, scalar(amount)), None);
    }
    assert_eq!(contrast_channel(9, Scalar::from_bits(0xffc0_0000)), None);
}

#[test]
fn contrast_pixel_keeps_alpha() {
    let p = Rgba { r: 0, g: 100, b: 200, a: 33 };
    let out = contrast_pixel(p, scalar(10.0));
    assert_eq!(out, Some(Rgba { r: 0, g: 94, b: 215, a: 33 }));
    assert_eq!(contrast_pixel(p, scalar(f32::NAN)), None);
}
