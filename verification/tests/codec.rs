use photo_filters::codec::{encoded_from, grid_from_loaded};
use photo_filters::{decode, encode, FilterError, PixelGrid, Rgba};

fn px(r: u8, g: u8, b: u8, a: u8) -> Rgba {
    Rgba { r, g, b, a }
}

fn sample() -> PixelGrid {
    let mut pixels = Vec::new();
    for i in 0..12u32 {
        pixels.push(px((i * 20) as u8, (255 - i * 3) as u8, (i * i) as u8, (i * 23) as u8));
    }
    PixelGrid::from_pixels(4, 3, &pixels).unwrap()
}

/// The bytes that the image crate writes for an image in a format.
fn written(image: &image::DynamicImage, format: image::ImageFormat) -> Vec<u8> {
    let mut out = std::io::Cursor::new(Vec::new());
    image.write_to(&mut out, format).unwrap();
    out.into_inner()
}

fn failure() -> image::ImageError {
    image::load_from_memory(&[]).err().unwrap()
}

#[test]
fn decode_of_nothing_fails() {
    assert_eq!(decode(&[]).err(), Some(FilterError::Decode));
}

#[test]
fn decode_of_an_unknown_header_fails() {
    assert_eq!(decode(b"this is no image at all").err(), Some(FilterError::Decode));
    assert_eq!(decode(&[0u8; 64]).err(), Some(FilterError::Decode));
    assert_eq!(decode(&[0x89]).err(), Some(FilterError::Decode));
}

#[test]
fn decode_of_a_truncated_image_fails() {
    let png = encode(&sample()).unwrap();
    for keep in [1usize, 8, 20, 33, 40, png.len() / 2] {
        assert_eq!(decode(&png[..keep]).err(), Some(FilterError::Decode), "{} bytes", keep);
    }
}

#[test]
fn decode_of_a_damaged_image_fails() {
    let mut png = encode(&sample()).unwrap();
    let middle = png.len() / 2;
    for byte in png[20..middle].iter_mut() {
        *byte ^= 0x5a;
    }
    assert_eq!(decode(&png).err(), Some(FilterError::Decode));
}

#[test]
fn decode_of_a_one_by_one_png() {
    let png: [u8; 70] = [
        0x89, 0x50, 0x4e, 0x47, 0x0d, 0x0a, 0x1a, 0x0a, 0x00, 0x00, 0x00, 0x0d, 0x49, 0x48, 0x44,
        0x52, 0x00, 0x00, 0x00, 0x01, 0x00, 0x00, 0x00, 0x01, 0x08, 0x06, 0x00, 0x00, 0x00, 0x1f,
        0x15, 0xc4, 0x89, 0x00, 0x00, 0x00, 0x0d, 0x49, 0x44, 0x41, 0x54, 0x78, 0x9c, 0x63, 0xf8,
        0xcf, 0xc0, 0xf0, 0x1f, 0x00, 0x05, 0x00, 0x01, 0xff, 0x89, 0x99, 0x3d, 0x1d, 0x00, 0x00,
        0x00, 0x00, 0x49, 0x45, 0x4e, 0x44, 0xae, 0x42, 0x60, 0x82,
    ];
    let grid = decode(&png).unwrap();
    assert_eq!((grid.width(), grid.height(), grid.len()), (1, 1, 1));
    assert_eq!(grid.pixel(0), Some(px(255, 0, 0, 255)));
}

#[test]
fn decode_reads_what_the_image_crate_wrote() {
    let grid = sample();
    let buffer = image::RgbaImage::from_raw(4, 3, grid.to_bytes()).unwrap();
    let png = written(&image::DynamicImage::ImageRgba8(buffer), image::ImageFormat::Png);
    let back = decode(&png).unwrap();
    assert_eq!((back.width(), back.height()), (4, 3));
    assert_eq!(back.to_bytes(), grid.to_bytes());
}

#[test]
fn decode_makes_an_image_without_alpha_opaque() {
    let rgb = image::RgbImage::from_raw(2, 2, vec![10, 20, 30, 40, 50, 60, 70, 80, 90, 1, 2, 3])
        .unwrap();
    let image = image::DynamicImage::ImageRgb8(rgb);
    for format in [image::ImageFormat::Png, image::ImageFormat::Bmp, image::ImageFormat::Tiff] {
        let grid = decode(&written(&image, format)).unwrap();
        assert_eq!((grid.width(), grid.height()), (2, 2));
        assert_eq!(
            grid.to_bytes(),
            vec![10, 20, 30, 255, 40, 50, 60, 255, 70, 80, 90, 255, 1, 2, 3, 255]
        );
    }
}

#[test]
fn decode_spreads_gray_over_the_colour_channels() {
    let gray = image::GrayImage::from_raw(3, 1, vec![0, 128, 255]).unwrap();
    let png = written(&image::DynamicImage::ImageLuma8(gray), image::ImageFormat::Png);
    let grid = decode(&png).unwrap();
    assert_eq!(grid.to_bytes(), vec![0, 0, 0, 255, 128, 128, 128, 255, 255, 255, 255, 255]);
}

#[test]
fn decode_tells_the_format_from_the_first_bytes() {
    let rgb = image::RgbImage::from_raw(8, 8, vec![200; 192]).unwrap();
    let image = image::DynamicImage::ImageRgb8(rgb);
    let formats = [
        image::ImageFormat::Jpeg,
        image::ImageFormat::Gif,
        image::ImageFormat::Bmp,
        image::ImageFormat::Pnm,
        image::ImageFormat::Qoi,
    ];
    for format in formats {
        let grid = decode(&written(&image, format)).unwrap();
        assert_eq!((grid.width(), grid.height(), grid.len()), (8, 8, 64), "{:?}", format);
        assert_eq!(grid.pixel(0).unwrap().a, 255);
    }
}

#[test]
fn grid_from_loaded_takes_a_fitting_buffer() {
    let grid = grid_from_loaded(Ok((2, 1, vec![1, 2, 3, 4, 5, 6, 7, 8]))).unwrap();
    assert_eq!((grid.width(), grid.height()), (2, 1));
    assert_eq!(grid.to_bytes(), vec![1, 2, 3, 4, 5, 6, 7, 8]);
}

#[test]
fn grid_from_loaded_refuses_a_buffer_that_does_not_fit() {
    assert_eq!(grid_from_loaded(Ok((2, 1, vec![1, 2, 3, 4]))).err(), Some(FilterError::Decode));
    assert_eq!(grid_from_loaded(Ok((1, 1, vec![0; 5]))).err(), Some(FilterError::Decode));
}

#[test]
fn grid_from_loaded_turns_a_failure_into_a_decode_error() {
    assert_eq!(grid_from_loaded(Err(failure())).err(), Some(FilterError::Decode));
}

#[test]
fn encoded_from_hands_the_bytes_on() {
    assert_eq!(encoded_from(Ok(vec![1, 2, 3])), Ok(vec![1, 2, 3]));
    assert_eq!(encoded_from(Ok(vec![])), Ok(vec![]));
}

#[test]
fn encoded_from_turns_a_failure_into_an_encode_error() {
    assert_eq!(encoded_from(Err(failure())), Err(FilterError::Encode));
}

#[test]
fn encode_writes_a_png_with_alpha() {
    let png = encode(&sample()).unwrap();
    assert_eq!(&png[..8], &[0x89, 0x50, 0x4e, 0x47, 0x0d, 0x0a, 0x1a, 0x0a]);
    assert_eq!(&png[12..16], b"IHDR");
    assert_eq!(&png[16..20], &[0, 0, 0, 4]);
    assert_eq!(&png[20..24], &[0, 0, 0, 3]);
    assert_eq!(png[24], 8);
    assert_eq!(png[25], 6);
    assert_ne!(png, sample().to_bytes());
}

#[test]
fn encode_writes_the_dimensions_most_significant_byte_first() {
    let grid = PixelGrid::new(258, 3, vec![7; 4 * 258 * 3]).unwrap();
    let png = encode(&grid).unwrap();
    assert_eq!(&png[8..16], &[0, 0, 0, 13, 0x49, 0x48, 0x44, 0x52]);
    assert_eq!(&png[16..20], &[0, 0, 1, 2]);
    assert_eq!(&png[20..24], &[0, 0, 0, 3]);
    assert_eq!(&png[24..26], &[8, 6]);
    let back = decode(&png).unwrap();
    assert_eq!((back.width(), back.height()), (258, 3));
}

#[test]
fn encode_refuses_a_grid_without_pixels() {
    for (width, height) in [(0u32, 0u32), (0, 1), (1, 0), (0, 9), (9, 0)] {
        let grid = PixelGrid::new(width, height, vec![]).unwrap();
        assert_eq!(encode(&grid), Err(FilterError::Encode));
    }
}

#[test]
fn encode_twice_gives_the_same_bytes() {
    let grid = sample();
    let first = encode(&grid).unwrap();
    let second = encode(&grid).unwrap();
    let third = encode(&grid.duplicate()).unwrap();
    assert_eq!(first, second);
    assert_eq!(first, third);
}

#[test]
fn encode_then_decode_gives_the_grid() {
    let grid = sample();
    let png = encode(&grid).unwrap();
    let back = decode(&png).unwrap();
    assert_eq!((back.width(), back.height()), (4, 3));
    assert_eq!(back.to_bytes(), grid.to_bytes());
    assert_eq!(encode(&back).unwrap(), png);
}

#[test]
fn encode_then_decode_keeps_colour_under_clear_alpha() {
    let pixels = vec![px(1, 2, 3, 0), px(250, 251, 252, 0), px(9, 8, 7, 1)];
    let grid = PixelGrid::from_pixels(1, 3, &pixels).unwrap();
    let back = decode(&encode(&grid).unwrap()).unwrap();
    assert_eq!(back.to_bytes(), grid.to_bytes());
}
