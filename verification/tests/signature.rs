use photo_filters::signature::{detect, has_at, is_recognised, Format};
use photo_filters::{decode, FilterError};

#[test]
fn has_at_finds_a_signature_in_its_place() {
    assert!(has_at(b"GIF89a....", 0, b"GIF89a"));
    assert!(has_at(b"RIFF....WEBP", 8, b"WEBP"));
    assert!(has_at(b"abc", 3, b""));
    assert!(has_at(b"", 0, b""));
}

#[test]
fn has_at_misses_what_is_not_there() {
    assert!(!has_at(b"GIF88a....", 0, b"GIF89a"));
    assert!(!has_at(b"GIF89", 0, b"GIF89a"));
    assert!(!has_at(b"RIFF....WEBP", 7, b"WEBP"));
    assert!(!has_at(b"RIFF....WEBP", 9, b"WEBP"));
    assert!(!has_at(b"abc", 4, b""));
    assert!(!has_at(b"abc", usize::MAX, b"a"));
    assert!(!has_at(b"", 0, b"a"));
}

#[test]
fn is_recognised_knows_every_signature() {
    let openings: [&[u8]; 22] = [
        b"\x89PNG\r\n\x1a\n",
        &[0xff, 0xd8, 0xff],
        b"GIF89a",
        b"GIF87a",
        b"RIFF\x10\x20\x30\x40WEBP",
        b"MM\x00*",
        b"II*\x00",
        b"DDS ",
        b"BM",
        &[0, 0, 1, 0],
        b"#?RADIANCE",
        b"\x00\x00\x01\x02ftypavif",
        &[0x76, 0x2f, 0x31, 0x01],
        b"qoif",
        b"P1",
        b"P2",
        b"P3",
        b"P4",
        b"P5",
        b"P6",
        b"P7",
        b"farbfeld",
    ];
    for opening in openings {
        assert!(is_recognised(opening), "{:?}", opening);
        let mut longer = opening.to_vec();
        longer.extend_from_slice(b"and more");
        assert!(is_recognised(&longer), "{:?}", longer);
        assert!(image::guess_format(opening).is_ok(), "{:?}", opening);
    }
}

#[test]
fn is_recognised_refuses_what_opens_otherwise() {
    let openings: [&[u8]; 14] = [
        b"",
        b"\x89",
        b"\x89PNG\r\n\x1a",
        &[0xff, 0xd8],
        b"GIF88a",
        b"RIFF\x10\x20\x30\x40WEBQ",
        b"RIFF\x10\x20\x30\x40WEB",
        b"B",
        b"P0",
        b"P8",
        b"\x00\x01\x01\x02ftypavif",
        b"farbfel",
        b"<svg></svg>",
        &[0u8; 32],
    ];
    for opening in openings {
        assert!(!is_recognised(opening), "{:?}", opening);
        assert!(image::guess_format(opening).is_err(), "{:?}", opening);
        assert_eq!(decode(opening).err(), Some(FilterError::Decode), "{:?}", opening);
    }
}

/// The format of this library that stands for a format of the image crate.
fn ours(format: image::ImageFormat) -> Format {
    match format {
        image::ImageFormat::Png => Format::Png,
        image::ImageFormat::Jpeg => Format::Jpeg,
        image::ImageFormat::Gif => Format::Gif,
        image::ImageFormat::WebP => Format::WebP,
        image::ImageFormat::Tiff => Format::Tiff,
        image::ImageFormat::Dds => Format::Dds,
        image::ImageFormat::Bmp => Format::Bmp,
        image::ImageFormat::Ico => Format::Ico,
        image::ImageFormat::Hdr => Format::Hdr,
        image::ImageFormat::Avif => Format::Avif,
        image::ImageFormat::OpenExr => Format::OpenExr,
        image::ImageFormat::Qoi => Format::Qoi,
        image::ImageFormat::Pnm => Format::Pnm,
        image::ImageFormat::Farbfeld => Format::Farbfeld,
        other => panic!("{:?} has no signature", other),
    }
}

#[test]
fn detect_names_the_format() {
    assert_eq!(detect(b"\x89PNG\r\n\x1a\n...."), Some(Format::Png));
    assert_eq!(detect(&[0xff, 0xd8, 0xff, 0xe0]), Some(Format::Jpeg));
    assert_eq!(detect(b"GIF87a"), Some(Format::Gif));
    assert_eq!(detect(b"GIF89a"), Some(Format::Gif));
    assert_eq!(detect(b"RIFF....WEBPVP8 "), Some(Format::WebP));
    assert_eq!(detect(b"MM\x00*"), Some(Format::Tiff));
    assert_eq!(detect(b"II*\x00"), Some(Format::Tiff));
    assert_eq!(detect(b"P6\n1 1\n255\n"), Some(Format::Pnm));
    assert_eq!(detect(b"farbfeld"), Some(Format::Farbfeld));
    assert_eq!(detect(b""), None);
    assert_eq!(detect(b"RIFF....WAVE"), None);
}

#[test]
fn detect_lets_the_earlier_signature_decide() {
    assert_eq!(detect(b"\x00\x00\x01\x00ftypavif"), Some(Format::Ico));
    assert_eq!(detect(b"\x00\x00\x00\x20ftypavif"), Some(Format::Avif));
}

#[test]
fn detect_agrees_with_the_image_crate() {
    let mut state: u32 = 0x9e37_79b9;
    let starts: [&[u8]; 10] =
        [b"", b"P", b"GIF8", b"RIFF", b"\x00\x00", b"BM", b"II", b"\xff\xd8", b"\x00\x00\x01\x00", b"qoi"];
    for round in 0..4000usize {
        let mut bytes = starts[round % starts.len()].to_vec();
        let extra = round % 15;
        for _ in 0..extra {
            state ^= state << 13;
            state ^= state >> 17;
            state ^= state << 5;
            let byte = match state % 4 {
                0 => b"PGIF89a7WEBPftypavif"[(state >> 8) as usize % 20],
                1 => 0,
                _ => (state >> 16) as u8,
            };
            bytes.push(byte);
        }
        assert_eq!(detect(&bytes), image::guess_format(&bytes).ok().map(ours), "{:?}", bytes);
    }
}

#[test]
fn is_recognised_agrees_with_the_image_crate() {
    let mut state: u32 = 0x2545_f491;
    let starts: [&[u8]; 8] = [b"", b"P", b"GIF8", b"RIFF", b"\x00\x00", b"BM", b"II", b"\xff\xd8"];
    for round in 0..4000usize {
        let mut bytes = starts[round % starts.len()].to_vec();
        let extra = round % 15;
        for _ in 0..extra {
            state ^= state << 13;
            state ^= state >> 17;
            state ^= state << 5;
            let byte = match state % 4 {
                0 => b"PGIF89a7WEBPftypavif"[(state >> 8) as usize % 20],
                1 => 0,
                _ => (state >> 16) as u8,
            };
            bytes.push(byte);
        }
        assert_eq!(is_recognised(&bytes), image::guess_format(&bytes).is_ok(), "{:?}", bytes);
    }
}
