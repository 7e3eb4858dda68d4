use pathtracer::image::{Image, RGBA};
use pathtracer::png_encoding::PngError;

const SIGNATURE: [u8; 8] = [137, 80, 78, 71, 13, 10, 26, 10];

fn sample() -> Image {
    let mut img = Image::empty(3, 2);
    img.set(0, 0, RGBA { r: 255, g: 0, b: 0, a: 255 });
    img.set(1, 0, RGBA { r: 0, g: 255, b: 0, a: 128 });
    img.set(2, 1, RGBA { r: 12, g: 34, b: 56, a: 78 });
    img
}

#[test]
fn png_starts_with_the_signature_and_header() {
    let mut out = Vec::new();
    assert!(sample().write_png(&mut out).is_ok());
    assert_eq!(&out[..8], &SIGNATURE[..]);
    assert_eq!(&out[12..16], &b"IHDR"[..]);
    assert_eq!(&out[16..20], &[0u8, 0, 0, 3][..]);
    assert_eq!(&out[20..24], &[0u8, 0, 0, 2][..]);
    assert_eq!(out[24], 8);
    assert_eq!(out[25], 6);
    assert_eq!(&out[out.len() - 8..out.len() - 4], &b"IEND"[..]);
}

#[test]
fn png_decodes_to_the_same_pixels() {
    let img = sample();
    let mut out = Vec::new();
    assert!(img.write_png(&mut out).is_ok());
    assert_ne!(&out[..], img.as_bytes());
    let decoder = png::Decoder::new(&out[..]);
    let (info, mut reader) = decoder.read_info().unwrap();
    assert_eq!(info.width, 3);
    assert_eq!(info.height, 2);
    assert_eq!(info.color_type, png::ColorType::RGBA);
    assert_eq!(info.bit_depth, png::BitDepth::Eight);
    let mut pixels = vec![0u8; info.buffer_size()];
    reader.next_frame(&mut pixels).unwrap();
    assert_eq!(&pixels[..], img.as_bytes());
}

#[test]
fn png_is_the_same_each_time() {
    let img = sample();
    let mut first = Vec::new();
    let mut second = Vec::new();
    assert!(img.write_png(&mut first).is_ok());
    assert!(img.write_png(&mut second).is_ok());
    assert_eq!(first, second);
}

#[test]
fn png_is_appended_to_the_buffer() {
    let img = sample();
    let mut alone = Vec::new();
    assert!(img.write_png(&mut alone).is_ok());
    let mut out = b"head".to_vec();
    assert!(img.write_png(&mut out).is_ok());
    assert_eq!(&out[..4], &b"head"[..]);
    assert_eq!(&out[4..], &alone[..]);
}

#[test]
fn png_refuses_zero_width() {
    let img = Image::empty(0, 2);
    let mut out = b"head".to_vec();
    let r = img.write_png(&mut out);
    assert!(matches!(r, Err(PngError::Format(_))));
    assert_eq!(&out[..4], &b"head"[..]);
}

#[test]
fn png_refuses_zero_height() {
    let img = Image::empty(2, 0);
    let mut out = Vec::new();
    match img.write_png(&mut out) {
        Err(PngError::Format(text)) => assert!(text.contains("height")),
        other => panic!("unexpected result: {:?}", other),
    }
}
