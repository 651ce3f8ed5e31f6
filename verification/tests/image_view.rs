use herdr_reviewr::image_view::{bytes_hash, classify, display_side, ContentKind, MAX_IMAGE_BYTES};
use std::io::Cursor;

fn tiny_png() -> Vec<u8> {
    let img = image::RgbImage::from_pixel(2, 2, image::Rgb([0xff, 0x00, 0x80]));
    let mut buf = Cursor::new(Vec::new());
    image::DynamicImage::ImageRgb8(img)
        .write_to(&mut buf, image::ImageFormat::Png)
        .expect("encode png");
    buf.into_inner()
}

#[test]
fn classify_png_as_image() {
    assert_eq!(classify(&tiny_png()), ContentKind::Image);
}

#[test]
fn classify_text_as_text() {
    assert_eq!(classify(b"fn main() {}\n"), ContentKind::Text);
}

#[test]
fn classify_nul_binary_as_binary() {
    assert_eq!(classify(b"\0\0\0seed\0"), ContentKind::Binary);
}

#[test]
fn classify_empty_as_text() {
    assert_eq!(classify(b""), ContentKind::Text);
}

#[test]
fn classify_corrupt_png_header_with_nul_as_binary() {
    let mut bytes = b"\x89PNG\r\n\x1a\n".to_vec();
    bytes.extend_from_slice(&[0, 0, 0, 1, b'I', b'H', b'D', b'R', 0]);
    assert_eq!(classify(&bytes), ContentKind::Binary);
}

#[test]
fn classify_oversize_as_too_large() {
    let mut bytes = tiny_png();
    bytes.resize(MAX_IMAGE_BYTES + 1, 0);
    assert_eq!(classify(&bytes), ContentKind::TooLarge);
}

#[test]
fn display_side_prefers_new() {
    assert_eq!(display_side(b"old", b"new"), b"new");
    assert_eq!(display_side(b"old", b""), b"old");
    assert_eq!(display_side(b"", b"new"), b"new");
}

#[test]
fn the_content_hash_is_stable_and_tracks_the_bytes() {
    assert_eq!(bytes_hash(b"abc"), bytes_hash(b"abc"));
    assert_ne!(bytes_hash(b"abc"), bytes_hash(b"abd"));
}
