use image::{DynamicImage, ImageFormat};
use image_scan::orientation::{Dimensions, Orientation};
use image_scan::probe::{img_orient, probe_decoded, DecodeError};
use std::io::Cursor;

fn jpeg(width: u32, height: u32) -> Vec<u8> {
    let mut bytes = Vec::new();
    DynamicImage::new_rgb8(width, height)
        .write_to(&mut Cursor::new(&mut bytes), ImageFormat::Jpeg)
        .unwrap();
    bytes
}

#[test]
fn landscape_image_is_probed() {
    let probed = img_orient("/p/wide.jpg", &jpeg(8, 5));
    assert_eq!(
        probed,
        Ok(Dimensions { width: 8, height: 5, orientation: Orientation::Landscape })
    );
}

#[test]
fn portrait_image_is_probed() {
    let probed = img_orient("/p/tall.jpg", &jpeg(5, 8));
    assert_eq!(
        probed,
        Ok(Dimensions { width: 5, height: 8, orientation: Orientation::Portrait })
    );
}

#[test]
fn square_image_is_probed() {
    let probed = img_orient("/p/even.jpg", &jpeg(6, 6));
    assert_eq!(probed, Ok(Dimensions { width: 6, height: 6, orientation: Orientation::Square }));
}

#[test]
fn probing_the_same_bytes_twice_gives_the_same() {
    let bytes = jpeg(17, 4);
    assert_eq!(img_orient("/p/a.jpg", &bytes), img_orient("/p/a.jpg", &bytes));
    let broken = &bytes[..bytes.len() / 2];
    assert_eq!(img_orient("/p/a.jpg", broken), img_orient("/p/a.jpg", broken));
}

#[test]
fn truncated_image_fails_with_the_path() {
    let bytes = jpeg(8, 5);
    let error = img_orient("/p/cut.jpg", &bytes[..bytes.len() / 2]).unwrap_err();
    assert_eq!(error.path, "/p/cut.jpg");
    assert!(!error.message.is_empty());
}

#[test]
fn bytes_that_are_no_image_fail() {
    let error = img_orient("/p/text.jpg", b"not an image at all").unwrap_err();
    assert_eq!(error.path, "/p/text.jpg");
    assert!(img_orient("/p/empty.jpg", &[]).is_err());
}

#[test]
fn image_of_another_format_is_no_jpeg() {
    let png_signature: [u8; 8] = [0x89, b'P', b'N', b'G', 0x0d, 0x0a, 0x1a, 0x0a];
    assert!(img_orient("/p/really_png.jpg", &png_signature).is_err());
}

#[test]
fn decoder_answer_becomes_dimensions() {
    assert_eq!(
        probe_decoded("/p/a.jpg", Ok((1920, 1080))),
        Ok(Dimensions { width: 1920, height: 1080, orientation: Orientation::Landscape })
    );
    assert_eq!(
        probe_decoded("/p/a.jpg", Ok((1080, 1920))),
        Ok(Dimensions { width: 1080, height: 1920, orientation: Orientation::Portrait })
    );
    assert_eq!(
        probe_decoded("/p/a.jpg", Ok((0, 0))),
        Ok(Dimensions { width: 0, height: 0, orientation: Orientation::Square })
    );
}

#[test]
fn decoder_message_is_kept_with_the_path() {
    assert_eq!(
        probe_decoded("/p/a.jpg", Err("bad marker".to_string())),
        Err(DecodeError { path: "/p/a.jpg".to_string(), message: "bad marker".to_string() })
    );
}

#[test]
fn error_is_described_in_a_sentence() {
    let error = DecodeError { path: "/p/a.jpg".to_string(), message: "bad marker".to_string() };
    assert_eq!(error.describe(), "Error processing image /p/a.jpg: bad marker");
    let empty = DecodeError { path: String::new(), message: String::new() };
    assert_eq!(empty.describe(), "Error processing image : ");
}
