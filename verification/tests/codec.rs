use image_rs::codec::{
    bgr_conversion, bgra_conversion, check_pixel_budget, encode_params, inspect_payload,
    read_exif_orientation, sniff_format, strips_alpha, target_format, ColorConversion,
    EncoderFlag,
};
use image_rs::error::DomainError;
use image_rs::pipeline::{Compression, OutputSpec};
use image_rs::value_objects::{ImageFormat, Quality};

fn png_header(width: u32, height: u32) -> Vec<u8> {
    let mut v = vec![0x89, 0x50, 0x4E, 0x47, 0x0D, 0x0A, 0x1A, 0x0A, 0, 0, 0, 0x0D, 0x49, 0x48, 0x44, 0x52];
    v.extend_from_slice(&width.to_be_bytes());
    v.extend_from_slice(&height.to_be_bytes());
    v.extend_from_slice(&[0x08, 0x06, 0, 0, 0, 0x9A, 0x38, 0xC4]);
    v
}

/// A JPEG prefix holding an APP1 Exif segment whose Orientation is `o`.
fn jpeg_with_orientation(o: u16) -> Vec<u8> {
    let tiff: Vec<u8> = vec![
        b'M', b'M', 0, 42, 0, 0, 0, 8, // header, IFD0 at 8
        0, 1, // one entry
        0x01, 0x12, 0, 3, 0, 0, 0, 1, (o >> 8) as u8, o as u8, 0, 0, // Orientation SHORT 1
        0, 0, 0, 0, // no next IFD
    ];
    let mut app1 = b"Exif\0\0".to_vec();
    app1.extend_from_slice(&tiff);
    let len = (app1.len() + 2) as u16;
    let mut v = vec![0xFF, 0xD8, 0xFF, 0xE1, (len >> 8) as u8, len as u8];
    v.extend_from_slice(&app1);
    v.extend_from_slice(&[0xFF, 0xD9]);
    v
}

#[test]
fn magic_bytes_name_the_format() {
    assert_eq!(sniff_format(&[0xFF, 0xD8, 0xFF, 0xE0]).unwrap(), ImageFormat::Jpeg);
    assert_eq!(sniff_format(&png_header(1, 1)).unwrap(), ImageFormat::Png);
    assert_eq!(sniff_format(b"RIFF\0\0\0\0WEBPVP8 ").unwrap(), ImageFormat::WebP);
    match sniff_format(b"GIF89a") {
        Err(DomainError::UnsupportedFormat(m)) => assert_eq!(m, "unknown magic"),
        _ => panic!("expected unsupported format"),
    }
}

#[test]
fn decompression_bomb_is_refused() {
    // 9000 x 9000 = 81 MP > 64 MP
    let big = png_header(9000, 9000);
    assert!(matches!(inspect_payload(&big, 67108864), Err(DomainError::PayloadTooLarge)));
    let small = png_header(100, 100);
    let info = inspect_payload(&small, 67108864).unwrap();
    assert_eq!(info.format, ImageFormat::Png);
    assert_eq!(info.exif_orientation, 1);
}

#[test]
fn pixel_budget_saturates() {
    assert!(matches!(check_pixel_budget(Some((usize::MAX, 2)), u64::MAX - 1), Err(DomainError::PayloadTooLarge)));
    assert!(check_pixel_budget(Some((10, 10)), 100).is_ok());
    assert!(check_pixel_budget(None, 0).is_ok());
}

#[test]
fn exif_orientation_is_read() {
    assert_eq!(read_exif_orientation(&jpeg_with_orientation(6)), Some(6));
    assert_eq!(read_exif_orientation(&png_header(1, 1)), None);
}

#[test]
fn channel_conversions() {
    assert_eq!(bgra_conversion(4).unwrap(), None);
    assert_eq!(bgra_conversion(3).unwrap(), Some(ColorConversion::BgrToBgra));
    assert_eq!(bgra_conversion(1).unwrap(), Some(ColorConversion::GrayToBgra));
    match bgra_conversion(2) {
        Err(DomainError::OpFailed { op, message }) => {
            assert_eq!(op, "channels");
            assert_eq!(message, "unsupported channels: 2");
        }
        _ => panic!("expected a failed op"),
    }
    assert_eq!(bgr_conversion(4).unwrap(), Some(ColorConversion::BgraToBgr));
    match bgr_conversion(-1) {
        Err(DomainError::InvalidArgument(m)) => assert_eq!(m, "diff: unsupported channel count -1"),
        _ => panic!("expected invalid argument"),
    }
}

#[test]
fn encoder_parameters() {
    let q = Quality::new(70).unwrap();
    let jpeg = OutputSpec::new(Some(ImageFormat::Jpeg), Compression::Lossy(q), true);
    assert_eq!(
        encode_params(ImageFormat::Jpeg, &jpeg).unwrap(),
        vec![(EncoderFlag::JpegQuality, 70), (EncoderFlag::JpegProgressive, 1)]
    );
    let lossless = OutputSpec::new(None, Compression::Lossless, false);
    assert_eq!(encode_params(ImageFormat::WebP, &lossless).unwrap(), vec![(EncoderFlag::WebpQuality, 101)]);
    assert_eq!(encode_params(ImageFormat::Png, &lossless).unwrap(), vec![(EncoderFlag::PngCompression, 7)]);
    assert!(matches!(encode_params(ImageFormat::Jpeg, &lossless), Err(DomainError::Encode(_))));
}

#[test]
fn target_format_and_alpha() {
    let o = OutputSpec::new(None, Compression::Lossless, false);
    assert_eq!(target_format(&o, ImageFormat::Png), ImageFormat::Png);
    let o = OutputSpec::new(Some(ImageFormat::Jpeg), Compression::Lossless, false);
    assert_eq!(target_format(&o, ImageFormat::Png), ImageFormat::Jpeg);
    assert!(strips_alpha(ImageFormat::Jpeg, 4));
    assert!(!strips_alpha(ImageFormat::Png, 4));
    assert!(!strips_alpha(ImageFormat::Jpeg, 3));
}

#[test]
fn lossless_output_of_a_jpeg_source_cannot_be_encoded() {
    // the pipeline cannot see the source format, so this passes its checks
    let o = OutputSpec::new(None, Compression::Lossless, false);
    let f = target_format(&o, ImageFormat::Jpeg);
    match encode_params(f, &o) {
        Err(DomainError::Encode(m)) => {
            assert_eq!(m, "jpeg cannot be lossless (should have been caught by Pipeline::new)")
        }
        _ => panic!("expected an encode error"),
    }
}
