use image_rs::error::DomainError;
use image_rs::value_objects::{
    Color, DiffMode, Dimensions, ImageFormat, Interpolation, Quality, Rect,
};

#[test]
fn hex_colors_parse() {
    assert_eq!(Color::parse_hex("#f0a").unwrap(), Color::rgba(0xff, 0x00, 0xaa, 0xff));
    assert_eq!(Color::parse_hex("11223344").unwrap(), Color::rgba(0x11, 0x22, 0x33, 0x44));
    assert_eq!(Color::parse_hex("#0f08").unwrap(), Color::rgba(0x00, 0xff, 0x00, 0x88));
    match Color::parse_hex("#12345") {
        Err(DomainError::InvalidArgument(m)) => assert_eq!(m, "invalid color hex: 12345"),
        _ => panic!("expected invalid argument"),
    }
    assert!(Color::parse_hex("#gg0000").is_err());
}

#[test]
fn hex_slicing_inside_a_character_is_reported() {
    // six bytes, but the second component starts inside `é`
    assert!(Color::parse_hex_checked("aéaa0").is_none());
    assert!(Color::parse_hex_checked("#fff").is_some());
}

#[test]
fn quality_and_dimensions_ranges() {
    assert!(Quality::new(0).is_err());
    assert_eq!(Quality::new(100).unwrap().value(), 100);
    assert!(Quality::new(101).is_err());
    assert!(Dimensions::new(0, 1).is_err());
    assert!(Dimensions::new(16385, 1).is_err());
    assert!(Dimensions::new(16384, 16384).is_ok());
    assert!(Rect::new(0, 0, 1, 0).is_err());
}

#[test]
fn names_read_back() {
    for i in [
        Interpolation::Auto,
        Interpolation::Nearest,
        Interpolation::Linear,
        Interpolation::Cubic,
        Interpolation::Area,
        Interpolation::Lanczos4,
    ] {
        assert_eq!(Interpolation::parse(i.as_str()).unwrap(), i);
    }
    assert_eq!(Interpolation::parse("BICUBIC").unwrap(), Interpolation::Cubic);
    assert_eq!(DiffMode::parse("Abs").unwrap(), DiffMode::Abs);
    assert!(DiffMode::parse("xor").is_err());
}

#[test]
fn formats() {
    assert_eq!(ImageFormat::parse("JPG").unwrap(), ImageFormat::Jpeg);
    assert_eq!(ImageFormat::WebP.extension(), ".webp");
    assert_eq!(ImageFormat::Png.content_type(), "image/png");
    assert!(!ImageFormat::Jpeg.supports_alpha());
}

#[test]
fn formatted_colors_read_back() {
    let samples = [
        Color::rgba(0, 0, 0, 0),
        Color::rgba(255, 255, 255, 255),
        Color::rgba(0x12, 0xab, 0xcd, 0x7f),
        Color::rgba(9, 160, 15, 240),
    ];
    for c in samples {
        let lower = format!("#{:02x}{:02x}{:02x}{:02x}", c.r, c.g, c.b, c.a);
        assert_eq!(Color::parse_hex(&lower).unwrap(), c);
        let upper = format!("{:02X}{:02X}{:02X}", c.r, c.g, c.b);
        assert_eq!(Color::parse_hex(&upper).unwrap(), Color::rgba(c.r, c.g, c.b, 255));
    }
}

#[test]
fn hex_colors_take_only_hex_digits() {
    for s in ["+fffff", "#+fffff", "+f+f+f", "ff+fff", "#-1ffff", "12 456", "#ffffff "] {
        match Color::parse_hex(s) {
            Err(DomainError::InvalidArgument(m)) => {
                assert_eq!(m, format!("invalid color hex: {}", s.strip_prefix('#').unwrap_or(s)))
            }
            other => panic!("expected an invalid argument for {s:?}, got {other:?}"),
        }
    }
}
