use image_rs::dto::{
    op_from_dto, parse_anchor, parse_resize_mode, AnchorDto, BrightnessQuery, CropQuery,
    DiffQuery, GetImageQuery, InterpolationDto, OpDto, OutputDto, OutputQuery, RealDefaults,
    ResizeModeDto, ResizeQuery, RoundCornerQuery, TemperatureQuery,
};
use image_rs::error::DomainError;
use image_rs::ops::{Op, ResizeMode};
use image_rs::pipeline::Compression;
use image_rs::value_objects::{Anchor, Color, DiffMode, ImageFormat, Interpolation};

fn defaults() -> RealDefaults<f32> {
    RealDefaults { sharpen_radius: 1.0, opacity: 1.0, scale: 0.2, text_size: 24.0 }
}

fn query(format: Option<&str>, quality: Option<u8>, lossless: Option<bool>) -> OutputQuery {
    OutputQuery { format: format.map(|s| s.to_string()), quality, lossless, progressive: None }
}

#[test]
fn output_dto_defaults_to_lossy_82() {
    let o = OutputDto::default().into_spec().unwrap();
    assert_eq!(o.format, None);
    match o.compression {
        Compression::Lossy(q) => assert_eq!(q.value(), 82),
        Compression::Lossless => panic!("expected lossy"),
    }
}

#[test]
fn output_lossless_ignores_bad_quality() {
    let o = query(Some("WEBP"), Some(0), Some(true)).into_spec().unwrap();
    assert_eq!(o.format, Some(ImageFormat::WebP));
    assert_eq!(o.compression, Compression::Lossless);
}

#[test]
fn output_bad_quality_is_rejected() {
    match query(None, Some(101), None).into_spec() {
        Err(DomainError::InvalidArgument(m)) => assert_eq!(m, "quality must be in 1..=100"),
        _ => panic!("expected invalid argument"),
    }
}

#[test]
fn output_unknown_format_is_unsupported() {
    match query(Some("GIF"), None, None).into_spec() {
        Err(DomainError::UnsupportedFormat(m)) => assert_eq!(m, "gif"),
        _ => panic!("expected unsupported format"),
    }
}

#[test]
fn format_endpoint_requires_a_format() {
    match query(None, None, None).into_format_spec() {
        Err(DomainError::InvalidArgument(m)) => assert_eq!(m, "format query parameter is required"),
        _ => panic!("expected invalid argument"),
    }
    assert!(query(Some("png"), None, None).into_format_spec().is_ok());
}

#[test]
fn progressive_endpoint_forces_progressive() {
    let o = query(Some("jpeg"), Some(70), None).into_progressive_spec().unwrap();
    assert!(o.progressive);
    assert_eq!(o.format, Some(ImageFormat::Jpeg));
}

#[test]
fn anchors_parse_in_any_case() {
    assert_eq!(parse_anchor("Top_Left").unwrap(), Anchor::TopLeft);
    assert_eq!(parse_anchor("BR").unwrap(), Anchor::BottomRight);
    assert_eq!(parse_anchor("center").unwrap(), Anchor::Center);
    match parse_anchor("Middle") {
        Err(DomainError::InvalidArgument(m)) => assert_eq!(m, "invalid anchor: middle"),
        _ => panic!("expected invalid argument"),
    }
}

#[test]
fn resize_modes_parse() {
    assert_eq!(parse_resize_mode("FILL").unwrap(), ResizeMode::Fill);
    match parse_resize_mode("stretch") {
        Err(DomainError::InvalidArgument(m)) => assert_eq!(m, "invalid mode: stretch"),
        _ => panic!("expected invalid argument"),
    }
}

#[test]
fn dto_enums_convert() {
    assert_eq!(Anchor::from(AnchorDto::TopRight), Anchor::TopRight);
    assert_eq!(ResizeMode::from(ResizeModeDto::Exact), ResizeMode::Exact);
    assert_eq!(Interpolation::from(InterpolationDto::Lanczos4), Interpolation::Lanczos4);
}

#[test]
fn resize_op_defaults_to_fit_auto() {
    let dto: OpDto<f32, f64> =
        OpDto::Resize { width: Some(100), height: None, mode: None, interpolation: None };
    match op_from_dto(dto, defaults()).unwrap() {
        Op::Resize(s) => {
            assert_eq!(s.mode, ResizeMode::Fit);
            assert_eq!(s.interpolation, Interpolation::Auto);
            assert_eq!(s.width, Some(100));
        }
        _ => panic!("expected a resize"),
    }
}

#[test]
fn rotate_op_reads_background() {
    let dto: OpDto<f32, f64> = OpDto::Rotate { angle: 90.0, background: Some("#f00".to_string()) };
    match op_from_dto(dto, defaults()).unwrap() {
        Op::Rotate(s) => {
            assert_eq!(s.angle, 90.0);
            assert_eq!(s.background, Color { r: 255, g: 0, b: 0, a: 255 });
        }
        _ => panic!("expected a rotate"),
    }
    let dto: OpDto<f32, f64> = OpDto::Rotate { angle: 90.0, background: None };
    match op_from_dto(dto, defaults()).unwrap() {
        Op::Rotate(s) => assert_eq!(s.background, Color { r: 0, g: 0, b: 0, a: 0 }),
        _ => panic!("expected a rotate"),
    }
}

#[test]
fn bad_background_is_rejected() {
    let dto: OpDto<f32, f64> = OpDto::Rotate { angle: 0.0, background: Some("#12".to_string()) };
    match op_from_dto(dto, defaults()) {
        Err(DomainError::InvalidArgument(m)) => assert_eq!(m, "invalid color hex: 12"),
        _ => panic!("expected invalid argument"),
    }
}

#[test]
fn crop_op_needs_an_area() {
    let dto: OpDto<f32, f64> = OpDto::Crop { x: 1, y: 2, width: 0, height: 3 };
    match op_from_dto(dto, defaults()) {
        Err(DomainError::InvalidArgument(m)) => assert_eq!(m, "rect dimensions must be > 0"),
        _ => panic!("expected invalid argument"),
    }
}

#[test]
fn sharpen_radius_defaults() {
    let dto: OpDto<f32, f64> = OpDto::Sharpen { amount: 2.0, radius: None };
    match op_from_dto(dto, defaults()).unwrap() {
        Op::Sharpen(s) => {
            assert_eq!(s.amount, 2.0);
            assert_eq!(s.radius, 1.0);
        }
        _ => panic!("expected a sharpen"),
    }
}

#[test]
fn watermark_image_defaults() {
    let dto: OpDto<f32, f64> = OpDto::WatermarkImage {
        asset: "logo".to_string(),
        position: None,
        opacity: None,
        margin: None,
        scale: None,
    };
    match op_from_dto(dto, defaults()).unwrap() {
        Op::WatermarkImage(w) => {
            assert_eq!(w.asset, "logo");
            assert_eq!(w.position, Anchor::BottomRight);
            assert_eq!(w.opacity, 1.0);
            assert_eq!(w.margin, 16);
            assert_eq!(w.scale, 0.2);
        }
        _ => panic!("expected a watermark"),
    }
}

#[test]
fn watermark_text_checks_color_before_text() {
    let dto: OpDto<f32, f64> = OpDto::WatermarkText {
        text: String::new(),
        font: None,
        size: None,
        color: Some("zz".to_string()),
        position: None,
        margin: None,
        shadow: None,
    };
    match op_from_dto(dto, defaults()) {
        Err(DomainError::InvalidArgument(m)) => assert_eq!(m, "invalid color hex: zz"),
        _ => panic!("expected invalid argument"),
    }
    let dto: OpDto<f32, f64> = OpDto::WatermarkText {
        text: String::new(),
        font: None,
        size: None,
        color: None,
        position: None,
        margin: None,
        shadow: None,
    };
    match op_from_dto(dto, defaults()) {
        Err(DomainError::InvalidArgument(m)) => assert_eq!(m, "watermark text must not be empty"),
        _ => panic!("expected invalid argument"),
    }
}

#[test]
fn watermark_text_defaults() {
    let dto: OpDto<f32, f64> = OpDto::WatermarkText {
        text: "hi".to_string(),
        font: None,
        size: None,
        color: None,
        position: Some(AnchorDto::Top),
        margin: Some(4),
        shadow: Some(true),
    };
    match op_from_dto(dto, defaults()).unwrap() {
        Op::WatermarkText(w) => {
            assert_eq!(w.font, "default");
            assert_eq!(w.size, 24.0);
            assert_eq!(w.color, Color { r: 255, g: 255, b: 255, a: 255 });
            assert_eq!(w.position, Anchor::Top);
            assert_eq!(w.margin, 4);
            assert!(w.shadow);
        }
        _ => panic!("expected a text watermark"),
    }
}

#[test]
fn resize_query_checks_mode_then_interpolation() {
    let q = ResizeQuery {
        width: None,
        height: None,
        mode: Some("bad".to_string()),
        interpolation: Some("worse".to_string()),
        output: OutputQuery::default(),
    };
    match q.into_parts::<f32, f64>() {
        Err(DomainError::InvalidArgument(m)) => assert_eq!(m, "invalid mode: bad"),
        _ => panic!("expected invalid argument"),
    }
    let q = ResizeQuery {
        width: Some(10),
        height: None,
        mode: Some("fit".to_string()),
        interpolation: Some("Lanczos".to_string()),
        output: query(Some("png"), None, None),
    };
    let (op, out) = q.into_parts::<f32, f64>().unwrap();
    match op {
        Op::Resize(s) => assert_eq!(s.interpolation, Interpolation::Lanczos4),
        _ => panic!("expected a resize"),
    }
    assert_eq!(out.format, Some(ImageFormat::Png));
}

#[test]
fn op_queries_check_their_op_before_the_output() {
    let q = CropQuery { x: 0, y: 0, width: 0, height: 1, output: query(Some("gif"), None, None) };
    assert!(matches!(q.into_parts::<f32, f64>(), Err(DomainError::InvalidArgument(_))));
    let q = RoundCornerQuery { radius: 5000, output: OutputQuery::default() };
    match q.into_parts::<f32, f64>() {
        Err(DomainError::InvalidArgument(m)) => assert_eq!(m, "round-corner radius out of range"),
        _ => panic!("expected invalid argument"),
    }
    let q = BrightnessQuery { value: 10, output: query(Some("gif"), None, None) };
    assert!(matches!(q.into_parts::<f32, f64>(), Err(DomainError::UnsupportedFormat(_))));
    let q = TemperatureQuery { value: -100, output: OutputQuery::default() };
    assert!(q.into_parts::<f32, f64>().is_ok());
}

#[test]
fn diff_query_defaults_to_highlight_at_10() {
    let q = DiffQuery { mode: None, threshold: None, output: OutputQuery::default() };
    let (spec, _) = q.into_parts().unwrap();
    assert_eq!(spec.mode, DiffMode::Highlight);
    assert_eq!(spec.threshold, 10);
    let q = DiffQuery { mode: Some("GRAY".to_string()), threshold: Some(3), output: OutputQuery::default() };
    let (spec, _) = q.into_parts().unwrap();
    assert_eq!(spec.mode, DiffMode::Grayscale);
    assert_eq!(spec.threshold, 3);
}

#[test]
fn get_image_query_builds_the_command() {
    let c = GetImageQuery { p: "resize,w_10".to_string() }.into_command("cat.jpg".to_string());
    assert_eq!(c.key, "cat.jpg");
    assert_eq!(c.dsl, "resize,w_10");
}

#[test]
fn short_anchor_codes_match_the_dsl() {
    for code in ["tl", "t", "tr", "l", "c", "r", "bl", "b", "br"] {
        assert_eq!(
            parse_anchor(code).unwrap(),
            image_rs::url_dsl::parse_anchor_short(code).unwrap()
        );
    }
    assert!(image_rs::url_dsl::parse_anchor_short("TL").is_none());
    assert_eq!(parse_anchor("TL").unwrap(), Anchor::TopLeft);
}
