use image_rs::error::DomainError;
use image_rs::ops::Op;
use image_rs::pipeline::Compression;
use image_rs::url_dsl::{parse, parse_checked, DslFault};
use image_rs::value_objects::{Anchor, Color, ImageFormat};

#[test]
fn parses_simple_resize() {
    let (ops, _) = parse("resize,w_800").unwrap();
    assert_eq!(ops.len(), 1);
    assert!(matches!(ops[0], Op::Resize(_)));
}

#[test]
fn parses_chain_with_format() {
    let (ops, output) =
        parse("resize,w_400,h_300,m_fill/blur,s_2.0/format,f_webp,q_85").unwrap();
    assert_eq!(ops.len(), 2);
    assert_eq!(output.format, Some(ImageFormat::WebP));
    match output.compression {
        Compression::Lossy(q) => assert_eq!(q.value(), 85),
        Compression::Lossless => panic!("expected lossy"),
    }
}

#[test]
fn parses_lossless_webp() {
    let (_, output) = parse("format,f_webp,l_1").unwrap();
    assert_eq!(output.format, Some(ImageFormat::WebP));
    assert_eq!(output.compression, Compression::Lossless);
}

#[test]
fn lossless_flag_overrides_quality() {
    // l_1 wins over q_50
    let (_, output) = parse("format,f_webp,q_50,l_1").unwrap();
    assert_eq!(output.compression, Compression::Lossless);
}

#[test]
fn parses_text_watermark() {
    let (ops, _) = parse("text,t_hello,s_18,c_ff0000ff,p_br/format,f_png").unwrap();
    assert_eq!(ops.len(), 1);
    assert!(matches!(ops[0], Op::WatermarkText(_)));
}

#[test]
fn rejects_unknown_op() {
    assert!(parse("levitate,a_45").is_err());
}

#[test]
fn rejects_resize_with_no_dimensions() {
    assert!(parse("resize,m_fit").is_err());
}

#[test]
fn empty_input_is_empty_pipeline() {
    let (ops, _) = parse("").unwrap();
    assert!(ops.is_empty());
}

#[test]
fn text_watermark_fields_are_read() {
    let (ops, output) = parse("text,t_hello,s_18,c_ff0000ff,p_br/format,f_png").unwrap();
    match &ops[0] {
        Op::WatermarkText(w) => {
            assert_eq!(w.text, "hello");
            assert_eq!(w.font, "default");
            assert_eq!(w.size.key, "s");
            assert_eq!(w.size.text.as_deref(), Some("18"));
            assert_eq!(w.color, Color { r: 255, g: 0, b: 0, a: 255 });
            assert_eq!(w.position, Anchor::BottomRight);
        }
        _ => panic!("expected a text watermark"),
    }
    assert_eq!(output.format, Some(ImageFormat::Png));
}

#[test]
fn unknown_op_is_named_in_the_error() {
    match parse("levitate,a_45") {
        Err(DomainError::InvalidArgument(m)) => assert_eq!(m, "unknown op: levitate"),
        _ => panic!("expected invalid argument"),
    }
}

#[test]
fn resize_without_dimensions_message() {
    match parse("resize,m_fit") {
        Err(DomainError::InvalidArgument(m)) => assert_eq!(m, "resize requires width or height"),
        _ => panic!("expected invalid argument"),
    }
}

#[test]
fn outer_slashes_are_ignored() {
    let (a, oa) = parse("/resize,w_10/format,f_png/").unwrap();
    let (b, ob) = parse("resize,w_10/format,f_png").unwrap();
    assert_eq!(a.len(), b.len());
    assert_eq!(oa, ob);
}

#[test]
fn later_parameter_wins() {
    let (ops, _) = parse("resize,w_10,w_20").unwrap();
    match &ops[0] {
        Op::Resize(s) => assert_eq!(s.width, Some(20)),
        _ => panic!("expected a resize"),
    }
}

#[test]
fn failed_parse_reports_ops_before_the_failure() {
    match parse_checked("resize,w_10/blur,s_1.5/rotate,a_45,bg_zz") {
        Err(e) => {
            assert!(matches!(e.fault, DslFault::Rejected(DomainError::InvalidArgument(_))));
            assert_eq!(e.parsed.len(), 2);
            assert_eq!(e.pending.len(), 1);
            assert_eq!(e.pending[0].text.as_deref(), Some("45"));
        }
        Ok(_) => panic!("expected a failure"),
    }
}

#[test]
fn bad_integer_parameter_is_rejected() {
    match parse("crop,x_a,y_0,w_10,h_10") {
        Err(DomainError::InvalidArgument(m)) => assert_eq!(m, "bad x"),
        _ => panic!("expected invalid argument"),
    }
}

#[test]
fn output_quality_is_truncated_to_a_byte() {
    // q_300 is read as a u32 and narrowed to a byte: 300 mod 256 = 44
    let (_, output) = parse("format,f_jpg,q_300").unwrap();
    match output.compression {
        Compression::Lossy(q) => assert_eq!(q.value(), 44),
        Compression::Lossless => panic!("expected lossy"),
    }
}

#[test]
fn joined_dsl_strings_join_their_ops() {
    let a = "resize,w_400,h_300/format,f_png";
    let b = "blur,s_2.0/rotate,a_90";
    let (ops_a, out_a) = parse(a).unwrap();
    let (ops_b, _) = parse(b).unwrap();
    let (ops, out) = parse(&format!("{a}/{b}")).unwrap();
    assert_eq!(ops.len(), ops_a.len() + ops_b.len());
    assert!(matches!(ops[0], Op::Resize(_)));
    assert!(matches!(ops[1], Op::Blur(_)));
    assert!(matches!(ops[2], Op::Rotate(_)));
    assert_eq!(out.format, out_a.format);
    assert_eq!(out.format, Some(ImageFormat::Png));

    let (_, out2) = parse(&format!("{a}/format,f_webp")).unwrap();
    assert_eq!(out2.format, Some(ImageFormat::WebP));

    assert!(parse(&format!("{a}/bogus")).is_err());
    assert!(parse(&format!("bogus/{b}")).is_err());
}
