use image_rs::error::DomainError;
use image_rs::ops::{Op, RoundCornerSpec};
use image_rs::pipeline::{run_ops, Compression, OutputSpec, Pipeline};
use image_rs::value_objects::{ImageFormat, Quality};

#[test]
fn jpeg_with_lossless_is_rejected() {
    let output = OutputSpec::new(Some(ImageFormat::Jpeg), Compression::Lossless, false);
    let err = Pipeline::<f32, f64>::new(vec![], output).unwrap_err();
    assert!(matches!(err, DomainError::InvalidArgument(_)));
}

#[test]
fn webp_lossless_is_accepted() {
    let output = OutputSpec::new(Some(ImageFormat::WebP), Compression::Lossless, false);
    assert!(Pipeline::<f32, f64>::new(vec![], output).is_ok());
}

#[test]
fn png_lossless_is_accepted() {
    let output = OutputSpec::new(Some(ImageFormat::Png), Compression::Lossless, false);
    assert!(Pipeline::<f32, f64>::new(vec![], output).is_ok());
}

#[test]
fn alpha_op_with_jpeg_output_is_rejected() {
    let output = OutputSpec::lossy(Some(ImageFormat::Jpeg), Quality::new(80).unwrap(), false);
    let op: Op<f32, f64> = Op::RoundCorner(RoundCornerSpec::new(8).unwrap());
    assert!(matches!(Pipeline::new(vec![op], output), Err(DomainError::InvalidArgument(_))));
}

#[test]
fn alpha_op_with_png_output_is_accepted() {
    let output = OutputSpec::lossy(Some(ImageFormat::Png), Quality::new(80).unwrap(), false);
    let op: Op<f32, f64> = Op::RoundCorner(RoundCornerSpec::new(8).unwrap());
    let p = Pipeline::new(vec![op], output).unwrap();
    assert_eq!(p.ops().len(), 1);
    assert_eq!(p.output().format, Some(ImageFormat::Png));
}

#[test]
fn default_output_keeps_format_at_quality_82() {
    let o = OutputSpec::default();
    assert_eq!(o.format, None);
    assert!(!o.progressive);
    match o.compression {
        Compression::Lossy(q) => assert_eq!(q.value(), 82),
        Compression::Lossless => panic!("expected lossy"),
    }
}

#[test]
fn ops_run_in_order_and_stop_at_the_first_failure() {
    let ops: Vec<Op<(), ()>> = vec![Op::AutoOrient, Op::AutoOrient, Op::AutoOrient];
    let r = run_ops(1u32, &ops, |b: u32, _op: &Op<(), ()>| Ok(b * 10 + 1));
    assert_eq!(r.unwrap(), 1111);

    let seen = std::cell::Cell::new(0u32);
    let r = run_ops(0u32, &ops, |b: u32, _op: &Op<(), ()>| {
        seen.set(seen.get() + 1);
        if b == 2 {
            Err(DomainError::InvalidArgument("boom".to_string()))
        } else {
            Ok(b + 1)
        }
    });
    assert_eq!(seen.get(), 3);
    match r {
        Err(DomainError::OpFailed { op, message }) => {
            assert_eq!(op, "auto_orient");
            assert_eq!(message, "invalid argument: boom");
        }
        other => panic!("expected an op failure, got {other:?}"),
    }

    let r = run_ops(0u32, &ops, |_b: u32, _op: &Op<(), ()>| {
        Err(DomainError::OpFailed { op: "resize", message: "kept".to_string() })
    });
    match r {
        Err(DomainError::OpFailed { op, message }) => {
            assert_eq!(op, "resize");
            assert_eq!(message, "kept");
        }
        other => panic!("expected an op failure, got {other:?}"),
    }

    let none: Vec<Op<(), ()>> = vec![];
    assert_eq!(run_ops(7u32, &none, |b: u32, _op: &Op<(), ()>| Ok(b + 1)).unwrap(), 7);
}
