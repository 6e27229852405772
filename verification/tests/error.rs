use image_rs::error::DomainError;

#[test]
fn messages_follow_the_display_texts() {
    assert_eq!(DomainError::invalid("x".to_string()).message(), "invalid argument: x");
    assert_eq!(DomainError::PayloadTooLarge.message(), "payload too large");
    assert_eq!(DomainError::Overloaded.message(), "server overloaded");
    assert_eq!(DomainError::op("blur", "boom".to_string()).message(), "operation `blur` failed: boom");
    assert_eq!(DomainError::UnsupportedFormat("gif".to_string()).message(), "unsupported format: gif");
}

#[test]
fn errors_inside_an_op_are_reported_as_that_op() {
    match DomainError::MissingAsset("logo".to_string()).within_op("watermark_image") {
        DomainError::OpFailed { op, message } => {
            assert_eq!(op, "watermark_image");
            assert_eq!(message, "missing asset: logo");
        }
        _ => panic!("expected a failed op"),
    }
    match DomainError::op("crop", "x".to_string()).within_op("resize") {
        DomainError::OpFailed { op, message } => {
            assert_eq!(op, "crop");
            assert_eq!(message, "x");
        }
        _ => panic!("expected a failed op"),
    }
}
