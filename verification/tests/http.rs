use image_rs::error::DomainError;
use image_rs::http::{etag_matches, readiness_status, HttpError};

fn status_of(e: DomainError) -> u16 {
    HttpError::from(e).status()
}

#[test]
fn errors_map_to_statuses_and_codes() {
    assert_eq!(status_of(DomainError::InvalidArgument("x".to_string())), 400);
    assert_eq!(status_of(DomainError::UnsupportedFormat("x".to_string())), 415);
    assert_eq!(status_of(DomainError::PayloadTooLarge), 413);
    assert_eq!(status_of(DomainError::MissingAsset("x".to_string())), 400);
    assert_eq!(status_of(DomainError::Decode("x".to_string())), 400);
    assert_eq!(status_of(DomainError::Encode("x".to_string())), 500);
    assert_eq!(status_of(DomainError::OpFailed { op: "crop", message: "x".to_string() }), 422);
    assert_eq!(status_of(DomainError::Overloaded), 503);
    assert_eq!(status_of(DomainError::Internal("x".to_string())), 500);
    assert_eq!(HttpError(DomainError::Decode("x".to_string())).code(), "decode_failed");
    assert_eq!(HttpError(DomainError::Overloaded).code(), "overloaded");
}

#[test]
fn server_errors_are_5xx() {
    assert!(HttpError(DomainError::Internal(String::new())).is_server_error());
    assert!(!HttpError(DomainError::PayloadTooLarge).is_server_error());
}

#[test]
fn error_body_names_the_failed_op() {
    let b = HttpError(DomainError::OpFailed { op: "crop", message: "rect out of bounds for 4x4".to_string() }).body();
    assert_eq!(b.error, "op_failed");
    assert_eq!(b.message, "operation `crop` failed: rect out of bounds for 4x4");
    assert_eq!(b.op, Some("crop"));
    let b = HttpError(DomainError::InvalidArgument("bad".to_string())).body();
    assert_eq!(b.error, "invalid_argument");
    assert_eq!(b.message, "invalid argument: bad");
    assert_eq!(b.op, None);
}

#[test]
fn readiness_reports_draining_then_saturation() {
    assert_eq!(readiness_status(true, 0), 503);
    assert_eq!(readiness_status(true, 5), 503);
    assert_eq!(readiness_status(false, 0), 429);
    assert_eq!(readiness_status(false, 1), 200);
}

#[test]
fn if_none_match_accepts_tag_or_star() {
    assert!(etag_matches("\"ab\"", "\"ab\""));
    assert!(etag_matches("*", "\"ab\""));
    assert!(!etag_matches("\"ac\"", "\"ab\""));
}
