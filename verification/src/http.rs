//! How the HTTP layer answers: the status and body of an error, the
//! readiness probe, and conditional requests.

use vstd::prelude::*;
use crate::error::{DomainError, error_text};

verus! {

/// A domain error as the HTTP layer reports it.
#[derive(Debug)]
pub struct HttpError(pub DomainError);

impl From<DomainError> for HttpError {
    fn from(e: DomainError) -> (h: HttpError) {
        HttpError(e)
    }
}

impl vstd::std_specs::convert::FromSpecImpl<DomainError> for HttpError {
    open spec fn obeys_from_spec() -> bool {
        true
    }

    open spec fn from_spec(v: DomainError) -> HttpError {
        HttpError(v)
    }
}

/// The status code each kind of error is answered with.
pub open spec fn error_status(e: DomainError) -> u16 {
    match e {
        DomainError::InvalidArgument(_) => 400,
        DomainError::UnsupportedFormat(_) => 415,
        DomainError::PayloadTooLarge => 413,
        DomainError::MissingAsset(_) => 400,
        DomainError::Decode(_) => 400,
        DomainError::Encode(_) => 500,
        DomainError::OpFailed { .. } => 422,
        DomainError::Overloaded => 503,
        DomainError::Internal(_) => 500,
    }
}

/// The stable machine-readable code of each kind of error.
pub open spec fn error_code(e: DomainError) -> Seq<char> {
    match e {
        DomainError::InvalidArgument(_) => "invalid_argument"@,
        DomainError::UnsupportedFormat(_) => "unsupported_format"@,
        DomainError::PayloadTooLarge => "payload_too_large"@,
        DomainError::MissingAsset(_) => "missing_asset"@,
        DomainError::Decode(_) => "decode_failed"@,
        DomainError::Encode(_) => "encode_failed"@,
        DomainError::OpFailed { .. } => "op_failed"@,
        DomainError::Overloaded => "overloaded"@,
        DomainError::Internal(_) => "internal"@,
    }
}

/// The JSON body of an error response: `{"error": code, "message": text}`,
/// with `"op"` added for a failed op.
#[derive(Debug)]
pub struct ErrorBody {
    pub error: &'static str,
    pub message: String,
    pub op: Option<&'static str>,
}

impl HttpError {
    pub fn status(&self) -> (s: u16)
        ensures
            s == error_status(self.0),
    {
        match &self.0 {
            DomainError::InvalidArgument(_) => 400,
            DomainError::UnsupportedFormat(_) => 415,
            DomainError::PayloadTooLarge => 413,
            DomainError::MissingAsset(_) => 400,
            DomainError::Decode(_) => 400,
            DomainError::Encode(_) => 500,
            DomainError::OpFailed { .. } => 422,
            DomainError::Overloaded => 503,
            DomainError::Internal(_) => 500,
        }
    }

    pub fn code(&self) -> (c: &'static str)
        ensures
            c@ == error_code(self.0),
    {
        match &self.0 {
            DomainError::InvalidArgument(_) => "invalid_argument",
            DomainError::UnsupportedFormat(_) => "unsupported_format",
            DomainError::PayloadTooLarge => "payload_too_large",
            DomainError::MissingAsset(_) => "missing_asset",
            DomainError::Decode(_) => "decode_failed",
            DomainError::Encode(_) => "encode_failed",
            DomainError::OpFailed { .. } => "op_failed",
            DomainError::Overloaded => "overloaded",
            DomainError::Internal(_) => "internal",
        }
    }

    /// Server-side failures (5xx) are logged as errors, the rest as
    /// warnings.
    pub fn is_server_error(&self) -> (b: bool)
        ensures
            b == (500 <= error_status(self.0) <= 599),
    {
        let s = self.status();
        500 <= s && s <= 599
    }

    pub fn body(&self) -> (b: ErrorBody)
        ensures
            b.error@ == error_code(self.0),
            b.message@ == error_text(self.0),
            self.0 matches DomainError::OpFailed { op, .. } ==> b.op == Some(op),
            !(self.0 is OpFailed) ==> b.op is None,
    {
        let op = match &self.0 {
            DomainError::OpFailed { op, .. } => Some(*op),
            _ => None,
        };
        ErrorBody { error: self.code(), message: self.0.message(), op }
    }
}

/// The answer of the readiness probe: 503 while draining, 429 when no job
/// slot is free, 200 otherwise.
pub open spec fn readiness(draining: bool, available: nat) -> u16 {
    if draining {
        503
    } else if available == 0 {
        429
    } else {
        200
    }
}

pub fn readiness_status(draining: bool, available: usize) -> (s: u16)
    ensures
        s == readiness(draining, available as nat),
{
    if draining {
        503
    } else if available == 0 {
        429
    } else {
        200
    }
}

/// An `If-None-Match` header matches the entity tag when it names it or is
/// `*`; the answer is then `304 Not Modified`.
pub fn etag_matches(if_none_match: &str, etag: &str) -> (b: bool)
    ensures
        b == (if_none_match@ == etag@ || if_none_match@ == "*"@),
{
    crate::text::str_eq(if_none_match, etag) || crate::text::str_eq(if_none_match, "*")
}

/// Every error is answered with a client (4xx) or server (5xx) status; the
/// server statuses are those of encoder failures, internal errors and
/// overload.
pub proof fn error_status_class(e: DomainError)
    ensures
        400 <= error_status(e) <= 599,
        error_status(e) >= 500 <==> (e is Encode || e is Internal || e is Overloaded),
{
}

} // verus!
