use vstd::prelude::*;

verus! {

/// Errors of the domain layer.
#[derive(Debug, Clone)]
pub enum DomainError {
    InvalidArgument(String),
    UnsupportedFormat(String),
    PayloadTooLarge,
    MissingAsset(String),
    Decode(String),
    Encode(String),
    OpFailed { op: &'static str, message: String },
    Overloaded,
    Internal(String),
}

/// `e` is `InvalidArgument` carrying exactly the message `m`.
pub open spec fn is_invalid_with(e: DomainError, m: Seq<char>) -> bool {
    e matches DomainError::InvalidArgument(s) && s@ == m
}

/// `r` failed with `InvalidArgument` carrying exactly the message `m`.
pub open spec fn fails_invalid<T>(r: Result<T, DomainError>, m: Seq<char>) -> bool {
    r matches Err(e) && is_invalid_with(e, m)
}

impl DomainError {
    pub fn invalid(msg: String) -> (e: Self)
        ensures
            is_invalid_with(e, msg@),
    {
        DomainError::InvalidArgument(msg)
    }

    pub fn op(op: &'static str, msg: String) -> (e: Self)
        ensures
            e matches DomainError::OpFailed { op: o, message: m } && o@ == op@ && m@ == msg@,
    {
        DomainError::OpFailed { op, message: msg }
    }
}

/// The display text of an error.
pub open spec fn error_text(e: DomainError) -> Seq<char> {
    match e {
        DomainError::InvalidArgument(m) => "invalid argument: "@ + m@,
        DomainError::UnsupportedFormat(m) => "unsupported format: "@ + m@,
        DomainError::PayloadTooLarge => "payload too large"@,
        DomainError::MissingAsset(m) => "missing asset: "@ + m@,
        DomainError::Decode(m) => "decode failed: "@ + m@,
        DomainError::Encode(m) => "encode failed: "@ + m@,
        DomainError::OpFailed { op, message } => "operation `"@ + op@ + "` failed: "@ + message@,
        DomainError::Overloaded => "server overloaded"@,
        DomainError::Internal(m) => "internal error: "@ + m@,
    }
}

impl DomainError {
    /// The display text of the error.
    pub fn message(&self) -> (r: String)
        ensures
            r@ == error_text(*self),
    {
        match self {
            DomainError::InvalidArgument(m) => crate::text::join2("invalid argument: ", m.as_str()),
            DomainError::UnsupportedFormat(m) => crate::text::join2(
                "unsupported format: ",
                m.as_str(),
            ),
            DomainError::PayloadTooLarge => String::from_str("payload too large"),
            DomainError::MissingAsset(m) => crate::text::join2("missing asset: ", m.as_str()),
            DomainError::Decode(m) => crate::text::join2("decode failed: ", m.as_str()),
            DomainError::Encode(m) => crate::text::join2("encode failed: ", m.as_str()),
            DomainError::OpFailed { op, message } => {
                let head = crate::text::join2("operation `", op);
                let mid = crate::text::join2(head.as_str(), "` failed: ");
                crate::text::join2(mid.as_str(), message.as_str())
            },
            DomainError::Overloaded => String::from_str("server overloaded"),
            DomainError::Internal(m) => crate::text::join2("internal error: ", m.as_str()),
        }
    }

    /// An error raised while running the op named `op`, as the pipeline
    /// reports it: an `OpFailed` error is kept, any other becomes `OpFailed`
    /// for `op` with the error's display text as message.
    pub fn within_op(self, op: &'static str) -> (r: Self)
        ensures
            self is OpFailed ==> r == self,
            !(self is OpFailed) ==> (r matches DomainError::OpFailed { op: o, message: m } && o@
                == op@ && m@ == error_text(self)),
    {
        match self {
            DomainError::OpFailed { .. } => self,
            other => {
                let message = other.message();
                DomainError::OpFailed { op, message }
            },
        }
    }
}

/// `r` is how the pipeline reports the error `e` raised while running the op
/// named `op` (see `DomainError::within_op`).
pub open spec fn op_error(e: DomainError, op: Seq<char>, r: DomainError) -> bool {
    &&& e is OpFailed ==> r == e
    &&& !(e is OpFailed) ==> (r matches DomainError::OpFailed { op: o, message: m } && o@ == op
        && m@ == error_text(e))
}

/// An error as contracts describe it: the variant, with its message where
/// the variant carries one that the contracts speak of.
pub enum ErrModel {
    Invalid(Seq<char>),
    Unsupported(Seq<char>),
    Other,
}

/// The model of an error.
pub open spec fn err_model(e: DomainError) -> ErrModel {
    match e {
        DomainError::InvalidArgument(m) => ErrModel::Invalid(m@),
        DomainError::UnsupportedFormat(m) => ErrModel::Unsupported(m@),
        _ => ErrModel::Other,
    }
}

/// Same outcome as the model, the error compared by its model.
pub open spec fn same_result<T>(r: Result<T, DomainError>, m: Result<T, ErrModel>) -> bool {
    match m {
        Ok(v) => r == Ok::<T, DomainError>(v),
        Err(e) => r matches Err(x) && err_model(x) == e,
    }
}

} // verus!
