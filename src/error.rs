use vstd::prelude::*;

verus! {

/// The failure vocabulary of the transport.
#[derive(Clone, Copy, Debug, PartialEq, Eq, Structural)]
pub enum ErrorCode {
    InvalidArgument,
    Internal,
    DeadlineExceeded,
    NotFound,
}

/// A failure with its code and a human readable message.
#[derive(Debug)]
pub struct TransportError {
    pub code: ErrorCode,
    pub message: String,
}

impl TransportError {
    /// Builds an error with the given code.
    pub fn fail_with_code(code: ErrorCode, message: &str) -> (r: TransportError)
        ensures
            r.code == code,
            r.message@ == message@,
    {
        TransportError { code, message: message.to_owned() }
    }
}

} // verus!
