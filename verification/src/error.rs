use vstd::prelude::*;

verus! {

/// The ways in which a request ends without its result.
#[derive(Debug, Clone, Copy, PartialEq, Eq, Structural)]
pub enum ApiError {
    /// The entity asked for is not there.
    NotFound,
    /// The input is malformed, or an upload did not pass validation.
    BadRequest,
    /// An upload is larger than the size cap.
    PayloadTooLarge,
    /// The store or the file system failed.
    InternalError,
}

impl ApiError {
    /// The HTTP status that reports this error.
    pub open spec fn status(self) -> u16 {
        match self {
            ApiError::NotFound => 404,
            ApiError::BadRequest => 400,
            ApiError::PayloadTooLarge => 413,
            ApiError::InternalError => 500,
        }
    }

    /// The HTTP status that reports this error.
    pub fn status_code(&self) -> (code: u16)
        ensures
            code == self.status(),
    {
        match self {
            ApiError::NotFound => 404,
            ApiError::BadRequest => 400,
            ApiError::PayloadTooLarge => 413,
            ApiError::InternalError => 500,
        }
    }
}

} // verus!
