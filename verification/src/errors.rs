//! The application-level error type.
use vstd::prelude::*;

verus! {

/// The input/output error type of the standard library, declared so it
/// can travel inside the library's own error.
#[verifier::external_type_specification]
#[verifier::external_body]
pub struct ExIoError(std::io::Error);

/// What can go wrong outside of decoding: only the stream's own
/// input/output failures.
#[derive(Debug)]
pub enum AppError {
    Io(std::io::Error),
}

impl AppError {
    /// A short description of the error's kind.
    pub fn message(&self) -> (r: &'static str)
        ensures
            r@ == "IO failed"@,
    {
        match self {
            AppError::Io(_) => "IO failed",
        }
    }
}

impl From<std::io::Error> for AppError {
    /// Wraps a stream failure.
    fn from(error: std::io::Error) -> (r: AppError) {
        AppError::Io(error)
    }
}

impl vstd::std_specs::convert::FromSpecImpl<std::io::Error> for AppError {
    open spec fn obeys_from_spec() -> bool {
        true
    }

    open spec fn from_spec(error: std::io::Error) -> AppError {
        AppError::Io(error)
    }
}

/// The result type the stream boundary hands back.
pub type AppResult<T> = Result<T, AppError>;

} // verus!
