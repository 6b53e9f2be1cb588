//! The library's error type.
use vstd::prelude::*;

verus! {

/// Errors reported by the library.
#[derive(Debug)]
pub enum MeterError {
    ParseError(String),
    CaptureError(String),
}

impl MeterError {
    /// The error as text.
    pub fn message(&self) -> (r: &str)
        ensures
            match self {
                MeterError::ParseError(s) => r@ == s@,
                MeterError::CaptureError(s) => r@ == s@,
            },
    {
        match self {
            MeterError::ParseError(s) => s.as_str(),
            MeterError::CaptureError(s) => s.as_str(),
        }
    }
}

} // verus!
