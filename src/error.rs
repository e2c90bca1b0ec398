use vstd::prelude::*;

verus! {

/// Errors of the library.
#[derive(Debug)]
pub enum PixelatorError {
    /// A configuration value is out of its allowed range.
    InvalidConfig(String),
    /// A step of processing could not be completed.
    Processing(String),
}

/// Result type of the library.
pub type Result<T> = core::result::Result<T, PixelatorError>;

} // verus!
