//! The error taxonomy shared by every fallible operation of the library.

use vstd::prelude::*;

verus! {

/// Why an operation of this library failed.
///
/// Local validation failures are reported before any side effect happens;
/// kernel-reported failures are wrapped as [`PciError::DeviceIo`] by the
/// transport around the library.
#[derive(Clone, Copy, Debug, PartialEq, Eq, Structural)]
pub enum PciError {
    /// Malformed arguments: an out-of-range offset, a broken capability
    /// chain, a value too large for a bit field, or a misuse of the API.
    InvalidInput,
    /// An access would reach past the end of a region.
    OutOfBounds,
    /// An access offset was not a multiple of the access width.
    Unaligned,
    /// A required kernel extension or API version is missing.
    Unsupported,
    /// The kernel reported a failure, or handed back untrustworthy state.
    DeviceIo,
}

impl PciError {
    /// A short human-readable name for the error, for diagnostics.
    pub fn describe(&self) -> (s: &'static str)
    {
        match self {
            PciError::InvalidInput => "invalid input",
            PciError::OutOfBounds => "access out of bounds",
            PciError::Unaligned => "unaligned access",
            PciError::Unsupported => "unsupported operation",
            PciError::DeviceIo => "device I/O error",
        }
    }
}

} // verus!
