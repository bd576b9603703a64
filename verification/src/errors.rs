//! Failure taxonomy of the quote and target-price subsystem.

use vstd::prelude::*;

verus! {

/// Every way a core operation can fail.
///
/// `MalformedFeed` says a vendor payload did not match the expected shape,
/// `EmptyQuote` says it parsed but carried sentinel or zero values,
/// `NetworkFailure` stands for a transport-level failure reported by the
/// caller that performed the I/O, `InvalidInput` rejects a caller-supplied
/// value, and `NotFound` reports a trade record that does not exist.
#[derive(Clone, Copy, Debug, PartialEq, Eq, Structural)]
pub enum TraderError {
    MalformedFeed,
    EmptyQuote,
    NetworkFailure,
    InvalidInput,
    NotFound,
}

impl TraderError {
    /// Short text for the application layer to display.
    pub fn message(&self) -> (r: &'static str)
        ensures
            *self == TraderError::MalformedFeed ==> r@ == "malformed quote feed"@,
            *self == TraderError::EmptyQuote ==> r@ == "quote feed carried no usable values"@,
            *self == TraderError::NetworkFailure ==> r@ == "quote feed unreachable"@,
            *self == TraderError::InvalidInput ==> r@ == "invalid input"@,
            *self == TraderError::NotFound ==> r@ == "trade record not found"@,
    {
        match self {
            TraderError::MalformedFeed => "malformed quote feed",
            TraderError::EmptyQuote => "quote feed carried no usable values",
            TraderError::NetworkFailure => "quote feed unreachable",
            TraderError::InvalidInput => "invalid input",
            TraderError::NotFound => "trade record not found",
        }
    }
}

} // verus!
