//! The failure kinds of the adapter.

use vstd::prelude::*;

verus! {

/// Everything that can go wrong inside the adapter.
///
/// No automatic retry exists anywhere: a failure is either surfaced as a
/// typed result to the caller (reads) or converted into permanent poisoning
/// (commit).
#[derive(Clone, Copy, Debug, PartialEq, Eq, Structural)]
pub enum DbError {
    /// A non-reserved address carries contract storage, or an unsupported
    /// engine operation was invoked.
    UnsupportedAddress,
    /// The backing store failed on a point read or on a batch write.
    StoreFailure,
    /// An operation arrived after a prior commit failure; the adapter is
    /// terminal until discarded and recreated.
    PoisonedState,
    /// Stored bytes failed to decode into the expected value shape, or a
    /// value could not be encoded.
    SerializationFailure,
    /// A balance transfer to or from an externally owned account was
    /// requested; that conversion is deliberately unimplemented.
    BalanceUnsupported,
}

} // verus!
