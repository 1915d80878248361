use vstd::prelude::*;

verus! {

/// The ways a registry call can fail.
///
/// Every failure is terminal for the call that raised it: no partial state
/// change is ever kept.  Idempotent operations (removing a bidder that is
/// not there, removing a bidder of an auction that already closed) succeed
/// silently instead of raising `UnknownAuction`.
#[derive(Clone, Copy, Debug, PartialEq, Eq, Structural)]
pub enum RegistryError {
    /// The caller is not allowed to perform the operation.
    Unauthorized,
    /// Auction creation was attempted while the factory is halted.
    Stopped,
    /// The auction index is not present where its presence is required.
    UnknownAuction,
    /// A registration tried to reuse an auction index.
    DuplicateIndex,
    /// A close call named a seller other than the stored one.
    SellerMismatch,
    /// A viewing key did not authenticate.  Surfaced to query callers only
    /// as a generic viewing-key error that never distinguishes a wrong key
    /// from an absent one.
    AuthenticationFailed,
}

} // verus!
