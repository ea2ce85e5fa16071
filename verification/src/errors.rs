use vstd::prelude::*;

verus! {

/// Stable, non-retryable error kinds surfaced by every gate check. Illegal
/// delegated-authority use has no kind of its own: the sealed
/// [`crate::auth::Authorization`] type makes it unrepresentable.
///
/// Authorization: `NotAuthority`.
/// State preconditions: `VaultLocked`, `AllTicketsSoldOut`, `StartDateInThePast`.
/// Arithmetic and bounds: `InsufficientBalance`, `MaxLikesReached`,
/// `MaxDislikesReached`, `MinLikesReached`, `MinDislikesReached`.
/// Input validation: `NameTooLong`, `DescriptionTooLong`, `AvailableTicketsTooLow`.
/// Identity consistency: `InvalidReactionAuthor`.
/// Record allocation: `AddressInUse` (a record already lives at the derived
/// address), `DerivationFailed` (no viable derived address for the seeds).
#[derive(Clone, Copy, Debug, PartialEq, Eq, Structural)]
pub enum CoreError {
    NotAuthority,
    VaultLocked,
    InsufficientBalance,
    NameTooLong,
    DescriptionTooLong,
    StartDateInThePast,
    AvailableTicketsTooLow,
    AllTicketsSoldOut,
    MaxLikesReached,
    MaxDislikesReached,
    MinLikesReached,
    MinDislikesReached,
    InvalidReactionAuthor,
    AddressInUse,
    DerivationFailed,
}

} // verus!
