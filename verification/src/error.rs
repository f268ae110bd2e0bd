//! The reasons for which a call is refused.

use vstd::prelude::*;

verus! {

/// Why a call failed. A call fails as a whole, with exactly one reason, and
/// leaves the ledger as it was.
#[derive(Clone, Copy, Debug, PartialEq, Eq, Structural)]
pub enum ContractError {
    /// The caller lacks the right, or the funds, for what it asked.
    Unauthorized,
    /// The ledger holds no token of that id.
    NotFound,
    /// The token carries no metadata, so it can be neither listed nor locked.
    NoMetadataPresent,
    /// Nothing is for sale.
    NoListedTokensError,
    /// The cheapest offer costs more than the buyer's ceiling.
    LimitBelowLowestOffer { limit: u64, lowest_price: u64 },
    /// The ticket is locked.
    TicketLocked,
    /// The ticket has been redeemed.
    TicketRedeemed,
    /// A token of that id exists already.
    Claimed,
}

} // verus!
