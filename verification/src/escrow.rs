//! Escrow: custodial holding of funds between bid acceptance and release
//! or refund.

use crate::Address;
use vstd::prelude::*;

verus! {

/// Custody state of an escrow.  `Released` and `Refunded` are terminal and
/// mutually exclusive: an escrow takes exactly one of them, once.
#[derive(Clone, Copy, Debug, PartialEq, Eq, Structural)]
pub enum EscrowStatus {
    /// Funds are held in custody.
    Funded,
    /// Funds went to the business.
    Released,
    /// Funds went back to the investor.
    Refunded,
}

/// The custody record for a funded invoice, created exactly once per
/// invoice at bid acceptance and never re-created.
#[derive(Clone, Copy, Debug, PartialEq, Eq, Structural)]
pub struct Escrow {
    /// This escrow's identifier.
    pub escrow_id: u64,
    /// The invoice the funds are for.
    pub invoice_id: u64,
    /// The bid whose acceptance created this escrow.
    pub bid_id: u64,
    /// The business the funds are destined for.
    pub business: Address,
    /// The investor the funds came from.
    pub investor: Address,
    /// The held amount: always the accepted bid's amount.
    pub amount: i128,
    /// The invoice's currency.
    pub currency: Address,
    /// Custody state.
    pub status: EscrowStatus,
}

} // verus!
