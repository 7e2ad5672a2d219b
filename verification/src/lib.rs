//! An invoice-factoring marketplace: businesses post invoices, investors bid
//! to fund them, an accepted bid moves value into escrow and opens an
//! investment, and the invoice is later settled, defaulted, or disputed.
//!
//! All state lives in [`contract::QuickLendXContract`], an identifier-keyed
//! store.  Every mutating operation names the actor whose authorization it
//! needs and validates its inputs before it touches any entity, so a rejected
//! call leaves the whole store exactly as it was.

pub mod bid;
pub mod bid_ops;
pub mod contract;
pub mod dispute_ops;
pub mod errors;
pub mod escrow;
pub mod funding;
pub mod investment;
pub mod invoice;
pub mod invoice_data;
pub mod invoice_ops;
pub mod kyc;
pub mod laws;
pub mod paging;
pub mod queries;
pub mod settlement;
pub mod verification;

use vstd::prelude::*;

verus! {

/// An account on the underlying value-transfer layer: an opaque fixed-size
/// handle, modelled as a plain integer.  The surrounding host environment is
/// responsible for signature checks; every operation here takes the already
/// authenticated caller as an explicit argument and compares it to the party
/// whose authorization the operation needs.
pub type Address = u64;

} // verus!
