//! KYC records for businesses and investors.  Their internal scoring is an
//! external collaborator's concern; the marketplace consumes these records
//! as gates: is the party verified, and what investment limit applies.

use crate::Address;
use vstd::prelude::*;

verus! {

/// Where a KYC application stands.
#[derive(Clone, Copy, Debug, PartialEq, Eq, Structural)]
pub enum BusinessVerificationStatus {
    /// Submitted, not yet decided.
    Pending,
    /// Approved.
    Verified,
    /// Rejected.
    Rejected,
}

/// A business's KYC record.
#[derive(Clone, Debug)]
pub struct BusinessVerification {
    /// The business this record is for.
    pub business: Address,
    /// Where the application stands.
    pub status: BusinessVerificationStatus,
    /// The submitted application data.
    pub kyc_data: String,
    /// When the application was submitted.
    pub submitted_at: u64,
    /// When it was verified; zero until then.
    pub verified_at: u64,
    /// Why it was rejected; empty until then.
    pub rejection_reason: String,
}

/// An investor's KYC record, with the analytics counters the settlement and
/// default paths maintain.
#[derive(Clone, Debug)]
pub struct InvestorVerification {
    /// The investor this record is for.
    pub investor: Address,
    /// Where the application stands.
    pub status: BusinessVerificationStatus,
    /// The submitted application data.
    pub kyc_data: String,
    /// The largest single bid this investor may place, once verified.
    pub investment_limit: i128,
    /// When the application was submitted.
    pub submitted_at: u64,
    /// When it was verified; zero until then.
    pub verified_at: u64,
    /// Why it was rejected; empty until then.
    pub rejection_reason: String,
    /// Total amount across recorded investments, saturating.
    pub total_invested: i128,
    /// How many investments were recorded.
    pub investment_count: u32,
    /// How many of them settled successfully.
    pub successful_investments: u32,
    /// How many of them failed.
    pub failed_investments: u32,
}

impl BusinessVerification {
    /// An owned copy equal to this record.
    pub fn duplicate(&self) -> (r: BusinessVerification)
        ensures
            r == *self,
    {
        BusinessVerification {
            business: self.business,
            status: self.status,
            kyc_data: self.kyc_data.clone(),
            submitted_at: self.submitted_at,
            verified_at: self.verified_at,
            rejection_reason: self.rejection_reason.clone(),
        }
    }
}

impl InvestorVerification {
    /// An owned copy equal to this record.
    pub fn duplicate(&self) -> (r: InvestorVerification)
        ensures
            r == *self,
    {
        InvestorVerification {
            investor: self.investor,
            status: self.status,
            kyc_data: self.kyc_data.clone(),
            investment_limit: self.investment_limit,
            submitted_at: self.submitted_at,
            verified_at: self.verified_at,
            rejection_reason: self.rejection_reason.clone(),
            total_invested: self.total_invested,
            investment_count: self.investment_count,
            successful_investments: self.successful_investments,
            failed_investments: self.failed_investments,
        }
    }
}

} // verus!
