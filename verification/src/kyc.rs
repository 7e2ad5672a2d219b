//! KYC record keeping for businesses and investors, the investment table,
//! and investment insurance.  Scoring and tiering are an external
//! collaborator's concern; the core consumes these records as gates.

use crate::contract::QuickLendXContract;
use crate::errors::QuickLendXError;
use crate::investment::{coverage_of, has_active, premium_of, same_investment, Investment,
    InvestmentStatus, InsuranceCoverage};
use crate::invoice::InvoiceStatus;
use crate::verification::{BusinessVerification, BusinessVerificationStatus,
    InvestorVerification};
use crate::Address;
use vstd::prelude::*;

verus! {

/// Whether any business KYC record exists for `business`.
pub open spec fn has_business_record(recs: Seq<BusinessVerification>, business: Address) -> bool {
    exists|i: int| 0 <= i < recs.len() && (#[trigger] recs[i]).business == business
}

/// Whether a business KYC record for `business` stands at `status`.
pub open spec fn business_status_is(
    recs: Seq<BusinessVerification>,
    business: Address,
    status: BusinessVerificationStatus,
) -> bool {
    exists|i: int|
        0 <= i < recs.len() && (#[trigger] recs[i]).business == business
            && recs[i].status == status
}

/// Whether any investor KYC record exists for `investor`.
pub open spec fn has_investor_record(recs: Seq<InvestorVerification>, investor: Address) -> bool {
    exists|i: int| 0 <= i < recs.len() && (#[trigger] recs[i]).investor == investor
}

/// Whether an investor KYC record for `investor` stands at `status`.
pub open spec fn investor_status_is(
    recs: Seq<InvestorVerification>,
    investor: Address,
    status: BusinessVerificationStatus,
) -> bool {
    exists|i: int|
        0 <= i < recs.len() && (#[trigger] recs[i]).investor == investor
            && recs[i].status == status
}

/// The addresses of the business records standing at `status`, in table
/// order.
pub open spec fn business_addresses_with(
    recs: Seq<BusinessVerification>,
    status: BusinessVerificationStatus,
) -> Seq<Address>
    decreases recs.len(),
{
    if recs.len() == 0 {
        Seq::empty()
    } else {
        let rest = business_addresses_with(recs.drop_last(), status);
        if recs.last().status == status {
            rest.push(recs.last().business)
        } else {
            rest
        }
    }
}

/// How [`business_addresses_with`] grows as records are appended.
pub proof fn lemma_business_addresses_push(
    recs: Seq<BusinessVerification>,
    status: BusinessVerificationStatus,
    x: BusinessVerification,
)
    ensures
        business_addresses_with(recs.push(x), status) == if x.status == status {
            business_addresses_with(recs, status).push(x.business)
        } else {
            business_addresses_with(recs, status)
        },
{
    assert(recs.push(x).drop_last() =~= recs);
    assert(business_addresses_with(recs.push(x).drop_last(), status)
        == business_addresses_with(recs, status));
}

/// The addresses of the investor records standing at `status`, in table
/// order.
pub open spec fn investor_addresses_with(
    recs: Seq<InvestorVerification>,
    status: BusinessVerificationStatus,
) -> Seq<Address>
    decreases recs.len(),
{
    if recs.len() == 0 {
        Seq::empty()
    } else {
        let rest = investor_addresses_with(recs.drop_last(), status);
        if recs.last().status == status {
            rest.push(recs.last().investor)
        } else {
            rest
        }
    }
}

/// How [`investor_addresses_with`] grows as records are appended.
pub proof fn lemma_investor_addresses_push(
    recs: Seq<InvestorVerification>,
    status: BusinessVerificationStatus,
    x: InvestorVerification,
)
    ensures
        investor_addresses_with(recs.push(x), status) == if x.status == status {
            investor_addresses_with(recs, status).push(x.investor)
        } else {
            investor_addresses_with(recs, status)
        },
{
    assert(recs.push(x).drop_last() =~= recs);
    assert(investor_addresses_with(recs.push(x).drop_last(), status)
        == investor_addresses_with(recs, status));
}

impl QuickLendXContract {
    /// The index of `business`'s KYC record, if any.
    pub(crate) fn find_business(&self, business: Address) -> (r: Option<usize>)
        ensures
            match r {
                Some(i) => i < self.business_verifications@.len()
                    && self.business_verifications@[i as int].business == business,
                None => forall|k: int| 0 <= k < self.business_verifications@.len()
                    ==> (#[trigger] self.business_verifications@[k]).business != business,
            },
    {
        let mut i: usize = 0;
        while i < self.business_verifications.len()
            invariant
                i <= self.business_verifications@.len(),
                forall|k: int| 0 <= k < i
                    ==> (#[trigger] self.business_verifications@[k]).business != business,
            decreases self.business_verifications@.len() - i,
        {
            if self.business_verifications[i].business == business {
                return Some(i);
            }
            i += 1;
        }
        None
    }

    /// Submits a business KYC application: a fresh or rejected applicant
    /// becomes `Pending`; a pending application cannot be re-submitted,
    /// and a verified business needs none.
    pub fn submit_kyc_application(&mut self, business: Address, kyc_data: String, now: u64)
        -> (r: Result<(), QuickLendXError>)
        requires
            old(self).wf(),
        ensures
            final(self).wf(),
            Self::only_business_records_changed(*old(self), *final(self)),
            ({
                let pre = old(self).business_verifications@;
                let post = final(self).business_verifications@;
                &&& !has_business_record(pre, business) ==> {
                    &&& r == Ok::<(), QuickLendXError>(())
                    &&& post.len() == pre.len() + 1
                    &&& forall|k: int| 0 <= k < pre.len() ==> post[k] == pre[k]
                    &&& post.last().business == business
                    &&& post.last().status == BusinessVerificationStatus::Pending
                    &&& post.last().kyc_data == kyc_data
                    &&& post.last().submitted_at == now
                    &&& post.last().verified_at == 0
                    &&& post.last().rejection_reason@.len() == 0
                }
                &&& business_status_is(pre, business, BusinessVerificationStatus::Pending)
                    ==> r == Err::<(), QuickLendXError>(QuickLendXError::KYCAlreadyPending)
                    && *final(self) == *old(self)
                &&& business_status_is(pre, business, BusinessVerificationStatus::Verified)
                    ==> r == Err::<(), QuickLendXError>(QuickLendXError::OperationNotAllowed)
                    && *final(self) == *old(self)
                &&& business_status_is(pre, business, BusinessVerificationStatus::Rejected)
                    ==> r == Ok::<(), QuickLendXError>(()) && exists|i: int|
                    0 <= i < pre.len() && (#[trigger] pre[i]).business == business
                        && post.len() == pre.len()
                        && (forall|k: int| 0 <= k < pre.len() && k != i ==> post[k] == pre[k])
                        && post[i].business == business
                        && post[i].status == BusinessVerificationStatus::Pending
                        && post[i].kyc_data == kyc_data
                        && post[i].submitted_at == now
                        && post[i].verified_at == pre[i].verified_at
                        && post[i].rejection_reason@.len() == 0
            }),
    {
        match self.find_business(business) {
            None => {
                let n = self.business_verifications.len();
                self.business_verifications.push(BusinessVerification {
                    business,
                    status: BusinessVerificationStatus::Pending,
                    kyc_data,
                    submitted_at: now,
                    verified_at: 0,
                    rejection_reason: String::new(),
                });
                proof {
                    lemma_wf_kyc_tables(*old(self), *self);
                    assert(self.business_verifications@[n as int].business == business);
                }
                Ok(())
            },
            Some(i) => {
                let status = self.business_verifications[i].status;
                match status {
                    BusinessVerificationStatus::Pending => Err(QuickLendXError::KYCAlreadyPending),
                    BusinessVerificationStatus::Verified => Err(
                        QuickLendXError::OperationNotAllowed),
                    BusinessVerificationStatus::Rejected => {
                        self.business_verifications[i].status
                            = BusinessVerificationStatus::Pending;
                        self.business_verifications[i].kyc_data = kyc_data;
                        self.business_verifications[i].submitted_at = now;
                        self.business_verifications[i].rejection_reason = String::new();
                        proof {
                            lemma_wf_kyc_tables(*old(self), *self);
                        }
                        Ok(())
                    },
                }
            },
        }
    }

    /// Approves a business's KYC application (administrator only).
    pub fn verify_business(&mut self, caller: Address, business: Address, now: u64)
        -> (r: Result<(), QuickLendXError>)
        requires
            old(self).wf(),
        ensures
            final(self).wf(),
            Self::only_business_records_changed(*old(self), *final(self)),
            !old(self).is_admin(caller) ==> r
                == Err::<(), QuickLendXError>(QuickLendXError::NotAdmin)
                && *final(self) == *old(self),
            old(self).is_admin(caller)
                && !has_business_record(old(self).business_verifications@, business) ==> r
                == Err::<(), QuickLendXError>(QuickLendXError::BusinessNotVerified)
                && *final(self) == *old(self),
            old(self).is_admin(caller)
                && has_business_record(old(self).business_verifications@, business) ==> {
                &&& r == Ok::<(), QuickLendXError>(())
                &&& final(self).business_is_verified(business)
                &&& exists|i: int|
                    0 <= i < old(self).business_verifications@.len()
                        && (#[trigger] old(self).business_verifications@[i]).business == business
                        && final(self).business_verifications@
                        == old(self).business_verifications@.update(i, BusinessVerification {
                        status: BusinessVerificationStatus::Verified,
                        verified_at: now,
                        ..old(self).business_verifications@[i]
                    })
            },
    {
        let is_admin_caller = match self.admin {
            Some(a) => caller == a,
            None => false,
        };
        if !is_admin_caller {
            return Err(QuickLendXError::NotAdmin);
        }
        match self.find_business(business) {
            None => Err(QuickLendXError::BusinessNotVerified),
            Some(i) => {
                self.business_verifications[i].status = BusinessVerificationStatus::Verified;
                self.business_verifications[i].verified_at = now;
                proof {
                    lemma_wf_kyc_tables(*old(self), *self);
                    assert(self.business_verifications@[i as int].business == business);
                }
                Ok(())
            },
        }
    }

    /// Rejects a business's KYC application (administrator only).
    pub fn reject_business(&mut self, caller: Address, business: Address, reason: String)
        -> (r: Result<(), QuickLendXError>)
        requires
            old(self).wf(),
        ensures
            final(self).wf(),
            Self::only_business_records_changed(*old(self), *final(self)),
            !old(self).is_admin(caller) ==> r
                == Err::<(), QuickLendXError>(QuickLendXError::NotAdmin)
                && *final(self) == *old(self),
            old(self).is_admin(caller)
                && !has_business_record(old(self).business_verifications@, business) ==> r
                == Err::<(), QuickLendXError>(QuickLendXError::BusinessNotVerified)
                && *final(self) == *old(self),
            old(self).is_admin(caller)
                && has_business_record(old(self).business_verifications@, business) ==> {
                &&& r == Ok::<(), QuickLendXError>(())
                &&& !final(self).business_is_verified(business)
                &&& exists|i: int|
                    0 <= i < old(self).business_verifications@.len()
                        && (#[trigger] old(self).business_verifications@[i]).business == business
                        && final(self).business_verifications@
                        == old(self).business_verifications@.update(i, BusinessVerification {
                        status: BusinessVerificationStatus::Rejected,
                        rejection_reason: reason,
                        ..old(self).business_verifications@[i]
                    })
            },
    {
        let is_admin_caller = match self.admin {
            Some(a) => caller == a,
            None => false,
        };
        if !is_admin_caller {
            return Err(QuickLendXError::NotAdmin);
        }
        match self.find_business(business) {
            None => Err(QuickLendXError::BusinessNotVerified),
            Some(i) => {
                self.business_verifications[i].status = BusinessVerificationStatus::Rejected;
                self.business_verifications[i].rejection_reason = reason;
                proof {
                    lemma_wf_kyc_tables(*old(self), *self);
                    assert forall|k: int|
                        0 <= k < self.business_verifications@.len()
                            && (#[trigger] self.business_verifications@[k]).business == business
                        implies self.business_verifications@[k].status
                        != BusinessVerificationStatus::Verified by {
                        if k != i {
                            assert(old(self).business_verifications@[k].business
                                == old(self).business_verifications@[i as int].business);
                        }
                    }
                }
                Ok(())
            },
        }
    }

    /// A business's KYC record, if any.
    pub fn get_business_verification_status(&self, business: Address)
        -> (r: Option<BusinessVerification>)
        ensures
            match r {
                Some(rec) => exists|i: int|
                    0 <= i < self.business_verifications@.len()
                        && (#[trigger] self.business_verifications@[i]).business == business
                        && rec == self.business_verifications@[i],
                None => forall|k: int| 0 <= k < self.business_verifications@.len()
                    ==> (#[trigger] self.business_verifications@[k]).business != business,
            },
    {
        match self.find_business(business) {
            Some(i) => Some(self.business_verifications[i].duplicate()),
            None => None,
        }
    }

    /// Addresses of businesses whose record stands at `status`: exactly
    /// the matching records' addresses, in table order.
    fn businesses_with_status(&self, status: BusinessVerificationStatus) -> (r: Vec<Address>)
        ensures
            r@ == business_addresses_with(self.business_verifications@, status),
            forall|i: int| 0 <= i < self.business_verifications@.len()
                && (#[trigger] self.business_verifications@[i]).status == status
                ==> r@.contains(self.business_verifications@[i].business),
    {
        let ghost full = self.business_verifications@;
        let mut r: Vec<Address> = Vec::new();
        let mut i: usize = 0;
        proof {
            assert(full.take(0) =~= Seq::<BusinessVerification>::empty());
        }
        while i < self.business_verifications.len()
            invariant
                i <= full.len(),
                self.business_verifications@ == full,
                r@ == business_addresses_with(full.take(i as int), status),
                forall|i2: int| 0 <= i2 < i
                    && (#[trigger] full[i2]).status == status ==> r@.contains(full[i2].business),
            decreases full.len() - i,
        {
            proof {
                assert(full.take(i as int + 1) =~= full.take(i as int).push(full[i as int]));
                lemma_business_addresses_push(full.take(i as int), status, full[i as int]);
            }
            if self.business_verifications[i].status == status {
                let ghost prev = r@;
                r.push(self.business_verifications[i].business);
                proof {
                    assert forall|a: Address| prev.contains(a) implies r@.contains(a) by {
                        let k = choose|k: int| 0 <= k < prev.len() && prev[k] == a;
                        assert(r@[k] == a);
                    }
                    assert(r@[prev.len() as int] == full[i as int].business);
                }
            }
            i += 1;
        }
        proof {
            assert(full.take(full.len() as int) =~= full);
        }
        r
    }

    /// Addresses of verified businesses.
    pub fn get_verified_businesses(&self) -> (r: Vec<Address>)
        ensures
            r@ == business_addresses_with(self.business_verifications@, BusinessVerificationStatus::Verified),
            forall|i: int| 0 <= i < self.business_verifications@.len()
                && (#[trigger] self.business_verifications@[i]).status
                == BusinessVerificationStatus::Verified
                ==> r@.contains(self.business_verifications@[i].business),
    {
        self.businesses_with_status(BusinessVerificationStatus::Verified)
    }

    /// Addresses of businesses with a pending application.
    pub fn get_pending_businesses(&self) -> (r: Vec<Address>)
        ensures
            r@ == business_addresses_with(self.business_verifications@, BusinessVerificationStatus::Pending),
            forall|i: int| 0 <= i < self.business_verifications@.len()
                && (#[trigger] self.business_verifications@[i]).status
                == BusinessVerificationStatus::Pending
                ==> r@.contains(self.business_verifications@[i].business),
    {
        self.businesses_with_status(BusinessVerificationStatus::Pending)
    }

    /// Addresses of rejected businesses.
    pub fn get_rejected_businesses(&self) -> (r: Vec<Address>)
        ensures
            r@ == business_addresses_with(self.business_verifications@, BusinessVerificationStatus::Rejected),
            forall|i: int| 0 <= i < self.business_verifications@.len()
                && (#[trigger] self.business_verifications@[i]).status
                == BusinessVerificationStatus::Rejected
                ==> r@.contains(self.business_verifications@[i].business),
    {
        self.businesses_with_status(BusinessVerificationStatus::Rejected)
    }

    /// Submits an investor verification request, like
    /// [`Self::submit_kyc_application`] for investors.
    pub fn submit_investor_kyc(&mut self, investor: Address, kyc_data: String, now: u64)
        -> (r: Result<(), QuickLendXError>)
        requires
            old(self).wf(),
        ensures
            final(self).wf(),
            Self::only_investor_records_changed(*old(self), *final(self)),
            ({
                let pre = old(self).investor_verifications@;
                let post = final(self).investor_verifications@;
                &&& !has_investor_record(pre, investor) ==> {
                    &&& r == Ok::<(), QuickLendXError>(())
                    &&& post.len() == pre.len() + 1
                    &&& forall|k: int| 0 <= k < pre.len() ==> post[k] == pre[k]
                    &&& post.last().investor == investor
                    &&& post.last().status == BusinessVerificationStatus::Pending
                    &&& post.last().kyc_data == kyc_data
                    &&& post.last().submitted_at == now
                    &&& post.last().investment_limit == 0
                    &&& post.last().verified_at == 0
                    &&& post.last().rejection_reason@.len() == 0
                    &&& post.last().total_invested == 0
                    &&& post.last().investment_count == 0
                    &&& post.last().successful_investments == 0
                    &&& post.last().failed_investments == 0
                }
                &&& investor_status_is(pre, investor, BusinessVerificationStatus::Pending)
                    ==> r == Err::<(), QuickLendXError>(QuickLendXError::KYCAlreadyPending)
                    && *final(self) == *old(self)
                &&& investor_status_is(pre, investor, BusinessVerificationStatus::Verified)
                    ==> r == Err::<(), QuickLendXError>(QuickLendXError::OperationNotAllowed)
                    && *final(self) == *old(self)
                &&& investor_status_is(pre, investor, BusinessVerificationStatus::Rejected)
                    ==> r == Ok::<(), QuickLendXError>(()) && exists|i: int|
                    0 <= i < pre.len() && (#[trigger] pre[i]).investor == investor
                        && post.len() == pre.len()
                        && (forall|k: int| 0 <= k < pre.len() && k != i ==> post[k] == pre[k])
                        && post[i].investor == investor
                        && post[i].status == BusinessVerificationStatus::Pending
                        && post[i].kyc_data == kyc_data
                        && post[i].submitted_at == now
                        && post[i].rejection_reason@.len() == 0
                        && post[i].investment_limit == pre[i].investment_limit
                        && post[i].verified_at == pre[i].verified_at
                        && post[i].total_invested == pre[i].total_invested
                        && post[i].investment_count == pre[i].investment_count
                        && post[i].successful_investments == pre[i].successful_investments
                        && post[i].failed_investments == pre[i].failed_investments
            }),
    {
        match self.find_investor(investor) {
            None => {
                let n = self.investor_verifications.len();
                self.investor_verifications.push(InvestorVerification {
                    investor,
                    status: BusinessVerificationStatus::Pending,
                    kyc_data,
                    investment_limit: 0,
                    submitted_at: now,
                    verified_at: 0,
                    rejection_reason: String::new(),
                    total_invested: 0,
                    investment_count: 0,
                    successful_investments: 0,
                    failed_investments: 0,
                });
                proof {
                    lemma_wf_kyc_tables(*old(self), *self);
                    assert(self.investor_verifications@[n as int].investor == investor);
                }
                Ok(())
            },
            Some(i) => {
                let status = self.investor_verifications[i].status;
                match status {
                    BusinessVerificationStatus::Pending => Err(QuickLendXError::KYCAlreadyPending),
                    BusinessVerificationStatus::Verified => Err(
                        QuickLendXError::OperationNotAllowed),
                    BusinessVerificationStatus::Rejected => {
                        self.investor_verifications[i].status
                            = BusinessVerificationStatus::Pending;
                        self.investor_verifications[i].kyc_data = kyc_data;
                        self.investor_verifications[i].submitted_at = now;
                        self.investor_verifications[i].rejection_reason = String::new();
                        proof {
                            lemma_wf_kyc_tables(*old(self), *self);
                        }
                        Ok(())
                    },
                }
            },
        }
    }

    /// Verifies an investor and sets their investment limit (administrator
    /// only).  The limit must be positive.
    pub fn verify_investor(&mut self, caller: Address, investor: Address, investment_limit: i128,
        now: u64)
        -> (r: Result<(), QuickLendXError>)
        requires
            old(self).wf(),
        ensures
            final(self).wf(),
            Self::only_investor_records_changed(*old(self), *final(self)),
            !old(self).is_admin(caller) ==> r
                == Err::<(), QuickLendXError>(QuickLendXError::NotAdmin)
                && *final(self) == *old(self),
            old(self).is_admin(caller) && investment_limit <= 0 ==> r
                == Err::<(), QuickLendXError>(QuickLendXError::InvalidAmount)
                && *final(self) == *old(self),
            old(self).is_admin(caller) && investment_limit > 0
                && !has_investor_record(old(self).investor_verifications@, investor) ==> r
                == Err::<(), QuickLendXError>(QuickLendXError::BusinessNotVerified)
                && *final(self) == *old(self),
            old(self).is_admin(caller) && investment_limit > 0
                && has_investor_record(old(self).investor_verifications@, investor) ==> {
                &&& r == Ok::<(), QuickLendXError>(())
                &&& exists|i: int|
                    0 <= i < old(self).investor_verifications@.len()
                        && (#[trigger] old(self).investor_verifications@[i]).investor == investor
                        && final(self).investor_verifications@
                        == old(self).investor_verifications@.update(i, InvestorVerification {
                        status: BusinessVerificationStatus::Verified,
                        investment_limit,
                        verified_at: now,
                        ..old(self).investor_verifications@[i]
                    })
            },
    {
        let is_admin_caller = match self.admin {
            Some(a) => caller == a,
            None => false,
        };
        if !is_admin_caller {
            return Err(QuickLendXError::NotAdmin);
        }
        if investment_limit <= 0 {
            return Err(QuickLendXError::InvalidAmount);
        }
        match self.find_investor(investor) {
            None => Err(QuickLendXError::BusinessNotVerified),
            Some(i) => {
                self.investor_verifications[i].status = BusinessVerificationStatus::Verified;
                self.investor_verifications[i].investment_limit = investment_limit;
                self.investor_verifications[i].verified_at = now;
                proof {
                    lemma_wf_kyc_tables(*old(self), *self);
                    assert(self.investor_verifications@[i as int].investor == investor);
                }
                Ok(())
            },
        }
    }

    /// Rejects an investor's verification request (administrator only).
    pub fn reject_investor(&mut self, caller: Address, investor: Address, reason: String)
        -> (r: Result<(), QuickLendXError>)
        requires
            old(self).wf(),
        ensures
            final(self).wf(),
            Self::only_investor_records_changed(*old(self), *final(self)),
            !old(self).is_admin(caller) ==> r
                == Err::<(), QuickLendXError>(QuickLendXError::NotAdmin)
                && *final(self) == *old(self),
            old(self).is_admin(caller)
                && !has_investor_record(old(self).investor_verifications@, investor) ==> r
                == Err::<(), QuickLendXError>(QuickLendXError::BusinessNotVerified)
                && *final(self) == *old(self),
            old(self).is_admin(caller)
                && has_investor_record(old(self).investor_verifications@, investor) ==> {
                &&& r == Ok::<(), QuickLendXError>(())
                &&& exists|i: int|
                    0 <= i < old(self).investor_verifications@.len()
                        && (#[trigger] old(self).investor_verifications@[i]).investor == investor
                        && final(self).investor_verifications@
                        == old(self).investor_verifications@.update(i, InvestorVerification {
                        status: BusinessVerificationStatus::Rejected,
                        rejection_reason: reason,
                        ..old(self).investor_verifications@[i]
                    })
            },
    {
        let is_admin_caller = match self.admin {
            Some(a) => caller == a,
            None => false,
        };
        if !is_admin_caller {
            return Err(QuickLendXError::NotAdmin);
        }
        match self.find_investor(investor) {
            None => Err(QuickLendXError::BusinessNotVerified),
            Some(i) => {
                self.investor_verifications[i].status = BusinessVerificationStatus::Rejected;
                self.investor_verifications[i].rejection_reason = reason;
                proof {
                    lemma_wf_kyc_tables(*old(self), *self);
                }
                Ok(())
            },
        }
    }

    /// An investor's KYC record, if any.
    pub fn get_investor_verification(&self, investor: Address)
        -> (r: Option<InvestorVerification>)
        ensures
            match r {
                Some(rec) => exists|i: int|
                    0 <= i < self.investor_verifications@.len()
                        && (#[trigger] self.investor_verifications@[i]).investor == investor
                        && rec == self.investor_verifications@[i],
                None => forall|k: int| 0 <= k < self.investor_verifications@.len()
                    ==> (#[trigger] self.investor_verifications@[k]).investor != investor,
            },
    {
        match self.find_investor(investor) {
            Some(i) => Some(self.investor_verifications[i].duplicate()),
            None => None,
        }
    }

    /// An investor's analytics: the same KYC record the settlement and
    /// default paths maintain.
    pub fn get_investor_analytics(&self, investor: Address)
        -> (r: Result<InvestorVerification, QuickLendXError>)
        ensures
            match r {
                Ok(rec) => exists|i: int|
                    0 <= i < self.investor_verifications@.len()
                        && (#[trigger] self.investor_verifications@[i]).investor == investor
                        && rec == self.investor_verifications@[i],
                Err(e) => e == QuickLendXError::BusinessNotVerified
                    && forall|k: int| 0 <= k < self.investor_verifications@.len()
                        ==> (#[trigger] self.investor_verifications@[k]).investor != investor,
            },
    {
        match self.get_investor_verification(investor) {
            Some(rec) => Ok(rec),
            None => Err(QuickLendXError::BusinessNotVerified),
        }
    }

    /// Raises or lowers a verified investor's investment limit
    /// (administrator only).
    pub fn set_investment_limit(&mut self, caller: Address, investor: Address, new_limit: i128)
        -> (r: Result<(), QuickLendXError>)
        requires
            old(self).wf(),
        ensures
            final(self).wf(),
            Self::only_investor_records_changed(*old(self), *final(self)),
            !old(self).is_admin(caller) ==> r
                == Err::<(), QuickLendXError>(QuickLendXError::NotAdmin)
                && *final(self) == *old(self),
            old(self).is_admin(caller) && new_limit <= 0 ==> r
                == Err::<(), QuickLendXError>(QuickLendXError::InvalidAmount)
                && *final(self) == *old(self),
            old(self).is_admin(caller) && new_limit > 0
                && !investor_status_is(old(self).investor_verifications@, investor,
                    BusinessVerificationStatus::Verified) ==> r
                == Err::<(), QuickLendXError>(QuickLendXError::BusinessNotVerified)
                && *final(self) == *old(self),
            old(self).is_admin(caller) && new_limit > 0
                && investor_status_is(old(self).investor_verifications@, investor,
                    BusinessVerificationStatus::Verified) ==> {
                &&& r == Ok::<(), QuickLendXError>(())
                &&& exists|i: int|
                    0 <= i < old(self).investor_verifications@.len()
                        && (#[trigger] old(self).investor_verifications@[i]).investor == investor
                        && final(self).investor_verifications@
                        == old(self).investor_verifications@.update(i, InvestorVerification {
                        investment_limit: new_limit,
                        ..old(self).investor_verifications@[i]
                    })
            },
    {
        let is_admin_caller = match self.admin {
            Some(a) => caller == a,
            None => false,
        };
        if !is_admin_caller {
            return Err(QuickLendXError::NotAdmin);
        }
        if new_limit <= 0 {
            return Err(QuickLendXError::InvalidAmount);
        }
        match self.find_investor(investor) {
            None => Err(QuickLendXError::BusinessNotVerified),
            Some(i) => {
                let verified = matches!(self.investor_verifications[i].status,
                    BusinessVerificationStatus::Verified);
                if !verified {
                    return Err(QuickLendXError::BusinessNotVerified);
                }
                self.investor_verifications[i].investment_limit = new_limit;
                proof {
                    lemma_wf_kyc_tables(*old(self), *self);
                    assert(self.investor_verifications@[i as int].investor == investor);
                }
                Ok(())
            },
        }
    }

    /// Whether `investor` holds a verified KYC record.
    pub fn is_investor_verified(&self, investor: Address) -> (r: bool)
        requires
            self.wf(),
        ensures
            r == exists|i: int|
                0 <= i < self.investor_verifications@.len()
                    && (#[trigger] self.investor_verifications@[i]).investor == investor
                    && self.investor_verifications@[i].status
                    == BusinessVerificationStatus::Verified,
    {
        match self.find_investor(investor) {
            Some(i) => {
                let verified = matches!(self.investor_verifications[i].status,
                    BusinessVerificationStatus::Verified);
                proof {
                    if !verified {
                        assert forall|k: int|
                            0 <= k < self.investor_verifications@.len()
                                && (#[trigger] self.investor_verifications@[k]).investor
                                == investor
                            implies self.investor_verifications@[k].status
                            != BusinessVerificationStatus::Verified by {
                            if k != i {
                                assert(self.wf_registries());
                            }
                        }
                    }
                }
                verified
            },
            None => false,
        }
    }

    /// Checks that an investor may commit `investment_amount`: they must be
    /// verified and within their limit.
    pub fn validate_investor_investment(&self, investor: Address, investment_amount: i128)
        -> (r: Result<(), QuickLendXError>)
        requires
            self.wf(),
        ensures
            investment_amount <= 0 ==> r
                == Err::<(), QuickLendXError>(QuickLendXError::InvalidAmount),
            investment_amount > 0 ==> match r {
                Ok(()) => self.investor_can_bid(investor, investment_amount),
                Err(e) => !self.investor_can_bid(investor, investment_amount)
                    && e == self.investor_bid_error(investor),
            },
    {
        if investment_amount <= 0 {
            return Err(QuickLendXError::InvalidAmount);
        }
        match self.find_investor(investor) {
            None => Err(QuickLendXError::BusinessNotVerified),
            Some(i) => {
                let rec = &self.investor_verifications[i];
                match rec.status {
                    BusinessVerificationStatus::Pending => {
                        proof {
                            lemma_unique_investor(*self, i as int, investor);
                        }
                        Err(QuickLendXError::KYCAlreadyPending)
                    },
                    BusinessVerificationStatus::Rejected => {
                        proof {
                            lemma_unique_investor(*self, i as int, investor);
                        }
                        Err(QuickLendXError::BusinessNotVerified)
                    },
                    BusinessVerificationStatus::Verified => {
                        proof {
                            lemma_unique_investor(*self, i as int, investor);
                        }
                        if investment_amount > rec.investment_limit {
                            Err(QuickLendXError::InvalidAmount)
                        } else {
                            Ok(())
                        }
                    },
                }
            },
        }
    }

    /// Addresses of verified investors.
    pub fn get_verified_investors(&self) -> (r: Vec<Address>)
        ensures
            r@ == investor_addresses_with(self.investor_verifications@, BusinessVerificationStatus::Verified),
            forall|i: int| 0 <= i < self.investor_verifications@.len()
                && (#[trigger] self.investor_verifications@[i]).status
                == BusinessVerificationStatus::Verified
                ==> r@.contains(self.investor_verifications@[i].investor),
    {
        self.investors_with_status(BusinessVerificationStatus::Verified)
    }

    /// Addresses of investors with a pending request.
    pub fn get_pending_investors(&self) -> (r: Vec<Address>)
        ensures
            r@ == investor_addresses_with(self.investor_verifications@, BusinessVerificationStatus::Pending),
            forall|i: int| 0 <= i < self.investor_verifications@.len()
                && (#[trigger] self.investor_verifications@[i]).status
                == BusinessVerificationStatus::Pending
                ==> r@.contains(self.investor_verifications@[i].investor),
    {
        self.investors_with_status(BusinessVerificationStatus::Pending)
    }

    /// Addresses of rejected investors.
    pub fn get_rejected_investors(&self) -> (r: Vec<Address>)
        ensures
            r@ == investor_addresses_with(self.investor_verifications@, BusinessVerificationStatus::Rejected),
            forall|i: int| 0 <= i < self.investor_verifications@.len()
                && (#[trigger] self.investor_verifications@[i]).status
                == BusinessVerificationStatus::Rejected
                ==> r@.contains(self.investor_verifications@[i].investor),
    {
        self.investors_with_status(BusinessVerificationStatus::Rejected)
    }

    /// Addresses of investors whose record stands at `status`: exactly the
    /// matching records' addresses, in table order.
    fn investors_with_status(&self, status: BusinessVerificationStatus) -> (r: Vec<Address>)
        ensures
            r@ == investor_addresses_with(self.investor_verifications@, status),
            forall|i: int| 0 <= i < self.investor_verifications@.len()
                && (#[trigger] self.investor_verifications@[i]).status == status
                ==> r@.contains(self.investor_verifications@[i].investor),
    {
        let ghost full = self.investor_verifications@;
        let mut r: Vec<Address> = Vec::new();
        let mut i: usize = 0;
        proof {
            assert(full.take(0) =~= Seq::<InvestorVerification>::empty());
        }
        while i < self.investor_verifications.len()
            invariant
                i <= full.len(),
                self.investor_verifications@ == full,
                r@ == investor_addresses_with(full.take(i as int), status),
                forall|i2: int| 0 <= i2 < i
                    && (#[trigger] full[i2]).status == status ==> r@.contains(full[i2].investor),
            decreases full.len() - i,
        {
            proof {
                assert(full.take(i as int + 1) =~= full.take(i as int).push(full[i as int]));
                lemma_investor_addresses_push(full.take(i as int), status, full[i as int]);
            }
            if self.investor_verifications[i].status == status {
                let ghost prev = r@;
                r.push(self.investor_verifications[i].investor);
                proof {
                    assert forall|a: Address| prev.contains(a) implies r@.contains(a) by {
                        let k = choose|k: int| 0 <= k < prev.len() && prev[k] == a;
                        assert(r@[k] == a);
                    }
                    assert(r@[prev.len() as int] == full[i as int].investor);
                }
            }
            i += 1;
        }
        proof {
            assert(full.take(full.len() as int) =~= full);
        }
        r
    }

    /// Everything except the business KYC records is unchanged.
    pub open spec fn only_business_records_changed(pre: Self, post: Self) -> bool {
        &&& post.admin == pre.admin
        &&& post.currencies == pre.currencies
        &&& post.invoices == pre.invoices
        &&& post.bids == pre.bids
        &&& post.escrows == pre.escrows
        &&& post.investments == pre.investments
        &&& post.disputes == pre.disputes
        &&& post.investor_verifications == pre.investor_verifications
        &&& Self::indices_unchanged(pre, post)
        &&& post.platform_fee_bps == pre.platform_fee_bps
        &&& post.payment_locked == pre.payment_locked
    }

    /// Opens an investment record directly.  The normal path is bid
    /// acceptance; this is the raw table entry used when positions are
    /// recorded out of band.
    pub fn store_investment(
        &mut self,
        invoice_id: u64,
        investor: Address,
        amount: i128,
        funded_at: u64,
        status: InvestmentStatus,
    ) -> (investment_id: u64)
        requires
            old(self).wf(),
        ensures
            final(self).wf(),
            investment_id == old(self).investments@.len(),
            final(self).investments@.len() == old(self).investments@.len() + 1,
            ({
                let v = final(self).investments@.last();
                &&& v.investment_id == investment_id
                &&& v.invoice_id == invoice_id
                &&& v.investor == investor
                &&& v.amount == amount
                &&& v.funded_at == funded_at
                &&& v.status == status
                &&& v.insurance@.len() == 0
            }),
            forall|k: int| 0 <= k < old(self).investments@.len()
                ==> final(self).investments@[k] == old(self).investments@[k],
            Self::only_investments_changed(*old(self), *final(self)),
    {
        let investment_id = self.investments.len() as u64;
        self.investments.push(Investment {
            investment_id,
            invoice_id,
            investor,
            amount,
            funded_at,
            status,
            insurance: Vec::new(),
        });
        proof {
            lemma_wf_investments_table(*old(self), *self);
        }
        investment_id
    }

    /// Everything except the investment table is unchanged.
    pub open spec fn only_investments_changed(pre: Self, post: Self) -> bool {
        &&& post.admin == pre.admin
        &&& post.currencies == pre.currencies
        &&& post.invoices == pre.invoices
        &&& post.bids == pre.bids
        &&& post.escrows == pre.escrows
        &&& post.disputes == pre.disputes
        &&& post.business_verifications == pre.business_verifications
        &&& post.investor_verifications == pre.investor_verifications
        &&& Self::indices_unchanged(pre, post)
        &&& post.platform_fee_bps == pre.platform_fee_bps
        &&& post.payment_locked == pre.payment_locked
    }

    /// One investment by identifier.
    pub fn get_investment(&self, investment_id: u64)
        -> (r: Result<Investment, QuickLendXError>)
        ensures
            investment_id >= self.investments@.len() ==> r
                == Err::<Investment, QuickLendXError>(QuickLendXError::StorageKeyNotFound),
            investment_id < self.investments@.len() ==> match r {
                Ok(v) => same_investment(v, self.investments@[investment_id as int]),
                Err(_) => false,
            },
    {
        if investment_id >= self.investments.len() as u64 {
            return Err(QuickLendXError::StorageKeyNotFound);
        }
        Ok(self.investments[investment_id as usize].duplicate())
    }

    /// The investment opened for a funded invoice: the first record for
    /// that invoice.
    pub fn get_invoice_investment(&self, invoice_id: u64)
        -> (r: Result<Investment, QuickLendXError>)
        ensures
            match r {
                Ok(v) => exists|i: int|
                    0 <= i < self.investments@.len()
                        && (#[trigger] self.investments@[i]).invoice_id == invoice_id
                        && same_investment(v, self.investments@[i]),
                Err(e) => e == QuickLendXError::StorageKeyNotFound
                    && !self.has_investment(invoice_id),
            },
    {
        match self.find_investment_by_invoice(invoice_id) {
            Some(i) => Ok(self.investments[i].duplicate()),
            None => Err(QuickLendXError::StorageKeyNotFound),
        }
    }

    /// Identifiers of one investor's investments, ascending.
    pub fn get_investments_by_investor(&self, investor: Address) -> (r: Vec<u64>)
        ensures
            forall|k: int| 0 <= k < r@.len() ==> (#[trigger] r@[k]) < self.investments@.len()
                && self.investments@[r@[k] as int].investor == investor,
            forall|i: int| 0 <= i < self.investments@.len()
                && (#[trigger] self.investments@[i]).investor == investor
                ==> r@.contains(i as u64),
            r@.no_duplicates(),
    {
        let mut r: Vec<u64> = Vec::new();
        let mut i: usize = 0;
        while i < self.investments.len()
            invariant
                i <= self.investments@.len(),
                forall|k: int| 0 <= k < r@.len() ==> (#[trigger] r@[k]) < i
                    && self.investments@[r@[k] as int].investor == investor,
                forall|i2: int| 0 <= i2 < i
                    && (#[trigger] self.investments@[i2]).investor == investor
                    ==> r@.contains(i2 as u64),
                r@.no_duplicates(),
            decreases self.investments@.len() - i,
        {
            if self.investments[i].investor == investor {
                proof {
                    crate::contract::lemma_push_props(r@, i as u64);
                }
                r.push(i as u64);
            }
            i += 1;
        }
        r
    }

    /// Attaches insurance to an `Active` investment (investment owner
    /// only).  The percentage must lie in (0, 100], the computed premium
    /// must be positive, and no other entry may be active; a rejected call
    /// changes nothing.
    pub fn add_investment_insurance(
        &mut self,
        caller: Address,
        investment_id: u64,
        provider: Address,
        coverage_percentage: u32,
    ) -> (r: Result<(), QuickLendXError>)
        requires
            old(self).wf(),
        ensures
            final(self).wf(),
            Self::only_investments_changed(*old(self), *final(self)),
            investment_id >= old(self).investments@.len() ==> r
                == Err::<(), QuickLendXError>(QuickLendXError::StorageKeyNotFound)
                && *final(self) == *old(self),
            investment_id < old(self).investments@.len() ==> {
                let v = old(self).investments@[investment_id as int];
                &&& caller != v.investor ==> r
                    == Err::<(), QuickLendXError>(QuickLendXError::Unauthorized)
                    && *final(self) == *old(self)
                &&& caller == v.investor && v.status != InvestmentStatus::Active ==> r
                    == Err::<(), QuickLendXError>(QuickLendXError::InvalidStatus)
                    && *final(self) == *old(self)
                &&& caller == v.investor && v.status == InvestmentStatus::Active ==> {
                    &&& premium_of(v.amount, coverage_percentage) <= 0 ==> r
                        == Err::<(), QuickLendXError>(QuickLendXError::InvalidAmount)
                        && *final(self) == *old(self)
                    &&& premium_of(v.amount, coverage_percentage) > 0
                        && (coverage_percentage == 0 || coverage_percentage > 100) ==> r
                        == Err::<(), QuickLendXError>(QuickLendXError::InvalidCoveragePercentage)
                        && *final(self) == *old(self)
                    &&& 0 < coverage_percentage <= 100
                        && premium_of(v.amount, coverage_percentage) > 0
                        && has_active(v.insurance@) ==> r
                        == Err::<(), QuickLendXError>(QuickLendXError::OperationNotAllowed)
                        && *final(self) == *old(self)
                    &&& 0 < coverage_percentage <= 100
                        && premium_of(v.amount, coverage_percentage) > 0
                        && !has_active(v.insurance@) ==> {
                        let entry = InsuranceCoverage {
                            provider,
                            coverage_percentage,
                            coverage_amount: coverage_of(v.amount, coverage_percentage) as i128,
                            premium_amount: premium_of(v.amount, coverage_percentage) as i128,
                            active: true,
                        };
                        &&& r == Ok::<(), QuickLendXError>(())
                        &&& final(self).investments@.len() == old(self).investments@.len()
                        &&& final(self).investments@[investment_id as int] == (Investment {
                            insurance: final(self).investments@[investment_id as int].insurance,
                            ..v
                        })
                        &&& final(self).investments@[investment_id as int].insurance@
                            == v.insurance@.push(entry)
                        &&& forall|k: int| 0 <= k < old(self).investments@.len()
                            && k != investment_id ==> final(self).investments@[k]
                            == old(self).investments@[k]
                    }
                }
            },
    {
        if investment_id >= self.investments.len() as u64 {
            return Err(QuickLendXError::StorageKeyNotFound);
        }
        let idx = investment_id as usize;
        if caller != self.investments[idx].investor {
            return Err(QuickLendXError::Unauthorized);
        }
        if !matches!(self.investments[idx].status, InvestmentStatus::Active) {
            return Err(QuickLendXError::InvalidStatus);
        }
        let amount = self.investments[idx].amount;
        let premium = Investment::calculate_premium(amount, coverage_percentage);
        if premium <= 0 {
            return Err(QuickLendXError::InvalidAmount);
        }
        if coverage_percentage == 0 || coverage_percentage > 100 {
            return Err(QuickLendXError::InvalidCoveragePercentage);
        }
        if self.investments[idx].has_active_insurance() {
            return Err(QuickLendXError::OperationNotAllowed);
        }
        let res = self.investments[idx].add_insurance(provider, coverage_percentage, premium);
        proof {
            assert(res.is_ok());
            crate::settlement::lemma_wf_investments_update(*old(self), *self,
                investment_id as int);
        }
        Ok(())
    }

    /// All insurance entries of one investment, active and historical.
    pub fn query_investment_insurance(&self, investment_id: u64)
        -> (r: Result<Vec<InsuranceCoverage>, QuickLendXError>)
        ensures
            investment_id >= self.investments@.len() ==> r
                == Err::<Vec<InsuranceCoverage>, QuickLendXError>(
                QuickLendXError::StorageKeyNotFound),
            investment_id < self.investments@.len() ==> match r {
                Ok(entries) => entries@ == self.investments@[investment_id as int].insurance@,
                Err(_) => false,
            },
    {
        if investment_id >= self.investments.len() as u64 {
            return Err(QuickLendXError::StorageKeyNotFound);
        }
        Ok(crate::investment::copy_coverages(&self.investments[investment_id as usize].insurance))
    }
}

/// An investor with a record at `i` has no record anywhere else.
proof fn lemma_unique_investor(state: QuickLendXContract, i: int, investor: Address)
    requires
        state.wf(),
        0 <= i < state.investor_verifications@.len(),
        state.investor_verifications@[i].investor == investor,
    ensures
        forall|k: int|
            0 <= k < state.investor_verifications@.len() && k != i
                ==> (#[trigger] state.investor_verifications@[k]).investor != investor,
{
}

/// Replacing the KYC tables with any tables that keep one record per
/// address keeps the store consistent.
proof fn lemma_wf_kyc_tables(pre: QuickLendXContract, post: QuickLendXContract)
    requires
        pre.wf(),
        forall|i: int, j: int|
            0 <= i < j < post.business_verifications@.len()
                ==> (#[trigger] post.business_verifications@[i]).business
                != (#[trigger] post.business_verifications@[j]).business,
        forall|i: int, j: int|
            0 <= i < j < post.investor_verifications@.len()
                ==> (#[trigger] post.investor_verifications@[i]).investor
                != (#[trigger] post.investor_verifications@[j]).investor,
        post.invoices == pre.invoices,
        post.bids == pre.bids,
        post.escrows == pre.escrows,
        post.investments == pre.investments,
        post.disputes == pre.disputes,
        post.currencies == pre.currencies,
        QuickLendXContract::indices_unchanged(pre, post),
        post.platform_fee_bps == pre.platform_fee_bps,
    ensures
        post.wf(),
{
    assert(forall|s: InvoiceStatus| post.status_list(s) == pre.status_list(s));
    assert forall|s: InvoiceStatus| #[trigger] post.list_ok(s) by {
        assert(pre.list_ok(s));
    }
    assert forall|id: int| 0 <= id < post.invoices@.len()
        implies #[trigger] post.status_list(post.invoices@[id].status).contains(id as u64) by {
        assert(pre.status_list(pre.invoices@[id].status).contains(id as u64));
    }
    assert forall|id: int| 0 <= id < post.invoices@.len()
        implies #[trigger] post.wf_invoice_at(id) by {
        assert(pre.wf_invoice_at(id));
    }
    assert forall|k: int| 0 <= k < post.bids@.len() implies #[trigger] post.wf_bid_at(k) by {
        assert(pre.wf_bid_at(k));
    }
    assert forall|k: int| 0 <= k < post.escrows@.len() implies #[trigger] post.wf_escrow_at(k) by {
        assert(pre.wf_escrow_at(k));
    }
    assert forall|k: int| 0 <= k < post.disputes@.len()
        implies #[trigger] post.wf_dispute_at(k) by {
        assert(pre.wf_dispute_at(k));
    }
}

/// Appending a fresh investment with the next identifier and no insurance
/// keeps the store consistent.
proof fn lemma_wf_investments_table(pre: QuickLendXContract, post: QuickLendXContract)
    requires
        pre.wf(),
        post.investments@.len() == pre.investments@.len() + 1,
        forall|k: int| 0 <= k < pre.investments@.len()
            ==> post.investments@[k] == pre.investments@[k],
        post.investments@.last().investment_id == pre.investments@.len() as u64,
        post.investments@.last().insurance@.len() == 0,
        post.invoices == pre.invoices,
        post.bids == pre.bids,
        post.escrows == pre.escrows,
        post.disputes == pre.disputes,
        post.business_verifications == pre.business_verifications,
        post.investor_verifications == pre.investor_verifications,
        post.currencies == pre.currencies,
        QuickLendXContract::indices_unchanged(pre, post),
        post.platform_fee_bps == pre.platform_fee_bps,
    ensures
        post.wf(),
{
    assert(forall|s: InvoiceStatus| post.status_list(s) == pre.status_list(s));
    assert forall|s: InvoiceStatus| #[trigger] post.list_ok(s) by {
        assert(pre.list_ok(s));
    }
    assert forall|id: int| 0 <= id < post.invoices@.len()
        implies #[trigger] post.status_list(post.invoices@[id].status).contains(id as u64) by {
        assert(pre.status_list(pre.invoices@[id].status).contains(id as u64));
    }
    assert forall|id: int| 0 <= id < post.invoices@.len()
        implies #[trigger] post.wf_invoice_at(id) by {
        assert(pre.wf_invoice_at(id));
    }
    assert forall|k: int| 0 <= k < post.bids@.len() implies #[trigger] post.wf_bid_at(k) by {
        assert(pre.wf_bid_at(k));
    }
    assert forall|k: int| 0 <= k < post.escrows@.len() implies #[trigger] post.wf_escrow_at(k) by {
        assert(pre.wf_escrow_at(k));
    }
    assert forall|k: int| 0 <= k < post.disputes@.len()
        implies #[trigger] post.wf_dispute_at(k) by {
        assert(pre.wf_dispute_at(k));
    }
    assert forall|k: int| 0 <= k < post.investments@.len() implies {
        let v = #[trigger] post.investments@[k];
        &&& v.investment_id == k as u64
        &&& forall|i: int, j: int| 0 <= i < j < v.insurance@.len()
            ==> !(#[trigger] v.insurance@[i].active && #[trigger] v.insurance@[j].active)
    } by {
        if k < pre.investments@.len() {
            assert(post.investments@[k] == pre.investments@[k]);
        } else {
            assert(post.investments@[k] == post.investments@.last());
        }
    }
}

} // verus!
