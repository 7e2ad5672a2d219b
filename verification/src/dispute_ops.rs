//! The dispute engine: at most one dispute per invoice, advancing only
//! forward through `Disputed -> UnderReview -> Resolved`, layered on top of
//! the invoice status.

use crate::contract::QuickLendXContract;
use crate::errors::QuickLendXError;
use crate::invoice::{Dispute, DisputeStatus, Invoice, InvoiceStatus};
use crate::Address;
use vstd::prelude::*;

verus! {

impl QuickLendXContract {
    /// Whether `creator` is a stakeholder of the invoice: its business, or
    /// the investor who funded it.
    pub open spec fn dispute_stakeholder(self, invoice_id: u64, creator: Address) -> bool {
        ||| creator == self.invoices@[invoice_id as int].business
        ||| self.invoices@[invoice_id as int].investor == Some(creator)
    }

    /// Why a dispute creation is rejected, if it is.
    pub open spec fn create_dispute_error(
        self,
        invoice_id: u64,
        creator: Address,
        reason: Seq<char>,
        evidence: Seq<char>,
    ) -> Option<QuickLendXError> {
        if invoice_id >= self.invoices@.len() {
            Some(QuickLendXError::InvoiceNotFound)
        } else if !self.dispute_stakeholder(invoice_id, creator) {
            Some(QuickLendXError::DisputeNotAuthorized)
        } else if self.invoices@[invoice_id as int].dispute.is_some() {
            Some(QuickLendXError::DisputeAlreadyExists)
        } else if !(1 <= reason.len() <= 500) {
            Some(QuickLendXError::InvalidDisputeReason)
        } else if !(1 <= evidence.len() <= 1000) {
            Some(QuickLendXError::InvalidDisputeEvidence)
        } else {
            None
        }
    }

    /// Raises a dispute against an invoice.  Only a stakeholder may raise
    /// one, only once per invoice ever, with a reason of 1 to 500
    /// characters and evidence of 1 to 1000 characters.  The invoice's
    /// dispute status becomes `Disputed`.
    pub fn create_dispute(
        &mut self,
        invoice_id: u64,
        creator: Address,
        reason: String,
        evidence: String,
    ) -> (r: Result<(), QuickLendXError>)
        requires
            old(self).wf(),
        ensures
            final(self).wf(),
            match old(self).create_dispute_error(invoice_id, creator, reason@, evidence@) {
                Some(e) => r == Err::<(), QuickLendXError>(e) && *final(self) == *old(self),
                None => {
                    let d = old(self).disputes@.len() as u64;
                    &&& r == Ok::<(), QuickLendXError>(())
                    &&& final(self).disputes@.len() == d + 1
                    &&& ({
                        let rec = final(self).disputes@.last();
                        &&& rec.invoice_id == invoice_id
                        &&& rec.created_by == creator
                        &&& rec.reason@ == reason@
                        &&& rec.evidence@ == evidence@
                        &&& rec.status == DisputeStatus::Disputed
                        &&& rec.resolved_by.is_none()
                        &&& rec.resolution@.len() == 0
                        &&& rec.resolved_at == 0
                    })
                    &&& forall|k: int| 0 <= k < old(self).disputes@.len()
                        ==> final(self).disputes@[k] == old(self).disputes@[k]
                    &&& final(self).invoices@ == old(self).invoices@.update(
                        invoice_id as int,
                        Invoice {
                            dispute: Some(d),
                            dispute_status: DisputeStatus::Disputed,
                            ..old(self).invoices@[invoice_id as int]
                        },
                    )
                    &&& final(self).bids == old(self).bids
                    &&& final(self).escrows == old(self).escrows
                    &&& final(self).investments == old(self).investments
                    &&& Self::indices_unchanged(*old(self), *final(self))
                    &&& final(self).admin == old(self).admin
                    &&& final(self).currencies == old(self).currencies
                    &&& final(self).business_verifications == old(self).business_verifications
                    &&& final(self).investor_verifications == old(self).investor_verifications
                    &&& final(self).platform_fee_bps == old(self).platform_fee_bps
                    &&& final(self).payment_locked == old(self).payment_locked
                },
            },
    {
        if invoice_id >= self.invoices.len() as u64 {
            return Err(QuickLendXError::InvoiceNotFound);
        }
        let idx = invoice_id as usize;
        let is_business = creator == self.invoices[idx].business;
        let is_investor = match self.invoices[idx].investor {
            Some(v) => creator == v,
            None => false,
        };
        if !(is_business || is_investor) {
            return Err(QuickLendXError::DisputeNotAuthorized);
        }
        if self.invoices[idx].dispute.is_some() {
            return Err(QuickLendXError::DisputeAlreadyExists);
        }
        let reason_len = reason.as_str().unicode_len();
        if reason_len < 1 || reason_len > 500 {
            return Err(QuickLendXError::InvalidDisputeReason);
        }
        let evidence_len = evidence.as_str().unicode_len();
        if evidence_len < 1 || evidence_len > 1000 {
            return Err(QuickLendXError::InvalidDisputeEvidence);
        }
        proof {
            assert(old(self).wf_invoice_at(invoice_id as int));
        }
        let d = self.disputes.len() as u64;
        self.disputes.push(Dispute {
            invoice_id,
            created_by: creator,
            reason,
            evidence,
            status: DisputeStatus::Disputed,
            resolved_by: None,
            resolution: String::new(),
            resolved_at: 0,
        });
        self.invoices[idx].dispute = Some(d);
        self.invoices[idx].dispute_status = DisputeStatus::Disputed;
        proof {
            let pre = *old(self);
            let post = *self;
            let iid = invoice_id as int;
            assert(forall|s: InvoiceStatus| post.status_list(s) == pre.status_list(s));
            assert forall|s: InvoiceStatus| #[trigger] post.list_ok(s) by {
                assert(pre.list_ok(s));
                let l = post.status_list(s);
                assert forall|j: int| 0 <= j < l.len() implies (#[trigger] l[j])
                    < post.invoices@.len() && post.invoices@[l[j] as int].status == s by {
                    assert(pre.invoices@[l[j] as int].status == s);
                    if l[j] as int == iid {
                        assert(post.invoices@[iid].status == pre.invoices@[iid].status);
                    }
                }
            }
            assert forall|id2: int| 0 <= id2 < post.invoices@.len()
                implies #[trigger] post.status_list(post.invoices@[id2].status).contains(
                    id2 as u64) by {
                assert(pre.status_list(pre.invoices@[id2].status).contains(id2 as u64));
                assert(post.invoices@[id2].status == pre.invoices@[id2].status);
            }
            // No other invoice pointed at the new dispute slot before.
            assert forall|id2: int| 0 <= id2 < post.invoices@.len()
                implies #[trigger] post.wf_invoice_at(id2) by {
                assert(pre.wf_invoice_at(id2));
                if id2 == iid {
                    assert(post.disputes@[d as int].invoice_id == invoice_id);
                } else {
                    assert(post.invoices@[id2] == pre.invoices@[id2]);
                    match pre.invoices@[id2].dispute {
                        Some(d2) => {
                            assert(post.disputes@[d2 as int] == pre.disputes@[d2 as int]);
                        },
                        None => {},
                    }
                }
            }
            assert forall|k: int| 0 <= k < post.bids@.len()
                implies #[trigger] post.wf_bid_at(k) by {
                assert(pre.wf_bid_at(k));
                let b = post.bids@[k];
                if b.invoice_id as int == iid {
                    assert(post.invoices@[iid].escrow == pre.invoices@[iid].escrow);
                }
            }
            assert forall|k: int| 0 <= k < post.escrows@.len()
                implies #[trigger] post.wf_escrow_at(k) by {
                assert(pre.wf_escrow_at(k));
                let e = post.escrows@[k];
                if e.invoice_id as int == iid {
                    assert(post.invoices@[iid].escrow == pre.invoices@[iid].escrow);
                    assert(post.invoices@[iid].business == pre.invoices@[iid].business);
                    assert(post.invoices@[iid].currency == pre.invoices@[iid].currency);
                }
            }
            assert forall|k: int| 0 <= k < post.disputes@.len()
                implies #[trigger] post.wf_dispute_at(k) by {
                if k < pre.disputes@.len() {
                    assert(pre.wf_dispute_at(k));
                    assert(post.disputes@[k] == pre.disputes@[k]);
                    let d2 = post.disputes@[k];
                    assert(d2.invoice_id != invoice_id) by {
                        assert(pre.invoices@[d2.invoice_id as int].dispute == Some(k as u64));
                    }
                    assert(post.invoices@[d2.invoice_id as int]
                        == pre.invoices@[d2.invoice_id as int]);
                } else {
                    assert(post.invoices@[iid].dispute == Some(d));
                }
            }
        }
        Ok(())
    }

    /// Puts a dispute under review (administrator only); only valid while
    /// the dispute stands at `Disputed`.
    pub fn put_dispute_under_review(&mut self, invoice_id: u64, reviewer: Address)
        -> (r: Result<(), QuickLendXError>)
        requires
            old(self).wf(),
        ensures
            final(self).wf(),
            !old(self).is_admin(reviewer) ==> r
                == Err::<(), QuickLendXError>(QuickLendXError::NotAdmin)
                && *final(self) == *old(self),
            old(self).is_admin(reviewer) && invoice_id >= old(self).invoices@.len() ==> r
                == Err::<(), QuickLendXError>(QuickLendXError::InvoiceNotFound)
                && *final(self) == *old(self),
            old(self).is_admin(reviewer) && invoice_id < old(self).invoices@.len()
                && old(self).invoices@[invoice_id as int].dispute.is_none() ==> r
                == Err::<(), QuickLendXError>(QuickLendXError::DisputeNotFound)
                && *final(self) == *old(self),
            old(self).is_admin(reviewer) && invoice_id < old(self).invoices@.len()
                && old(self).invoices@[invoice_id as int].dispute.is_some() ==> {
                let d = old(self).invoices@[invoice_id as int].dispute.unwrap() as int;
                &&& old(self).disputes@[d].status != DisputeStatus::Disputed ==> r
                    == Err::<(), QuickLendXError>(QuickLendXError::InvalidStatus)
                    && *final(self) == *old(self)
                &&& old(self).disputes@[d].status == DisputeStatus::Disputed ==> {
                    &&& r == Ok::<(), QuickLendXError>(())
                    &&& final(self).disputes@ == old(self).disputes@.update(d, Dispute {
                        status: DisputeStatus::UnderReview,
                        ..old(self).disputes@[d]
                    })
                    &&& final(self).invoices@ == old(self).invoices@.update(
                        invoice_id as int,
                        Invoice {
                            dispute_status: DisputeStatus::UnderReview,
                            ..old(self).invoices@[invoice_id as int]
                        },
                    )
                    &&& Self::indices_unchanged(*old(self), *final(self))
                    &&& final(self).bids == old(self).bids
                    &&& final(self).escrows == old(self).escrows
                    &&& final(self).investments == old(self).investments
                    &&& final(self).admin == old(self).admin
                    &&& final(self).currencies == old(self).currencies
                    &&& final(self).business_verifications == old(self).business_verifications
                    &&& final(self).investor_verifications == old(self).investor_verifications
                    &&& final(self).platform_fee_bps == old(self).platform_fee_bps
                    &&& final(self).payment_locked == old(self).payment_locked
                }
            },
    {
        let is_admin_caller = match self.admin {
            Some(a) => reviewer == a,
            None => false,
        };
        if !is_admin_caller {
            return Err(QuickLendXError::NotAdmin);
        }
        if invoice_id >= self.invoices.len() as u64 {
            return Err(QuickLendXError::InvoiceNotFound);
        }
        let idx = invoice_id as usize;
        let d = match self.invoices[idx].dispute {
            Some(d) => d,
            None => {
                return Err(QuickLendXError::DisputeNotFound);
            },
        };
        let n_disputes: usize = self.disputes.len();
        let n_invoices: usize = self.invoices.len();
        proof {
            assert(old(self).wf_invoice_at(invoice_id as int));
            assert(old(self).wf_dispute_at(d as int));
            assert(d < n_disputes as u64);
        }
        if !matches!(self.disputes[d as usize].status, DisputeStatus::Disputed) {
            return Err(QuickLendXError::InvalidStatus);
        }
        self.disputes[d as usize].status = DisputeStatus::UnderReview;
        self.invoices[idx].dispute_status = DisputeStatus::UnderReview;
        proof {
            lemma_wf_dispute_advance(*old(self), *self, d as int);
        }
        Ok(())
    }

    /// Resolves a dispute under review (administrator only), recording the
    /// resolver, a resolution of 1 to 500 characters, and the resolution
    /// time.
    pub fn resolve_dispute(
        &mut self,
        invoice_id: u64,
        resolver: Address,
        resolution: String,
        now: u64,
    ) -> (r: Result<(), QuickLendXError>)
        requires
            old(self).wf(),
        ensures
            final(self).wf(),
            !old(self).is_admin(resolver) ==> r
                == Err::<(), QuickLendXError>(QuickLendXError::NotAdmin)
                && *final(self) == *old(self),
            old(self).is_admin(resolver) && invoice_id >= old(self).invoices@.len() ==> r
                == Err::<(), QuickLendXError>(QuickLendXError::InvoiceNotFound)
                && *final(self) == *old(self),
            old(self).is_admin(resolver) && invoice_id < old(self).invoices@.len()
                && old(self).invoices@[invoice_id as int].dispute.is_none() ==> r
                == Err::<(), QuickLendXError>(QuickLendXError::DisputeNotFound)
                && *final(self) == *old(self),
            old(self).is_admin(resolver) && invoice_id < old(self).invoices@.len()
                && old(self).invoices@[invoice_id as int].dispute.is_some() ==> {
                let d = old(self).invoices@[invoice_id as int].dispute.unwrap() as int;
                &&& old(self).disputes@[d].status != DisputeStatus::UnderReview ==> r
                    == Err::<(), QuickLendXError>(QuickLendXError::DisputeNotUnderReview)
                    && *final(self) == *old(self)
                &&& old(self).disputes@[d].status == DisputeStatus::UnderReview
                    && !(1 <= resolution@.len() <= 500) ==> r
                    == Err::<(), QuickLendXError>(QuickLendXError::InvalidDisputeReason)
                    && *final(self) == *old(self)
                &&& old(self).disputes@[d].status == DisputeStatus::UnderReview
                    && 1 <= resolution@.len() <= 500 ==> {
                    &&& r == Ok::<(), QuickLendXError>(())
                    &&& final(self).disputes@.len() == old(self).disputes@.len()
                    &&& ({
                        let rec = final(self).disputes@[d];
                        &&& rec.status == DisputeStatus::Resolved
                        &&& rec.resolved_by == Some(resolver)
                        &&& rec.resolution@ == resolution@
                        &&& rec.resolved_at == now
                        &&& rec.invoice_id == old(self).disputes@[d].invoice_id
                        &&& rec.created_by == old(self).disputes@[d].created_by
                        &&& rec.reason == old(self).disputes@[d].reason
                        &&& rec.evidence == old(self).disputes@[d].evidence
                    })
                    &&& forall|k: int| 0 <= k < old(self).disputes@.len() && k != d
                        ==> final(self).disputes@[k] == old(self).disputes@[k]
                    &&& final(self).invoices@ == old(self).invoices@.update(
                        invoice_id as int,
                        Invoice {
                            dispute_status: DisputeStatus::Resolved,
                            ..old(self).invoices@[invoice_id as int]
                        },
                    )
                    &&& Self::indices_unchanged(*old(self), *final(self))
                    &&& final(self).bids == old(self).bids
                    &&& final(self).escrows == old(self).escrows
                    &&& final(self).investments == old(self).investments
                    &&& final(self).admin == old(self).admin
                    &&& final(self).currencies == old(self).currencies
                    &&& final(self).business_verifications == old(self).business_verifications
                    &&& final(self).investor_verifications == old(self).investor_verifications
                    &&& final(self).platform_fee_bps == old(self).platform_fee_bps
                    &&& final(self).payment_locked == old(self).payment_locked
                }
            },
    {
        let is_admin_caller = match self.admin {
            Some(a) => resolver == a,
            None => false,
        };
        if !is_admin_caller {
            return Err(QuickLendXError::NotAdmin);
        }
        if invoice_id >= self.invoices.len() as u64 {
            return Err(QuickLendXError::InvoiceNotFound);
        }
        let idx = invoice_id as usize;
        let d = match self.invoices[idx].dispute {
            Some(d) => d,
            None => {
                return Err(QuickLendXError::DisputeNotFound);
            },
        };
        let n_disputes: usize = self.disputes.len();
        let n_invoices: usize = self.invoices.len();
        proof {
            assert(old(self).wf_invoice_at(invoice_id as int));
            assert(old(self).wf_dispute_at(d as int));
            assert(d < n_disputes as u64);
        }
        if !matches!(self.disputes[d as usize].status, DisputeStatus::UnderReview) {
            return Err(QuickLendXError::DisputeNotUnderReview);
        }
        let resolution_len = resolution.as_str().unicode_len();
        if resolution_len < 1 || resolution_len > 500 {
            return Err(QuickLendXError::InvalidDisputeReason);
        }
        self.disputes[d as usize].status = DisputeStatus::Resolved;
        self.disputes[d as usize].resolved_by = Some(resolver);
        self.disputes[d as usize].resolution = resolution;
        self.disputes[d as usize].resolved_at = now;
        self.invoices[idx].dispute_status = DisputeStatus::Resolved;
        proof {
            lemma_wf_dispute_advance(*old(self), *self, d as int);
        }
        Ok(())
    }

    /// The dispute raised against an invoice, if any.
    pub fn get_dispute_details(&self, invoice_id: u64)
        -> (r: Result<Option<Dispute>, QuickLendXError>)
        requires
            self.wf(),
        ensures
            invoice_id >= self.invoices@.len() ==> r
                == Err::<Option<Dispute>, QuickLendXError>(QuickLendXError::InvoiceNotFound),
            invoice_id < self.invoices@.len() ==> match r {
                Ok(opt) => match self.invoices@[invoice_id as int].dispute {
                    Some(d) => opt.is_some() && opt.unwrap() == self.disputes@[d as int],
                    None => opt.is_none(),
                },
                Err(_) => false,
            },
    {
        if invoice_id >= self.invoices.len() as u64 {
            return Err(QuickLendXError::InvoiceNotFound);
        }
        let idx = invoice_id as usize;
        match self.invoices[idx].dispute {
            Some(d) => {
                let n_disputes: usize = self.disputes.len();
                proof {
                    assert(self.wf_invoice_at(invoice_id as int));
                    assert(d < n_disputes as u64);
                }
                Ok(Some(self.disputes[d as usize].duplicate()))
            },
            None => Ok(None),
        }
    }

    /// The dispute overlay status of an invoice.
    pub fn get_invoice_dispute_status(&self, invoice_id: u64)
        -> (r: Result<DisputeStatus, QuickLendXError>)
        ensures
            invoice_id >= self.invoices@.len() ==> r
                == Err::<DisputeStatus, QuickLendXError>(QuickLendXError::InvoiceNotFound),
            invoice_id < self.invoices@.len() ==> r == Ok::<DisputeStatus, QuickLendXError>(
                self.invoices@[invoice_id as int].dispute_status),
    {
        if invoice_id >= self.invoices.len() as u64 {
            return Err(QuickLendXError::InvoiceNotFound);
        }
        Ok(self.invoices[invoice_id as usize].dispute_status)
    }

    /// Identifiers of invoices with a dispute, ascending.
    pub fn get_invoices_with_disputes(&self) -> (r: Vec<u64>)
        ensures
            forall|k: int| 0 <= k < r@.len() ==> (#[trigger] r@[k]) < self.invoices@.len()
                && self.invoices@[r@[k] as int].dispute.is_some(),
            forall|id: int| 0 <= id < self.invoices@.len()
                && (#[trigger] self.invoices@[id]).dispute.is_some()
                ==> r@.contains(id as u64),
            r@.no_duplicates(),
    {
        let mut r: Vec<u64> = Vec::new();
        let mut i: usize = 0;
        while i < self.invoices.len()
            invariant
                i <= self.invoices@.len(),
                forall|k: int| 0 <= k < r@.len() ==> (#[trigger] r@[k]) < i
                    && self.invoices@[r@[k] as int].dispute.is_some(),
                forall|id: int| 0 <= id < i
                    && (#[trigger] self.invoices@[id]).dispute.is_some()
                    ==> r@.contains(id as u64),
                r@.no_duplicates(),
            decreases self.invoices@.len() - i,
        {
            if self.invoices[i].dispute.is_some() {
                proof {
                    crate::contract::lemma_push_props(r@, i as u64);
                }
                r.push(i as u64);
            }
            i += 1;
        }
        r
    }

    /// Identifiers of invoices whose dispute overlay stands at `status`,
    /// ascending.
    pub fn get_invoices_by_dispute_status(&self, dispute_status: DisputeStatus) -> (r: Vec<u64>)
        ensures
            forall|k: int| 0 <= k < r@.len() ==> (#[trigger] r@[k]) < self.invoices@.len()
                && self.invoices@[r@[k] as int].dispute_status == dispute_status,
            forall|id: int| 0 <= id < self.invoices@.len()
                && (#[trigger] self.invoices@[id]).dispute_status == dispute_status
                ==> r@.contains(id as u64),
            r@.no_duplicates(),
    {
        let mut r: Vec<u64> = Vec::new();
        let mut i: usize = 0;
        while i < self.invoices.len()
            invariant
                i <= self.invoices@.len(),
                forall|k: int| 0 <= k < r@.len() ==> (#[trigger] r@[k]) < i
                    && self.invoices@[r@[k] as int].dispute_status == dispute_status,
                forall|id: int| 0 <= id < i
                    && (#[trigger] self.invoices@[id]).dispute_status == dispute_status
                    ==> r@.contains(id as u64),
                r@.no_duplicates(),
            decreases self.invoices@.len() - i,
        {
            if self.invoices[i].dispute_status == dispute_status {
                proof {
                    crate::contract::lemma_push_props(r@, i as u64);
                }
                r.push(i as u64);
            }
            i += 1;
        }
        r
    }
}

/// Advancing one dispute record together with its invoice's mirror keeps
/// the store consistent.
proof fn lemma_wf_dispute_advance(pre: QuickLendXContract, post: QuickLendXContract, d: int)
    requires
        pre.wf(),
        pre.invoices@.len() <= usize::MAX as int,
        pre.disputes@.len() <= usize::MAX as int,
        0 <= d < pre.disputes@.len(),
        post.disputes@.len() == pre.disputes@.len(),
        forall|k: int| 0 <= k < pre.disputes@.len() && k != d
            ==> post.disputes@[k] == pre.disputes@[k],
        ({
            let a = pre.disputes@[d];
            let b = post.disputes@[d];
            &&& b.invoice_id == a.invoice_id
            &&& b.created_by == a.created_by
            &&& b.reason == a.reason
            &&& b.evidence == a.evidence
            &&& b.status != DisputeStatus::NoDispute
            &&& b.status == DisputeStatus::Resolved ==> b.resolved_by.is_some()
                && 1 <= b.resolution@.len() <= 500
            &&& b.status != DisputeStatus::Resolved ==> b.resolved_by.is_none()
                && b.resolution@.len() == 0 && b.resolved_at == 0
        }),
        post.invoices@.len() == pre.invoices@.len(),
        forall|id: int|
            0 <= id < pre.invoices@.len() && id != pre.disputes@[d].invoice_id as int
                ==> post.invoices@[id] == pre.invoices@[id],
        post.invoices@[pre.disputes@[d].invoice_id as int] == (Invoice {
            dispute_status: post.disputes@[d].status,
            ..pre.invoices@[pre.disputes@[d].invoice_id as int]
        }),
        post.bids == pre.bids,
        post.escrows == pre.escrows,
        post.investments == pre.investments,
        post.business_verifications == pre.business_verifications,
        post.investor_verifications == pre.investor_verifications,
        post.currencies == pre.currencies,
        QuickLendXContract::indices_unchanged(pre, post),
        post.platform_fee_bps == pre.platform_fee_bps,
    ensures
        post.wf(),
{
    let iid = pre.disputes@[d].invoice_id as int;
    assert(pre.wf_dispute_at(d));
    assert(forall|s: InvoiceStatus| post.status_list(s) == pre.status_list(s));
    assert forall|s: InvoiceStatus| #[trigger] post.list_ok(s) by {
        assert(pre.list_ok(s));
        let l = post.status_list(s);
        assert forall|j: int| 0 <= j < l.len() implies (#[trigger] l[j])
            < post.invoices@.len() && post.invoices@[l[j] as int].status == s by {
            assert(pre.invoices@[l[j] as int].status == s);
            if l[j] as int == iid {
                assert(post.invoices@[iid].status == pre.invoices@[iid].status);
            }
        }
    }
    assert forall|id: int| 0 <= id < post.invoices@.len()
        implies #[trigger] post.status_list(post.invoices@[id].status).contains(id as u64) by {
        assert(pre.status_list(pre.invoices@[id].status).contains(id as u64));
        assert(post.invoices@[id].status == pre.invoices@[id].status);
    }
    assert forall|id: int| 0 <= id < post.invoices@.len()
        implies #[trigger] post.wf_invoice_at(id) by {
        assert(pre.wf_invoice_at(id));
        if id == iid {
            assert(post.invoices@[iid].dispute == Some(d as u64));
        } else {
            assert(post.invoices@[id] == pre.invoices@[id]);
            match pre.invoices@[id].dispute {
                Some(d2) => {
                    assert(d2 as int != d) by {
                        assert(pre.disputes@[d2 as int].invoice_id == id as u64);
                    }
                    assert(post.disputes@[d2 as int] == pre.disputes@[d2 as int]);
                },
                None => {},
            }
        }
    }
    assert forall|k: int| 0 <= k < post.bids@.len() implies #[trigger] post.wf_bid_at(k) by {
        assert(pre.wf_bid_at(k));
        let b = post.bids@[k];
        if b.invoice_id as int == iid {
            assert(post.invoices@[iid].escrow == pre.invoices@[iid].escrow);
        }
    }
    assert forall|k: int| 0 <= k < post.escrows@.len() implies #[trigger] post.wf_escrow_at(k) by {
        assert(pre.wf_escrow_at(k));
        let e = post.escrows@[k];
        if e.invoice_id as int == iid {
            assert(post.invoices@[iid].escrow == pre.invoices@[iid].escrow);
            assert(post.invoices@[iid].business == pre.invoices@[iid].business);
            assert(post.invoices@[iid].currency == pre.invoices@[iid].currency);
        }
    }
    assert forall|k: int| 0 <= k < post.disputes@.len()
        implies #[trigger] post.wf_dispute_at(k) by {
        assert(pre.wf_dispute_at(k));
        let d2 = post.disputes@[k];
        if k == d {
            assert(post.invoices@[iid].dispute == Some(d as u64));
        } else {
            assert(d2 == pre.disputes@[k]);
            if d2.invoice_id as int == iid {
                assert(pre.invoices@[iid].dispute == Some(k as u64));
                assert(pre.invoices@[iid].dispute == Some(d as u64));
                assert(false);
            } else {
                assert(post.invoices@[d2.invoice_id as int]
                    == pre.invoices@[d2.invoice_id as int]);
            }
        }
    }
}

} // verus!
