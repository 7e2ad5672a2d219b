//! Bid acceptance and escrow custody: the money-moving heart of the
//! marketplace.  Accepting a bid is one atomic unit — the bid becomes
//! `Accepted`, value moves into a fresh escrow, the invoice becomes
//! `Funded`, and an `Active` investment is opened — and the whole unit is
//! wrapped by the payment reentrancy guard.

use crate::bid::{Bid, BidStatus};
use crate::bid_ops::{lapse, swept};
use crate::contract::{lemma_wf_congruence, QuickLendXContract};
use crate::errors::QuickLendXError;
use crate::escrow::{Escrow, EscrowStatus};
use crate::investment::Investment;
use crate::invoice::{Invoice, InvoiceStatus};
use crate::Address;
use vstd::prelude::*;

verus! {

impl QuickLendXContract {
    /// Why a bid acceptance is rejected before the lazy sweep, if it is.
    pub open spec fn accept_precheck_error(
        self,
        caller: Address,
        invoice_id: u64,
        bid_id: u64,
    ) -> Option<QuickLendXError> {
        if self.payment_locked {
            Some(QuickLendXError::OperationNotAllowed)
        } else if invoice_id >= self.invoices@.len() {
            Some(QuickLendXError::InvoiceNotFound)
        } else if bid_id >= self.bids@.len() {
            Some(QuickLendXError::StorageKeyNotFound)
        } else if self.bids@[bid_id as int].invoice_id != invoice_id {
            Some(QuickLendXError::InvalidStatus)
        } else if caller != self.invoices@[invoice_id as int].business {
            Some(QuickLendXError::Unauthorized)
        } else {
            None
        }
    }

    /// Whether, after the lazy sweep, the invoice and bid are in the
    /// statuses acceptance requires.
    pub open spec fn accept_statuses_ok(self, invoice_id: u64, bid_id: u64, now: u64) -> bool {
        &&& self.invoices@[invoice_id as int].status == InvoiceStatus::Verified
        &&& lapse(self.bids@[bid_id as int], invoice_id, now).status == BidStatus::Placed
    }

    /// The whole atomic funding unit, relating the store before a
    /// successful acceptance to the store after it: expired bids swept and
    /// the winning bid `Accepted`, a fresh `Funded` escrow holding the
    /// bid's amount, the invoice `Funded` and linked to the escrow, an
    /// `Active` investment opened 1:1, the status indices moved, and
    /// everything else untouched.
    pub open spec fn funded_unit_ok(
        pre: Self,
        post: Self,
        invoice_id: u64,
        bid_id: u64,
        now: u64,
    ) -> bool {
        let b = pre.bids@[bid_id as int];
        let inv = pre.invoices@[invoice_id as int];
        let eid = pre.escrows@.len() as u64;
        &&& post.bids@ == swept(pre.bids@, invoice_id, now).update(
            bid_id as int,
            Bid { status: BidStatus::Accepted, ..b },
        )
        &&& post.escrows@ == pre.escrows@.push(Escrow {
            escrow_id: eid,
            invoice_id,
            bid_id,
            business: inv.business,
            investor: b.investor,
            amount: b.bid_amount,
            currency: inv.currency,
            status: EscrowStatus::Funded,
        })
        &&& post.invoices@ == pre.invoices@.update(
            invoice_id as int,
            Invoice {
                status: InvoiceStatus::Funded,
                escrow: Some(eid),
                investor: Some(b.investor),
                funded_amount: b.bid_amount,
                funded_at: now,
                ..inv
            },
        )
        &&& post.investments@.len() == pre.investments@.len() + 1
        &&& ({
            let v = post.investments@.last();
            &&& v.investment_id == pre.investments@.len() as u64
            &&& v.invoice_id == invoice_id
            &&& v.investor == b.investor
            &&& v.amount == b.bid_amount
            &&& v.funded_at == now
            &&& v.status == crate::investment::InvestmentStatus::Active
            &&& v.insurance@.len() == 0
        })
        &&& forall|k: int| 0 <= k < pre.investments@.len()
            ==> post.investments@[k] == pre.investments@[k]
        &&& !post.status_list(InvoiceStatus::Verified).contains(invoice_id)
        &&& post.status_list(InvoiceStatus::Funded).contains(invoice_id)
        &&& post.admin == pre.admin
        &&& post.currencies == pre.currencies
        &&& post.disputes == pre.disputes
        &&& post.business_verifications == pre.business_verifications
        &&& post.investor_verifications == pre.investor_verifications
        &&& post.platform_fee_bps == pre.platform_fee_bps
    }

    /// Accepts a bid and funds the invoice (business owner only).  The
    /// invoice's expired bids are swept first; the invoice must then be
    /// `Verified` and the bid `Placed`.  On success, as one unit: the bid
    /// becomes `Accepted`, a fresh `Funded` escrow holds the bid's amount
    /// in the invoice's currency, the invoice becomes `Funded`, and an
    /// `Active` investment is opened for the bid's investor.  A re-entrant
    /// call while the payment guard is held is rejected, and the guard is
    /// released on every exit path.
    pub fn accept_bid_and_fund(&mut self, caller: Address, invoice_id: u64, bid_id: u64, now: u64)
        -> (r: Result<u64, QuickLendXError>)
        requires
            old(self).wf(),
        ensures
            final(self).wf(),
            final(self).payment_locked == old(self).payment_locked,
            match old(self).accept_precheck_error(caller, invoice_id, bid_id) {
                Some(e) => r == Err::<u64, QuickLendXError>(e) && *final(self) == *old(self),
                None => {
                    if !old(self).accept_statuses_ok(invoice_id, bid_id, now) {
                        &&& r == Err::<u64, QuickLendXError>(QuickLendXError::InvalidStatus)
                        &&& final(self).bids@ == swept(old(self).bids@, invoice_id, now)
                        &&& Self::only_bids_changed(*old(self), *final(self))
                    } else {
                        &&& r == Ok::<u64, QuickLendXError>(old(self).escrows@.len() as u64)
                        &&& Self::funded_unit_ok(*old(self), *final(self), invoice_id, bid_id,
                            now)
                    }
                },
            },
    {
        if self.payment_locked {
            return Err(QuickLendXError::OperationNotAllowed);
        }
        if invoice_id >= self.invoices.len() as u64 {
            return Err(QuickLendXError::InvoiceNotFound);
        }
        if bid_id >= self.bids.len() as u64 {
            return Err(QuickLendXError::StorageKeyNotFound);
        }
        let idx = invoice_id as usize;
        let k = bid_id as usize;
        if self.bids[k].invoice_id != invoice_id {
            return Err(QuickLendXError::InvalidStatus);
        }
        if caller != self.invoices[idx].business {
            return Err(QuickLendXError::Unauthorized);
        }
        self.cleanup_expired_bids(invoice_id, now);
        if !matches!(self.invoices[idx].status, InvoiceStatus::Verified)
            || !matches!(self.bids[k].status, BidStatus::Placed) {
            return Err(QuickLendXError::InvalidStatus);
        }
        let ghost after_sweep = *self;
        self.payment_locked = true;
        proof {
            lemma_wf_congruence(after_sweep, *self);
        }
        self.set_invoice_status(invoice_id, InvoiceStatus::Funded);
        let ghost mid = *self;
        let b = self.bids[k];
        let eid = self.escrows.len() as u64;
        let vid = self.investments.len() as u64;
        let business = self.invoices[idx].business;
        let currency = self.invoices[idx].currency;
        self.bids[k].status = BidStatus::Accepted;
        self.escrows.push(Escrow {
            escrow_id: eid,
            invoice_id,
            bid_id,
            business,
            investor: b.investor,
            amount: b.bid_amount,
            currency,
            status: EscrowStatus::Funded,
        });
        self.investments.push(Investment {
            investment_id: vid,
            invoice_id,
            investor: b.investor,
            amount: b.bid_amount,
            funded_at: now,
            status: crate::investment::InvestmentStatus::Active,
            insurance: Vec::new(),
        });
        self.invoices[idx].escrow = Some(eid);
        self.invoices[idx].investor = Some(b.investor);
        self.invoices[idx].funded_amount = b.bid_amount;
        self.invoices[idx].funded_at = now;
        self.payment_locked = false;
        proof {
            let post = *self;
            let iid = invoice_id as int;
            assert(mid.wf());
            assert(mid.invoices@[iid].escrow.is_none()) by {
                assert(old(self).wf_invoice_at(iid));
            }
            // No bid was accepted on this invoice before this call.
            assert forall|k2: int|
                0 <= k2 < mid.bids@.len() && mid.bids@[k2].status == BidStatus::Accepted
                implies mid.bids@[k2].invoice_id != invoice_id by {
                assert(mid.wf_bid_at(k2));
            }
            // No escrow pointed at this invoice before this call.
            assert forall|k2: int| 0 <= k2 < mid.escrows@.len()
                implies mid.escrows@[k2].invoice_id != invoice_id by {
                assert(mid.wf_escrow_at(k2));
            }
            assert(forall|s: InvoiceStatus| post.status_list(s) == mid.status_list(s));
            assert forall|s: InvoiceStatus| #[trigger] post.list_ok(s) by {
                assert(mid.list_ok(s));
                let l = post.status_list(s);
                assert forall|j: int| 0 <= j < l.len() implies (#[trigger] l[j])
                    < post.invoices@.len() && post.invoices@[l[j] as int].status == s by {
                    assert(mid.invoices@[l[j] as int].status == s);
                    if l[j] as int == iid {
                        assert(post.invoices@[iid].status == mid.invoices@[iid].status);
                    }
                }
            }
            assert forall|id2: int| 0 <= id2 < post.invoices@.len()
                implies #[trigger] post.status_list(post.invoices@[id2].status).contains(
                    id2 as u64) by {
                assert(mid.status_list(mid.invoices@[id2].status).contains(id2 as u64));
                assert(post.invoices@[id2].status == mid.invoices@[id2].status);
            }
            assert forall|id2: int| 0 <= id2 < post.invoices@.len()
                implies #[trigger] post.wf_invoice_at(id2) by {
                assert(mid.wf_invoice_at(id2));
                if id2 == iid {
                    assert(post.escrows@[eid as int].invoice_id == invoice_id);
                    assert(post.invoices@[iid].status == InvoiceStatus::Funded);
                } else {
                    assert(post.invoices@[id2] == mid.invoices@[id2]);
                    match mid.invoices@[id2].escrow {
                        Some(e) => {
                            assert(post.escrows@[e as int] == mid.escrows@[e as int]);
                        },
                        None => {},
                    }
                }
            }
            assert forall|k2: int| 0 <= k2 < post.bids@.len()
                implies #[trigger] post.wf_bid_at(k2) by {
                assert(mid.wf_bid_at(k2));
                if k2 == bid_id as int {
                    assert(post.invoices@[iid].escrow == Some(eid));
                    assert(post.escrows@[eid as int].bid_id == bid_id);
                } else {
                    assert(post.bids@[k2] == mid.bids@[k2]);
                    if post.bids@[k2].status == BidStatus::Accepted {
                        let inv2 = post.bids@[k2].invoice_id as int;
                        assert(inv2 != iid);
                        assert(post.invoices@[inv2] == mid.invoices@[inv2]);
                        match mid.invoices@[inv2].escrow {
                            Some(e) => {
                                assert(post.escrows@[e as int] == mid.escrows@[e as int]);
                            },
                            None => {},
                        }
                    }
                }
            }
            assert forall|k2: int| 0 <= k2 < post.escrows@.len()
                implies #[trigger] post.wf_escrow_at(k2) by {
                if k2 == eid as int {
                    assert(post.invoices@[iid].escrow == Some(eid));
                    assert(post.bids@[bid_id as int].status == BidStatus::Accepted);
                } else {
                    assert(mid.wf_escrow_at(k2));
                    let e = post.escrows@[k2];
                    assert(e == mid.escrows@[k2]);
                    assert(e.invoice_id != invoice_id);
                    assert(post.invoices@[e.invoice_id as int]
                        == mid.invoices@[e.invoice_id as int]);
                    assert(mid.bids@[e.bid_id as int].status == BidStatus::Accepted);
                    assert(e.bid_id != bid_id);
                    assert(post.bids@[e.bid_id as int] == mid.bids@[e.bid_id as int]);
                }
            }
            assert forall|k2: int| 0 <= k2 < post.disputes@.len()
                implies #[trigger] post.wf_dispute_at(k2) by {
                assert(mid.wf_dispute_at(k2));
                let d = post.disputes@[k2];
                if d.invoice_id as int == iid {
                    assert(post.invoices@[iid].dispute == mid.invoices@[iid].dispute);
                }
            }
            assert forall|k2: int| 0 <= k2 < post.investments@.len() implies {
                let v = #[trigger] post.investments@[k2];
                &&& v.investment_id == k2 as u64
                &&& forall|i: int, j: int| 0 <= i < j < v.insurance@.len()
                    ==> !(#[trigger] v.insurance@[i].active && #[trigger] v.insurance@[j].active)
            } by {
                if k2 < mid.investments@.len() {
                    assert(post.investments@[k2] == mid.investments@[k2]);
                }
            }
            // Relate the final state back to the state before the call.
            assert(final(self).invoices@ =~= old(self).invoices@.update(
                iid,
                Invoice {
                    status: InvoiceStatus::Funded,
                    escrow: Some(eid),
                    investor: Some(b.investor),
                    funded_amount: b.bid_amount,
                    funded_at: now,
                    ..old(self).invoices@[iid]
                },
            ));
            assert(final(self).bids@ =~= swept(old(self).bids@, invoice_id, now).update(
                bid_id as int, Bid { status: BidStatus::Accepted, ..old(self).bids@[bid_id as int] },
            ));
        }
        Ok(eid)
    }

    /// Accepts a bid (business owner only): [`Self::accept_bid_and_fund`]
    /// without returning the escrow identifier.
    pub fn accept_bid(&mut self, caller: Address, invoice_id: u64, bid_id: u64, now: u64)
        -> (r: Result<(), QuickLendXError>)
        requires
            old(self).wf(),
        ensures
            final(self).wf(),
            final(self).payment_locked == old(self).payment_locked,
            match old(self).accept_precheck_error(caller, invoice_id, bid_id) {
                Some(e) => r == Err::<(), QuickLendXError>(e) && *final(self) == *old(self),
                None => {
                    if !old(self).accept_statuses_ok(invoice_id, bid_id, now) {
                        &&& r == Err::<(), QuickLendXError>(QuickLendXError::InvalidStatus)
                        &&& final(self).bids@ == swept(old(self).bids@, invoice_id, now)
                        &&& Self::only_bids_changed(*old(self), *final(self))
                    } else {
                        &&& r == Ok::<(), QuickLendXError>(())
                        &&& Self::funded_unit_ok(*old(self), *final(self), invoice_id, bid_id,
                            now)
                    }
                },
            },
    {
        match self.accept_bid_and_fund(caller, invoice_id, bid_id, now) {
            Ok(_) => Ok(()),
            Err(e) => Err(e),
        }
    }

    /// The escrow record for a funded invoice.
    pub fn get_escrow_details(&self, invoice_id: u64) -> (r: Result<Escrow, QuickLendXError>)
        requires
            self.wf(),
        ensures
            match r {
                Ok(e) => invoice_id < self.invoices@.len()
                    && self.invoices@[invoice_id as int].escrow.is_some()
                    && e == self.escrows@[self.invoices@[invoice_id as int].escrow.unwrap()
                        as int],
                Err(err) => err == QuickLendXError::StorageKeyNotFound
                    && (invoice_id >= self.invoices@.len()
                        || self.invoices@[invoice_id as int].escrow.is_none()),
            },
    {
        if invoice_id >= self.invoices.len() as u64 {
            return Err(QuickLendXError::StorageKeyNotFound);
        }
        let idx = invoice_id as usize;
        match self.invoices[idx].escrow {
            Some(e) => {
                let n_escrows: usize = self.escrows.len();
                proof {
                    assert(self.wf_invoice_at(invoice_id as int));
                    assert(e < n_escrows as u64);
                }
                Ok(self.escrows[e as usize])
            },
            None => Err(QuickLendXError::StorageKeyNotFound),
        }
    }

    /// The custody state of a funded invoice's escrow.
    pub fn get_escrow_status(&self, invoice_id: u64)
        -> (r: Result<EscrowStatus, QuickLendXError>)
        requires
            self.wf(),
        ensures
            match r {
                Ok(st) => invoice_id < self.invoices@.len()
                    && self.invoices@[invoice_id as int].escrow.is_some()
                    && st == self.escrows@[self.invoices@[invoice_id as int].escrow.unwrap()
                        as int].status,
                Err(err) => err == QuickLendXError::StorageKeyNotFound
                    && (invoice_id >= self.invoices@.len()
                        || self.invoices@[invoice_id as int].escrow.is_none()),
            },
    {
        match self.get_escrow_details(invoice_id) {
            Ok(e) => Ok(e.status),
            Err(err) => Err(err),
        }
    }

    /// Moves a `Funded` escrow's custody to the business.  Terminal and
    /// one-way: a released escrow can never be refunded, nor the reverse.
    pub fn release_escrow_funds(&mut self, invoice_id: u64)
        -> (r: Result<(), QuickLendXError>)
        requires
            old(self).wf(),
        ensures
            final(self).wf(),
            final(self).payment_locked == old(self).payment_locked,
            old(self).payment_locked ==> r
                == Err::<(), QuickLendXError>(QuickLendXError::OperationNotAllowed)
                && *final(self) == *old(self),
            !old(self).payment_locked && (invoice_id >= old(self).invoices@.len()
                || old(self).invoices@[invoice_id as int].escrow.is_none()) ==> r
                == Err::<(), QuickLendXError>(QuickLendXError::StorageKeyNotFound)
                && *final(self) == *old(self),
            !old(self).payment_locked && invoice_id < old(self).invoices@.len()
                && old(self).invoices@[invoice_id as int].escrow.is_some() ==> {
                let e = old(self).invoices@[invoice_id as int].escrow.unwrap() as int;
                &&& old(self).escrows@[e].status != EscrowStatus::Funded ==> r
                    == Err::<(), QuickLendXError>(QuickLendXError::InvalidStatus)
                    && *final(self) == *old(self)
                &&& old(self).escrows@[e].status == EscrowStatus::Funded ==> {
                    &&& r == Ok::<(), QuickLendXError>(())
                    &&& final(self).escrows@ == old(self).escrows@.update(e, Escrow {
                        status: EscrowStatus::Released,
                        ..old(self).escrows@[e]
                    })
                    &&& Self::only_escrows_changed(*old(self), *final(self))
                }
            },
    {
        if self.payment_locked {
            return Err(QuickLendXError::OperationNotAllowed);
        }
        if invoice_id >= self.invoices.len() as u64 {
            return Err(QuickLendXError::StorageKeyNotFound);
        }
        let idx = invoice_id as usize;
        let e = match self.invoices[idx].escrow {
            Some(e) => e,
            None => {
                return Err(QuickLendXError::StorageKeyNotFound);
            },
        };
        let n_escrows: usize = self.escrows.len();
        proof {
            assert(old(self).wf_invoice_at(invoice_id as int));
            assert(e < n_escrows as u64);
        }
        if !matches!(self.escrows[e as usize].status, EscrowStatus::Funded) {
            return Err(QuickLendXError::InvalidStatus);
        }
        self.escrows[e as usize].status = EscrowStatus::Released;
        proof {
            lemma_wf_escrow_status_change(*old(self), *self, e as int);
        }
        Ok(())
    }

    /// Returns a `Funded` escrow's custody to the investor (administrator
    /// or business owner only).  Terminal and one-way, like release.
    pub fn refund_escrow_funds(&mut self, caller: Address, invoice_id: u64)
        -> (r: Result<(), QuickLendXError>)
        requires
            old(self).wf(),
        ensures
            final(self).wf(),
            final(self).payment_locked == old(self).payment_locked,
            old(self).payment_locked ==> r
                == Err::<(), QuickLendXError>(QuickLendXError::OperationNotAllowed)
                && *final(self) == *old(self),
            !old(self).payment_locked && (invoice_id >= old(self).invoices@.len()
                || old(self).invoices@[invoice_id as int].escrow.is_none()) ==> r
                == Err::<(), QuickLendXError>(QuickLendXError::StorageKeyNotFound)
                && *final(self) == *old(self),
            !old(self).payment_locked && invoice_id < old(self).invoices@.len()
                && old(self).invoices@[invoice_id as int].escrow.is_some() ==> {
                let e = old(self).invoices@[invoice_id as int].escrow.unwrap() as int;
                &&& !(old(self).is_admin(caller)
                    || caller == old(self).invoices@[invoice_id as int].business) ==> r
                    == Err::<(), QuickLendXError>(QuickLendXError::Unauthorized)
                    && *final(self) == *old(self)
                &&& (old(self).is_admin(caller)
                    || caller == old(self).invoices@[invoice_id as int].business) ==> {
                    &&& old(self).escrows@[e].status != EscrowStatus::Funded ==> r
                        == Err::<(), QuickLendXError>(QuickLendXError::InvalidStatus)
                        && *final(self) == *old(self)
                    &&& old(self).escrows@[e].status == EscrowStatus::Funded ==> {
                        &&& r == Ok::<(), QuickLendXError>(())
                        &&& final(self).escrows@ == old(self).escrows@.update(e, Escrow {
                            status: EscrowStatus::Refunded,
                            ..old(self).escrows@[e]
                        })
                        &&& Self::only_escrows_changed(*old(self), *final(self))
                    }
                }
            },
    {
        if self.payment_locked {
            return Err(QuickLendXError::OperationNotAllowed);
        }
        if invoice_id >= self.invoices.len() as u64 {
            return Err(QuickLendXError::StorageKeyNotFound);
        }
        let idx = invoice_id as usize;
        let e = match self.invoices[idx].escrow {
            Some(e) => e,
            None => {
                return Err(QuickLendXError::StorageKeyNotFound);
            },
        };
        let is_admin_caller = match self.admin {
            Some(a) => caller == a,
            None => false,
        };
        if !(is_admin_caller || caller == self.invoices[idx].business) {
            return Err(QuickLendXError::Unauthorized);
        }
        let n_escrows: usize = self.escrows.len();
        proof {
            assert(old(self).wf_invoice_at(invoice_id as int));
            assert(e < n_escrows as u64);
        }
        if !matches!(self.escrows[e as usize].status, EscrowStatus::Funded) {
            return Err(QuickLendXError::InvalidStatus);
        }
        self.escrows[e as usize].status = EscrowStatus::Refunded;
        proof {
            lemma_wf_escrow_status_change(*old(self), *self, e as int);
        }
        Ok(())
    }

    /// Everything except the escrow table is unchanged.
    pub open spec fn only_escrows_changed(pre: Self, post: Self) -> bool {
        &&& post.admin == pre.admin
        &&& post.currencies == pre.currencies
        &&& post.invoices == pre.invoices
        &&& post.bids == pre.bids
        &&& post.investments == pre.investments
        &&& post.disputes == pre.disputes
        &&& post.business_verifications == pre.business_verifications
        &&& post.investor_verifications == pre.investor_verifications
        &&& Self::indices_unchanged(pre, post)
        &&& post.platform_fee_bps == pre.platform_fee_bps
        &&& post.payment_locked == pre.payment_locked
    }
}

/// Changing only an escrow's custody state keeps the store consistent.
proof fn lemma_wf_escrow_status_change(
    pre: QuickLendXContract,
    post: QuickLendXContract,
    e: int,
)
    requires
        pre.wf(),
        0 <= e < pre.escrows@.len(),
        post.escrows@.len() == pre.escrows@.len(),
        forall|k: int| 0 <= k < pre.escrows@.len() && k != e
            ==> post.escrows@[k] == pre.escrows@[k],
        ({
            let a = pre.escrows@[e];
            let b = post.escrows@[e];
            &&& b.escrow_id == a.escrow_id
            &&& b.invoice_id == a.invoice_id
            &&& b.bid_id == a.bid_id
            &&& b.business == a.business
            &&& b.investor == a.investor
            &&& b.amount == a.amount
            &&& b.currency == a.currency
        }),
        post.invoices == pre.invoices,
        post.bids == pre.bids,
        post.investments == pre.investments,
        post.disputes == pre.disputes,
        post.business_verifications == pre.business_verifications,
        post.investor_verifications == pre.investor_verifications,
        post.currencies == pre.currencies,
        QuickLendXContract::indices_unchanged(pre, post),
        post.platform_fee_bps == pre.platform_fee_bps,
    ensures
        post.wf(),
{
    assert(forall|s: InvoiceStatus| post.status_list(s) == pre.status_list(s));
    assert forall|s: InvoiceStatus| #[trigger] post.list_ok(s) by {
        assert(pre.list_ok(s));
    }
    assert forall|id: int| 0 <= id < post.invoices@.len()
        implies #[trigger] post.status_list(post.invoices@[id].status).contains(id as u64) by {
        assert(pre.status_list(pre.invoices@[id].status).contains(id as u64));
    }
    assert forall|id: int| 0 <= id < post.invoices@.len()
        implies #[trigger] post.wf_invoice_at(id) by {
        assert(pre.wf_invoice_at(id));
        match post.invoices@[id].escrow {
            Some(k) => {
                assert(post.escrows@[k as int].invoice_id == pre.escrows@[k as int].invoice_id);
            },
            None => {},
        }
    }
    assert forall|k: int| 0 <= k < post.bids@.len() implies #[trigger] post.wf_bid_at(k) by {
        assert(pre.wf_bid_at(k));
        let b = post.bids@[k];
        if b.status == BidStatus::Accepted {
            match post.invoices@[b.invoice_id as int].escrow {
                Some(e2) => {
                    assert(post.escrows@[e2 as int].bid_id == pre.escrows@[e2 as int].bid_id);
                },
                None => {},
            }
        }
    }
    assert forall|k: int| 0 <= k < post.escrows@.len() implies #[trigger] post.wf_escrow_at(k) by {
        assert(pre.wf_escrow_at(k));
    }
    assert forall|k: int| 0 <= k < post.disputes@.len()
        implies #[trigger] post.wf_dispute_at(k) by {
        assert(pre.wf_dispute_at(k));
    }
}

} // verus!
