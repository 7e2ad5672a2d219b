//! Bid engine operations: placing, withdrawing, lazy expiration, and the
//! ranked views the business uses to pick a winner.

use crate::bid::{bid_in_limits, ranked, ranks_before, Bid, BidStatus, BID_EXPIRATION_WINDOW,
    MAX_BID_VALUE};
use crate::contract::QuickLendXContract;
use crate::errors::QuickLendXError;
use crate::invoice::InvoiceStatus;
use crate::verification::BusinessVerificationStatus;
use crate::Address;
use vstd::prelude::*;

verus! {

/// What the lazy sweep does to one bid: a `Placed` bid of the swept invoice
/// whose expiration has passed becomes `Expired`; everything else is left
/// alone.
pub open spec fn lapse(b: Bid, invoice_id: u64, now: u64) -> Bid {
    if b.invoice_id == invoice_id && b.status == BidStatus::Placed
        && b.expiration_timestamp < now {
        Bid { status: BidStatus::Expired, ..b }
    } else {
        b
    }
}

/// The whole bid table after lazily sweeping one invoice's expired bids.
pub open spec fn swept(bids: Seq<Bid>, invoice_id: u64, now: u64) -> Seq<Bid> {
    Seq::new(bids.len(), |k: int| lapse(bids[k], invoice_id, now))
}

/// How many bids in `bids` the sweep of `invoice_id` at `now` would newly
/// mark `Expired`.
pub open spec fn count_lapsing(bids: Seq<Bid>, invoice_id: u64, now: u64) -> int
    decreases bids.len(),
{
    if bids.len() == 0 {
        0
    } else {
        count_lapsing(bids.drop_last(), invoice_id, now)
            + if lapse(bids.last(), invoice_id, now) != bids.last() {
            1int
        } else {
            0int
        }
    }
}

/// How [`count_lapsing`] grows as bids are appended.
pub proof fn lemma_count_lapsing_push(s: Seq<Bid>, invoice_id: u64, now: u64, x: Bid)
    ensures
        count_lapsing(s.push(x), invoice_id, now) == count_lapsing(s, invoice_id, now)
            + if lapse(x, invoice_id, now) != x {
            1int
        } else {
            0int
        },
{
    assert(s.push(x).drop_last() =~= s);
    assert(count_lapsing(s.push(x).drop_last(), invoice_id, now)
        == count_lapsing(s, invoice_id, now));
}

/// The lazy sweep is idempotent: sweeping a swept table changes nothing
/// and would mark nothing, so an immediate second sweep reports zero.
pub proof fn lemma_sweep_idempotent(bids: Seq<Bid>, invoice_id: u64, now: u64)
    ensures
        swept(swept(bids, invoice_id, now), invoice_id, now) == swept(bids, invoice_id, now),
        count_lapsing(swept(bids, invoice_id, now), invoice_id, now) == 0,
{
    let once = swept(bids, invoice_id, now);
    assert(swept(once, invoice_id, now) =~= once);
    lemma_count_lapsing_stable(once, invoice_id, now);
}

proof fn lemma_count_lapsing_stable(s: Seq<Bid>, invoice_id: u64, now: u64)
    requires
        forall|k: int| 0 <= k < s.len() ==> lapse(#[trigger] s[k], invoice_id, now) == s[k],
    ensures
        count_lapsing(s, invoice_id, now) == 0,
    decreases s.len(),
{
    if s.len() > 0 {
        lemma_count_lapsing_stable(s.drop_last(), invoice_id, now);
    }
}

/// The bids of `invoice_id` in `bids`, in table order.
pub open spec fn bids_for(bids: Seq<Bid>, invoice_id: u64) -> Seq<Bid>
    decreases bids.len(),
{
    if bids.len() == 0 {
        Seq::empty()
    } else {
        let rest = bids_for(bids.drop_last(), invoice_id);
        if bids.last().invoice_id == invoice_id {
            rest.push(bids.last())
        } else {
            rest
        }
    }
}

/// How [`bids_for`] grows as bids are appended.
pub proof fn lemma_bids_for_push(s: Seq<Bid>, invoice_id: u64, x: Bid)
    ensures
        bids_for(s.push(x), invoice_id) == if x.invoice_id == invoice_id {
            bids_for(s, invoice_id).push(x)
        } else {
            bids_for(s, invoice_id)
        },
{
    assert(s.push(x).drop_last() =~= s);
    assert(bids_for(s.push(x).drop_last(), invoice_id) == bids_for(s, invoice_id));
}

/// The bids of `invoice_id` in `bids` with status `status`, in table order.
pub open spec fn bids_with_status(bids: Seq<Bid>, invoice_id: u64, status: BidStatus) -> Seq<Bid>
    decreases bids.len(),
{
    if bids.len() == 0 {
        Seq::empty()
    } else {
        let rest = bids_with_status(bids.drop_last(), invoice_id, status);
        if bids.last().invoice_id == invoice_id && bids.last().status == status {
            rest.push(bids.last())
        } else {
            rest
        }
    }
}

/// How [`bids_with_status`] grows as bids are appended.
pub proof fn lemma_bids_with_status_push(s: Seq<Bid>, invoice_id: u64, status: BidStatus, x: Bid)
    ensures
        bids_with_status(s.push(x), invoice_id, status) == if x.invoice_id == invoice_id
            && x.status == status {
            bids_with_status(s, invoice_id, status).push(x)
        } else {
            bids_with_status(s, invoice_id, status)
        },
{
    assert(s.push(x).drop_last() =~= s);
    assert(bids_with_status(s.push(x).drop_last(), invoice_id, status)
        == bids_with_status(s, invoice_id, status));
}

/// The bids of `invoice_id` in `bids` placed by `investor`, in table order.
pub open spec fn bids_by_investor(bids: Seq<Bid>, invoice_id: u64, investor: Address) -> Seq<Bid>
    decreases bids.len(),
{
    if bids.len() == 0 {
        Seq::empty()
    } else {
        let rest = bids_by_investor(bids.drop_last(), invoice_id, investor);
        if bids.last().invoice_id == invoice_id && bids.last().investor == investor {
            rest.push(bids.last())
        } else {
            rest
        }
    }
}

/// How [`bids_by_investor`] grows as bids are appended.
pub proof fn lemma_bids_by_investor_push(s: Seq<Bid>, invoice_id: u64, investor: Address, x: Bid)
    ensures
        bids_by_investor(s.push(x), invoice_id, investor) == if x.invoice_id == invoice_id
            && x.investor == investor {
            bids_by_investor(s, invoice_id, investor).push(x)
        } else {
            bids_by_investor(s, invoice_id, investor)
        },
{
    assert(s.push(x).drop_last() =~= s);
    assert(bids_by_investor(s.push(x).drop_last(), invoice_id, investor)
        == bids_by_investor(s, invoice_id, investor));
}

impl QuickLendXContract {
    /// Marks each of the invoice's `Placed` bids whose expiration timestamp
    /// has passed as `Expired`, and reports how many it marked.  Expiration
    /// is evaluated lazily like this wherever an invoice's bids are
    /// touched; correctness never depends on a timer.
    pub fn cleanup_expired_bids(&mut self, invoice_id: u64, now: u64) -> (count: u32)
        requires
            old(self).wf(),
        ensures
            final(self).wf(),
            final(self).bids@ == swept(old(self).bids@, invoice_id, now),
            count_lapsing(old(self).bids@, invoice_id, now) <= u32::MAX
                ==> count as int == count_lapsing(old(self).bids@, invoice_id, now),
            Self::only_bids_changed(*old(self), *final(self)),
    {
        let ghost pre = *self;
        let mut count: usize = 0;
        let mut i: usize = 0;
        proof {
            assert(pre.bids@.take(0) =~= Seq::<Bid>::empty());
        }
        while i < self.bids.len()
            invariant
                i <= self.bids@.len(),
                self.bids@.len() == pre.bids@.len(),
                forall|k: int| 0 <= k < i
                    ==> self.bids@[k] == lapse(pre.bids@[k], invoice_id, now),
                forall|k: int| i <= k < pre.bids@.len() ==> self.bids@[k] == pre.bids@[k],
                count as int == count_lapsing(pre.bids@.take(i as int), invoice_id, now),
                count <= i,
                Self::only_bids_changed(pre, *self),
            decreases self.bids@.len() - i,
        {
            proof {
                assert(pre.bids@.take(i as int + 1)
                    =~= pre.bids@.take(i as int).push(pre.bids@[i as int]));
                lemma_count_lapsing_push(pre.bids@.take(i as int), invoice_id, now,
                    pre.bids@[i as int]);
            }
            let b = self.bids[i];
            if b.invoice_id == invoice_id && matches!(b.status, BidStatus::Placed)
                && b.expiration_timestamp < now {
                self.bids[i].status = BidStatus::Expired;
                count = count + 1;
            }
            i += 1;
        }
        proof {
            assert(self.bids@ =~= swept(pre.bids@, invoice_id, now));
            let post = *self;
            assert(forall|s: InvoiceStatus| post.status_list(s) == pre.status_list(s));
            assert forall|s: InvoiceStatus| #[trigger] post.list_ok(s) by {
                assert(pre.list_ok(s));
            }
            assert forall|id: int| 0 <= id < post.invoices@.len()
                implies #[trigger] post.status_list(post.invoices@[id].status).contains(
                    id as u64) by {
                assert(pre.status_list(pre.invoices@[id].status).contains(id as u64));
            }
            assert forall|id: int| 0 <= id < post.invoices@.len()
                implies #[trigger] post.wf_invoice_at(id) by {
                assert(pre.wf_invoice_at(id));
            }
            assert forall|k: int| 0 <= k < post.bids@.len()
                implies #[trigger] post.wf_bid_at(k) by {
                assert(pre.wf_bid_at(k));
                assert(post.bids@[k] == lapse(pre.bids@[k], invoice_id, now));
            }
            assert forall|k: int| 0 <= k < post.escrows@.len()
                implies #[trigger] post.wf_escrow_at(k) by {
                assert(pre.wf_escrow_at(k));
                let e = post.escrows@[k];
                assert(post.bids@[e.bid_id as int] == lapse(pre.bids@[e.bid_id as int],
                    invoice_id, now));
                assert(pre.bids@[e.bid_id as int].status == BidStatus::Accepted);
            }
            assert forall|k: int| 0 <= k < post.disputes@.len()
                implies #[trigger] post.wf_dispute_at(k) by {
                assert(pre.wf_dispute_at(k));
            }
            assert(pre.bids@.take(pre.bids@.len() as int) =~= pre.bids@);
        }
        #[verifier::truncate] (count as u32)
    }

    /// Everything except the bid table is unchanged.
    pub open spec fn only_bids_changed(pre: Self, post: Self) -> bool {
        &&& post.admin == pre.admin
        &&& post.currencies == pre.currencies
        &&& post.invoices == pre.invoices
        &&& post.escrows == pre.escrows
        &&& post.investments == pre.investments
        &&& post.disputes == pre.disputes
        &&& post.business_verifications == pre.business_verifications
        &&& post.investor_verifications == pre.investor_verifications
        &&& Self::indices_unchanged(pre, post)
        &&& post.platform_fee_bps == pre.platform_fee_bps
        &&& post.payment_locked == pre.payment_locked
    }

    /// The index of `investor`'s KYC record, if any.
    pub(crate) fn find_investor(&self, investor: Address) -> (r: Option<usize>)
        ensures
            match r {
                Some(i) => i < self.investor_verifications@.len()
                    && self.investor_verifications@[i as int].investor == investor,
                None => forall|k: int| 0 <= k < self.investor_verifications@.len()
                    ==> (#[trigger] self.investor_verifications@[k]).investor != investor,
            },
    {
        let mut i: usize = 0;
        while i < self.investor_verifications.len()
            invariant
                i <= self.investor_verifications@.len(),
                forall|k: int| 0 <= k < i
                    ==> (#[trigger] self.investor_verifications@[k]).investor != investor,
            decreases self.investor_verifications@.len() - i,
        {
            if self.investor_verifications[i].investor == investor {
                return Some(i);
            }
            i += 1;
        }
        None
    }

    /// Why a bid placement is rejected, if it is, on the pre-call state.
    pub open spec fn place_bid_error(
        self,
        investor: Address,
        invoice_id: u64,
        bid_amount: i128,
        expected_return: i128,
    ) -> Option<QuickLendXError> {
        if bid_amount <= 0 {
            Some(QuickLendXError::InvalidAmount)
        } else if invoice_id >= self.invoices@.len() {
            Some(QuickLendXError::InvoiceNotFound)
        } else if self.invoices@[invoice_id as int].status != InvoiceStatus::Verified {
            Some(QuickLendXError::InvalidStatus)
        } else if !self.currency_allowed(self.invoices@[invoice_id as int].currency) {
            Some(QuickLendXError::CurrencyNotAllowed)
        } else if !self.investor_can_bid(investor, bid_amount) {
            Some(self.investor_bid_error(investor))
        } else if bid_amount > MAX_BID_VALUE || expected_return < 0
            || expected_return > MAX_BID_VALUE {
            Some(QuickLendXError::InvalidAmount)
        } else {
            None
        }
    }

    /// Whether `investor` holds a verified KYC record whose investment
    /// limit covers `bid_amount`.
    pub open spec fn investor_can_bid(self, investor: Address, bid_amount: i128) -> bool {
        exists|i: int|
            0 <= i < self.investor_verifications@.len()
                && (#[trigger] self.investor_verifications@[i]).investor == investor
                && self.investor_verifications@[i].status == BusinessVerificationStatus::Verified
                && bid_amount <= self.investor_verifications@[i].investment_limit
    }

    /// The error an unqualified investor gets: a pending application is
    /// reported as pending, anything else as not verified, and a verified
    /// investor over their limit as an invalid amount.
    pub open spec fn investor_bid_error(self, investor: Address) -> QuickLendXError {
        if exists|i: int|
            0 <= i < self.investor_verifications@.len()
                && (#[trigger] self.investor_verifications@[i]).investor == investor
                && self.investor_verifications@[i].status
                == BusinessVerificationStatus::Pending {
            QuickLendXError::KYCAlreadyPending
        } else if exists|i: int|
            0 <= i < self.investor_verifications@.len()
                && (#[trigger] self.investor_verifications@[i]).investor == investor
                && self.investor_verifications@[i].status
                == BusinessVerificationStatus::Verified {
            QuickLendXError::InvalidAmount
        } else {
            QuickLendXError::BusinessNotVerified
        }
    }

    /// Places a bid on a `Verified` invoice.  The investor must hold a
    /// verified KYC record whose limit covers the amount, the invoice's
    /// currency must be allowed, and amount and expected return must lie
    /// within the protocol limit.  The invoice's expired bids are swept
    /// before the new bid is stored.
    pub fn place_bid(
        &mut self,
        investor: Address,
        invoice_id: u64,
        bid_amount: i128,
        expected_return: i128,
        now: u64,
    ) -> (r: Result<u64, QuickLendXError>)
        requires
            old(self).wf(),
        ensures
            final(self).wf(),
            match old(self).place_bid_error(investor, invoice_id, bid_amount, expected_return) {
                Some(e) => r == Err::<u64, QuickLendXError>(e) && *final(self) == *old(self),
                None => {
                    let id = old(self).bids@.len() as u64;
                    let entry = Bid {
                        bid_id: id,
                        invoice_id,
                        investor,
                        bid_amount,
                        expected_return,
                        timestamp: now,
                        status: BidStatus::Placed,
                        expiration_timestamp: if now + BID_EXPIRATION_WINDOW > u64::MAX {
                            u64::MAX
                        } else {
                            (now + BID_EXPIRATION_WINDOW) as u64
                        },
                    };
                    &&& r == Ok::<u64, QuickLendXError>(id)
                    &&& final(self).bids@ == swept(old(self).bids@, invoice_id, now).push(entry)
                    &&& Self::only_bids_changed(*old(self), *final(self))
                },
            },
    {
        if bid_amount <= 0 {
            return Err(QuickLendXError::InvalidAmount);
        }
        if invoice_id >= self.invoices.len() as u64 {
            return Err(QuickLendXError::InvoiceNotFound);
        }
        let idx = invoice_id as usize;
        if !matches!(self.invoices[idx].status, InvoiceStatus::Verified) {
            return Err(QuickLendXError::InvalidStatus);
        }
        let currency = self.invoices[idx].currency;
        if !self.is_allowed_currency(currency) {
            return Err(QuickLendXError::CurrencyNotAllowed);
        }
        match self.find_investor(investor) {
            None => {
                return Err(QuickLendXError::BusinessNotVerified);
            },
            Some(v) => {
                let rec = &self.investor_verifications[v];
                match rec.status {
                    BusinessVerificationStatus::Pending => {
                        proof {
                            assert(!self.investor_can_bid(investor, bid_amount));
                        }
                        return Err(QuickLendXError::KYCAlreadyPending);
                    },
                    BusinessVerificationStatus::Rejected => {
                        proof {
                            assert(!self.investor_can_bid(investor, bid_amount));
                        }
                        return Err(QuickLendXError::BusinessNotVerified);
                    },
                    BusinessVerificationStatus::Verified => {
                        if bid_amount > rec.investment_limit {
                            proof {
                                assert(!self.investor_can_bid(investor, bid_amount));
                            }
                            return Err(QuickLendXError::InvalidAmount);
                        }
                    },
                }
            },
        }
        if bid_amount > MAX_BID_VALUE || expected_return < 0 || expected_return > MAX_BID_VALUE {
            return Err(QuickLendXError::InvalidAmount);
        }
        self.cleanup_expired_bids(invoice_id, now);
        let ghost mid = *self;
        let id = self.bids.len() as u64;
        let expiration = now.saturating_add(BID_EXPIRATION_WINDOW);
        let entry = Bid {
            bid_id: id,
            invoice_id,
            investor,
            bid_amount,
            expected_return,
            timestamp: now,
            status: BidStatus::Placed,
            expiration_timestamp: expiration,
        };
        self.bids.push(entry);
        proof {
            let post = *self;
            assert(forall|s: InvoiceStatus| post.status_list(s) == mid.status_list(s));
            assert forall|s: InvoiceStatus| #[trigger] post.list_ok(s) by {
                assert(mid.list_ok(s));
            }
            assert forall|id2: int| 0 <= id2 < post.invoices@.len()
                implies #[trigger] post.status_list(post.invoices@[id2].status).contains(
                    id2 as u64) by {
                assert(mid.status_list(mid.invoices@[id2].status).contains(id2 as u64));
            }
            assert forall|id2: int| 0 <= id2 < post.invoices@.len()
                implies #[trigger] post.wf_invoice_at(id2) by {
                assert(mid.wf_invoice_at(id2));
            }
            assert forall|k: int| 0 <= k < post.bids@.len()
                implies #[trigger] post.wf_bid_at(k) by {
                if k < mid.bids@.len() {
                    assert(mid.wf_bid_at(k));
                    assert(post.bids@[k] == mid.bids@[k]);
                } else {
                    assert(post.bids@[k] == entry);
                }
            }
            assert forall|k: int| 0 <= k < post.escrows@.len()
                implies #[trigger] post.wf_escrow_at(k) by {
                assert(mid.wf_escrow_at(k));
                let e = post.escrows@[k];
                assert(post.bids@[e.bid_id as int] == mid.bids@[e.bid_id as int]);
            }
            assert forall|k: int| 0 <= k < post.disputes@.len()
                implies #[trigger] post.wf_dispute_at(k) by {
                assert(mid.wf_dispute_at(k));
            }
        }
        Ok(id)
    }

    /// Withdraws a bid (bid owner only); only a `Placed` bid can be
    /// withdrawn, and no other bid is affected.
    pub fn withdraw_bid(&mut self, caller: Address, bid_id: u64)
        -> (r: Result<(), QuickLendXError>)
        requires
            old(self).wf(),
        ensures
            final(self).wf(),
            bid_id >= old(self).bids@.len() ==> r
                == Err::<(), QuickLendXError>(QuickLendXError::StorageKeyNotFound)
                && *final(self) == *old(self),
            bid_id < old(self).bids@.len()
                && caller != old(self).bids@[bid_id as int].investor ==> r
                == Err::<(), QuickLendXError>(QuickLendXError::Unauthorized)
                && *final(self) == *old(self),
            bid_id < old(self).bids@.len()
                && caller == old(self).bids@[bid_id as int].investor
                && old(self).bids@[bid_id as int].status != BidStatus::Placed ==> r
                == Err::<(), QuickLendXError>(QuickLendXError::OperationNotAllowed)
                && *final(self) == *old(self),
            bid_id < old(self).bids@.len()
                && caller == old(self).bids@[bid_id as int].investor
                && old(self).bids@[bid_id as int].status == BidStatus::Placed ==> {
                &&& r == Ok::<(), QuickLendXError>(())
                &&& final(self).bids@ == old(self).bids@.update(
                    bid_id as int,
                    Bid { status: BidStatus::Withdrawn, ..old(self).bids@[bid_id as int] },
                )
                &&& Self::only_bids_changed(*old(self), *final(self))
            },
    {
        if bid_id >= self.bids.len() as u64 {
            return Err(QuickLendXError::StorageKeyNotFound);
        }
        let k = bid_id as usize;
        if caller != self.bids[k].investor {
            return Err(QuickLendXError::Unauthorized);
        }
        if !matches!(self.bids[k].status, BidStatus::Placed) {
            return Err(QuickLendXError::OperationNotAllowed);
        }
        self.bids[k].status = BidStatus::Withdrawn;
        proof {
            let pre = *old(self);
            let post = *self;
            assert(forall|s: InvoiceStatus| post.status_list(s) == pre.status_list(s));
            assert forall|s: InvoiceStatus| #[trigger] post.list_ok(s) by {
                assert(pre.list_ok(s));
            }
            assert forall|id2: int| 0 <= id2 < post.invoices@.len()
                implies #[trigger] post.status_list(post.invoices@[id2].status).contains(
                    id2 as u64) by {
                assert(pre.status_list(pre.invoices@[id2].status).contains(id2 as u64));
            }
            assert forall|id2: int| 0 <= id2 < post.invoices@.len()
                implies #[trigger] post.wf_invoice_at(id2) by {
                assert(pre.wf_invoice_at(id2));
            }
            assert forall|k2: int| 0 <= k2 < post.bids@.len()
                implies #[trigger] post.wf_bid_at(k2) by {
                assert(pre.wf_bid_at(k2));
            }
            assert forall|k2: int| 0 <= k2 < post.escrows@.len()
                implies #[trigger] post.wf_escrow_at(k2) by {
                assert(pre.wf_escrow_at(k2));
                let e = post.escrows@[k2];
                assert(pre.bids@[e.bid_id as int].status == BidStatus::Accepted);
                assert(e.bid_id != bid_id);
            }
            assert forall|k2: int| 0 <= k2 < post.disputes@.len()
                implies #[trigger] post.wf_dispute_at(k2) by {
                assert(pre.wf_dispute_at(k2));
            }
        }
        Ok(())
    }

    /// One bid by identifier.
    pub fn get_bid(&self, bid_id: u64) -> (r: Option<Bid>)
        ensures
            bid_id < self.bids@.len() ==> r == Some(self.bids@[bid_id as int]),
            bid_id >= self.bids@.len() ==> r.is_none(),
    {
        if bid_id >= self.bids.len() as u64 {
            return None;
        }
        Some(self.bids[bid_id as usize])
    }

    /// Every bid record of one invoice, in table order, whatever its
    /// status.
    pub fn get_bids_for_invoice(&self, invoice_id: u64) -> (r: Vec<Bid>)
        ensures
            r@ == bids_for(self.bids@, invoice_id),
    {
        let ghost full = self.bids@;
        let mut r: Vec<Bid> = Vec::new();
        let mut i: usize = 0;
        proof {
            assert(full.take(0) =~= Seq::<Bid>::empty());
        }
        while i < self.bids.len()
            invariant
                i <= full.len(),
                self.bids@ == full,
                r@ == bids_for(full.take(i as int), invoice_id),
            decreases full.len() - i,
        {
            proof {
                assert(full.take(i as int + 1) =~= full.take(i as int).push(full[i as int]));
                lemma_bids_for_push(full.take(i as int), invoice_id, full[i as int]);
            }
            if self.bids[i].invoice_id == invoice_id {
                r.push(self.bids[i]);
            }
            i += 1;
        }
        proof {
            assert(full.take(full.len() as int) =~= full);
        }
        r
    }

    /// Every bid record of one invoice, in table order.
    pub fn get_bid_history(&self, invoice_id: u64) -> (r: Vec<Bid>)
        ensures
            r@ == bids_for(self.bids@, invoice_id),
    {
        self.get_bids_for_invoice(invoice_id)
    }

    /// One invoice's bids in the given status, in table order.
    pub fn get_bids_by_status(&self, invoice_id: u64, status: BidStatus) -> (r: Vec<Bid>)
        ensures
            r@ == bids_with_status(self.bids@, invoice_id, status),
    {
        let ghost full = self.bids@;
        let mut r: Vec<Bid> = Vec::new();
        let mut i: usize = 0;
        proof {
            assert(full.take(0) =~= Seq::<Bid>::empty());
        }
        while i < self.bids.len()
            invariant
                i <= full.len(),
                self.bids@ == full,
                r@ == bids_with_status(full.take(i as int), invoice_id, status),
            decreases full.len() - i,
        {
            proof {
                assert(full.take(i as int + 1) =~= full.take(i as int).push(full[i as int]));
                lemma_bids_with_status_push(full.take(i as int), invoice_id, status,
                    full[i as int]);
            }
            if self.bids[i].invoice_id == invoice_id && self.bids[i].status == status {
                r.push(self.bids[i]);
            }
            i += 1;
        }
        proof {
            assert(full.take(full.len() as int) =~= full);
        }
        r
    }

    /// One invoice's bids from one investor, in table order.
    pub fn get_bids_by_investor(&self, invoice_id: u64, investor: Address) -> (r: Vec<Bid>)
        ensures
            r@ == bids_by_investor(self.bids@, invoice_id, investor),
    {
        let ghost full = self.bids@;
        let mut r: Vec<Bid> = Vec::new();
        let mut i: usize = 0;
        proof {
            assert(full.take(0) =~= Seq::<Bid>::empty());
        }
        while i < self.bids.len()
            invariant
                i <= full.len(),
                self.bids@ == full,
                r@ == bids_by_investor(full.take(i as int), invoice_id, investor),
            decreases full.len() - i,
        {
            proof {
                assert(full.take(i as int + 1) =~= full.take(i as int).push(full[i as int]));
                lemma_bids_by_investor_push(full.take(i as int), invoice_id, investor,
                    full[i as int]);
            }
            if self.bids[i].invoice_id == invoice_id && self.bids[i].investor == investor {
                r.push(self.bids[i]);
            }
            i += 1;
        }
        proof {
            assert(full.take(full.len() as int) =~= full);
        }
        r
    }

    /// One invoice's live (`Placed`) bids, best terms first: lowest cost of
    /// capital, ties broken by earliest placement, then by identifier.
    /// Exactly the live bids come back, in a deterministic order.
    pub fn get_ranked_bids(&self, invoice_id: u64) -> (r: Vec<Bid>)
        requires
            self.wf(),
        ensures
            r@.to_multiset() == bids_with_status(self.bids@, invoice_id,
                BidStatus::Placed).to_multiset(),
            ranked(r@),
    {
        let live = self.get_bids_by_status(invoice_id, BidStatus::Placed);
        proof {
            assert forall|k: int| 0 <= k < live@.len()
                implies bid_in_limits(#[trigger] live@[k]) by {
                lemma_bids_with_status_elements(self.bids@, invoice_id, BidStatus::Placed, k);
                let k0 = choose|k0: int|
                    0 <= k0 < self.bids@.len() && self.bids@[k0] == live@[k];
                assert(self.wf_bid_at(k0));
            }
        }
        crate::bid::rank_bid_list(&live)
    }

    /// The best live bid for an invoice: the head of the ranked order, or
    /// nothing when no live bid exists.
    pub fn get_best_bid(&self, invoice_id: u64) -> (r: Option<Bid>)
        requires
            self.wf(),
        ensures
            match r {
                Some(b) => bids_with_status(self.bids@, invoice_id,
                    BidStatus::Placed).contains(b)
                    && forall|x: Bid| bids_with_status(self.bids@, invoice_id,
                        BidStatus::Placed).contains(x) ==> ranks_before(b, x),
                None => bids_with_status(self.bids@, invoice_id, BidStatus::Placed).len() == 0,
            },
    {
        let ranked_bids = self.get_ranked_bids(invoice_id);
        let ghost live = bids_with_status(self.bids@, invoice_id, BidStatus::Placed);
        proof {
            broadcast use vstd::seq_lib::group_to_multiset_ensures;

        }
        if ranked_bids.len() == 0 {
            proof {
                assert(live.to_multiset().len() == 0);
            }
            return None;
        }
        let best = ranked_bids[0];
        proof {
            assert(ranked_bids@.to_multiset().count(best) > 0) by {
                assert(ranked_bids@.contains(best));
            }
            assert(live.contains(best));
            assert forall|x: Bid| live.contains(x) implies ranks_before(best, x) by {
                assert(ranked_bids@.to_multiset().count(x) > 0);
                assert(ranked_bids@.contains(x));
                let i = choose|i: int|
                    0 <= i < ranked_bids@.len() && ranked_bids@[i] == x;
                if i == 0 {
                    assert(ranks_before(best, x));
                } else {
                    assert(ranks_before(ranked_bids@[0], ranked_bids@[i]));
                }
            }
        }
        Some(best)
    }
}

/// Every element selected by [`bids_with_status`] occurs in the table.
pub proof fn lemma_bids_with_status_elements(
    bids: Seq<Bid>,
    invoice_id: u64,
    status: BidStatus,
    k: int,
)
    requires
        0 <= k < bids_with_status(bids, invoice_id, status).len(),
    ensures
        exists|k0: int|
            0 <= k0 < bids.len() && bids[k0] == bids_with_status(bids, invoice_id, status)[k],
    decreases bids.len(),
{
    if bids.len() > 0 {
        let rest = bids_with_status(bids.drop_last(), invoice_id, status);
        if k < rest.len() {
            lemma_bids_with_status_elements(bids.drop_last(), invoice_id, status, k);
            let k0 = choose|k0: int|
                0 <= k0 < bids.drop_last().len() && bids.drop_last()[k0] == rest[k];
            assert(bids[k0] == bids.drop_last()[k0]);
        } else {
            assert(bids[bids.len() - 1] == bids_with_status(bids, invoice_id, status)[k]);
        }
    }
}

} // verus!
