//! The marketplace store and its well-formedness invariant.
//!
//! Every entity lives in an identifier-keyed table, relations are expressed
//! through stored identifiers only, and the six status indices are explicit,
//! separately maintained lists.  [`QuickLendXContract::wf`] ties all of it
//! together; every public operation preserves it.

use crate::bid::{bid_in_limits, Bid, BidStatus};
use crate::errors::QuickLendXError;
use crate::escrow::Escrow;
use crate::investment::Investment;
use crate::invoice::{Dispute, DisputeStatus, Invoice, InvoiceStatus};
use crate::verification::{BusinessVerification, InvestorVerification};
use crate::Address;
use vstd::prelude::*;

verus! {

/// Platform fee on settlement profit, in basis points, before any
/// administrator changes it.
pub const DEFAULT_PLATFORM_FEE_BPS: i128 = 200;

/// The whole marketplace: entity tables, status indices, configuration, and
/// the payment reentrancy lock.
pub struct QuickLendXContract {
    /// The administrator, once initialized.
    pub admin: Option<Address>,
    /// The currency allow-list.  While empty, every currency is allowed;
    /// once populated, only listed currencies are.
    pub currencies: Vec<Address>,
    /// Invoice table; an invoice's identifier is its position.
    pub invoices: Vec<Invoice>,
    /// Bid table; a bid's identifier is its position.
    pub bids: Vec<Bid>,
    /// Escrow table; an escrow's identifier is its position.
    pub escrows: Vec<Escrow>,
    /// Investment table; an investment's identifier is its position.
    pub investments: Vec<Investment>,
    /// Dispute table; at most one dispute per invoice, linked both ways.
    pub disputes: Vec<Dispute>,
    /// Business KYC records, one per business address.
    pub business_verifications: Vec<BusinessVerification>,
    /// Investor KYC records, one per investor address.
    pub investor_verifications: Vec<InvestorVerification>,
    /// Identifiers of `Pending` invoices.
    pub pending_invoices: Vec<u64>,
    /// Identifiers of `Verified` invoices.
    pub verified_invoices: Vec<u64>,
    /// Identifiers of `Funded` invoices.
    pub funded_invoices: Vec<u64>,
    /// Identifiers of `Paid` invoices.
    pub paid_invoices: Vec<u64>,
    /// Identifiers of `Defaulted` invoices.
    pub defaulted_invoices: Vec<u64>,
    /// Identifiers of `Cancelled` invoices.
    pub cancelled_invoices: Vec<u64>,
    /// Platform fee on settlement profit, in basis points.
    pub platform_fee_bps: i128,
    /// The reentrancy guard around money-moving operations.
    pub payment_locked: bool,
}

impl QuickLendXContract {
    /// The status index for `s`.
    pub open spec fn status_list(self, s: InvoiceStatus) -> Seq<u64> {
        match s {
            InvoiceStatus::Pending => self.pending_invoices@,
            InvoiceStatus::Verified => self.verified_invoices@,
            InvoiceStatus::Funded => self.funded_invoices@,
            InvoiceStatus::Paid => self.paid_invoices@,
            InvoiceStatus::Defaulted => self.defaulted_invoices@,
            InvoiceStatus::Cancelled => self.cancelled_invoices@,
        }
    }

    /// The status index for `s` holds only identifiers of invoices whose
    /// stored status is `s`, each at most once.
    pub open spec fn list_ok(self, s: InvoiceStatus) -> bool {
        let l = self.status_list(s);
        &&& forall|j: int| 0 <= j < l.len() ==> (#[trigger] l[j]) < self.invoices@.len()
            && self.invoices@[l[j] as int].status == s
        &&& l.no_duplicates()
    }

    /// Every invoice is a member of the index of its own status, and every
    /// index entry is sound: together, each invoice sits in exactly one
    /// status index, exactly once.
    pub open spec fn wf_indices(self) -> bool {
        &&& self.list_ok(InvoiceStatus::Pending)
        &&& self.list_ok(InvoiceStatus::Verified)
        &&& self.list_ok(InvoiceStatus::Funded)
        &&& self.list_ok(InvoiceStatus::Paid)
        &&& self.list_ok(InvoiceStatus::Defaulted)
        &&& self.list_ok(InvoiceStatus::Cancelled)
        &&& forall|id: int| 0 <= id < self.invoices@.len()
            ==> #[trigger] self.status_list(self.invoices@[id].status).contains(id as u64)
    }

    /// Local validity of one invoice record, and its links to the dispute
    /// and escrow tables.
    pub open spec fn wf_invoice_at(self, id: int) -> bool {
        let inv = self.invoices@[id];
        &&& inv.id == id as u64
        &&& inv.amount > 0
        &&& inv.created_at < inv.due_date
        &&& inv.description@.len() > 0
        &&& 0 <= inv.paid_amount < inv.amount
        &&& inv.ratings@.len() == inv.total_ratings
        &&& inv.rating_sum <= 5 * (inv.total_ratings as u64)
        &&& match inv.dispute {
            Some(d) => d < self.disputes@.len() && self.disputes@[d as int].invoice_id == id as u64
                && inv.dispute_status == self.disputes@[d as int].status,
            None => inv.dispute_status == DisputeStatus::NoDispute,
        }
        &&& match inv.escrow {
            Some(e) => e < self.escrows@.len() && self.escrows@[e as int].invoice_id == id as u64,
            None => true,
        }
        &&& (inv.status == InvoiceStatus::Pending || inv.status == InvoiceStatus::Verified
            || inv.status == InvoiceStatus::Cancelled) ==> inv.escrow.is_none()
    }

    /// Local validity of every invoice record.
    pub open spec fn wf_invoices(self) -> bool {
        forall|id: int| 0 <= id < self.invoices@.len() ==> #[trigger] self.wf_invoice_at(id)
    }

    /// Local validity of one bid: identifier, protocol limits, and — the
    /// heart of single-funding — an `Accepted` bid is exactly the one its
    /// invoice's escrow record points back to.
    pub open spec fn wf_bid_at(self, k: int) -> bool {
        let b = self.bids@[k];
        &&& b.bid_id == k as u64
        &&& bid_in_limits(b)
        &&& b.invoice_id < self.invoices@.len()
        &&& b.status == BidStatus::Accepted ==> match self.invoices@[b.invoice_id as int].escrow {
            Some(e) => e < self.escrows@.len() && self.escrows@[e as int].bid_id == k as u64,
            None => false,
        }
    }

    /// Local validity of every bid.
    pub open spec fn wf_bids(self) -> bool {
        forall|k: int| 0 <= k < self.bids@.len() ==> #[trigger] self.wf_bid_at(k)
    }

    /// Local validity of one escrow: it mirrors the accepted bid that
    /// created it — same invoice, same investor, the bid's amount, the
    /// invoice's currency and business — and its invoice points back to it.
    pub open spec fn wf_escrow_at(self, k: int) -> bool {
        let e = self.escrows@[k];
        &&& e.escrow_id == k as u64
        &&& e.invoice_id < self.invoices@.len()
        &&& self.invoices@[e.invoice_id as int].escrow == Some(k as u64)
        &&& e.bid_id < self.bids@.len()
        &&& self.bids@[e.bid_id as int].status == BidStatus::Accepted
        &&& self.bids@[e.bid_id as int].invoice_id == e.invoice_id
        &&& e.amount == self.bids@[e.bid_id as int].bid_amount
        &&& e.investor == self.bids@[e.bid_id as int].investor
        &&& e.business == self.invoices@[e.invoice_id as int].business
        &&& e.currency == self.invoices@[e.invoice_id as int].currency
    }

    /// Local validity of every escrow.
    pub open spec fn wf_escrows(self) -> bool {
        forall|k: int| 0 <= k < self.escrows@.len() ==> #[trigger] self.wf_escrow_at(k)
    }

    /// Local validity of one dispute: linked back from its invoice, with
    /// its texts within bounds and resolution fields set exactly when
    /// resolved.
    pub open spec fn wf_dispute_at(self, k: int) -> bool {
        let d = self.disputes@[k];
        &&& d.invoice_id < self.invoices@.len()
        &&& self.invoices@[d.invoice_id as int].dispute == Some(k as u64)
        &&& d.status != DisputeStatus::NoDispute
        &&& 1 <= d.reason@.len() <= 500
        &&& 1 <= d.evidence@.len() <= 1000
        &&& d.status == DisputeStatus::Resolved ==> d.resolved_by.is_some()
            && 1 <= d.resolution@.len() <= 500
        &&& d.status != DisputeStatus::Resolved ==> d.resolved_by.is_none()
            && d.resolution@.len() == 0 && d.resolved_at == 0
    }

    /// Local validity of every dispute.
    pub open spec fn wf_disputes(self) -> bool {
        forall|k: int| 0 <= k < self.disputes@.len() ==> #[trigger] self.wf_dispute_at(k)
    }

    /// Local validity of every investment: its identifier, and at most one
    /// active insurance entry at a time.
    pub open spec fn wf_investments(self) -> bool {
        forall|k: int| 0 <= k < self.investments@.len() ==> {
            let v = #[trigger] self.investments@[k];
            &&& v.investment_id == k as u64
            &&& forall|i: int, j: int| 0 <= i < j < v.insurance@.len()
                ==> !(#[trigger] v.insurance@[i].active && #[trigger] v.insurance@[j].active)
        }
    }

    /// The currency allow-list holds each currency at most once, and the
    /// KYC tables hold at most one record per address.
    pub open spec fn wf_registries(self) -> bool {
        &&& self.currencies@.no_duplicates()
        &&& forall|i: int, j: int|
            0 <= i < j < self.business_verifications@.len()
                ==> (#[trigger] self.business_verifications@[i]).business
                != (#[trigger] self.business_verifications@[j]).business
        &&& forall|i: int, j: int|
            0 <= i < j < self.investor_verifications@.len()
                ==> (#[trigger] self.investor_verifications@[i]).investor
                != (#[trigger] self.investor_verifications@[j]).investor
    }

    /// The whole store is consistent.
    pub open spec fn wf(self) -> bool {
        &&& self.wf_indices()
        &&& self.wf_invoices()
        &&& self.wf_bids()
        &&& self.wf_escrows()
        &&& self.wf_disputes()
        &&& self.wf_investments()
        &&& self.wf_registries()
        &&& 0 <= self.platform_fee_bps <= 10000
    }

    /// A fresh, empty marketplace.
    pub fn new() -> (c: QuickLendXContract)
        ensures
            c.wf(),
            c.admin.is_none(),
            c.currencies@.len() == 0,
            c.invoices@.len() == 0,
            c.bids@.len() == 0,
            c.escrows@.len() == 0,
            c.investments@.len() == 0,
            c.disputes@.len() == 0,
            c.business_verifications@.len() == 0,
            c.investor_verifications@.len() == 0,
            c.platform_fee_bps == DEFAULT_PLATFORM_FEE_BPS,
            !c.payment_locked,
    {
        QuickLendXContract {
            admin: None,
            currencies: Vec::new(),
            invoices: Vec::new(),
            bids: Vec::new(),
            escrows: Vec::new(),
            investments: Vec::new(),
            disputes: Vec::new(),
            business_verifications: Vec::new(),
            investor_verifications: Vec::new(),
            pending_invoices: Vec::new(),
            verified_invoices: Vec::new(),
            funded_invoices: Vec::new(),
            paid_invoices: Vec::new(),
            defaulted_invoices: Vec::new(),
            cancelled_invoices: Vec::new(),
            platform_fee_bps: DEFAULT_PLATFORM_FEE_BPS,
            payment_locked: false,
        }
    }
}

/// Membership facts about removing position `j` from a duplicate-free
/// sequence of identifiers.
pub proof fn lemma_remove_props(s: Seq<u64>, j: int)
    requires
        0 <= j < s.len(),
        s.no_duplicates(),
    ensures
        s.remove(j).no_duplicates(),
        !s.remove(j).contains(s[j]),
        forall|x: u64| x != s[j] ==> (s.remove(j).contains(x) <==> s.contains(x)),
{
    let r = s.remove(j);
    s.remove_ensures(j);
    assert forall|p: int, q: int| 0 <= p < r.len() && 0 <= q < r.len() && p != q
        implies r[p] != r[q] by {
        let p0: int = if p < j { p } else { p + 1 };
        let q0: int = if q < j { q } else { q + 1 };
        assert(r[p] == s[p0] && r[q] == s[q0]);
    }
    assert forall|x: u64| r.contains(x) implies x != s[j] by {
        let k = choose|k: int| 0 <= k < r.len() && r[k] == x;
        let k0: int = if k < j { k } else { k + 1 };
        assert(s[k0] == x && k0 != j);
    }
    assert forall|x: u64| x != s[j] && s.contains(x) implies r.contains(x) by {
        let k0 = choose|k0: int| 0 <= k0 < s.len() && s[k0] == x;
        let k: int = if k0 < j { k0 } else { k0 - 1 };
        assert(r[k] == x);
    }
}

/// Membership facts about pushing an identifier onto a sequence.
pub proof fn lemma_push_props(s: Seq<u64>, x: u64)
    requires
        !s.contains(x),
        s.no_duplicates(),
    ensures
        s.push(x).no_duplicates(),
        s.push(x).contains(x),
        forall|y: u64| (s.push(x).contains(y) <==> s.contains(y) || y == x),
{
    let r = s.push(x);
    assert(r[s.len() as int] == x);
    assert forall|y: u64| r.contains(y) implies s.contains(y) || y == x by {
        let k = choose|k: int| 0 <= k < r.len() && r[k] == y;
        if k < s.len() {
            assert(s[k] == y);
        }
    }
    assert forall|y: u64| s.contains(y) implies r.contains(y) by {
        let k = choose|k: int| 0 <= k < s.len() && s[k] == y;
        assert(r[k] == y);
    }
}

/// Removes one occurrence of `id` from an identifier list.
pub(crate) fn list_remove(v: &mut Vec<u64>, id: u64)
    requires
        old(v)@.contains(id),
    ensures
        exists|j: int|
            0 <= j < old(v)@.len() && old(v)@[j] == id && final(v)@ == old(v)@.remove(j),
{
    let mut i: usize = 0;
    while i < v.len()
        invariant
            i <= v@.len(),
            *v == *old(v),
            forall|k: int| 0 <= k < i ==> v@[k] != id,
        decreases v@.len() - i,
    {
        if v[i] == id {
            v.remove(i);
            return;
        }
        i += 1;
    }
    proof {
        let j = choose|j: int| 0 <= j < v@.len() && v@[j] == id;
        assert(false);
    }
}

/// Copies a vector of identifiers or addresses.
pub(crate) fn copy_ids(v: &Vec<u64>) -> (r: Vec<u64>)
    ensures
        r@ == v@,
{
    let mut r: Vec<u64> = Vec::new();
    let mut i: usize = 0;
    while i < v.len()
        invariant
            i <= v@.len(),
            r@ == v@.take(i as int),
        decreases v@.len() - i,
    {
        r.push(v[i]);
        proof {
            assert(v@.take(i as int + 1) =~= v@.take(i as int).push(v@[i as int]));
        }
        i += 1;
    }
    proof {
        assert(v@.take(v@.len() as int) =~= v@);
    }
    r
}

/// Whether `x` occurs in `v`.
pub(crate) fn contains_id(v: &Vec<u64>, x: u64) -> (r: bool)
    ensures
        r == v@.contains(x),
{
    let mut i: usize = 0;
    while i < v.len()
        invariant
            i <= v@.len(),
            forall|k: int| 0 <= k < i ==> v@[k] != x,
        decreases v@.len() - i,
    {
        if v[i] == x {
            return true;
        }
        i += 1;
    }
    false
}

impl QuickLendXContract {
    /// Everything except the invoice table and the status indices is
    /// unchanged between `pre` and `post`.
    pub open spec fn only_invoices_changed(pre: Self, post: Self) -> bool {
        &&& post.admin == pre.admin
        &&& post.currencies == pre.currencies
        &&& post.bids == pre.bids
        &&& post.escrows == pre.escrows
        &&& post.investments == pre.investments
        &&& post.disputes == pre.disputes
        &&& post.business_verifications == pre.business_verifications
        &&& post.investor_verifications == pre.investor_verifications
        &&& post.platform_fee_bps == pre.platform_fee_bps
        &&& post.payment_locked == pre.payment_locked
    }

    /// The status indices are all unchanged between `pre` and `post`.
    pub open spec fn indices_unchanged(pre: Self, post: Self) -> bool {
        &&& post.pending_invoices == pre.pending_invoices
        &&& post.verified_invoices == pre.verified_invoices
        &&& post.funded_invoices == pre.funded_invoices
        &&& post.paid_invoices == pre.paid_invoices
        &&& post.defaulted_invoices == pre.defaulted_invoices
        &&& post.cancelled_invoices == pre.cancelled_invoices
    }

    /// Moves invoice `id` to `new_status`, atomically: the identifier
    /// leaves its old status index, the stored status changes, and the
    /// identifier enters the new status index.
    #[verifier::rlimit(100)]
    #[verifier::spinoff_prover]
    pub(crate) fn set_invoice_status(&mut self, id: u64, new_status: InvoiceStatus)
        requires
            old(self).wf(),
            id < old(self).invoices@.len(),
            old(self).invoices@[id as int].status != new_status,
            (new_status == InvoiceStatus::Pending || new_status == InvoiceStatus::Verified
                || new_status == InvoiceStatus::Cancelled)
                ==> old(self).invoices@[id as int].escrow.is_none(),
        ensures
            final(self).wf(),
            final(self).invoices@ == old(self).invoices@.update(
                id as int,
                Invoice { status: new_status, ..old(self).invoices@[id as int] },
            ),
            Self::only_invoices_changed(*old(self), *final(self)),
            !final(self).status_list(old(self).invoices@[id as int].status).contains(id),
            final(self).status_list(new_status).contains(id),
            forall|s: InvoiceStatus, x: u64|
                x != id ==> (#[trigger] final(self).status_list(s).contains(x)
                    <==> old(self).status_list(s).contains(x)),
            forall|s: InvoiceStatus|
                s != new_status && s != old(self).invoices@[id as int].status
                    ==> final(self).status_list(s) == old(self).status_list(s),
    {
        let ghost pre = *self;
        let n_invoices: usize = self.invoices.len();
        let idx = id as usize;
        let old_status = self.invoices[idx].status;
        proof {
            assert(pre.invoices@.len() == n_invoices);
            assert(pre.status_list(pre.invoices@[id as int].status).contains((id as int) as u64));
            assert(pre.status_list(old_status).contains(id));
        }
        match old_status {
            InvoiceStatus::Pending => list_remove(&mut self.pending_invoices, id),
            InvoiceStatus::Verified => list_remove(&mut self.verified_invoices, id),
            InvoiceStatus::Funded => list_remove(&mut self.funded_invoices, id),
            InvoiceStatus::Paid => list_remove(&mut self.paid_invoices, id),
            InvoiceStatus::Defaulted => list_remove(&mut self.defaulted_invoices, id),
            InvoiceStatus::Cancelled => list_remove(&mut self.cancelled_invoices, id),
        }
        proof {
            let j = choose|j: int|
                0 <= j < pre.status_list(old_status).len()
                    && pre.status_list(old_status)[j] == id
                    && self.status_list(old_status) == pre.status_list(old_status).remove(j);
            lemma_remove_props(pre.status_list(old_status), j);
            assert(forall|s: InvoiceStatus|
                s != old_status ==> self.status_list(s) == pre.status_list(s));
        }
        self.invoices[idx].status = new_status;
        let ghost mid = *self;
        proof {
            assert(!mid.status_list(new_status).contains(id)) by {
                if mid.status_list(new_status).contains(id) {
                    assert(pre.status_list(new_status).contains(id));
                    let k = choose|k: int|
                        0 <= k < pre.status_list(new_status).len()
                            && pre.status_list(new_status)[k] == id;
                    assert(pre.invoices@[id as int].status == new_status);
                }
            }
            lemma_push_props(mid.status_list(new_status), id);
        }
        match new_status {
            InvoiceStatus::Pending => self.pending_invoices.push(id),
            InvoiceStatus::Verified => self.verified_invoices.push(id),
            InvoiceStatus::Funded => self.funded_invoices.push(id),
            InvoiceStatus::Paid => self.paid_invoices.push(id),
            InvoiceStatus::Defaulted => self.defaulted_invoices.push(id),
            InvoiceStatus::Cancelled => self.cancelled_invoices.push(id),
        }
        proof {
            let post = *self;
            assert(post.status_list(new_status) == mid.status_list(new_status).push(id));
            assert(forall|s: InvoiceStatus|
                s != new_status ==> post.status_list(s) == mid.status_list(s));
            let j = choose|j: int|
                0 <= j < pre.status_list(old_status).len()
                    && pre.status_list(old_status)[j] == id
                    && mid.status_list(old_status) == pre.status_list(old_status).remove(j);
            lemma_move_indices(pre, post, id, old_status, new_status, j);
            lemma_move_records(pre, post, id, new_status);
        }
    }
}

impl QuickLendXContract {
    /// Whether `currency` may denominate an invoice: the allow-list is
    /// consulted once it holds anything, and is permissive while empty.
    pub open spec fn currency_allowed(self, currency: Address) -> bool {
        self.currencies@.len() == 0 || self.currencies@.contains(currency)
    }

    /// Whether `caller` is the configured administrator.
    pub open spec fn is_admin(self, caller: Address) -> bool {
        self.admin == Some(caller)
    }

    /// Sets the administrator, once.  A second initialization is rejected
    /// and changes nothing.
    pub fn initialize_admin(&mut self, admin: Address) -> (r: Result<(), QuickLendXError>)
        requires
            old(self).wf(),
        ensures
            final(self).wf(),
            old(self).admin.is_none() ==> r == Ok::<(), QuickLendXError>(())
                && *final(self) == (QuickLendXContract { admin: Some(admin), ..*old(self) }),
            old(self).admin.is_some() ==> r
                == Err::<(), QuickLendXError>(QuickLendXError::AdminAlreadyInitialized)
                && *final(self) == *old(self),
    {
        if self.admin.is_some() {
            return Err(QuickLendXError::AdminAlreadyInitialized);
        }
        self.admin = Some(admin);
        proof {
            lemma_wf_congruence(*old(self), *self);
        }
        Ok(())
    }

    /// Transfers the administrator role.  Only the current administrator
    /// may do so; with none configured the call fails.
    pub fn transfer_admin(&mut self, caller: Address, new_admin: Address)
        -> (r: Result<(), QuickLendXError>)
        requires
            old(self).wf(),
        ensures
            final(self).wf(),
            old(self).is_admin(caller) ==> r == Ok::<(), QuickLendXError>(())
                && *final(self) == (QuickLendXContract { admin: Some(new_admin), ..*old(self) }),
            !old(self).is_admin(caller) ==> r
                == Err::<(), QuickLendXError>(QuickLendXError::NotAdmin)
                && *final(self) == *old(self),
    {
        match self.admin {
            Some(current) => {
                if caller != current {
                    return Err(QuickLendXError::NotAdmin);
                }
                self.admin = Some(new_admin);
                proof {
                    lemma_wf_congruence(*old(self), *self);
                }
                Ok(())
            },
            None => Err(QuickLendXError::NotAdmin),
        }
    }

    /// The current administrator, if initialized.
    pub fn get_current_admin(&self) -> (r: Option<Address>)
        ensures
            r == self.admin,
    {
        self.admin
    }

    /// Sets the administrator: the current administrator may hand the role
    /// over, and with none configured an address may claim it for itself.
    pub fn set_admin(&mut self, caller: Address, admin: Address)
        -> (r: Result<(), QuickLendXError>)
        requires
            old(self).wf(),
        ensures
            final(self).wf(),
            match old(self).admin {
                Some(current) => {
                    &&& caller == current ==> r == Ok::<(), QuickLendXError>(())
                        && *final(self)
                        == (QuickLendXContract { admin: Some(admin), ..*old(self) })
                    &&& caller != current ==> r
                        == Err::<(), QuickLendXError>(QuickLendXError::Unauthorized)
                        && *final(self) == *old(self)
                },
                None => {
                    &&& caller == admin ==> r == Ok::<(), QuickLendXError>(())
                        && *final(self)
                        == (QuickLendXContract { admin: Some(admin), ..*old(self) })
                    &&& caller != admin ==> r
                        == Err::<(), QuickLendXError>(QuickLendXError::Unauthorized)
                        && *final(self) == *old(self)
                },
            },
    {
        match self.admin {
            Some(current) => {
                if caller != current {
                    return Err(QuickLendXError::Unauthorized);
                }
            },
            None => {
                if caller != admin {
                    return Err(QuickLendXError::Unauthorized);
                }
            },
        }
        self.admin = Some(admin);
        proof {
            lemma_wf_congruence(*old(self), *self);
        }
        Ok(())
    }

    /// The current administrator, if initialized.
    pub fn get_admin(&self) -> (r: Option<Address>)
        ensures
            r == self.admin,
    {
        self.admin
    }

    /// Adds a token to the currency allow-list (administrator only).
    /// Adding a listed token again changes nothing.
    pub fn add_currency(&mut self, caller: Address, currency: Address)
        -> (r: Result<(), QuickLendXError>)
        requires
            old(self).wf(),
        ensures
            final(self).wf(),
            !old(self).is_admin(caller) ==> r
                == Err::<(), QuickLendXError>(QuickLendXError::NotAdmin)
                && *final(self) == *old(self),
            old(self).is_admin(caller) ==> {
                &&& r == Ok::<(), QuickLendXError>(())
                &&& final(self).currencies@.contains(currency)
                &&& forall|c: Address| c != currency
                    ==> (final(self).currencies@.contains(c)
                        <==> old(self).currencies@.contains(c))
                &&& Self::only_currencies_changed(*old(self), *final(self))
            },
    {
        match self.admin {
            Some(current) => {
                if caller != current {
                    return Err(QuickLendXError::NotAdmin);
                }
            },
            None => {
                return Err(QuickLendXError::NotAdmin);
            },
        }
        if contains_id(&self.currencies, currency) {
            return Ok(());
        }
        proof {
            lemma_push_props(self.currencies@, currency);
        }
        self.currencies.push(currency);
        proof {
            lemma_wf_congruence(*old(self), *self);
        }
        Ok(())
    }

    /// Removes a token from the currency allow-list (administrator only).
    /// Removing an unlisted token changes nothing.
    pub fn remove_currency(&mut self, caller: Address, currency: Address)
        -> (r: Result<(), QuickLendXError>)
        requires
            old(self).wf(),
        ensures
            final(self).wf(),
            !old(self).is_admin(caller) ==> r
                == Err::<(), QuickLendXError>(QuickLendXError::NotAdmin)
                && *final(self) == *old(self),
            old(self).is_admin(caller) ==> {
                &&& r == Ok::<(), QuickLendXError>(())
                &&& !final(self).currencies@.contains(currency)
                &&& forall|c: Address| c != currency
                    ==> (final(self).currencies@.contains(c)
                        <==> old(self).currencies@.contains(c))
                &&& Self::only_currencies_changed(*old(self), *final(self))
            },
    {
        match self.admin {
            Some(current) => {
                if caller != current {
                    return Err(QuickLendXError::NotAdmin);
                }
            },
            None => {
                return Err(QuickLendXError::NotAdmin);
            },
        }
        let ghost pre = self.currencies@;
        if !contains_id(&self.currencies, currency) {
            return Ok(());
        }
        list_remove(&mut self.currencies, currency);
        proof {
            let j = choose|j: int|
                0 <= j < pre.len() && pre[j] == currency
                    && self.currencies@ == pre.remove(j);
            lemma_remove_props(pre, j);
            lemma_wf_congruence(*old(self), *self);
        }
        Ok(())
    }

    /// Everything except the currency allow-list is unchanged.
    pub open spec fn only_currencies_changed(pre: Self, post: Self) -> bool {
        &&& post.admin == pre.admin
        &&& post.invoices == pre.invoices
        &&& post.bids == pre.bids
        &&& post.escrows == pre.escrows
        &&& post.investments == pre.investments
        &&& post.disputes == pre.disputes
        &&& post.business_verifications == pre.business_verifications
        &&& post.investor_verifications == pre.investor_verifications
        &&& Self::indices_unchanged(pre, post)
        &&& post.platform_fee_bps == pre.platform_fee_bps
        &&& post.payment_locked == pre.payment_locked
    }

    /// Whether `currency` may denominate an invoice.
    pub fn is_allowed_currency(&self, currency: Address) -> (r: bool)
        ensures
            r == self.currency_allowed(currency),
    {
        if self.currencies.len() == 0 {
            return true;
        }
        contains_id(&self.currencies, currency)
    }

    /// The currency allow-list.
    pub fn get_whitelisted_currencies(&self) -> (r: Vec<Address>)
        ensures
            r@ == self.currencies@,
    {
        copy_ids(&self.currencies)
    }
}

/// Consistency does not depend on the administrator, the payment lock, or
/// which currencies are listed: a state with the same tables and indices
/// and a duplicate-free allow-list is consistent too.
pub proof fn lemma_wf_congruence(pre: QuickLendXContract, post: QuickLendXContract)
    requires
        pre.wf(),
        post.invoices == pre.invoices,
        post.bids == pre.bids,
        post.escrows == pre.escrows,
        post.investments == pre.investments,
        post.disputes == pre.disputes,
        post.business_verifications == pre.business_verifications,
        post.investor_verifications == pre.investor_verifications,
        QuickLendXContract::indices_unchanged(pre, post),
        post.platform_fee_bps == pre.platform_fee_bps,
        post.currencies@.no_duplicates(),
    ensures
        post.wf(),
{
    assert(forall|s: InvoiceStatus| post.status_list(s) == pre.status_list(s));
    assert forall|s: InvoiceStatus| #[trigger] post.list_ok(s) by {
        assert(pre.list_ok(s));
    }
    assert(post.list_ok(InvoiceStatus::Pending));
    assert(post.list_ok(InvoiceStatus::Verified));
    assert(post.list_ok(InvoiceStatus::Funded));
    assert(post.list_ok(InvoiceStatus::Paid));
    assert(post.list_ok(InvoiceStatus::Defaulted));
    assert(post.list_ok(InvoiceStatus::Cancelled));
    assert forall|id: int| 0 <= id < post.invoices@.len()
        implies #[trigger] post.status_list(post.invoices@[id].status).contains(id as u64) by {
        assert(pre.status_list(pre.invoices@[id].status).contains(id as u64));
    }
    assert forall|id: int| 0 <= id < post.invoices@.len()
        implies #[trigger] post.wf_invoice_at(id) by {
        assert(pre.wf_invoice_at(id));
    }
    assert forall|k: int| 0 <= k < post.bids@.len() implies #[trigger] post.wf_bid_at(k) by {
        assert(pre.wf_bid_at(k));
    }
    assert forall|k: int| 0 <= k < post.escrows@.len() implies #[trigger] post.wf_escrow_at(k) by {
        assert(pre.wf_escrow_at(k));
    }
    assert forall|k: int| 0 <= k < post.disputes@.len()
        implies #[trigger] post.wf_dispute_at(k) by {
        assert(pre.wf_dispute_at(k));
    }
}

/// Updating one invoice record without touching its status, its links, or
/// its identity keeps the store consistent, as long as the record itself
/// stays locally valid.
#[verifier::rlimit(60)]
pub proof fn lemma_wf_update_record(pre: QuickLendXContract, post: QuickLendXContract, id: int)
    requires
        pre.wf(),
        0 <= id < pre.invoices@.len(),
        post.invoices@.len() == pre.invoices@.len(),
        forall|id2: int|
            0 <= id2 < pre.invoices@.len() && id2 != id
                ==> post.invoices@[id2] == pre.invoices@[id2],
        ({
            let a = pre.invoices@[id];
            let b = post.invoices@[id];
            &&& b.id == a.id
            &&& b.status == a.status
            &&& b.business == a.business
            &&& b.currency == a.currency
            &&& b.dispute == a.dispute
            &&& b.dispute_status == a.dispute_status
            &&& b.escrow == a.escrow
            &&& b.amount == a.amount
            &&& b.created_at == a.created_at
            &&& b.due_date == a.due_date
            &&& b.description == a.description
            &&& 0 <= b.paid_amount < b.amount
            &&& b.ratings@.len() == b.total_ratings
            &&& b.rating_sum <= 5 * (b.total_ratings as u64)
        }),
        post.bids == pre.bids,
        post.escrows == pre.escrows,
        post.investments == pre.investments,
        post.disputes == pre.disputes,
        post.business_verifications == pre.business_verifications,
        post.investor_verifications == pre.investor_verifications,
        post.currencies == pre.currencies,
        QuickLendXContract::indices_unchanged(pre, post),
        post.platform_fee_bps == pre.platform_fee_bps,
    ensures
        post.wf(),
{
    assert(forall|s: InvoiceStatus| post.status_list(s) == pre.status_list(s));
    assert forall|s: InvoiceStatus| #[trigger] post.list_ok(s) by {
        assert(pre.list_ok(s));
        let l = post.status_list(s);
        assert forall|j: int| 0 <= j < l.len() implies (#[trigger] l[j])
            < post.invoices@.len() && post.invoices@[l[j] as int].status == s by {
            assert(pre.invoices@[l[j] as int].status == s);
            if l[j] as int == id {
                assert(post.invoices@[id].status == pre.invoices@[id].status);
            }
        }
    }
    assert forall|id2: int| 0 <= id2 < post.invoices@.len()
        implies #[trigger] post.status_list(post.invoices@[id2].status).contains(id2 as u64) by {
        assert(pre.status_list(pre.invoices@[id2].status).contains(id2 as u64));
        assert(post.invoices@[id2].status == pre.invoices@[id2].status);
    }
    assert forall|id2: int| 0 <= id2 < post.invoices@.len()
        implies #[trigger] post.wf_invoice_at(id2) by {
        assert(pre.wf_invoice_at(id2));
    }
    assert forall|k: int| 0 <= k < post.bids@.len() implies #[trigger] post.wf_bid_at(k) by {
        assert(pre.wf_bid_at(k));
        let b = post.bids@[k];
        if b.invoice_id as int == id {
            assert(post.invoices@[id].escrow == pre.invoices@[id].escrow);
        }
    }
    assert forall|k: int| 0 <= k < post.escrows@.len() implies #[trigger] post.wf_escrow_at(k) by {
        assert(pre.wf_escrow_at(k));
        let e = post.escrows@[k];
        if e.invoice_id as int == id {
            assert(post.invoices@[id].escrow == pre.invoices@[id].escrow);
            assert(post.invoices@[id].business == pre.invoices@[id].business);
            assert(post.invoices@[id].currency == pre.invoices@[id].currency);
        }
    }
    assert forall|k: int| 0 <= k < post.disputes@.len()
        implies #[trigger] post.wf_dispute_at(k) by {
        assert(pre.wf_dispute_at(k));
        let d = post.disputes@[k];
        if d.invoice_id as int == id {
            assert(post.invoices@[id].dispute == pre.invoices@[id].dispute);
            assert(post.invoices@[id].dispute_status == pre.invoices@[id].dispute_status);
        }
    }
}

/// After moving one invoice between status indices, the indices are again
/// sound, duplicate-free and complete.
#[verifier::rlimit(60)]
proof fn lemma_move_indices(
    pre: QuickLendXContract,
    post: QuickLendXContract,
    id: u64,
    old_status: InvoiceStatus,
    new_status: InvoiceStatus,
    j: int,
)
    requires
        pre.wf_indices(),
        pre.invoices@.len() <= usize::MAX as int,
        id < pre.invoices@.len(),
        pre.invoices@[id as int].status == old_status,
        old_status != new_status,
        post.invoices@ == pre.invoices@.update(
            id as int,
            Invoice { status: new_status, ..pre.invoices@[id as int] },
        ),
        0 <= j < pre.status_list(old_status).len(),
        pre.status_list(old_status)[j] == id,
        post.status_list(old_status) == pre.status_list(old_status).remove(j),
        post.status_list(new_status) == pre.status_list(new_status).push(id),
        forall|s: InvoiceStatus|
            s != old_status && s != new_status ==> post.status_list(s) == pre.status_list(s),
    ensures
        post.wf_indices(),
        !post.status_list(old_status).contains(id),
        post.status_list(new_status).contains(id),
        forall|s: InvoiceStatus, x: u64|
            x != id ==> (#[trigger] post.status_list(s).contains(x)
                <==> pre.status_list(s).contains(x)),
{
    lemma_remove_props(pre.status_list(old_status), j);
    assert(!pre.status_list(new_status).contains(id)) by {
        if pre.status_list(new_status).contains(id) {
            let k = choose|k: int|
                0 <= k < pre.status_list(new_status).len()
                    && pre.status_list(new_status)[k] == id;
            assert(pre.invoices@[id as int].status == new_status);
        }
    }
    lemma_push_props(pre.status_list(new_status), id);
    assert forall|s: InvoiceStatus| #[trigger] post.list_ok(s) by {
        let l = post.status_list(s);
        if s == old_status {
            assert forall|j2: int| 0 <= j2 < l.len() implies (#[trigger] l[j2])
                < post.invoices@.len() && post.invoices@[l[j2] as int].status == s by {
                assert(pre.status_list(s).contains(l[j2]));
                assert(l[j2] != id);
                let k = choose|k: int|
                    0 <= k < pre.status_list(s).len() && pre.status_list(s)[k] == l[j2];
                assert(pre.invoices@[l[j2] as int].status == s);
            }
        } else if s == new_status {
            assert forall|j2: int| 0 <= j2 < l.len() implies (#[trigger] l[j2])
                < post.invoices@.len() && post.invoices@[l[j2] as int].status == s by {
                if l[j2] == id {
                    assert(post.invoices@[id as int].status == new_status);
                } else {
                    assert(pre.status_list(s).contains(l[j2]));
                    let k = choose|k: int|
                        0 <= k < pre.status_list(s).len() && pre.status_list(s)[k] == l[j2];
                    assert(pre.invoices@[l[j2] as int].status == s);
                }
            }
        } else {
            assert(l == pre.status_list(s));
            assert forall|j2: int| 0 <= j2 < l.len() implies (#[trigger] l[j2])
                < post.invoices@.len() && post.invoices@[l[j2] as int].status == s by {
                assert(pre.list_ok(s));
                assert(pre.invoices@[l[j2] as int].status == s);
                assert(l[j2] != id);
            }
        }
    }
    assert forall|id2: int| 0 <= id2 < post.invoices@.len()
        implies #[trigger] post.status_list(post.invoices@[id2].status).contains(
            id2 as u64) by {
        if id2 == id as int {
            assert(post.status_list(new_status).contains(id));
        } else {
            let s2 = pre.invoices@[id2].status;
            assert(pre.status_list(pre.invoices@[id2].status).contains(id2 as u64));
            assert(post.invoices@[id2].status == s2);
            assert(id2 as u64 != id);
            if s2 == old_status {
                assert(post.status_list(s2).contains(id2 as u64));
            } else if s2 == new_status {
                assert(post.status_list(s2).contains(id2 as u64));
            } else {
                assert(post.status_list(s2) == pre.status_list(s2));
            }
        }
    }
    assert forall|s: InvoiceStatus, x: u64| x != id
        implies (#[trigger] post.status_list(s).contains(x)
            <==> pre.status_list(s).contains(x)) by {
        if s == old_status {
            assert(post.status_list(s).contains(x) <==> pre.status_list(s).contains(x));
        } else if s == new_status {
            assert(post.status_list(s).contains(x) <==> pre.status_list(s).contains(x));
        } else {
            assert(post.status_list(s) == pre.status_list(s));
        }
    }
}

/// Changing one invoice's status leaves every per-record clause intact,
/// provided a status that forbids an escrow is only given to an invoice
/// without one.
#[verifier::rlimit(60)]
proof fn lemma_move_records(
    pre: QuickLendXContract,
    post: QuickLendXContract,
    id: u64,
    new_status: InvoiceStatus,
)
    requires
        pre.wf_invoices(),
        pre.wf_bids(),
        pre.wf_escrows(),
        pre.wf_disputes(),
        id < pre.invoices@.len(),
        post.invoices@ == pre.invoices@.update(
            id as int,
            Invoice { status: new_status, ..pre.invoices@[id as int] },
        ),
        post.bids == pre.bids,
        post.escrows == pre.escrows,
        post.disputes == pre.disputes,
        (new_status == InvoiceStatus::Pending || new_status == InvoiceStatus::Verified
            || new_status == InvoiceStatus::Cancelled)
            ==> pre.invoices@[id as int].escrow.is_none(),
    ensures
        post.wf_invoices(),
        post.wf_bids(),
        post.wf_escrows(),
        post.wf_disputes(),
{
    assert forall|id2: int| 0 <= id2 < post.invoices@.len()
        implies #[trigger] post.wf_invoice_at(id2) by {
        assert(pre.wf_invoice_at(id2));
        if id2 != id as int {
            assert(post.invoices@[id2] == pre.invoices@[id2]);
        }
    }
    assert forall|k: int| 0 <= k < post.bids@.len() implies #[trigger] post.wf_bid_at(k) by {
        assert(pre.wf_bid_at(k));
        let b = post.bids@[k];
        if b.status == BidStatus::Accepted && b.invoice_id == id {
            assert(post.invoices@[id as int].escrow == pre.invoices@[id as int].escrow);
        }
    }
    assert forall|k: int| 0 <= k < post.escrows@.len() implies #[trigger] post.wf_escrow_at(k) by {
        assert(pre.wf_escrow_at(k));
        let e = post.escrows@[k];
        if e.invoice_id == id {
            assert(post.invoices@[id as int].escrow == pre.invoices@[id as int].escrow);
            assert(post.invoices@[id as int].business == pre.invoices@[id as int].business);
            assert(post.invoices@[id as int].currency == pre.invoices@[id as int].currency);
        }
    }
    assert forall|k: int| 0 <= k < post.disputes@.len()
        implies #[trigger] post.wf_dispute_at(k) by {
        assert(pre.wf_dispute_at(k));
        let d = post.disputes@[k];
        if d.invoice_id == id {
            assert(post.invoices@[id as int].dispute == pre.invoices@[id as int].dispute);
            assert(post.invoices@[id as int].dispute_status
                == pre.invoices@[id as int].dispute_status);
        }
    }
}

} // verus!
