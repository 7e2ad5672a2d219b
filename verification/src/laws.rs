//! The marketplace's cross-entity guarantees, stated and proved once over
//! any consistent store.  Every public operation preserves
//! [`QuickLendXContract::wf`], so each of these holds after every
//! operation.

use crate::bid::BidStatus;
use crate::contract::QuickLendXContract;
use crate::invoice::InvoiceStatus;
use vstd::prelude::*;

verus! {

/// Every stored invoice is valid: a positive amount, a due date strictly
/// after its creation time, and a non-empty description.  Creation rejects
/// anything else and stores nothing.
pub proof fn lemma_invoice_validity(c: QuickLendXContract, id: u64)
    requires
        c.wf(),
        id < c.invoices@.len(),
    ensures
        c.invoices@[id as int].amount > 0,
        c.invoices@[id as int].created_at < c.invoices@[id as int].due_date,
        c.invoices@[id as int].description@.len() > 0,
{
    assert(c.wf_invoice_at(id as int));
}

/// Every invoice is a member of the status index of its own status,
/// exactly once, and of no other status index: no duplicates, no
/// omissions, no dangling entries.
pub proof fn lemma_status_index_partition(c: QuickLendXContract, id: u64)
    requires
        c.wf(),
        id < c.invoices@.len(),
    ensures
        c.status_list(c.invoices@[id as int].status).contains(id),
        forall|s: InvoiceStatus|
            s != c.invoices@[id as int].status ==> !(#[trigger] c.status_list(s)).contains(id),
        forall|s: InvoiceStatus| (#[trigger] c.status_list(s)).no_duplicates(),
{
    assert(c.status_list(c.invoices@[id as int].status).contains((id as int) as u64));
    assert forall|s: InvoiceStatus|
        s != c.invoices@[id as int].status implies !(#[trigger] c.status_list(s)).contains(
        id) by {
        if c.status_list(s).contains(id) {
            let j = choose|j: int| 0 <= j < c.status_list(s).len() && c.status_list(s)[j] == id;
            assert(c.list_ok(s));
            assert(c.invoices@[id as int].status == s);
        }
    }
    assert forall|s: InvoiceStatus| (#[trigger] c.status_list(s)).no_duplicates() by {
        assert(c.list_ok(s));
    }
}

/// At most one bid per invoice ever reaches `Accepted`: two accepted bids
/// on the same invoice are the same bid.
pub proof fn lemma_single_accepted_bid(c: QuickLendXContract, k1: u64, k2: u64)
    requires
        c.wf(),
        k1 < c.bids@.len(),
        k2 < c.bids@.len(),
        c.bids@[k1 as int].status == BidStatus::Accepted,
        c.bids@[k2 as int].status == BidStatus::Accepted,
        c.bids@[k1 as int].invoice_id == c.bids@[k2 as int].invoice_id,
    ensures
        k1 == k2,
{
    assert(c.wf_bid_at(k1 as int));
    assert(c.wf_bid_at(k2 as int));
}

/// An accepted bid's invoice is funded (or settled or defaulted after
/// funding): it is never still open for another acceptance.
pub proof fn lemma_accepted_bid_invoice_funded(c: QuickLendXContract, k: u64)
    requires
        c.wf(),
        k < c.bids@.len(),
        c.bids@[k as int].status == BidStatus::Accepted,
    ensures
        c.invoices@[c.bids@[k as int].invoice_id as int].status == InvoiceStatus::Funded
            || c.invoices@[c.bids@[k as int].invoice_id as int].status == InvoiceStatus::Paid
            || c.invoices@[c.bids@[k as int].invoice_id as int].status
            == InvoiceStatus::Defaulted,
{
    assert(c.wf_bid_at(k as int));
    let iid = c.bids@[k as int].invoice_id as int;
    assert(c.wf_invoice_at(iid));
}

/// Every escrow mirrors the accepted bid whose acceptance created it: it
/// holds exactly the bid's amount, from the bid's investor, in the
/// invoice's currency, for the invoice's business — and that bid is
/// `Accepted`.
pub proof fn lemma_escrow_mirrors_bid(c: QuickLendXContract, e: u64)
    requires
        c.wf(),
        e < c.escrows@.len(),
    ensures
        ({
            let escrow = c.escrows@[e as int];
            &&& escrow.bid_id < c.bids@.len()
            &&& escrow.invoice_id < c.invoices@.len()
            &&& escrow.amount == c.bids@[escrow.bid_id as int].bid_amount
            &&& escrow.investor == c.bids@[escrow.bid_id as int].investor
            &&& c.bids@[escrow.bid_id as int].status == BidStatus::Accepted
            &&& c.bids@[escrow.bid_id as int].invoice_id == escrow.invoice_id
            &&& escrow.currency == c.invoices@[escrow.invoice_id as int].currency
            &&& escrow.business == c.invoices@[escrow.invoice_id as int].business
        }),
{
    assert(c.wf_escrow_at(e as int));
}

/// Escrow is created exactly once per invoice: two escrows for the same
/// invoice are the same escrow.
pub proof fn lemma_single_escrow_per_invoice(c: QuickLendXContract, e1: u64, e2: u64)
    requires
        c.wf(),
        e1 < c.escrows@.len(),
        e2 < c.escrows@.len(),
        c.escrows@[e1 as int].invoice_id == c.escrows@[e2 as int].invoice_id,
    ensures
        e1 == e2,
{
    assert(c.wf_escrow_at(e1 as int));
    assert(c.wf_escrow_at(e2 as int));
    assert(c.invoices@[c.escrows@[e1 as int].invoice_id as int].escrow == Some(e1));
    assert(c.invoices@[c.escrows@[e2 as int].invoice_id as int].escrow == Some(e2));
}

/// At most one dispute ever exists per invoice: two dispute records for
/// the same invoice are the same record.
pub proof fn lemma_single_dispute_per_invoice(c: QuickLendXContract, d1: u64, d2: u64)
    requires
        c.wf(),
        d1 < c.disputes@.len(),
        d2 < c.disputes@.len(),
        c.disputes@[d1 as int].invoice_id == c.disputes@[d2 as int].invoice_id,
    ensures
        d1 == d2,
{
    assert(c.wf_dispute_at(d1 as int));
    assert(c.wf_dispute_at(d2 as int));
    assert(c.invoices@[c.disputes@[d1 as int].invoice_id as int].dispute == Some(d1));
    assert(c.invoices@[c.disputes@[d2 as int].invoice_id as int].dispute == Some(d2));
}

/// An invoice's dispute overlay always mirrors its dispute record, and an
/// invoice without a record has no overlay: resolving one invoice's
/// dispute can never touch another invoice's overlay.
pub proof fn lemma_dispute_overlay_mirrors_record(c: QuickLendXContract, id: u64)
    requires
        c.wf(),
        id < c.invoices@.len(),
    ensures
        match c.invoices@[id as int].dispute {
            Some(d) => d < c.disputes@.len()
                && c.invoices@[id as int].dispute_status == c.disputes@[d as int].status
                && c.disputes@[d as int].invoice_id == id,
            None => c.invoices@[id as int].dispute_status
                == crate::invoice::DisputeStatus::NoDispute,
        },
{
    assert(c.wf_invoice_at(id as int));
}

/// At most one insurance entry per investment is active at a time;
/// inactive entries are history and never block new coverage.
pub proof fn lemma_single_active_insurance(c: QuickLendXContract, v: u64, i: int, j: int)
    requires
        c.wf(),
        v < c.investments@.len(),
        0 <= i < c.investments@[v as int].insurance@.len(),
        0 <= j < c.investments@[v as int].insurance@.len(),
        i != j,
        c.investments@[v as int].insurance@[i].active,
    ensures
        !c.investments@[v as int].insurance@[j].active,
{
}

} // verus!
