//! Paged query surfaces: each result is exactly one window of a canonical
//! filtered listing, so the pages of a listing tile it without gaps,
//! duplication, or reordering.

use crate::bid::{Bid, BidStatus};
use crate::contract::QuickLendXContract;
use crate::investment::{Investment, InvestmentStatus};
use crate::invoice::{Invoice, InvoiceCategory, InvoiceStatus};
use crate::Address;
use vstd::prelude::*;

verus! {

/// The page window `[offset, offset + limit)` clipped to `len`.
pub open spec fn page_window(len: int, offset: u32, limit: u32) -> (int, int) {
    let start = if offset as int <= len {
        offset as int
    } else {
        len
    };
    let end = if offset as int + limit as int <= len {
        offset as int + limit as int
    } else {
        len
    };
    (start, end)
}

/// Whether an invoice passes the optional status filter for a business
/// listing.
pub open spec fn business_filter_hit(
    inv: Invoice,
    business: Address,
    status_filter: Option<InvoiceStatus>,
) -> bool {
    inv.business == business && match status_filter {
        Some(s) => inv.status == s,
        None => true,
    }
}

/// The identifiers of `business`'s invoices passing the filter, ascending.
pub open spec fn business_listing(
    invs: Seq<Invoice>,
    business: Address,
    status_filter: Option<InvoiceStatus>,
) -> Seq<u64>
    decreases invs.len(),
{
    if invs.len() == 0 {
        Seq::empty()
    } else {
        let rest = business_listing(invs.drop_last(), business, status_filter);
        if business_filter_hit(invs.last(), business, status_filter) {
            rest.push((invs.len() - 1) as u64)
        } else {
            rest
        }
    }
}

/// How [`business_listing`] grows as invoices are appended.
pub proof fn lemma_business_listing_push(
    invs: Seq<Invoice>,
    business: Address,
    status_filter: Option<InvoiceStatus>,
    x: Invoice,
)
    ensures
        business_listing(invs.push(x), business, status_filter)
            == if business_filter_hit(x, business, status_filter) {
            business_listing(invs, business, status_filter).push(invs.len() as u64)
        } else {
            business_listing(invs, business, status_filter)
        },
{
    assert(invs.push(x).drop_last() =~= invs);
    assert(business_listing(invs.push(x).drop_last(), business, status_filter)
        == business_listing(invs, business, status_filter));
}

/// Whether an invoice passes the optional amount-range and category
/// filters of the open-marketplace listing.
pub open spec fn available_filter_hit(
    inv: Invoice,
    min_amount: Option<i128>,
    max_amount: Option<i128>,
    category_filter: Option<InvoiceCategory>,
) -> bool {
    &&& match min_amount {
        Some(m) => inv.amount >= m,
        None => true,
    }
    &&& match max_amount {
        Some(m) => inv.amount <= m,
        None => true,
    }
    &&& match category_filter {
        Some(cat) => inv.category == cat,
        None => true,
    }
}

/// The identifiers among `ids` whose invoice passes the filters, in index
/// order.
pub open spec fn available_listing(
    ids: Seq<u64>,
    invs: Seq<Invoice>,
    min_amount: Option<i128>,
    max_amount: Option<i128>,
    category_filter: Option<InvoiceCategory>,
) -> Seq<u64>
    decreases ids.len(),
{
    if ids.len() == 0 {
        Seq::empty()
    } else {
        let rest = available_listing(ids.drop_last(), invs, min_amount, max_amount,
            category_filter);
        if available_filter_hit(invs[ids.last() as int], min_amount, max_amount,
            category_filter) {
            rest.push(ids.last())
        } else {
            rest
        }
    }
}

/// How [`available_listing`] grows as identifiers are appended.
pub proof fn lemma_available_listing_push(
    ids: Seq<u64>,
    invs: Seq<Invoice>,
    min_amount: Option<i128>,
    max_amount: Option<i128>,
    category_filter: Option<InvoiceCategory>,
    x: u64,
)
    ensures
        available_listing(ids.push(x), invs, min_amount, max_amount, category_filter)
            == if available_filter_hit(invs[x as int], min_amount, max_amount,
            category_filter) {
            available_listing(ids, invs, min_amount, max_amount, category_filter).push(x)
        } else {
            available_listing(ids, invs, min_amount, max_amount, category_filter)
        },
{
    assert(ids.push(x).drop_last() =~= ids);
    assert(available_listing(ids.push(x).drop_last(), invs, min_amount, max_amount,
        category_filter) == available_listing(ids, invs, min_amount, max_amount,
        category_filter));
}

/// Whether an investment passes the optional status filter for an investor
/// listing.
pub open spec fn investment_filter_hit(
    v: Investment,
    investor: Address,
    status_filter: Option<InvestmentStatus>,
) -> bool {
    v.investor == investor && match status_filter {
        Some(s) => v.status == s,
        None => true,
    }
}

/// The identifiers of `investor`'s investments passing the filter,
/// ascending.
pub open spec fn investment_listing(
    vs: Seq<Investment>,
    investor: Address,
    status_filter: Option<InvestmentStatus>,
) -> Seq<u64>
    decreases vs.len(),
{
    if vs.len() == 0 {
        Seq::empty()
    } else {
        let rest = investment_listing(vs.drop_last(), investor, status_filter);
        if investment_filter_hit(vs.last(), investor, status_filter) {
            rest.push((vs.len() - 1) as u64)
        } else {
            rest
        }
    }
}

/// How [`investment_listing`] grows as investments are appended.
pub proof fn lemma_investment_listing_push(
    vs: Seq<Investment>,
    investor: Address,
    status_filter: Option<InvestmentStatus>,
    x: Investment,
)
    ensures
        investment_listing(vs.push(x), investor, status_filter)
            == if investment_filter_hit(x, investor, status_filter) {
            investment_listing(vs, investor, status_filter).push(vs.len() as u64)
        } else {
            investment_listing(vs, investor, status_filter)
        },
{
    assert(vs.push(x).drop_last() =~= vs);
    assert(investment_listing(vs.push(x).drop_last(), investor, status_filter)
        == investment_listing(vs, investor, status_filter));
}

/// Whether a bid passes the optional status filter for one invoice's
/// history.
pub open spec fn history_filter_hit(
    b: Bid,
    invoice_id: u64,
    status_filter: Option<BidStatus>,
) -> bool {
    b.invoice_id == invoice_id && match status_filter {
        Some(s) => b.status == s,
        None => true,
    }
}

/// One invoice's bid records passing the filter, in table order.
pub open spec fn history_listing(
    bids: Seq<Bid>,
    invoice_id: u64,
    status_filter: Option<BidStatus>,
) -> Seq<Bid>
    decreases bids.len(),
{
    if bids.len() == 0 {
        Seq::empty()
    } else {
        let rest = history_listing(bids.drop_last(), invoice_id, status_filter);
        if history_filter_hit(bids.last(), invoice_id, status_filter) {
            rest.push(bids.last())
        } else {
            rest
        }
    }
}

/// How [`history_listing`] grows as bids are appended.
pub proof fn lemma_history_listing_push(
    bids: Seq<Bid>,
    invoice_id: u64,
    status_filter: Option<BidStatus>,
    x: Bid,
)
    ensures
        history_listing(bids.push(x), invoice_id, status_filter)
            == if history_filter_hit(x, invoice_id, status_filter) {
            history_listing(bids, invoice_id, status_filter).push(x)
        } else {
            history_listing(bids, invoice_id, status_filter)
        },
{
    assert(bids.push(x).drop_last() =~= bids);
    assert(history_listing(bids.push(x).drop_last(), invoice_id, status_filter)
        == history_listing(bids, invoice_id, status_filter));
}

/// Whether a bid passes the optional status filter for one investor's
/// history.
pub open spec fn investor_bid_filter_hit(
    b: Bid,
    investor: Address,
    status_filter: Option<BidStatus>,
) -> bool {
    b.investor == investor && match status_filter {
        Some(s) => b.status == s,
        None => true,
    }
}

/// One investor's bid records passing the filter, in table order.
pub open spec fn investor_bid_listing(
    bids: Seq<Bid>,
    investor: Address,
    status_filter: Option<BidStatus>,
) -> Seq<Bid>
    decreases bids.len(),
{
    if bids.len() == 0 {
        Seq::empty()
    } else {
        let rest = investor_bid_listing(bids.drop_last(), investor, status_filter);
        if investor_bid_filter_hit(bids.last(), investor, status_filter) {
            rest.push(bids.last())
        } else {
            rest
        }
    }
}

/// How [`investor_bid_listing`] grows as bids are appended.
pub proof fn lemma_investor_bid_listing_push(
    bids: Seq<Bid>,
    investor: Address,
    status_filter: Option<BidStatus>,
    x: Bid,
)
    ensures
        investor_bid_listing(bids.push(x), investor, status_filter)
            == if investor_bid_filter_hit(x, investor, status_filter) {
            investor_bid_listing(bids, investor, status_filter).push(x)
        } else {
            investor_bid_listing(bids, investor, status_filter)
        },
{
    assert(bids.push(x).drop_last() =~= bids);
    assert(investor_bid_listing(bids.push(x).drop_last(), investor, status_filter)
        == investor_bid_listing(bids, investor, status_filter));
}

/// Cuts one page out of a listing of identifiers.
fn page_ids(v: &Vec<u64>, offset: u32, limit: u32) -> (r: Vec<u64>)
    ensures
        r@ == v@.subrange(page_window(v@.len() as int, offset, limit).0,
            page_window(v@.len() as int, offset, limit).1),
{
    let ghost (gstart, gend) = page_window(v@.len() as int, offset, limit);
    let len = v.len();
    let start: usize = if (offset as usize) <= len {
        offset as usize
    } else {
        len
    };
    let end: usize = if offset as usize <= len && limit as usize <= len - (offset as usize) {
        offset as usize + limit as usize
    } else {
        len
    };
    let mut r: Vec<u64> = Vec::new();
    let mut i: usize = start;
    proof {
        assert(gstart == start as int);
        assert(gend == end as int);
        assert(v@.subrange(start as int, start as int) =~= Seq::<u64>::empty());
    }
    while i < end
        invariant
            start <= i <= end <= v@.len(),
            r@ == v@.subrange(start as int, i as int),
        decreases end - i,
    {
        r.push(v[i]);
        proof {
            assert(v@.subrange(start as int, i as int + 1)
                =~= v@.subrange(start as int, i as int).push(v@[i as int]));
        }
        i += 1;
    }
    r
}

/// Cuts one page out of a listing of bids.
fn page_bids(v: &Vec<Bid>, offset: u32, limit: u32) -> (r: Vec<Bid>)
    ensures
        r@ == v@.subrange(page_window(v@.len() as int, offset, limit).0,
            page_window(v@.len() as int, offset, limit).1),
{
    let ghost (gstart, gend) = page_window(v@.len() as int, offset, limit);
    let len = v.len();
    let start: usize = if (offset as usize) <= len {
        offset as usize
    } else {
        len
    };
    let end: usize = if offset as usize <= len && limit as usize <= len - (offset as usize) {
        offset as usize + limit as usize
    } else {
        len
    };
    let mut r: Vec<Bid> = Vec::new();
    let mut i: usize = start;
    proof {
        assert(gstart == start as int);
        assert(gend == end as int);
        assert(v@.subrange(start as int, start as int) =~= Seq::<Bid>::empty());
    }
    while i < end
        invariant
            start <= i <= end <= v@.len(),
            r@ == v@.subrange(start as int, i as int),
        decreases end - i,
    {
        r.push(v[i]);
        proof {
            assert(v@.subrange(start as int, i as int + 1)
                =~= v@.subrange(start as int, i as int).push(v@[i as int]));
        }
        i += 1;
    }
    r
}

impl QuickLendXContract {
    /// One page of a business's invoices, optionally narrowed to a status:
    /// exactly the `[offset, offset + limit)` window of the ascending
    /// filtered listing.
    pub fn get_business_invoices_paged(
        &self,
        business: Address,
        status_filter: Option<InvoiceStatus>,
        offset: u32,
        limit: u32,
    ) -> (r: Vec<u64>)
        ensures
            ({
                let listing = business_listing(self.invoices@, business, status_filter);
                r@ == listing.subrange(page_window(listing.len() as int, offset, limit).0,
                    page_window(listing.len() as int, offset, limit).1)
            }),
            r@.len() <= limit,
    {
        let ghost full = self.invoices@;
        let mut all: Vec<u64> = Vec::new();
        let mut i: usize = 0;
        proof {
            assert(full.take(0) =~= Seq::<Invoice>::empty());
        }
        while i < self.invoices.len()
            invariant
                i <= full.len(),
                self.invoices@ == full,
                all@ == business_listing(full.take(i as int), business, status_filter),
            decreases full.len() - i,
        {
            proof {
                assert(full.take(i as int + 1) =~= full.take(i as int).push(full[i as int]));
                lemma_business_listing_push(full.take(i as int), business, status_filter,
                    full[i as int]);
            }
            let keep = self.invoices[i].business == business && match status_filter {
                Some(s) => self.invoices[i].status == s,
                None => true,
            };
            if keep {
                all.push(i as u64);
            }
            i += 1;
        }
        proof {
            assert(full.take(full.len() as int) =~= full);
        }
        page_ids(&all, offset, limit)
    }

    /// One page of verified invoices open for bids, optionally narrowed by
    /// amount range and category: exactly the `[offset, offset + limit)`
    /// window of the filtered `Verified` index.
    pub fn get_available_invoices_paged(
        &self,
        min_amount: Option<i128>,
        max_amount: Option<i128>,
        category_filter: Option<InvoiceCategory>,
        offset: u32,
        limit: u32,
    ) -> (r: Vec<u64>)
        requires
            self.wf(),
        ensures
            ({
                let listing = available_listing(self.status_list(InvoiceStatus::Verified),
                    self.invoices@, min_amount, max_amount, category_filter);
                r@ == listing.subrange(page_window(listing.len() as int, offset, limit).0,
                    page_window(listing.len() as int, offset, limit).1)
            }),
            r@.len() <= limit,
    {
        let verified = self.get_available_invoices();
        let ghost ids = verified@;
        let mut all: Vec<u64> = Vec::new();
        let mut i: usize = 0;
        let n_invoices: usize = self.invoices.len();
        proof {
            assert(ids.take(0) =~= Seq::<u64>::empty());
        }
        while i < verified.len()
            invariant
                self.wf(),
                i <= ids.len(),
                verified@ == ids,
                ids == self.status_list(InvoiceStatus::Verified),
                n_invoices == self.invoices@.len(),
                all@ == available_listing(ids.take(i as int), self.invoices@, min_amount,
                    max_amount, category_filter),
            decreases ids.len() - i,
        {
            let id = verified[i];
            proof {
                assert(self.list_ok(InvoiceStatus::Verified));
                assert(self.status_list(InvoiceStatus::Verified)[i as int] == id);
                assert(ids.take(i as int + 1) =~= ids.take(i as int).push(ids[i as int]));
                lemma_available_listing_push(ids.take(i as int), self.invoices@, min_amount,
                    max_amount, category_filter, ids[i as int]);
            }
            let idx = id as usize;
            let keep = (match min_amount {
                Some(m) => self.invoices[idx].amount >= m,
                None => true,
            }) && (match max_amount {
                Some(m) => self.invoices[idx].amount <= m,
                None => true,
            }) && (match category_filter {
                Some(cat) => self.invoices[idx].category == cat,
                None => true,
            });
            if keep {
                all.push(id);
            }
            i += 1;
        }
        proof {
            assert(ids.take(ids.len() as int) =~= ids);
        }
        page_ids(&all, offset, limit)
    }

    /// One page of an investor's investments, optionally narrowed to a
    /// status: exactly the `[offset, offset + limit)` window of the
    /// ascending filtered listing.
    pub fn get_investor_investments_paged(
        &self,
        investor: Address,
        status_filter: Option<InvestmentStatus>,
        offset: u32,
        limit: u32,
    ) -> (r: Vec<u64>)
        ensures
            ({
                let listing = investment_listing(self.investments@, investor, status_filter);
                r@ == listing.subrange(page_window(listing.len() as int, offset, limit).0,
                    page_window(listing.len() as int, offset, limit).1)
            }),
            r@.len() <= limit,
    {
        let ghost full = self.investments@;
        let mut all: Vec<u64> = Vec::new();
        let mut i: usize = 0;
        proof {
            assert(full.take(0) =~= Seq::<Investment>::empty());
        }
        while i < self.investments.len()
            invariant
                i <= full.len(),
                self.investments@ == full,
                all@ == investment_listing(full.take(i as int), investor, status_filter),
            decreases full.len() - i,
        {
            proof {
                assert(full.take(i as int + 1) =~= full.take(i as int).push(full[i as int]));
                lemma_investment_listing_push(full.take(i as int), investor, status_filter,
                    full[i as int]);
            }
            let keep = self.investments[i].investor == investor && match status_filter {
                Some(s) => self.investments[i].status == s,
                None => true,
            };
            if keep {
                all.push(i as u64);
            }
            i += 1;
        }
        proof {
            assert(full.take(full.len() as int) =~= full);
        }
        page_ids(&all, offset, limit)
    }

    /// One page of an invoice's bid records, optionally narrowed to a
    /// status: exactly the `[offset, offset + limit)` window of the
    /// table-order filtered listing.
    pub fn get_bid_history_paged(
        &self,
        invoice_id: u64,
        status_filter: Option<BidStatus>,
        offset: u32,
        limit: u32,
    ) -> (r: Vec<Bid>)
        ensures
            ({
                let listing = history_listing(self.bids@, invoice_id, status_filter);
                r@ == listing.subrange(page_window(listing.len() as int, offset, limit).0,
                    page_window(listing.len() as int, offset, limit).1)
            }),
            r@.len() <= limit,
    {
        let ghost full = self.bids@;
        let mut all: Vec<Bid> = Vec::new();
        let mut i: usize = 0;
        proof {
            assert(full.take(0) =~= Seq::<Bid>::empty());
        }
        while i < self.bids.len()
            invariant
                i <= full.len(),
                self.bids@ == full,
                all@ == history_listing(full.take(i as int), invoice_id, status_filter),
            decreases full.len() - i,
        {
            proof {
                assert(full.take(i as int + 1) =~= full.take(i as int).push(full[i as int]));
                lemma_history_listing_push(full.take(i as int), invoice_id, status_filter,
                    full[i as int]);
            }
            let keep = self.bids[i].invoice_id == invoice_id && match status_filter {
                Some(s) => self.bids[i].status == s,
                None => true,
            };
            if keep {
                all.push(self.bids[i]);
            }
            i += 1;
        }
        proof {
            assert(full.take(full.len() as int) =~= full);
        }
        page_bids(&all, offset, limit)
    }

    /// One page of an investor's bids across all invoices, optionally
    /// narrowed to a status: exactly the `[offset, offset + limit)` window
    /// of the table-order filtered listing.
    pub fn get_investor_bids_paged(
        &self,
        investor: Address,
        status_filter: Option<BidStatus>,
        offset: u32,
        limit: u32,
    ) -> (r: Vec<Bid>)
        ensures
            ({
                let listing = investor_bid_listing(self.bids@, investor, status_filter);
                r@ == listing.subrange(page_window(listing.len() as int, offset, limit).0,
                    page_window(listing.len() as int, offset, limit).1)
            }),
            r@.len() <= limit,
    {
        let ghost full = self.bids@;
        let mut all: Vec<Bid> = Vec::new();
        let mut i: usize = 0;
        proof {
            assert(full.take(0) =~= Seq::<Bid>::empty());
        }
        while i < self.bids.len()
            invariant
                i <= full.len(),
                self.bids@ == full,
                all@ == investor_bid_listing(full.take(i as int), investor, status_filter),
            decreases full.len() - i,
        {
            proof {
                assert(full.take(i as int + 1) =~= full.take(i as int).push(full[i as int]));
                lemma_investor_bid_listing_push(full.take(i as int), investor, status_filter,
                    full[i as int]);
            }
            let keep = self.bids[i].investor == investor && match status_filter {
                Some(s) => self.bids[i].status == s,
                None => true,
            };
            if keep {
                all.push(self.bids[i]);
            }
            i += 1;
        }
        proof {
            assert(full.take(full.len() as int) =~= full);
        }
        page_bids(&all, offset, limit)
    }
}

} // verus!
