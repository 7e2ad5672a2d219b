//! Invoice lifecycle operations: creation, verification, cancellation, and
//! the administrator's direct status transitions.

use crate::contract::QuickLendXContract;
use crate::errors::QuickLendXError;
use crate::invoice::{DisputeStatus, Invoice, InvoiceCategory, InvoiceStatus};
use crate::verification::BusinessVerificationStatus;
use crate::Address;
use vstd::prelude::*;

verus! {

impl QuickLendXContract {
    /// What a freshly stored invoice looks like.
    pub open spec fn fresh_invoice_ok(
        self,
        id: int,
        business: Address,
        amount: i128,
        currency: Address,
        due_date: u64,
        description_view: Seq<char>,
        category: InvoiceCategory,
        tags_view: Seq<String>,
        now: u64,
    ) -> bool {
        let inv = self.invoices@[id];
        &&& inv.id == id as u64
        &&& inv.business == business
        &&& inv.amount == amount
        &&& inv.currency == currency
        &&& inv.due_date == due_date
        &&& inv.created_at == now
        &&& inv.description@ == description_view
        &&& inv.category == category
        &&& inv.tags@ == tags_view
        &&& inv.status == InvoiceStatus::Pending
        &&& inv.dispute_status == DisputeStatus::NoDispute
        &&& inv.dispute.is_none()
        &&& inv.escrow.is_none()
        &&& inv.metadata.is_none()
        &&& inv.investor.is_none()
        &&& inv.funded_amount == 0
        &&& inv.funded_at == 0
        &&& inv.paid_amount == 0
        &&& inv.ratings@.len() == 0
        &&& inv.total_ratings == 0
        &&& inv.rating_sum == 0
        &&& inv.average_rating.is_none()
    }

    /// Appends a fresh `Pending` invoice to the table and its identifier to
    /// the `Pending` index.
    fn push_invoice(&mut self, inv: Invoice) -> (id: u64)
        requires
            old(self).wf(),
            inv.id == old(self).invoices@.len(),
            inv.amount > 0,
            inv.created_at < inv.due_date,
            inv.description@.len() > 0,
            inv.paid_amount == 0,
            inv.ratings@.len() == 0,
            inv.total_ratings == 0,
            inv.rating_sum == 0,
            inv.status == InvoiceStatus::Pending,
            inv.dispute.is_none(),
            inv.dispute_status == DisputeStatus::NoDispute,
            inv.escrow.is_none(),
        ensures
            final(self).wf(),
            id == old(self).invoices@.len(),
            final(self).invoices@ == old(self).invoices@.push(inv),
            final(self).pending_invoices@ == old(self).pending_invoices@.push(id),
            final(self).verified_invoices == old(self).verified_invoices,
            final(self).funded_invoices == old(self).funded_invoices,
            final(self).paid_invoices == old(self).paid_invoices,
            final(self).defaulted_invoices == old(self).defaulted_invoices,
            final(self).cancelled_invoices == old(self).cancelled_invoices,
            Self::only_invoices_changed(*old(self), *final(self)),
    {
        let ghost pre = *self;
        let id = self.invoices.len() as u64;
        self.invoices.push(inv);
        self.pending_invoices.push(id);
        proof {
            let post = *self;
            let n = pre.invoices@.len() as int;
            assert(!pre.pending_invoices@.contains(id)) by {
                if pre.pending_invoices@.contains(id) {
                    let k = choose|k: int|
                        0 <= k < pre.pending_invoices@.len() && pre.pending_invoices@[k] == id;
                    assert(pre.list_ok(InvoiceStatus::Pending));
                    assert(pre.status_list(InvoiceStatus::Pending)[k] < pre.invoices@.len());
                }
            }
            crate::contract::lemma_push_props(pre.pending_invoices@, id);
            assert forall|s: InvoiceStatus| #[trigger] post.list_ok(s) by {
                assert(pre.list_ok(s));
                let l = post.status_list(s);
                assert forall|j: int| 0 <= j < l.len() implies (#[trigger] l[j])
                    < post.invoices@.len() && post.invoices@[l[j] as int].status == s by {
                    if s == InvoiceStatus::Pending && j == l.len() - 1 {
                        assert(l[j] == id);
                        assert(post.invoices@[n] == inv);
                    } else {
                        assert(pre.status_list(s)[j] == l[j]);
                        assert(pre.invoices@[l[j] as int].status == s);
                        assert(post.invoices@[l[j] as int] == pre.invoices@[l[j] as int]);
                    }
                }
            }
            assert forall|id2: int| 0 <= id2 < post.invoices@.len()
                implies #[trigger] post.status_list(post.invoices@[id2].status).contains(
                    id2 as u64) by {
                if id2 == n {
                    assert(post.invoices@[n] == inv);
                    assert(post.status_list(InvoiceStatus::Pending)
                        == pre.pending_invoices@.push(id));
                } else {
                    assert(post.invoices@[id2] == pre.invoices@[id2]);
                    let s2 = pre.invoices@[id2].status;
                    assert(pre.status_list(pre.invoices@[id2].status).contains(id2 as u64));
                    if s2 == InvoiceStatus::Pending {
                        assert(post.status_list(s2) == pre.status_list(s2).push(id));
                        let k = choose|k: int|
                            0 <= k < pre.status_list(s2).len()
                                && pre.status_list(s2)[k] == id2 as u64;
                        assert(post.status_list(s2)[k] == id2 as u64);
                    } else {
                        assert(post.status_list(s2) == pre.status_list(s2));
                    }
                }
            }
            assert forall|id2: int| 0 <= id2 < post.invoices@.len()
                implies #[trigger] post.wf_invoice_at(id2) by {
                if id2 == n {
                    assert(post.invoices@[n] == inv);
                } else {
                    assert(pre.wf_invoice_at(id2));
                    assert(post.invoices@[id2] == pre.invoices@[id2]);
                }
            }
            assert forall|k: int| 0 <= k < post.bids@.len()
                implies #[trigger] post.wf_bid_at(k) by {
                assert(pre.wf_bid_at(k));
                let b = post.bids@[k];
                assert(post.invoices@[b.invoice_id as int] == pre.invoices@[b.invoice_id as int]);
            }
            assert forall|k: int| 0 <= k < post.escrows@.len()
                implies #[trigger] post.wf_escrow_at(k) by {
                assert(pre.wf_escrow_at(k));
                let e = post.escrows@[k];
                assert(post.invoices@[e.invoice_id as int] == pre.invoices@[e.invoice_id as int]);
            }
            assert forall|k: int| 0 <= k < post.disputes@.len()
                implies #[trigger] post.wf_dispute_at(k) by {
                assert(pre.wf_dispute_at(k));
                let d = post.disputes@[k];
                assert(post.invoices@[d.invoice_id as int] == pre.invoices@[d.invoice_id as int]);
            }
        }
        id
    }

    /// Stores an invoice without a KYC gate.  The amount must be positive,
    /// the due date strictly in the future, the description non-empty, and
    /// the currency allowed; a rejected call stores nothing.
    pub fn store_invoice(
        &mut self,
        business: Address,
        amount: i128,
        currency: Address,
        due_date: u64,
        description: String,
        category: InvoiceCategory,
        tags: Vec<String>,
        now: u64,
    ) -> (r: Result<u64, QuickLendXError>)
        requires
            old(self).wf(),
        ensures
            final(self).wf(),
            amount <= 0 ==> r == Err::<u64, QuickLendXError>(QuickLendXError::InvalidAmount)
                && *final(self) == *old(self),
            amount > 0 && due_date <= now ==> r
                == Err::<u64, QuickLendXError>(QuickLendXError::InvoiceDueDateInvalid)
                && *final(self) == *old(self),
            amount > 0 && due_date > now && description@.len() == 0 ==> r
                == Err::<u64, QuickLendXError>(QuickLendXError::InvalidDescription)
                && *final(self) == *old(self),
            amount > 0 && due_date > now && description@.len() > 0
                && !old(self).currency_allowed(currency) ==> r
                == Err::<u64, QuickLendXError>(QuickLendXError::CurrencyNotAllowed)
                && *final(self) == *old(self),
            amount > 0 && due_date > now && description@.len() > 0
                && old(self).currency_allowed(currency) ==> {
                let id = old(self).invoices@.len() as int;
                &&& r == Ok::<u64, QuickLendXError>(id as u64)
                &&& final(self).invoices@.len() == id + 1
                &&& final(self).fresh_invoice_ok(id, business, amount, currency, due_date,
                    description@, category, tags@, now)
                &&& forall|id2: int| 0 <= id2 < id
                    ==> final(self).invoices@[id2] == old(self).invoices@[id2]
                &&& final(self).pending_invoices@
                    == old(self).pending_invoices@.push(id as u64)
                &&& Self::only_invoices_changed(*old(self), *final(self))
            },
    {
        if amount <= 0 {
            return Err(QuickLendXError::InvalidAmount);
        }
        if due_date <= now {
            return Err(QuickLendXError::InvoiceDueDateInvalid);
        }
        if description.as_str().is_empty() {
            return Err(QuickLendXError::InvalidDescription);
        }
        if !self.is_allowed_currency(currency) {
            return Err(QuickLendXError::CurrencyNotAllowed);
        }
        let id = self.invoices.len() as u64;
        let inv = Invoice {
            id,
            business,
            amount,
            currency,
            due_date,
            created_at: now,
            description,
            category,
            tags,
            status: InvoiceStatus::Pending,
            dispute_status: DisputeStatus::NoDispute,
            dispute: None,
            escrow: None,
            metadata: None,
            investor: None,
            funded_amount: 0,
            funded_at: 0,
            paid_amount: 0,
            ratings: Vec::new(),
            total_ratings: 0,
            rating_sum: 0,
            average_rating: None,
        };
        let new_id = self.push_invoice(inv);
        Ok(new_id)
    }

    /// Uploads an invoice as a verified business: like
    /// [`Self::store_invoice`], but the business must first hold a verified
    /// KYC record.
    pub fn upload_invoice(
        &mut self,
        business: Address,
        amount: i128,
        currency: Address,
        due_date: u64,
        description: String,
        category: InvoiceCategory,
        tags: Vec<String>,
        now: u64,
    ) -> (r: Result<u64, QuickLendXError>)
        requires
            old(self).wf(),
        ensures
            final(self).wf(),
            !old(self).business_is_verified(business) ==> r
                == Err::<u64, QuickLendXError>(QuickLendXError::BusinessNotVerified)
                && *final(self) == *old(self),
            old(self).business_is_verified(business) ==> {
                &&& amount <= 0 ==> r
                    == Err::<u64, QuickLendXError>(QuickLendXError::InvalidAmount)
                    && *final(self) == *old(self)
                &&& amount > 0 && due_date <= now ==> r
                    == Err::<u64, QuickLendXError>(QuickLendXError::InvoiceDueDateInvalid)
                    && *final(self) == *old(self)
                &&& amount > 0 && due_date > now && description@.len() == 0 ==> r
                    == Err::<u64, QuickLendXError>(QuickLendXError::InvalidDescription)
                    && *final(self) == *old(self)
                &&& amount > 0 && due_date > now && description@.len() > 0
                    && !old(self).currency_allowed(currency) ==> r
                    == Err::<u64, QuickLendXError>(QuickLendXError::CurrencyNotAllowed)
                    && *final(self) == *old(self)
                &&& amount > 0 && due_date > now && description@.len() > 0
                    && old(self).currency_allowed(currency) ==> {
                    let id = old(self).invoices@.len() as int;
                    &&& r == Ok::<u64, QuickLendXError>(id as u64)
                    &&& final(self).invoices@.len() == id + 1
                    &&& final(self).fresh_invoice_ok(id, business, amount, currency,
                        due_date, description@, category, tags@, now)
                    &&& final(self).pending_invoices@
                        == old(self).pending_invoices@.push(id as u64)
                    &&& Self::only_invoices_changed(*old(self), *final(self))
                }
            },
    {
        if !self.is_business_verified(business) {
            return Err(QuickLendXError::BusinessNotVerified);
        }
        self.store_invoice(business, amount, currency, due_date, description, category, tags, now)
    }

    /// Whether `business` holds a verified KYC record.
    pub open spec fn business_is_verified(self, business: Address) -> bool {
        exists|i: int|
            0 <= i < self.business_verifications@.len()
                && (#[trigger] self.business_verifications@[i]).business == business
                && self.business_verifications@[i].status == BusinessVerificationStatus::Verified
    }

    /// Whether `business` holds a verified KYC record.
    pub fn is_business_verified(&self, business: Address) -> (r: bool)
        ensures
            r == self.business_is_verified(business),
    {
        let mut i: usize = 0;
        while i < self.business_verifications.len()
            invariant
                i <= self.business_verifications@.len(),
                forall|k: int| 0 <= k < i
                    ==> !((#[trigger] self.business_verifications@[k]).business == business
                        && self.business_verifications@[k].status
                        == BusinessVerificationStatus::Verified),
            decreases self.business_verifications@.len() - i,
        {
            let rec = &self.business_verifications[i];
            if rec.business == business {
                if matches!(rec.status, BusinessVerificationStatus::Verified) {
                    return true;
                }
            }
            i += 1;
        }
        false
    }

    /// Verifies a `Pending` invoice (administrator only), moving it from
    /// the `Pending` index to the `Verified` index.
    pub fn verify_invoice(&mut self, caller: Address, invoice_id: u64)
        -> (r: Result<(), QuickLendXError>)
        requires
            old(self).wf(),
        ensures
            final(self).wf(),
            !old(self).is_admin(caller) ==> r
                == Err::<(), QuickLendXError>(QuickLendXError::NotAdmin)
                && *final(self) == *old(self),
            old(self).is_admin(caller) && invoice_id >= old(self).invoices@.len() ==> r
                == Err::<(), QuickLendXError>(QuickLendXError::InvoiceNotFound)
                && *final(self) == *old(self),
            old(self).is_admin(caller) && invoice_id < old(self).invoices@.len()
                && old(self).invoices@[invoice_id as int].status != InvoiceStatus::Pending ==> r
                == Err::<(), QuickLendXError>(QuickLendXError::InvalidStatus)
                && *final(self) == *old(self),
            old(self).is_admin(caller) && invoice_id < old(self).invoices@.len()
                && old(self).invoices@[invoice_id as int].status == InvoiceStatus::Pending ==> {
                &&& r == Ok::<(), QuickLendXError>(())
                &&& final(self).invoices@ == old(self).invoices@.update(
                    invoice_id as int,
                    Invoice {
                        status: InvoiceStatus::Verified,
                        ..old(self).invoices@[invoice_id as int]
                    },
                )
                &&& Self::only_invoices_changed(*old(self), *final(self))
                &&& !final(self).status_list(InvoiceStatus::Pending).contains(invoice_id)
                &&& final(self).status_list(InvoiceStatus::Verified).contains(invoice_id)
            },
    {
        match self.admin {
            Some(current) => {
                if caller != current {
                    return Err(QuickLendXError::NotAdmin);
                }
            },
            None => {
                return Err(QuickLendXError::NotAdmin);
            },
        }
        if invoice_id >= self.invoices.len() as u64 {
            return Err(QuickLendXError::InvoiceNotFound);
        }
        let idx = invoice_id as usize;
        if !matches!(self.invoices[idx].status, InvoiceStatus::Pending) {
            return Err(QuickLendXError::InvalidStatus);
        }
        proof {
            assert(old(self).wf_invoices());
            assert(old(self).wf_invoice_at(invoice_id as int));
        }
        self.set_invoice_status(invoice_id, InvoiceStatus::Verified);
        Ok(())
    }

    /// Cancels an invoice (business owner only); only `Pending` or
    /// `Verified` invoices can be cancelled.
    pub fn cancel_invoice(&mut self, caller: Address, invoice_id: u64)
        -> (r: Result<(), QuickLendXError>)
        requires
            old(self).wf(),
        ensures
            final(self).wf(),
            invoice_id >= old(self).invoices@.len() ==> r
                == Err::<(), QuickLendXError>(QuickLendXError::InvoiceNotFound)
                && *final(self) == *old(self),
            invoice_id < old(self).invoices@.len()
                && caller != old(self).invoices@[invoice_id as int].business ==> r
                == Err::<(), QuickLendXError>(QuickLendXError::Unauthorized)
                && *final(self) == *old(self),
            invoice_id < old(self).invoices@.len()
                && caller == old(self).invoices@[invoice_id as int].business
                && !(old(self).invoices@[invoice_id as int].status == InvoiceStatus::Pending
                    || old(self).invoices@[invoice_id as int].status
                    == InvoiceStatus::Verified) ==> r
                == Err::<(), QuickLendXError>(QuickLendXError::InvalidStatus)
                && *final(self) == *old(self),
            invoice_id < old(self).invoices@.len()
                && caller == old(self).invoices@[invoice_id as int].business
                && (old(self).invoices@[invoice_id as int].status == InvoiceStatus::Pending
                    || old(self).invoices@[invoice_id as int].status
                    == InvoiceStatus::Verified) ==> {
                &&& r == Ok::<(), QuickLendXError>(())
                &&& final(self).invoices@ == old(self).invoices@.update(
                    invoice_id as int,
                    Invoice {
                        status: InvoiceStatus::Cancelled,
                        ..old(self).invoices@[invoice_id as int]
                    },
                )
                &&& Self::only_invoices_changed(*old(self), *final(self))
                &&& final(self).status_list(InvoiceStatus::Cancelled).contains(invoice_id)
            },
    {
        if invoice_id >= self.invoices.len() as u64 {
            return Err(QuickLendXError::InvoiceNotFound);
        }
        let idx = invoice_id as usize;
        if caller != self.invoices[idx].business {
            return Err(QuickLendXError::Unauthorized);
        }
        let status_ok = match self.invoices[idx].status {
            InvoiceStatus::Pending => true,
            InvoiceStatus::Verified => true,
            _ => false,
        };
        if !status_ok {
            return Err(QuickLendXError::InvalidStatus);
        }
        proof {
            assert(old(self).wf_invoice_at(invoice_id as int));
        }
        self.set_invoice_status(invoice_id, InvoiceStatus::Cancelled);
        Ok(())
    }

    /// The lifecycle transitions a direct status update may take: forward
    /// along `Pending -> Verified -> Funded -> Paid | Defaulted` only.
    pub open spec fn status_step_allowed(from: InvoiceStatus, to: InvoiceStatus) -> bool {
        ||| (from == InvoiceStatus::Pending && to == InvoiceStatus::Verified)
        ||| (from == InvoiceStatus::Verified && to == InvoiceStatus::Funded)
        ||| (from == InvoiceStatus::Funded && (to == InvoiceStatus::Paid
            || to == InvoiceStatus::Defaulted))
    }

    /// Directly advances an invoice one step along its lifecycle, keeping
    /// the status indices consistent.  Funding this way records the
    /// invoice's own business as the funding party, as no bid is involved.
    pub fn update_invoice_status(&mut self, invoice_id: u64, new_status: InvoiceStatus, now: u64)
        -> (r: Result<(), QuickLendXError>)
        requires
            old(self).wf(),
        ensures
            final(self).wf(),
            invoice_id >= old(self).invoices@.len() ==> r
                == Err::<(), QuickLendXError>(QuickLendXError::InvoiceNotFound)
                && *final(self) == *old(self),
            invoice_id < old(self).invoices@.len()
                && !Self::status_step_allowed(old(self).invoices@[invoice_id as int].status,
                    new_status) ==> r
                == Err::<(), QuickLendXError>(QuickLendXError::InvalidStatus)
                && *final(self) == *old(self),
            invoice_id < old(self).invoices@.len()
                && Self::status_step_allowed(old(self).invoices@[invoice_id as int].status,
                    new_status) ==> {
                let inv = old(self).invoices@[invoice_id as int];
                &&& r == Ok::<(), QuickLendXError>(())
                &&& new_status != InvoiceStatus::Funded ==> final(self).invoices@
                    == old(self).invoices@.update(
                    invoice_id as int,
                    Invoice { status: new_status, ..inv },
                )
                &&& new_status == InvoiceStatus::Funded ==> final(self).invoices@
                    == old(self).invoices@.update(
                    invoice_id as int,
                    Invoice {
                        status: new_status,
                        investor: Some(inv.business),
                        funded_amount: inv.amount,
                        funded_at: now,
                        ..inv
                    },
                )
                &&& Self::only_invoices_changed(*old(self), *final(self))
                &&& final(self).status_list(new_status).contains(invoice_id)
                &&& !final(self).status_list(inv.status).contains(invoice_id)
            },
    {
        if invoice_id >= self.invoices.len() as u64 {
            return Err(QuickLendXError::InvoiceNotFound);
        }
        let idx = invoice_id as usize;
        let from = self.invoices[idx].status;
        let allowed = match (from, new_status) {
            (InvoiceStatus::Pending, InvoiceStatus::Verified) => true,
            (InvoiceStatus::Verified, InvoiceStatus::Funded) => true,
            (InvoiceStatus::Funded, InvoiceStatus::Paid) => true,
            (InvoiceStatus::Funded, InvoiceStatus::Defaulted) => true,
            _ => false,
        };
        if !allowed {
            return Err(QuickLendXError::InvalidStatus);
        }
        proof {
            assert(old(self).wf_invoice_at(invoice_id as int));
        }
        if matches!(new_status, InvoiceStatus::Funded) {
            let business = self.invoices[idx].business;
            let amount = self.invoices[idx].amount;
            self.invoices[idx].investor = Some(business);
            self.invoices[idx].funded_amount = amount;
            self.invoices[idx].funded_at = now;
            proof {
                crate::contract::lemma_wf_update_record(*old(self), *self, invoice_id as int);
            }
        }
        let ghost mid = *self;
        self.set_invoice_status(invoice_id, new_status);
        proof {
            if new_status == InvoiceStatus::Funded {
                let inv = old(self).invoices@[invoice_id as int];
                assert(final(self).invoices@ =~= old(self).invoices@.update(
                    invoice_id as int,
                    Invoice {
                        status: new_status,
                        investor: Some(inv.business),
                        funded_amount: inv.amount,
                        funded_at: now,
                        ..inv
                    },
                ));
            }
        }
        Ok(())
    }
}

} // verus!
