//! Read-only views over the store: single records, per-business listings,
//! and the status indices.

use crate::contract::QuickLendXContract;
use crate::errors::QuickLendXError;
use crate::invoice::{same_invoice, Invoice, InvoiceStatus};
use crate::Address;
use vstd::prelude::*;

verus! {

impl QuickLendXContract {
    /// One invoice by identifier.
    pub fn get_invoice(&self, invoice_id: u64) -> (r: Result<Invoice, QuickLendXError>)
        ensures
            invoice_id >= self.invoices@.len() ==> r
                == Err::<Invoice, QuickLendXError>(QuickLendXError::InvoiceNotFound),
            invoice_id < self.invoices@.len() ==> match r {
                Ok(inv) => same_invoice(inv, self.invoices@[invoice_id as int]),
                Err(_) => false,
            },
    {
        if invoice_id >= self.invoices.len() as u64 {
            return Err(QuickLendXError::InvoiceNotFound);
        }
        Ok(self.invoices[invoice_id as usize].duplicate())
    }

    /// Identifiers of one business's invoices, ascending.
    pub fn get_business_invoices(&self, business: Address) -> (r: Vec<u64>)
        ensures
            forall|k: int| 0 <= k < r@.len() ==> (#[trigger] r@[k]) < self.invoices@.len()
                && self.invoices@[r@[k] as int].business == business,
            forall|id: int| 0 <= id < self.invoices@.len()
                && (#[trigger] self.invoices@[id]).business == business
                ==> r@.contains(id as u64),
            r@.no_duplicates(),
    {
        let mut r: Vec<u64> = Vec::new();
        let mut i: usize = 0;
        while i < self.invoices.len()
            invariant
                i <= self.invoices@.len(),
                forall|k: int| 0 <= k < r@.len() ==> (#[trigger] r@[k]) < i
                    && self.invoices@[r@[k] as int].business == business,
                forall|id: int| 0 <= id < i
                    && (#[trigger] self.invoices@[id]).business == business
                    ==> r@.contains(id as u64),
                r@.no_duplicates(),
            decreases self.invoices@.len() - i,
        {
            if self.invoices[i].business == business {
                proof {
                    crate::contract::lemma_push_props(r@, i as u64);
                }
                r.push(i as u64);
            }
            i += 1;
        }
        r
    }

    /// Identifiers of one business's invoices, ascending.
    pub fn get_invoice_by_business(&self, business: Address) -> (r: Vec<u64>)
        ensures
            forall|k: int| 0 <= k < r@.len() ==> (#[trigger] r@[k]) < self.invoices@.len()
                && self.invoices@[r@[k] as int].business == business,
            forall|id: int| 0 <= id < self.invoices@.len()
                && (#[trigger] self.invoices@[id]).business == business
                ==> r@.contains(id as u64),
            r@.no_duplicates(),
    {
        self.get_business_invoices(business)
    }

    /// The status index for `status`: exactly the identifiers of the
    /// invoices presently in that status.
    pub fn get_invoices_by_status(&self, status: InvoiceStatus) -> (r: Vec<u64>)
        ensures
            r@ == self.status_list(status),
    {
        match status {
            InvoiceStatus::Pending => crate::contract::copy_ids(&self.pending_invoices),
            InvoiceStatus::Verified => crate::contract::copy_ids(&self.verified_invoices),
            InvoiceStatus::Funded => crate::contract::copy_ids(&self.funded_invoices),
            InvoiceStatus::Paid => crate::contract::copy_ids(&self.paid_invoices),
            InvoiceStatus::Defaulted => crate::contract::copy_ids(&self.defaulted_invoices),
            InvoiceStatus::Cancelled => crate::contract::copy_ids(&self.cancelled_invoices),
        }
    }

    /// The invoices open for bids: the `Verified` status index.
    pub fn get_available_invoices(&self) -> (r: Vec<u64>)
        ensures
            r@ == self.status_list(InvoiceStatus::Verified),
    {
        self.get_invoices_by_status(InvoiceStatus::Verified)
    }

    /// How many invoices are in `status`.
    pub fn get_invoice_count_by_status(&self, status: InvoiceStatus) -> (r: u32)
        ensures
            self.status_list(status).len() <= u32::MAX
                ==> r as int == self.status_list(status).len(),
    {
        let n: usize = match status {
            InvoiceStatus::Pending => self.pending_invoices.len(),
            InvoiceStatus::Verified => self.verified_invoices.len(),
            InvoiceStatus::Funded => self.funded_invoices.len(),
            InvoiceStatus::Paid => self.paid_invoices.len(),
            InvoiceStatus::Defaulted => self.defaulted_invoices.len(),
            InvoiceStatus::Cancelled => self.cancelled_invoices.len(),
        };
        #[verifier::truncate] (n as u32)
    }

    /// How many invoices the store holds, across every status.
    pub fn get_total_invoice_count(&self) -> (r: u32)
        ensures
            self.invoices@.len() <= u32::MAX ==> r as int == self.invoices@.len(),
    {
        #[verifier::truncate] (self.invoices.len() as u32)
    }
}

} // verus!
