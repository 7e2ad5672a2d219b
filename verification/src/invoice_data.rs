//! Invoice data maintained by the business after creation: structured
//! metadata, category, tags, and the ratings investors leave.

use crate::contract::{lemma_wf_update_record, QuickLendXContract};
use crate::errors::QuickLendXError;
use crate::invoice::{contains_text, Invoice, InvoiceCategory, InvoiceMetadata, Rating};
use crate::Address;
use vstd::prelude::*;

verus! {

/// `tags` with every string spelled like `t` removed.
pub open spec fn tags_without(tags: Seq<String>, t: Seq<char>) -> Seq<String>
    decreases tags.len(),
{
    if tags.len() == 0 {
        Seq::empty()
    } else {
        let rest = tags_without(tags.drop_last(), t);
        if tags.last()@ != t {
            rest.push(tags.last())
        } else {
            rest
        }
    }
}

/// How [`tags_without`] grows as tags are appended.
pub proof fn lemma_tags_without_push(s: Seq<String>, t: Seq<char>, x: String)
    ensures
        tags_without(s.push(x), t) == if x@ != t {
            tags_without(s, t).push(x)
        } else {
            tags_without(s, t)
        },
{
    assert(s.push(x).drop_last() =~= s);
    assert(s.push(x).last() == x);
    assert(tags_without(s.push(x).drop_last(), t) == tags_without(s, t));
}

/// Whether the invoice's average rating reaches `threshold`.
pub open spec fn rated_at_least(inv: Invoice, threshold: u32) -> bool {
    match inv.average_rating {
        Some(a) => a >= threshold,
        None => false,
    }
}

/// How many invoices in `s` carry at least one rating.
pub open spec fn count_rated(s: Seq<Invoice>) -> int
    decreases s.len(),
{
    if s.len() == 0 {
        0
    } else {
        count_rated(s.drop_last()) + if s.last().total_ratings > 0 {
            1int
        } else {
            0int
        }
    }
}

/// How [`count_rated`] grows as invoices are appended.
pub proof fn lemma_count_rated_push(s: Seq<Invoice>, x: Invoice)
    ensures
        count_rated(s.push(x)) == count_rated(s) + if x.total_ratings > 0 {
            1int
        } else {
            0int
        },
{
    assert(s.push(x).drop_last() =~= s);
    assert(count_rated(s.push(x).drop_last()) == count_rated(s));
}

/// Whether the invoice carries every tag in `wanted`.
pub open spec fn has_all_tags(inv: Invoice, wanted: Seq<String>) -> bool {
    forall|k: int| 0 <= k < wanted.len() ==> contains_text(inv.tags@, (#[trigger] wanted[k])@)
}

/// Whether the invoice carries every tag in `wanted`.
fn invoice_has_all_tags(inv: &Invoice, wanted: &Vec<String>) -> (r: bool)
    ensures
        r == has_all_tags(*inv, wanted@),
{
    let mut k: usize = 0;
    while k < wanted.len()
        invariant
            k <= wanted@.len(),
            forall|k2: int| 0 <= k2 < k ==> contains_text(inv.tags@, (#[trigger] wanted@[k2])@),
        decreases wanted@.len() - k,
    {
        if !inv.has_tag(&wanted[k]) {
            return false;
        }
        k += 1;
    }
    true
}

/// How many invoices in `s` are in category `cat`.
pub open spec fn count_in_category(s: Seq<Invoice>, cat: InvoiceCategory) -> int
    decreases s.len(),
{
    if s.len() == 0 {
        0
    } else {
        count_in_category(s.drop_last(), cat) + if s.last().category == cat {
            1int
        } else {
            0int
        }
    }
}

/// How [`count_in_category`] grows as invoices are appended.
pub proof fn lemma_count_in_category_push(s: Seq<Invoice>, cat: InvoiceCategory, x: Invoice)
    ensures
        count_in_category(s.push(x), cat) == count_in_category(s, cat) + if x.category == cat {
            1int
        } else {
            0int
        },
{
    assert(s.push(x).drop_last() =~= s);
    assert(count_in_category(s.push(x).drop_last(), cat) == count_in_category(s, cat));
}

/// How many invoices in `s` carry a tag spelled `t`.
pub open spec fn count_with_tag(s: Seq<Invoice>, t: Seq<char>) -> int
    decreases s.len(),
{
    if s.len() == 0 {
        0
    } else {
        count_with_tag(s.drop_last(), t) + if contains_text(s.last().tags@, t) {
            1int
        } else {
            0int
        }
    }
}

/// How [`count_with_tag`] grows as invoices are appended.
pub proof fn lemma_count_with_tag_push(s: Seq<Invoice>, t: Seq<char>, x: Invoice)
    ensures
        count_with_tag(s.push(x), t) == count_with_tag(s, t) + if contains_text(x.tags@, t) {
            1int
        } else {
            0int
        },
{
    assert(s.push(x).drop_last() =~= s);
    assert(count_with_tag(s.push(x).drop_last(), t) == count_with_tag(s, t));
}

/// Whether the invoice's metadata names this customer.
pub open spec fn customer_matches(inv: Invoice, name: Seq<char>) -> bool {
    match inv.metadata {
        Some(m) => m.customer_name@ == name,
        None => false,
    }
}

/// Whether the invoice's metadata carries this tax identifier.
pub open spec fn tax_id_matches(inv: Invoice, tax_id: Seq<char>) -> bool {
    match inv.metadata {
        Some(m) => m.tax_id@ == tax_id,
        None => false,
    }
}

impl QuickLendXContract {
    /// Attaches or replaces structured metadata (business owner only).
    /// Both fields must be non-empty; a rejected call changes nothing.
    pub fn update_invoice_metadata(
        &mut self,
        caller: Address,
        invoice_id: u64,
        metadata: InvoiceMetadata,
    ) -> (r: Result<(), QuickLendXError>)
        requires
            old(self).wf(),
        ensures
            final(self).wf(),
            invoice_id >= old(self).invoices@.len() ==> r
                == Err::<(), QuickLendXError>(QuickLendXError::InvoiceNotFound)
                && *final(self) == *old(self),
            invoice_id < old(self).invoices@.len()
                && caller != old(self).invoices@[invoice_id as int].business ==> r
                == Err::<(), QuickLendXError>(QuickLendXError::Unauthorized)
                && *final(self) == *old(self),
            invoice_id < old(self).invoices@.len()
                && caller == old(self).invoices@[invoice_id as int].business
                && (metadata.customer_name@.len() == 0 || metadata.tax_id@.len() == 0) ==> r
                == Err::<(), QuickLendXError>(QuickLendXError::InvalidDescription)
                && *final(self) == *old(self),
            invoice_id < old(self).invoices@.len()
                && caller == old(self).invoices@[invoice_id as int].business
                && metadata.customer_name@.len() > 0 && metadata.tax_id@.len() > 0 ==> {
                &&& r == Ok::<(), QuickLendXError>(())
                &&& final(self).invoices@ == old(self).invoices@.update(
                    invoice_id as int,
                    Invoice {
                        metadata: Some(metadata),
                        ..old(self).invoices@[invoice_id as int]
                    },
                )
                &&& Self::only_invoices_changed(*old(self), *final(self))
                &&& Self::indices_unchanged(*old(self), *final(self))
            },
    {
        if invoice_id >= self.invoices.len() as u64 {
            return Err(QuickLendXError::InvoiceNotFound);
        }
        let idx = invoice_id as usize;
        if caller != self.invoices[idx].business {
            return Err(QuickLendXError::Unauthorized);
        }
        if metadata.customer_name.as_str().is_empty() || metadata.tax_id.as_str().is_empty() {
            return Err(QuickLendXError::InvalidDescription);
        }
        proof {
            assert(old(self).wf_invoice_at(invoice_id as int));
        }
        self.invoices[idx].metadata = Some(metadata);
        proof {
            lemma_wf_update_record(*old(self), *self, invoice_id as int);
        }
        Ok(())
    }

    /// Detaches any structured metadata (business owner only).
    pub fn clear_invoice_metadata(&mut self, caller: Address, invoice_id: u64)
        -> (r: Result<(), QuickLendXError>)
        requires
            old(self).wf(),
        ensures
            final(self).wf(),
            invoice_id >= old(self).invoices@.len() ==> r
                == Err::<(), QuickLendXError>(QuickLendXError::InvoiceNotFound)
                && *final(self) == *old(self),
            invoice_id < old(self).invoices@.len()
                && caller != old(self).invoices@[invoice_id as int].business ==> r
                == Err::<(), QuickLendXError>(QuickLendXError::Unauthorized)
                && *final(self) == *old(self),
            invoice_id < old(self).invoices@.len()
                && caller == old(self).invoices@[invoice_id as int].business ==> {
                &&& r == Ok::<(), QuickLendXError>(())
                &&& final(self).invoices@ == old(self).invoices@.update(
                    invoice_id as int,
                    Invoice {
                        metadata: None,
                        ..old(self).invoices@[invoice_id as int]
                    },
                )
                &&& Self::only_invoices_changed(*old(self), *final(self))
                &&& Self::indices_unchanged(*old(self), *final(self))
            },
    {
        if invoice_id >= self.invoices.len() as u64 {
            return Err(QuickLendXError::InvoiceNotFound);
        }
        let idx = invoice_id as usize;
        if caller != self.invoices[idx].business {
            return Err(QuickLendXError::Unauthorized);
        }
        proof {
            assert(old(self).wf_invoice_at(invoice_id as int));
        }
        self.invoices[idx].metadata = None;
        proof {
            lemma_wf_update_record(*old(self), *self, invoice_id as int);
        }
        Ok(())
    }

    /// Identifiers of invoices whose metadata names this customer, in
    /// ascending identifier order.
    pub fn get_invoices_by_customer(&self, customer_name: &String) -> (r: Vec<u64>)
        ensures
            forall|k: int| 0 <= k < r@.len() ==> (#[trigger] r@[k]) < self.invoices@.len()
                && customer_matches(self.invoices@[r@[k] as int], customer_name@),
            forall|id: int| 0 <= id < self.invoices@.len()
                && customer_matches(#[trigger] self.invoices@[id], customer_name@)
                ==> r@.contains(id as u64),
            r@.no_duplicates(),
    {
        let mut r: Vec<u64> = Vec::new();
        let mut i: usize = 0;
        while i < self.invoices.len()
            invariant
                i <= self.invoices@.len(),
                forall|k: int| 0 <= k < r@.len() ==> (#[trigger] r@[k]) < i
                    && customer_matches(self.invoices@[r@[k] as int], customer_name@),
                forall|id: int| 0 <= id < i
                    && customer_matches(#[trigger] self.invoices@[id], customer_name@)
                    ==> r@.contains(id as u64),
                r@.no_duplicates(),
            decreases self.invoices@.len() - i,
        {
            let matches_here = match &self.invoices[i].metadata {
                Some(m) => m.customer_name == *customer_name,
                None => false,
            };
            if matches_here {
                proof {
                    crate::contract::lemma_push_props(r@, i as u64);
                }
                r.push(i as u64);
            }
            i += 1;
        }
        r
    }

    /// Identifiers of invoices whose metadata carries this tax identifier,
    /// in ascending identifier order.
    pub fn get_invoices_by_tax_id(&self, tax_id: &String) -> (r: Vec<u64>)
        ensures
            forall|k: int| 0 <= k < r@.len() ==> (#[trigger] r@[k]) < self.invoices@.len()
                && tax_id_matches(self.invoices@[r@[k] as int], tax_id@),
            forall|id: int| 0 <= id < self.invoices@.len()
                && tax_id_matches(#[trigger] self.invoices@[id], tax_id@)
                ==> r@.contains(id as u64),
            r@.no_duplicates(),
    {
        let mut r: Vec<u64> = Vec::new();
        let mut i: usize = 0;
        while i < self.invoices.len()
            invariant
                i <= self.invoices@.len(),
                forall|k: int| 0 <= k < r@.len() ==> (#[trigger] r@[k]) < i
                    && tax_id_matches(self.invoices@[r@[k] as int], tax_id@),
                forall|id: int| 0 <= id < i
                    && tax_id_matches(#[trigger] self.invoices@[id], tax_id@)
                    ==> r@.contains(id as u64),
                r@.no_duplicates(),
            decreases self.invoices@.len() - i,
        {
            let matches_here = match &self.invoices[i].metadata {
                Some(m) => m.tax_id == *tax_id,
                None => false,
            };
            if matches_here {
                proof {
                    crate::contract::lemma_push_props(r@, i as u64);
                }
                r.push(i as u64);
            }
            i += 1;
        }
        r
    }

    /// Changes an invoice's category (business owner only).
    pub fn update_invoice_category(
        &mut self,
        caller: Address,
        invoice_id: u64,
        new_category: InvoiceCategory,
    ) -> (r: Result<(), QuickLendXError>)
        requires
            old(self).wf(),
        ensures
            final(self).wf(),
            invoice_id >= old(self).invoices@.len() ==> r
                == Err::<(), QuickLendXError>(QuickLendXError::InvoiceNotFound)
                && *final(self) == *old(self),
            invoice_id < old(self).invoices@.len()
                && caller != old(self).invoices@[invoice_id as int].business ==> r
                == Err::<(), QuickLendXError>(QuickLendXError::Unauthorized)
                && *final(self) == *old(self),
            invoice_id < old(self).invoices@.len()
                && caller == old(self).invoices@[invoice_id as int].business ==> {
                &&& r == Ok::<(), QuickLendXError>(())
                &&& final(self).invoices@ == old(self).invoices@.update(
                    invoice_id as int,
                    Invoice {
                        category: new_category,
                        ..old(self).invoices@[invoice_id as int]
                    },
                )
                &&& Self::only_invoices_changed(*old(self), *final(self))
                &&& Self::indices_unchanged(*old(self), *final(self))
            },
    {
        if invoice_id >= self.invoices.len() as u64 {
            return Err(QuickLendXError::InvoiceNotFound);
        }
        let idx = invoice_id as usize;
        if caller != self.invoices[idx].business {
            return Err(QuickLendXError::Unauthorized);
        }
        proof {
            assert(old(self).wf_invoice_at(invoice_id as int));
        }
        self.invoices[idx].category = new_category;
        proof {
            lemma_wf_update_record(*old(self), *self, invoice_id as int);
        }
        Ok(())
    }

    /// Adds a tag to an invoice (business owner only).  An empty tag is
    /// rejected; a tag the invoice already carries is not added again.
    pub fn add_invoice_tag(&mut self, caller: Address, invoice_id: u64, tag: String)
        -> (r: Result<(), QuickLendXError>)
        requires
            old(self).wf(),
        ensures
            final(self).wf(),
            invoice_id >= old(self).invoices@.len() ==> r
                == Err::<(), QuickLendXError>(QuickLendXError::InvoiceNotFound)
                && *final(self) == *old(self),
            invoice_id < old(self).invoices@.len()
                && caller != old(self).invoices@[invoice_id as int].business ==> r
                == Err::<(), QuickLendXError>(QuickLendXError::Unauthorized)
                && *final(self) == *old(self),
            invoice_id < old(self).invoices@.len()
                && caller == old(self).invoices@[invoice_id as int].business
                && tag@.len() == 0 ==> r
                == Err::<(), QuickLendXError>(QuickLendXError::InvalidDescription)
                && *final(self) == *old(self),
            invoice_id < old(self).invoices@.len()
                && caller == old(self).invoices@[invoice_id as int].business
                && tag@.len() > 0 ==> {
                let inv = old(self).invoices@[invoice_id as int];
                &&& r == Ok::<(), QuickLendXError>(())
                &&& contains_text(inv.tags@, tag@) ==> *final(self) == *old(self)
                &&& !contains_text(inv.tags@, tag@) ==> {
                    &&& final(self).invoices@.len() == old(self).invoices@.len()
                    &&& final(self).invoices@[invoice_id as int].tags@.len()
                        == inv.tags@.len() + 1
                    &&& final(self).invoices@[invoice_id as int].tags@[inv.tags@.len() as int]@
                        == tag@
                    &&& forall|k: int| 0 <= k < inv.tags@.len()
                        ==> final(self).invoices@[invoice_id as int].tags@[k] == inv.tags@[k]
                    &&& forall|id2: int| 0 <= id2 < old(self).invoices@.len()
                        && id2 != invoice_id ==> final(self).invoices@[id2]
                        == old(self).invoices@[id2]
                    &&& Self::only_invoices_changed(*old(self), *final(self))
                    &&& Self::indices_unchanged(*old(self), *final(self))
                }
            },
    {
        if invoice_id >= self.invoices.len() as u64 {
            return Err(QuickLendXError::InvoiceNotFound);
        }
        let idx = invoice_id as usize;
        if caller != self.invoices[idx].business {
            return Err(QuickLendXError::Unauthorized);
        }
        if tag.as_str().is_empty() {
            return Err(QuickLendXError::InvalidDescription);
        }
        if self.invoices[idx].has_tag(&tag) {
            return Ok(());
        }
        proof {
            assert(old(self).wf_invoice_at(invoice_id as int));
        }
        self.invoices[idx].tags.push(tag);
        proof {
            lemma_wf_update_record(*old(self), *self, invoice_id as int);
        }
        Ok(())
    }

    /// Removes every spelling-match of a tag from an invoice (business
    /// owner only).  Removing a tag the invoice does not carry is a no-op.
    pub fn remove_invoice_tag(&mut self, caller: Address, invoice_id: u64, tag: &String)
        -> (r: Result<(), QuickLendXError>)
        requires
            old(self).wf(),
        ensures
            final(self).wf(),
            invoice_id >= old(self).invoices@.len() ==> r
                == Err::<(), QuickLendXError>(QuickLendXError::InvoiceNotFound)
                && *final(self) == *old(self),
            invoice_id < old(self).invoices@.len()
                && caller != old(self).invoices@[invoice_id as int].business ==> r
                == Err::<(), QuickLendXError>(QuickLendXError::Unauthorized)
                && *final(self) == *old(self),
            invoice_id < old(self).invoices@.len()
                && caller == old(self).invoices@[invoice_id as int].business ==> {
                &&& r == Ok::<(), QuickLendXError>(())
                &&& final(self).invoices@.len() == old(self).invoices@.len()
                &&& final(self).invoices@[invoice_id as int].tags@
                    == tags_without(old(self).invoices@[invoice_id as int].tags@, tag@)
                &&& forall|id2: int| 0 <= id2 < old(self).invoices@.len()
                    && id2 != invoice_id ==> final(self).invoices@[id2]
                    == old(self).invoices@[id2]
                &&& Self::only_invoices_changed(*old(self), *final(self))
                &&& Self::indices_unchanged(*old(self), *final(self))
            },
    {
        if invoice_id >= self.invoices.len() as u64 {
            return Err(QuickLendXError::InvoiceNotFound);
        }
        let idx = invoice_id as usize;
        if caller != self.invoices[idx].business {
            return Err(QuickLendXError::Unauthorized);
        }
        proof {
            assert(old(self).wf_invoice_at(invoice_id as int));
        }
        let ghost full = self.invoices@[idx as int].tags@;
        let mut kept: Vec<String> = Vec::new();
        let mut i: usize = 0;
        proof {
            assert(full.take(0) =~= Seq::<String>::empty());
            assert(tags_without(Seq::<String>::empty(), tag@) =~= Seq::<String>::empty());
        }
        while i < self.invoices[idx].tags.len()
            invariant
                idx < self.invoices@.len(),
                self.invoices@[idx as int].tags@ == full,
                *self == *old(self),
                idx == invoice_id as usize,
                i <= full.len(),
                kept@ == tags_without(full.take(i as int), tag@),
            decreases full.len() - i,
        {
            let t = &self.invoices[idx].tags[i];
            proof {
                assert(full.take(i as int + 1) =~= full.take(i as int).push(full[i as int]));
                lemma_tags_without_push(full.take(i as int), tag@, full[i as int]);
            }
            if !(*t == *tag) {
                kept.push(t.clone());
            }
            i += 1;
        }
        proof {
            assert(full.take(full.len() as int) =~= full);
        }
        self.invoices[idx].tags = kept;
        proof {
            lemma_wf_update_record(*old(self), *self, invoice_id as int);
        }
        Ok(())
    }

    /// Identifiers of invoices in this category, ascending.
    pub fn get_invoices_by_category(&self, category: InvoiceCategory) -> (r: Vec<u64>)
        ensures
            forall|k: int| 0 <= k < r@.len() ==> (#[trigger] r@[k]) < self.invoices@.len()
                && self.invoices@[r@[k] as int].category == category,
            forall|id: int| 0 <= id < self.invoices@.len()
                && (#[trigger] self.invoices@[id]).category == category
                ==> r@.contains(id as u64),
            r@.no_duplicates(),
    {
        let mut r: Vec<u64> = Vec::new();
        let mut i: usize = 0;
        while i < self.invoices.len()
            invariant
                i <= self.invoices@.len(),
                forall|k: int| 0 <= k < r@.len() ==> (#[trigger] r@[k]) < i
                    && self.invoices@[r@[k] as int].category == category,
                forall|id: int| 0 <= id < i
                    && (#[trigger] self.invoices@[id]).category == category
                    ==> r@.contains(id as u64),
                r@.no_duplicates(),
            decreases self.invoices@.len() - i,
        {
            if self.invoices[i].category == category {
                proof {
                    crate::contract::lemma_push_props(r@, i as u64);
                }
                r.push(i as u64);
            }
            i += 1;
        }
        r
    }

    /// Identifiers of invoices in this category and status, ascending.
    pub fn get_invoices_by_cat_status(
        &self,
        category: InvoiceCategory,
        status: crate::invoice::InvoiceStatus,
    ) -> (r: Vec<u64>)
        ensures
            forall|k: int| 0 <= k < r@.len() ==> (#[trigger] r@[k]) < self.invoices@.len()
                && self.invoices@[r@[k] as int].category == category
                && self.invoices@[r@[k] as int].status == status,
            forall|id: int| 0 <= id < self.invoices@.len()
                && (#[trigger] self.invoices@[id]).category == category
                && self.invoices@[id].status == status ==> r@.contains(id as u64),
            r@.no_duplicates(),
    {
        let mut r: Vec<u64> = Vec::new();
        let mut i: usize = 0;
        while i < self.invoices.len()
            invariant
                i <= self.invoices@.len(),
                forall|k: int| 0 <= k < r@.len() ==> (#[trigger] r@[k]) < i
                    && self.invoices@[r@[k] as int].category == category
                    && self.invoices@[r@[k] as int].status == status,
                forall|id: int| 0 <= id < i
                    && (#[trigger] self.invoices@[id]).category == category
                    && self.invoices@[id].status == status ==> r@.contains(id as u64),
                r@.no_duplicates(),
            decreases self.invoices@.len() - i,
        {
            if self.invoices[i].category == category && self.invoices[i].status == status {
                proof {
                    crate::contract::lemma_push_props(r@, i as u64);
                }
                r.push(i as u64);
            }
            i += 1;
        }
        r
    }

    /// Identifiers of invoices carrying this tag, ascending.
    pub fn get_invoices_by_tag(&self, tag: &String) -> (r: Vec<u64>)
        ensures
            forall|k: int| 0 <= k < r@.len() ==> (#[trigger] r@[k]) < self.invoices@.len()
                && contains_text(self.invoices@[r@[k] as int].tags@, tag@),
            forall|id: int| 0 <= id < self.invoices@.len()
                && contains_text((#[trigger] self.invoices@[id]).tags@, tag@)
                ==> r@.contains(id as u64),
            r@.no_duplicates(),
    {
        let mut r: Vec<u64> = Vec::new();
        let mut i: usize = 0;
        while i < self.invoices.len()
            invariant
                i <= self.invoices@.len(),
                forall|k: int| 0 <= k < r@.len() ==> (#[trigger] r@[k]) < i
                    && contains_text(self.invoices@[r@[k] as int].tags@, tag@),
                forall|id: int| 0 <= id < i
                    && contains_text((#[trigger] self.invoices@[id]).tags@, tag@)
                    ==> r@.contains(id as u64),
                r@.no_duplicates(),
            decreases self.invoices@.len() - i,
        {
            if self.invoices[i].has_tag(tag) {
                proof {
                    crate::contract::lemma_push_props(r@, i as u64);
                }
                r.push(i as u64);
            }
            i += 1;
        }
        r
    }

    /// All invoice tags of one invoice.
    pub fn get_invoice_tags(&self, invoice_id: u64) -> (r: Result<Vec<String>, QuickLendXError>)
        ensures
            invoice_id >= self.invoices@.len() ==> r
                == Err::<Vec<String>, QuickLendXError>(QuickLendXError::InvoiceNotFound),
            invoice_id < self.invoices@.len() ==> match r {
                Ok(tags) => tags@ == self.invoices@[invoice_id as int].tags@,
                Err(_) => false,
            },
    {
        if invoice_id >= self.invoices.len() as u64 {
            return Err(QuickLendXError::InvoiceNotFound);
        }
        Ok(crate::invoice::clone_strings(&self.invoices[invoice_id as usize].tags))
    }

    /// Whether one invoice carries this tag.
    pub fn invoice_has_tag(&self, invoice_id: u64, tag: &String)
        -> (r: Result<bool, QuickLendXError>)
        ensures
            invoice_id >= self.invoices@.len() ==> r
                == Err::<bool, QuickLendXError>(QuickLendXError::InvoiceNotFound),
            invoice_id < self.invoices@.len() ==> r == Ok::<bool, QuickLendXError>(
                contains_text(self.invoices@[invoice_id as int].tags@, tag@)),
    {
        if invoice_id >= self.invoices.len() as u64 {
            return Err(QuickLendXError::InvoiceNotFound);
        }
        Ok(self.invoices[invoice_id as usize].has_tag(tag))
    }

    /// Leaves a rating on an invoice.  The score must be 1 to 5; the
    /// aggregates (count, sum, rounded-down average) are updated in step.
    pub fn add_invoice_rating(
        &mut self,
        invoice_id: u64,
        rating: u32,
        feedback: String,
        rater: Address,
        now: u64,
    ) -> (r: Result<(), QuickLendXError>)
        requires
            old(self).wf(),
        ensures
            final(self).wf(),
            invoice_id >= old(self).invoices@.len() ==> r
                == Err::<(), QuickLendXError>(QuickLendXError::InvoiceNotFound)
                && *final(self) == *old(self),
            invoice_id < old(self).invoices@.len() && !(1 <= rating <= 5) ==> r
                == Err::<(), QuickLendXError>(QuickLendXError::InvalidAmount)
                && *final(self) == *old(self),
            invoice_id < old(self).invoices@.len() && 1 <= rating <= 5
                && old(self).invoices@[invoice_id as int].total_ratings == u32::MAX ==> r
                == Err::<(), QuickLendXError>(QuickLendXError::OperationNotAllowed)
                && *final(self) == *old(self),
            invoice_id < old(self).invoices@.len() && 1 <= rating <= 5
                && old(self).invoices@[invoice_id as int].total_ratings < u32::MAX ==> {
                let inv = old(self).invoices@[invoice_id as int];
                let entry = Rating { rating, feedback, rater, timestamp: now };
                let sum2 = (inv.rating_sum + rating) as u64;
                let total2 = (inv.total_ratings + 1) as u32;
                let post = final(self).invoices@[invoice_id as int];
                &&& r == Ok::<(), QuickLendXError>(())
                &&& final(self).invoices@.len() == old(self).invoices@.len()
                &&& post.ratings@ == inv.ratings@.push(entry)
                &&& post.total_ratings == total2
                &&& post.rating_sum == sum2
                &&& post.average_rating == Some((sum2 as nat / total2 as nat) as u32)
                &&& post.status == inv.status
                &&& post.amount == inv.amount
                &&& forall|id2: int| 0 <= id2 < old(self).invoices@.len()
                    && id2 != invoice_id ==> final(self).invoices@[id2]
                    == old(self).invoices@[id2]
                &&& Self::only_invoices_changed(*old(self), *final(self))
                &&& Self::indices_unchanged(*old(self), *final(self))
            },
    {
        if invoice_id >= self.invoices.len() as u64 {
            return Err(QuickLendXError::InvoiceNotFound);
        }
        if rating < 1 || rating > 5 {
            return Err(QuickLendXError::InvalidAmount);
        }
        let idx = invoice_id as usize;
        let total = self.invoices[idx].total_ratings;
        if total == u32::MAX {
            return Err(QuickLendXError::OperationNotAllowed);
        }
        proof {
            assert(old(self).wf_invoice_at(invoice_id as int));
        }
        let sum = self.invoices[idx].rating_sum;
        let sum2 = sum + rating as u64;
        let total2 = total + 1;
        self.invoices[idx].ratings.push(Rating { rating, feedback, rater, timestamp: now });
        self.invoices[idx].total_ratings = total2;
        self.invoices[idx].rating_sum = sum2;
        proof {
            assert(sum2 <= 5 * (total2 as u64)) by {
                assert(sum <= 5 * (total as u64));
            }
            assert(sum2 as nat / total2 as nat <= 5) by (nonlinear_arith)
                requires sum2 <= 5 * (total2 as u64) && total2 >= 1;
        }
        let avg = (sum2 / total2 as u64) as u32;
        self.invoices[idx].average_rating = Some(avg);
        proof {
            lemma_wf_update_record(*old(self), *self, invoice_id as int);
        }
        Ok(())
    }

    /// The rating aggregates for one invoice: rounded-down average, count,
    /// highest score, lowest score.
    pub fn get_invoice_rating_stats(&self, invoice_id: u64)
        -> (r: Result<(Option<u32>, u32, Option<u32>, Option<u32>), QuickLendXError>)
        ensures
            invoice_id >= self.invoices@.len() ==> r
                == Err::<(Option<u32>, u32, Option<u32>, Option<u32>), QuickLendXError>(
                QuickLendXError::InvoiceNotFound),
            invoice_id < self.invoices@.len() ==> match r {
                Ok((avg, total, hi, lo)) => {
                    let inv = self.invoices@[invoice_id as int];
                    &&& avg == inv.average_rating
                    &&& total == inv.total_ratings
                    &&& match hi {
                        Some(h) => inv.ratings@.len() > 0
                            && (exists|i: int| 0 <= i < inv.ratings@.len()
                                && #[trigger] inv.ratings@[i].rating == h)
                            && forall|i: int| 0 <= i < inv.ratings@.len()
                                ==> #[trigger] inv.ratings@[i].rating <= h,
                        None => inv.ratings@.len() == 0,
                    }
                    &&& match lo {
                        Some(l) => inv.ratings@.len() > 0
                            && (exists|i: int| 0 <= i < inv.ratings@.len()
                                && #[trigger] inv.ratings@[i].rating == l)
                            && forall|i: int| 0 <= i < inv.ratings@.len()
                                ==> #[trigger] inv.ratings@[i].rating >= l,
                        None => inv.ratings@.len() == 0,
                    }
                },
                Err(_) => false,
            },
    {
        if invoice_id >= self.invoices.len() as u64 {
            return Err(QuickLendXError::InvoiceNotFound);
        }
        let inv = &self.invoices[invoice_id as usize];
        Ok((inv.average_rating, inv.total_ratings, inv.get_highest_rating(),
            inv.get_lowest_rating()))
    }

    /// Identifiers of invoices whose average rating is at least the
    /// threshold, ascending.
    pub fn get_invoices_with_rating_above(&self, threshold: u32) -> (r: Vec<u64>)
        ensures
            forall|k: int| 0 <= k < r@.len() ==> (#[trigger] r@[k]) < self.invoices@.len()
                && rated_at_least(self.invoices@[r@[k] as int], threshold),
            forall|id: int| 0 <= id < self.invoices@.len()
                && rated_at_least(#[trigger] self.invoices@[id], threshold)
                ==> r@.contains(id as u64),
            r@.no_duplicates(),
    {
        let mut r: Vec<u64> = Vec::new();
        let mut i: usize = 0;
        while i < self.invoices.len()
            invariant
                i <= self.invoices@.len(),
                forall|k: int| 0 <= k < r@.len() ==> (#[trigger] r@[k]) < i
                    && rated_at_least(self.invoices@[r@[k] as int], threshold),
                forall|id: int| 0 <= id < i
                    && rated_at_least(#[trigger] self.invoices@[id], threshold)
                    ==> r@.contains(id as u64),
                r@.no_duplicates(),
            decreases self.invoices@.len() - i,
        {
            let hit = match self.invoices[i].average_rating {
                Some(a) => a >= threshold,
                None => false,
            };
            if hit {
                proof {
                    crate::contract::lemma_push_props(r@, i as u64);
                }
                r.push(i as u64);
            }
            i += 1;
        }
        r
    }

    /// Identifiers of one business's invoices whose average rating is at
    /// least the threshold, ascending.
    pub fn get_business_rated_invoices(&self, business: Address, threshold: u32) -> (r: Vec<u64>)
        ensures
            forall|k: int| 0 <= k < r@.len() ==> (#[trigger] r@[k]) < self.invoices@.len()
                && rated_at_least(self.invoices@[r@[k] as int], threshold)
                && self.invoices@[r@[k] as int].business == business,
            forall|id: int| 0 <= id < self.invoices@.len()
                && rated_at_least(#[trigger] self.invoices@[id], threshold)
                && self.invoices@[id].business == business ==> r@.contains(id as u64),
            r@.no_duplicates(),
    {
        let mut r: Vec<u64> = Vec::new();
        let mut i: usize = 0;
        while i < self.invoices.len()
            invariant
                i <= self.invoices@.len(),
                forall|k: int| 0 <= k < r@.len() ==> (#[trigger] r@[k]) < i
                    && rated_at_least(self.invoices@[r@[k] as int], threshold)
                    && self.invoices@[r@[k] as int].business == business,
                forall|id: int| 0 <= id < i
                    && rated_at_least(#[trigger] self.invoices@[id], threshold)
                    && self.invoices@[id].business == business ==> r@.contains(id as u64),
                r@.no_duplicates(),
            decreases self.invoices@.len() - i,
        {
            let hit = match self.invoices[i].average_rating {
                Some(a) => a >= threshold,
                None => false,
            };
            if hit && self.invoices[i].business == business {
                proof {
                    crate::contract::lemma_push_props(r@, i as u64);
                }
                r.push(i as u64);
            }
            i += 1;
        }
        r
    }

    /// How many invoices carry at least one rating.
    pub fn get_invoices_with_ratings_count(&self) -> (r: u32)
        ensures
            count_rated(self.invoices@) <= u32::MAX ==> r as int == count_rated(self.invoices@),
    {
        let mut count: usize = 0;
        let mut i: usize = 0;
        proof {
            assert(self.invoices@.take(0) =~= Seq::<Invoice>::empty());
        }
        while i < self.invoices.len()
            invariant
                i <= self.invoices@.len(),
                count as int == count_rated(self.invoices@.take(i as int)),
                count <= i,
            decreases self.invoices@.len() - i,
        {
            proof {
                assert(self.invoices@.take(i as int + 1)
                    =~= self.invoices@.take(i as int).push(self.invoices@[i as int]));
                lemma_count_rated_push(self.invoices@.take(i as int), self.invoices@[i as int]);
            }
            if self.invoices[i].total_ratings > 0 {
                count = count + 1;
            }
            i += 1;
        }
        proof {
            assert(self.invoices@.take(self.invoices@.len() as int) =~= self.invoices@);
        }
        #[verifier::truncate] (count as u32)
    }

    /// How many invoices are in this category.
    pub fn get_invoice_count_by_category(&self, category: InvoiceCategory) -> (r: u32)
        ensures
            count_in_category(self.invoices@, category) <= u32::MAX
                ==> r as int == count_in_category(self.invoices@, category),
    {
        let mut count: usize = 0;
        let mut i: usize = 0;
        proof {
            assert(self.invoices@.take(0) =~= Seq::<Invoice>::empty());
        }
        while i < self.invoices.len()
            invariant
                i <= self.invoices@.len(),
                count as int == count_in_category(self.invoices@.take(i as int), category),
                count <= i,
            decreases self.invoices@.len() - i,
        {
            proof {
                assert(self.invoices@.take(i as int + 1)
                    =~= self.invoices@.take(i as int).push(self.invoices@[i as int]));
                lemma_count_in_category_push(self.invoices@.take(i as int), category,
                    self.invoices@[i as int]);
            }
            if self.invoices[i].category == category {
                count = count + 1;
            }
            i += 1;
        }
        proof {
            assert(self.invoices@.take(self.invoices@.len() as int) =~= self.invoices@);
        }
        #[verifier::truncate] (count as u32)
    }

    /// How many invoices carry this tag.
    pub fn get_invoice_count_by_tag(&self, tag: &String) -> (r: u32)
        ensures
            count_with_tag(self.invoices@, tag@) <= u32::MAX
                ==> r as int == count_with_tag(self.invoices@, tag@),
    {
        let mut count: usize = 0;
        let mut i: usize = 0;
        proof {
            assert(self.invoices@.take(0) =~= Seq::<Invoice>::empty());
        }
        while i < self.invoices.len()
            invariant
                i <= self.invoices@.len(),
                count as int == count_with_tag(self.invoices@.take(i as int), tag@),
                count <= i,
            decreases self.invoices@.len() - i,
        {
            proof {
                assert(self.invoices@.take(i as int + 1)
                    =~= self.invoices@.take(i as int).push(self.invoices@[i as int]));
                lemma_count_with_tag_push(self.invoices@.take(i as int), tag@,
                    self.invoices@[i as int]);
            }
            if self.invoices[i].has_tag(tag) {
                count = count + 1;
            }
            i += 1;
        }
        proof {
            assert(self.invoices@.take(self.invoices@.len() as int) =~= self.invoices@);
        }
        #[verifier::truncate] (count as u32)
    }

    /// Invoices that carry every one of the given tags, ascending.
    pub fn get_invoices_by_tags(&self, tags: &Vec<String>) -> (r: Vec<u64>)
        ensures
            forall|k: int| 0 <= k < r@.len() ==> (#[trigger] r@[k]) < self.invoices@.len()
                && has_all_tags(self.invoices@[r@[k] as int], tags@),
            forall|id: int| 0 <= id < self.invoices@.len()
                && has_all_tags(#[trigger] self.invoices@[id], tags@)
                ==> r@.contains(id as u64),
            r@.no_duplicates(),
    {
        let mut r: Vec<u64> = Vec::new();
        let mut i: usize = 0;
        while i < self.invoices.len()
            invariant
                i <= self.invoices@.len(),
                forall|k: int| 0 <= k < r@.len() ==> (#[trigger] r@[k]) < i
                    && has_all_tags(self.invoices@[r@[k] as int], tags@),
                forall|id: int| 0 <= id < i
                    && has_all_tags(#[trigger] self.invoices@[id], tags@)
                    ==> r@.contains(id as u64),
                r@.no_duplicates(),
            decreases self.invoices@.len() - i,
        {
            if invoice_has_all_tags(&self.invoices[i], tags) {
                proof {
                    crate::contract::lemma_push_props(r@, i as u64);
                }
                r.push(i as u64);
            }
            i += 1;
        }
        r
    }

    /// Every category an invoice can have.
    pub fn get_all_categories(&self) -> (r: Vec<InvoiceCategory>)
        ensures
            r@ == seq![
                InvoiceCategory::Services,
                InvoiceCategory::Products,
                InvoiceCategory::Goods,
                InvoiceCategory::Consulting,
                InvoiceCategory::Other,
            ],
    {
        let mut r: Vec<InvoiceCategory> = Vec::new();
        r.push(InvoiceCategory::Services);
        r.push(InvoiceCategory::Products);
        r.push(InvoiceCategory::Goods);
        r.push(InvoiceCategory::Consulting);
        r.push(InvoiceCategory::Other);
        proof {
            assert(r@ =~= seq![
                InvoiceCategory::Services,
                InvoiceCategory::Products,
                InvoiceCategory::Goods,
                InvoiceCategory::Consulting,
                InvoiceCategory::Other,
            ]);
        }
        r
    }
}

} // verus!
