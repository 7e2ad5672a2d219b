//! Invoices: the claims a business posts for funding, with their status
//! machine, dispute overlay, metadata, tags, and rating aggregates.

use crate::Address;
use vstd::prelude::*;

verus! {

/// Time allowance past the due date before an unpaid funded invoice may be
/// marked defaulted, in seconds.
pub const DEFAULT_GRACE_PERIOD: u64 = 7 * 24 * 60 * 60;

/// The invoice lifecycle.  `Paid`, `Defaulted` and `Cancelled` are terminal.
#[derive(Clone, Copy, Debug, PartialEq, Eq, Structural)]
pub enum InvoiceStatus {
    /// Created, awaiting verification.
    Pending,
    /// Approved by the administrator; open for bids.
    Verified,
    /// Funded by an accepted bid.
    Funded,
    /// Settled in full.
    Paid,
    /// Unpaid past due date and grace period.
    Defaulted,
    /// Cancelled by its business before funding.
    Cancelled,
}

/// The dispute overlay on an invoice.  It only ever advances
/// `Disputed -> UnderReview -> Resolved`, and is layered on top of — not a
/// replacement for — the invoice status.
#[derive(Clone, Copy, Debug, PartialEq, Eq, Structural)]
pub enum DisputeStatus {
    /// No dispute has been raised.
    NoDispute,
    /// A dispute was raised and awaits review.
    Disputed,
    /// An administrator is reviewing the dispute.
    UnderReview,
    /// The dispute was resolved.
    Resolved,
}

/// Broad classification of what an invoice is for.
#[derive(Clone, Copy, Debug, PartialEq, Eq, Structural)]
pub enum InvoiceCategory {
    /// Services rendered.
    Services,
    /// Products delivered.
    Products,
    /// Other goods.
    Goods,
    /// Consulting engagements.
    Consulting,
    /// Anything else.
    Other,
}

/// Structured metadata attached to an invoice; both fields are indexed.
#[derive(Clone, Debug)]
pub struct InvoiceMetadata {
    /// The customer the invoice bills.
    pub customer_name: String,
    /// The customer's tax identifier.
    pub tax_id: String,
}

/// One rating left on an invoice.
#[derive(Clone, Debug)]
pub struct Rating {
    /// The score, from 1 to 5.
    pub rating: u32,
    /// Free-form feedback.
    pub feedback: String,
    /// Who rated.
    pub rater: Address,
    /// When the rating was left.
    pub timestamp: u64,
}

/// A formal disagreement raised against an invoice.  At most one dispute
/// ever exists per invoice.
#[derive(Clone, Debug)]
pub struct Dispute {
    /// The invoice disputed.
    pub invoice_id: u64,
    /// Who raised it: the invoice's business or its investor.
    pub created_by: Address,
    /// Why, 1 to 500 characters.
    pub reason: String,
    /// Supporting evidence, 1 to 1000 characters.
    pub evidence: String,
    /// Where the dispute stands; never `NoDispute`.
    pub status: DisputeStatus,
    /// The administrator who resolved it, once resolved.
    pub resolved_by: Option<Address>,
    /// The resolution text, 1 to 500 characters once resolved.
    pub resolution: String,
    /// When it was resolved; zero until then.
    pub resolved_at: u64,
}

/// A claim for future payment posted by a business, seeking funding.
#[derive(Clone, Debug)]
pub struct Invoice {
    /// This invoice's identifier.
    pub id: u64,
    /// The business that owns it.
    pub business: Address,
    /// The invoiced amount, always positive.
    pub amount: i128,
    /// The token the invoice is denominated in.
    pub currency: Address,
    /// When payment falls due; strictly after `created_at`.
    pub due_date: u64,
    /// When the invoice was created.
    pub created_at: u64,
    /// Human-readable description, never empty.
    pub description: String,
    /// Category, indexed for queries.
    pub category: InvoiceCategory,
    /// Free-form tags, indexed for queries.
    pub tags: Vec<String>,
    /// Lifecycle status; kept consistent with the status indices.
    pub status: InvoiceStatus,
    /// The dispute overlay status; mirrors the dispute record.
    pub dispute_status: DisputeStatus,
    /// The dispute record raised against this invoice, if any.
    pub dispute: Option<u64>,
    /// The escrow created when a bid was accepted, if any.
    pub escrow: Option<u64>,
    /// Structured metadata, if attached.
    pub metadata: Option<InvoiceMetadata>,
    /// The investor whose bid funded the invoice, once funded.
    pub investor: Option<Address>,
    /// The accepted bid's amount, once funded; zero before.
    pub funded_amount: i128,
    /// When the invoice was funded; zero before.
    pub funded_at: u64,
    /// Partial payments applied so far while `Funded`.
    pub paid_amount: i128,
    /// All ratings left on the invoice.
    pub ratings: Vec<Rating>,
    /// How many ratings were left; equals `ratings.len()`.
    pub total_ratings: u32,
    /// Sum of all scores, for the running average.
    pub rating_sum: u64,
    /// The rounded-down average score, once any rating exists.
    pub average_rating: Option<u32>,
}

/// Copies a vector of strings, value for value.
pub fn clone_strings(v: &Vec<String>) -> (r: Vec<String>)
    ensures
        r@ == v@,
{
    let mut r: Vec<String> = Vec::new();
    let mut i: usize = 0;
    while i < v.len()
        invariant
            i <= v@.len(),
            r@ == v@.take(i as int),
        decreases v@.len() - i,
    {
        r.push(v[i].clone());
        proof {
            assert(v@.take(i as int + 1) =~= v@.take(i as int).push(v@[i as int]));
        }
        i += 1;
    }
    proof {
        assert(v@.take(v@.len() as int) =~= v@);
    }
    r
}

/// Copies a vector of ratings, value for value.
pub fn clone_ratings(v: &Vec<Rating>) -> (r: Vec<Rating>)
    ensures
        r@ == v@,
{
    let mut r: Vec<Rating> = Vec::new();
    let mut i: usize = 0;
    while i < v.len()
        invariant
            i <= v@.len(),
            r@ == v@.take(i as int),
        decreases v@.len() - i,
    {
        let e = &v[i];
        r.push(Rating {
            rating: e.rating,
            feedback: e.feedback.clone(),
            rater: e.rater,
            timestamp: e.timestamp,
        });
        proof {
            assert(v@.take(i as int + 1) =~= v@.take(i as int).push(v@[i as int]));
        }
        i += 1;
    }
    proof {
        assert(v@.take(v@.len() as int) =~= v@);
    }
    r
}

impl InvoiceMetadata {
    /// An owned copy equal to this metadata.
    pub fn duplicate(&self) -> (r: InvoiceMetadata)
        ensures
            r == *self,
    {
        InvoiceMetadata { customer_name: self.customer_name.clone(), tax_id: self.tax_id.clone() }
    }
}

impl Dispute {
    /// An owned copy equal to this dispute record.
    pub fn duplicate(&self) -> (r: Dispute)
        ensures
            r == *self,
    {
        Dispute {
            invoice_id: self.invoice_id,
            created_by: self.created_by,
            reason: self.reason.clone(),
            evidence: self.evidence.clone(),
            status: self.status,
            resolved_by: self.resolved_by,
            resolution: self.resolution.clone(),
            resolved_at: self.resolved_at,
        }
    }
}

/// Value equality on invoices: every field equal, with the two vector
/// fields compared by contents.
pub open spec fn same_invoice(a: Invoice, b: Invoice) -> bool {
    &&& a.id == b.id
    &&& a.business == b.business
    &&& a.amount == b.amount
    &&& a.currency == b.currency
    &&& a.due_date == b.due_date
    &&& a.created_at == b.created_at
    &&& a.description == b.description
    &&& a.category == b.category
    &&& a.tags@ == b.tags@
    &&& a.status == b.status
    &&& a.dispute_status == b.dispute_status
    &&& a.dispute == b.dispute
    &&& a.escrow == b.escrow
    &&& a.metadata == b.metadata
    &&& a.investor == b.investor
    &&& a.funded_amount == b.funded_amount
    &&& a.funded_at == b.funded_at
    &&& a.paid_amount == b.paid_amount
    &&& a.ratings@ == b.ratings@
    &&& a.total_ratings == b.total_ratings
    &&& a.rating_sum == b.rating_sum
    &&& a.average_rating == b.average_rating
}

impl Invoice {
    /// An owned copy with the same contents as this invoice.
    pub fn duplicate(&self) -> (r: Invoice)
        ensures
            same_invoice(r, *self),
    {
        let r = Invoice {
            id: self.id,
            business: self.business,
            amount: self.amount,
            currency: self.currency,
            due_date: self.due_date,
            created_at: self.created_at,
            description: self.description.clone(),
            category: self.category,
            tags: clone_strings(&self.tags),
            status: self.status,
            dispute_status: self.dispute_status,
            dispute: self.dispute,
            escrow: self.escrow,
            metadata: match &self.metadata {
                Some(m) => Some(m.duplicate()),
                None => None,
            },
            investor: self.investor,
            funded_amount: self.funded_amount,
            funded_at: self.funded_at,
            paid_amount: self.paid_amount,
            ratings: clone_ratings(&self.ratings),
            total_ratings: self.total_ratings,
            rating_sum: self.rating_sum,
            average_rating: self.average_rating,
        };
        r
    }

    /// Whether the invoice is past its due date at `now`.
    pub fn is_overdue(&self, now: u64) -> (r: bool)
        ensures
            r == (now > self.due_date),
    {
        now > self.due_date
    }

    /// The highest score among the invoice's ratings, if any.
    pub fn get_highest_rating(&self) -> (r: Option<u32>)
        ensures
            match r {
                Some(h) => {
                    &&& self.ratings@.len() > 0
                    &&& exists|i: int| 0 <= i < self.ratings@.len()
                        && #[trigger] self.ratings@[i].rating == h
                    &&& forall|i: int| 0 <= i < self.ratings@.len()
                        ==> #[trigger] self.ratings@[i].rating <= h
                },
                None => self.ratings@.len() == 0,
            },
    {
        if self.ratings.len() == 0 {
            return None;
        }
        let mut best: u32 = self.ratings[0].rating;
        let mut i: usize = 1;
        while i < self.ratings.len()
            invariant
                1 <= i <= self.ratings@.len(),
                self.ratings@.len() > 0,
                exists|k: int| 0 <= k < i && #[trigger] self.ratings@[k].rating == best,
                forall|k: int| 0 <= k < i ==> #[trigger] self.ratings@[k].rating <= best,
            decreases self.ratings@.len() - i,
        {
            if self.ratings[i].rating > best {
                best = self.ratings[i].rating;
            }
            i += 1;
        }
        Some(best)
    }

    /// The lowest score among the invoice's ratings, if any.
    pub fn get_lowest_rating(&self) -> (r: Option<u32>)
        ensures
            match r {
                Some(l) => {
                    &&& self.ratings@.len() > 0
                    &&& exists|i: int| 0 <= i < self.ratings@.len()
                        && #[trigger] self.ratings@[i].rating == l
                    &&& forall|i: int| 0 <= i < self.ratings@.len()
                        ==> #[trigger] self.ratings@[i].rating >= l
                },
                None => self.ratings@.len() == 0,
            },
    {
        if self.ratings.len() == 0 {
            return None;
        }
        let mut worst: u32 = self.ratings[0].rating;
        let mut i: usize = 1;
        while i < self.ratings.len()
            invariant
                1 <= i <= self.ratings@.len(),
                self.ratings@.len() > 0,
                exists|k: int| 0 <= k < i && #[trigger] self.ratings@[k].rating == worst,
                forall|k: int| 0 <= k < i ==> #[trigger] self.ratings@[k].rating >= worst,
            decreases self.ratings@.len() - i,
        {
            if self.ratings[i].rating < worst {
                worst = self.ratings[i].rating;
            }
            i += 1;
        }
        Some(worst)
    }

    /// Whether the invoice carries the given tag.
    pub fn has_tag(&self, tag: &String) -> (r: bool)
        ensures
            r == contains_text(self.tags@, tag@),
    {
        let mut i: usize = 0;
        while i < self.tags.len()
            invariant
                i <= self.tags@.len(),
                forall|k: int| 0 <= k < i ==> #[trigger] self.tags@[k]@ != tag@,
            decreases self.tags@.len() - i,
        {
            if self.tags[i] == *tag {
                return true;
            }
            i += 1;
        }
        false
    }
}

/// Whether some string in `v` has exactly the characters `t`.
pub open spec fn contains_text(v: Seq<String>, t: Seq<char>) -> bool {
    exists|i: int| 0 <= i < v.len() && #[trigger] v[i]@ == t
}

} // verus!
