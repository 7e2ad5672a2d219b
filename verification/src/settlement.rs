//! Settlement, partial payments, profit and fee arithmetic, and
//! grace-period-aware default handling.

use crate::contract::{lemma_wf_congruence, QuickLendXContract};
use crate::errors::QuickLendXError;
use crate::investment::{div_pos_i128, sat_add_i128, sat_i128, sat_mul_i128, div_trunc,
    Investment, InvestmentStatus};
use crate::invoice::{Invoice, InvoiceStatus, DEFAULT_GRACE_PERIOD};
use crate::verification::InvestorVerification;
use crate::Address;
use vstd::prelude::*;

verus! {

/// The platform fee configuration: basis points taken from settlement
/// profit.
#[derive(Clone, Copy, Debug, PartialEq, Eq, Structural)]
pub struct PlatformFeeConfig {
    /// Fee in basis points of the profit, at most 10000.
    pub fee_bps: i128,
}

/// The gross profit of a settlement: what the payment exceeds the funded
/// amount by, never negative, saturating at the extremes.
pub open spec fn gross_profit(investment_amount: i128, payment_amount: i128) -> int {
    if payment_amount > investment_amount {
        sat_i128(payment_amount - investment_amount)
    } else {
        0
    }
}

/// The platform's cut of a profit: `fee_bps` basis points, with saturating
/// multiplication at extreme magnitudes.
pub open spec fn platform_cut(profit: int, fee_bps: i128) -> int {
    div_trunc(sat_i128(profit * fee_bps), 10000)
}

/// An investor KYC record after one investment outcome is recorded: the
/// totals grow (saturating), and exactly one of the success or failure
/// counters advances.
pub open spec fn bumped_record(
    rec: InvestorVerification,
    amount: i128,
    is_successful: bool,
) -> InvestorVerification {
    InvestorVerification {
        total_invested: sat_i128(rec.total_invested + amount) as i128,
        investment_count: if rec.investment_count == u32::MAX {
            u32::MAX
        } else {
            (rec.investment_count + 1) as u32
        },
        successful_investments: if is_successful && rec.successful_investments != u32::MAX {
            (rec.successful_investments + 1) as u32
        } else {
            rec.successful_investments
        },
        failed_investments: if !is_successful && rec.failed_investments != u32::MAX {
            (rec.failed_investments + 1) as u32
        } else {
            rec.failed_investments
        },
        ..rec
    }
}

impl QuickLendXContract {
    /// The index of the first investment opened for `invoice_id`, if any.
    pub(crate) fn find_investment_by_invoice(&self, invoice_id: u64) -> (r: Option<usize>)
        ensures
            match r {
                Some(i) => i < self.investments@.len()
                    && self.investments@[i as int].invoice_id == invoice_id
                    && forall|k: int| 0 <= k < i
                        ==> (#[trigger] self.investments@[k]).invoice_id != invoice_id,
                None => forall|k: int| 0 <= k < self.investments@.len()
                    ==> (#[trigger] self.investments@[k]).invoice_id != invoice_id,
            },
    {
        let mut i: usize = 0;
        while i < self.investments.len()
            invariant
                i <= self.investments@.len(),
                forall|k: int| 0 <= k < i
                    ==> (#[trigger] self.investments@[k]).invoice_id != invoice_id,
            decreases self.investments@.len() - i,
        {
            if self.investments[i].invoice_id == invoice_id {
                return Some(i);
            }
            i += 1;
        }
        None
    }

    /// Whether any investment is recorded for `invoice_id`.
    pub open spec fn has_investment(self, invoice_id: u64) -> bool {
        exists|k: int|
            0 <= k < self.investments@.len()
                && (#[trigger] self.investments@[k]).invoice_id == invoice_id
    }

    /// Splits a settlement payment into the investor's profit and the
    /// platform's fee: the gross profit is the payment over the funded
    /// amount, the fee is the configured basis points of it, and the
    /// investor keeps the rest.
    pub fn calculate_profit(&self, investment_amount: i128, payment_amount: i128)
        -> (r: (i128, i128))
        requires
            self.wf(),
        ensures
            r.1 as int == platform_cut(gross_profit(investment_amount, payment_amount),
                self.platform_fee_bps),
            r.0 as int == gross_profit(investment_amount, payment_amount) - r.1 as int,
            0 <= r.1 as int <= gross_profit(investment_amount, payment_amount),
    {
        let gross: i128 = if payment_amount > investment_amount {
            match payment_amount.checked_sub(investment_amount) {
                Some(v) => v,
                None => i128::MAX,
            }
        } else {
            0
        };
        proof {
            assert(gross as int == gross_profit(investment_amount, payment_amount));
        }
        let fee = div_pos_i128(sat_mul_i128(gross, self.platform_fee_bps), 10000);
        proof {
            let g = gross as int;
            let bps = self.platform_fee_bps as int;
            let prod = sat_i128(g * bps);
            assert(g * bps >= 0) by (nonlinear_arith)
                requires g >= 0 && bps >= 0;
            assert(prod >= 0);
            assert(fee as int >= 0) by {
                assert(div_trunc(prod, 10000) == prod / 10000);
                assert(prod / 10000 >= 0) by (nonlinear_arith)
                    requires prod >= 0;
            }
            assert(fee as int <= g) by {
                if g * bps > i128::MAX {
                    assert(prod == i128::MAX);
                    assert(g * bps <= g * 10000) by (nonlinear_arith)
                        requires g >= 0 && bps <= 10000;
                    assert(g * 10000 > i128::MAX);
                    assert(g >= i128::MAX / 10000) by (nonlinear_arith)
                        requires g * 10000 > i128::MAX && g >= 0;
                    assert(prod / 10000 <= i128::MAX / 10000) by (nonlinear_arith)
                        requires prod <= i128::MAX;
                } else {
                    assert(prod == g * bps);
                    assert(g * bps <= g * 10000) by (nonlinear_arith)
                        requires g >= 0 && bps <= 10000;
                    assert(prod / 10000 <= g * 10000 / 10000) by (nonlinear_arith)
                        requires prod <= g * 10000;
                    assert(g * 10000 / 10000 == g) by (nonlinear_arith);
                }
                assert(div_trunc(prod, 10000) == prod / 10000);
            }
        }
        (gross - fee, fee)
    }

    /// The platform fee configuration.
    pub fn get_platform_fee(&self) -> (r: PlatformFeeConfig)
        ensures
            r.fee_bps == self.platform_fee_bps,
    {
        PlatformFeeConfig { fee_bps: self.platform_fee_bps }
    }

    /// Sets the platform fee in basis points (administrator only); it must
    /// lie in [0, 10000].
    pub fn set_platform_fee(&mut self, caller: Address, new_fee_bps: i128)
        -> (r: Result<(), QuickLendXError>)
        requires
            old(self).wf(),
        ensures
            final(self).wf(),
            !old(self).is_admin(caller) ==> r
                == Err::<(), QuickLendXError>(QuickLendXError::NotAdmin)
                && *final(self) == *old(self),
            old(self).is_admin(caller) && !(0 <= new_fee_bps <= 10000) ==> r
                == Err::<(), QuickLendXError>(QuickLendXError::InvalidAmount)
                && *final(self) == *old(self),
            old(self).is_admin(caller) && 0 <= new_fee_bps <= 10000 ==> r
                == Ok::<(), QuickLendXError>(())
                && *final(self)
                == (QuickLendXContract { platform_fee_bps: new_fee_bps, ..*old(self) }),
    {
        let is_admin_caller = match self.admin {
            Some(a) => caller == a,
            None => false,
        };
        if !is_admin_caller {
            return Err(QuickLendXError::NotAdmin);
        }
        if new_fee_bps < 0 || new_fee_bps > 10000 {
            return Err(QuickLendXError::InvalidAmount);
        }
        self.platform_fee_bps = new_fee_bps;
        proof {
            lemma_wf_congruence_fee(*old(self), *self);
        }
        Ok(())
    }

    /// Records one investment outcome on the investor's KYC record, if one
    /// exists; without a record nothing changes.
    fn record_investor_outcome(&mut self, investor: Address, amount: i128, is_successful: bool)
        requires
            old(self).wf(),
        ensures
            final(self).wf(),
            analytics_recorded(old(self).investor_verifications@,
                final(self).investor_verifications@, investor, amount, is_successful),
            Self::only_investor_records_changed(*old(self), *final(self)),
    {
        let v = match self.find_investor(investor) {
            Some(v) => v,
            None => {
                return;
            },
        };
        let rec = &self.investor_verifications[v];
        let total2 = sat_add_i128(rec.total_invested, amount);
        let count2 = if rec.investment_count == u32::MAX {
            u32::MAX
        } else {
            rec.investment_count + 1
        };
        let succ2 = if is_successful && rec.successful_investments != u32::MAX {
            rec.successful_investments + 1
        } else {
            rec.successful_investments
        };
        let fail2 = if !is_successful && rec.failed_investments != u32::MAX {
            rec.failed_investments + 1
        } else {
            rec.failed_investments
        };
        self.investor_verifications[v].total_invested = total2;
        self.investor_verifications[v].investment_count = count2;
        self.investor_verifications[v].successful_investments = succ2;
        self.investor_verifications[v].failed_investments = fail2;
        proof {
            assert(final(self).investor_verifications@
                =~= old(self).investor_verifications@.update(v as int,
                bumped_record(old(self).investor_verifications@[v as int], amount,
                    is_successful)));
            lemma_wf_investor_records(*old(self), *self);
        }
    }

    /// Records one investment outcome on the investor's KYC record; fails
    /// if the investor has none.
    pub fn update_investor_analytics(
        &mut self,
        investor: Address,
        investment_amount: i128,
        is_successful: bool,
    ) -> (r: Result<(), QuickLendXError>)
        requires
            old(self).wf(),
        ensures
            final(self).wf(),
            match r {
                Ok(()) => analytics_recorded(old(self).investor_verifications@,
                    final(self).investor_verifications@, investor, investment_amount,
                    is_successful)
                    && Self::only_investor_records_changed(*old(self), *final(self)),
                Err(e) => e == QuickLendXError::BusinessNotVerified
                    && *final(self) == *old(self)
                    && (forall|k: int| 0 <= k < old(self).investor_verifications@.len()
                        ==> (#[trigger] old(self).investor_verifications@[k]).investor
                        != investor),
            },
    {
        match self.find_investor(investor) {
            Some(_) => {
                self.record_investor_outcome(investor, investment_amount, is_successful);
                Ok(())
            },
            None => Err(QuickLendXError::BusinessNotVerified),
        }
    }

    /// Everything except the investor KYC records is unchanged.
    pub open spec fn only_investor_records_changed(pre: Self, post: Self) -> bool {
        &&& post.admin == pre.admin
        &&& post.currencies == pre.currencies
        &&& post.invoices == pre.invoices
        &&& post.bids == pre.bids
        &&& post.escrows == pre.escrows
        &&& post.investments == pre.investments
        &&& post.disputes == pre.disputes
        &&& post.business_verifications == pre.business_verifications
        &&& Self::indices_unchanged(pre, post)
        &&& post.platform_fee_bps == pre.platform_fee_bps
        &&& post.payment_locked == pre.payment_locked
    }

    /// Settles a `Funded` invoice with a full payment: the payment must
    /// cover the outstanding balance, the invoice becomes `Paid`, its
    /// investment completes, and the outcome is recorded as a success on
    /// the investor's record.  Guarded against re-entrant payment calls.
    pub fn settle_invoice(&mut self, invoice_id: u64, payment_amount: i128, now: u64)
        -> (r: Result<(i128, i128), QuickLendXError>)
        requires
            old(self).wf(),
        ensures
            final(self).wf(),
            final(self).payment_locked == old(self).payment_locked,
            match old(self).settle_error(invoice_id, payment_amount) {
                Some(e) => r == Err::<(i128, i128), QuickLendXError>(e)
                    && *final(self) == *old(self),
                None => {
                    &&& r.is_ok()
                    &&& final(self).invoices@ == old(self).invoices@.update(
                        invoice_id as int,
                        Invoice {
                            status: InvoiceStatus::Paid,
                            ..old(self).invoices@[invoice_id as int]
                        },
                    )
                    &&& final(self).status_list(InvoiceStatus::Paid).contains(invoice_id)
                    &&& !final(self).status_list(InvoiceStatus::Funded).contains(invoice_id)
                    &&& final(self).investments@.len() == old(self).investments@.len()
                    &&& exists|v2: int| 0 <= v2 < old(self).investments@.len()
                        && old(self).investments@[v2].invoice_id == invoice_id
                        && final(self).investments@ =~= old(self).investments@.update(v2,
                            Investment {
                                status: InvestmentStatus::Completed,
                                ..old(self).investments@[v2]
                            })
                        && analytics_recorded(old(self).investor_verifications@,
                            final(self).investor_verifications@,
                            old(self).investments@[v2].investor,
                            old(self).investments@[v2].amount, true)
                        && ({
                            // The payment splits into the investor's profit and the
                            // platform's fee, computed over the funded principal.
                            let gross = gross_profit(old(self).investments@[v2].amount,
                                payment_amount);
                            let fee = platform_cut(gross, old(self).platform_fee_bps);
                            r == Ok::<(i128, i128), QuickLendXError>(((gross - fee) as i128,
                                fee as i128))
                        })
                    &&& final(self).bids == old(self).bids
                    &&& final(self).escrows == old(self).escrows
                    &&& final(self).disputes == old(self).disputes
                    &&& final(self).admin == old(self).admin
                    &&& final(self).currencies == old(self).currencies
                    &&& final(self).platform_fee_bps == old(self).platform_fee_bps
                },
            },
    {
        if self.payment_locked {
            return Err(QuickLendXError::OperationNotAllowed);
        }
        if invoice_id >= self.invoices.len() as u64 {
            return Err(QuickLendXError::InvoiceNotFound);
        }
        let idx = invoice_id as usize;
        if !matches!(self.invoices[idx].status, InvoiceStatus::Funded) {
            return Err(QuickLendXError::InvalidStatus);
        }
        let v = match self.find_investment_by_invoice(invoice_id) {
            Some(v) => v,
            None => {
                return Err(QuickLendXError::StorageKeyNotFound);
            },
        };
        proof {
            assert(old(self).wf_invoice_at(invoice_id as int));
        }
        let outstanding = self.invoices[idx].amount - self.invoices[idx].paid_amount;
        if payment_amount < outstanding {
            return Err(QuickLendXError::InvalidAmount);
        }
        let investor = self.investments[v].investor;
        let amount = self.investments[v].amount;
        let (profit, fee) = self.calculate_profit(amount, payment_amount);
        self.payment_locked = true;
        proof {
            lemma_wf_congruence(*old(self), *self);
        }
        self.set_invoice_status(invoice_id, InvoiceStatus::Paid);
        let ghost mid = *self;
        self.investments[v].status = InvestmentStatus::Completed;
        proof {
            lemma_wf_investments_update(mid, *self, v as int);
        }
        self.record_investor_outcome(investor, amount, true);
        let ghost before_unlock = *self;
        self.payment_locked = false;
        proof {
            lemma_wf_congruence(before_unlock, *self);
        }
        Ok((profit, fee))
    }

    /// Why a settlement is rejected, if it is.
    pub open spec fn settle_error(self, invoice_id: u64, payment_amount: i128)
        -> Option<QuickLendXError> {
        if self.payment_locked {
            Some(QuickLendXError::OperationNotAllowed)
        } else if invoice_id >= self.invoices@.len() {
            Some(QuickLendXError::InvoiceNotFound)
        } else if self.invoices@[invoice_id as int].status != InvoiceStatus::Funded {
            Some(QuickLendXError::InvalidStatus)
        } else if !self.has_investment(invoice_id) {
            Some(QuickLendXError::StorageKeyNotFound)
        } else if payment_amount < self.invoices@[invoice_id as int].amount
            - self.invoices@[invoice_id as int].paid_amount {
            Some(QuickLendXError::InvalidAmount)
        } else {
            None
        }
    }

    /// Applies a partial payment to a `Funded` invoice: the outstanding
    /// balance shrinks, the status does not change.  A payment that covers
    /// the whole balance belongs to [`Self::settle_invoice`] instead.
    pub fn process_partial_payment(
        &mut self,
        invoice_id: u64,
        payment_amount: i128,
        transaction_id: String,
        now: u64,
    ) -> (r: Result<(), QuickLendXError>)
        requires
            old(self).wf(),
        ensures
            final(self).wf(),
            invoice_id >= old(self).invoices@.len() ==> r
                == Err::<(), QuickLendXError>(QuickLendXError::InvoiceNotFound)
                && *final(self) == *old(self),
            invoice_id < old(self).invoices@.len()
                && old(self).invoices@[invoice_id as int].status != InvoiceStatus::Funded ==> r
                == Err::<(), QuickLendXError>(QuickLendXError::InvalidStatus)
                && *final(self) == *old(self),
            invoice_id < old(self).invoices@.len()
                && old(self).invoices@[invoice_id as int].status == InvoiceStatus::Funded
                && !(0 < payment_amount < old(self).invoices@[invoice_id as int].amount
                    - old(self).invoices@[invoice_id as int].paid_amount) ==> r
                == Err::<(), QuickLendXError>(QuickLendXError::InvalidAmount)
                && *final(self) == *old(self),
            invoice_id < old(self).invoices@.len()
                && old(self).invoices@[invoice_id as int].status == InvoiceStatus::Funded
                && 0 < payment_amount < old(self).invoices@[invoice_id as int].amount
                - old(self).invoices@[invoice_id as int].paid_amount ==> {
                &&& r == Ok::<(), QuickLendXError>(())
                &&& final(self).invoices@ == old(self).invoices@.update(
                    invoice_id as int,
                    Invoice {
                        paid_amount: (old(self).invoices@[invoice_id as int].paid_amount
                            + payment_amount) as i128,
                        ..old(self).invoices@[invoice_id as int]
                    },
                )
                &&& Self::only_invoices_changed(*old(self), *final(self))
                &&& Self::indices_unchanged(*old(self), *final(self))
            },
    {
        if invoice_id >= self.invoices.len() as u64 {
            return Err(QuickLendXError::InvoiceNotFound);
        }
        let idx = invoice_id as usize;
        if !matches!(self.invoices[idx].status, InvoiceStatus::Funded) {
            return Err(QuickLendXError::InvalidStatus);
        }
        proof {
            assert(old(self).wf_invoice_at(invoice_id as int));
        }
        let outstanding = self.invoices[idx].amount - self.invoices[idx].paid_amount;
        if payment_amount <= 0 || payment_amount >= outstanding {
            return Err(QuickLendXError::InvalidAmount);
        }
        let new_paid = self.invoices[idx].paid_amount + payment_amount;
        self.invoices[idx].paid_amount = new_paid;
        proof {
            crate::contract::lemma_wf_update_record(*old(self), *self, invoice_id as int);
        }
        Ok(())
    }

    /// Why a default marking is rejected, if it is: the invoice must be
    /// `Funded` and its due date plus grace period must have elapsed.
    pub open spec fn default_error(self, invoice_id: u64, grace: u64, now: u64)
        -> Option<QuickLendXError> {
        if invoice_id >= self.invoices@.len() {
            Some(QuickLendXError::InvoiceNotFound)
        } else if self.invoices@[invoice_id as int].status != InvoiceStatus::Funded {
            Some(QuickLendXError::InvalidStatus)
        } else if (now as int) < default_deadline(self.invoices@[invoice_id as int].due_date,
            grace) {
            Some(QuickLendXError::InvoiceNotDue)
        } else {
            None
        }
    }

    /// The whole default unit, relating the store before a successful
    /// default marking to the store after it: the invoice moves to
    /// `Defaulted`, its investment (if one exists) defaults with it and the
    /// failure is recorded on the investor's record, and everything else is
    /// untouched.
    pub open spec fn defaulted_unit_ok(pre: Self, post: Self, invoice_id: u64) -> bool {
        &&& post.invoices@ == pre.invoices@.update(
            invoice_id as int,
            Invoice { status: InvoiceStatus::Defaulted, ..pre.invoices@[invoice_id as int] },
        )
        &&& post.status_list(InvoiceStatus::Defaulted).contains(invoice_id)
        &&& !post.status_list(InvoiceStatus::Funded).contains(invoice_id)
        &&& (!pre.has_investment(invoice_id) ==> post.investments == pre.investments
            && post.investor_verifications == pre.investor_verifications)
        &&& (pre.has_investment(invoice_id) ==> exists|v2: int|
            0 <= v2 < pre.investments@.len()
                && pre.investments@[v2].invoice_id == invoice_id
                && post.investments@ =~= pre.investments@.update(v2, Investment {
                    status: InvestmentStatus::Defaulted,
                    ..pre.investments@[v2]
                })
                && analytics_recorded(pre.investor_verifications@,
                    post.investor_verifications@, pre.investments@[v2].investor,
                    pre.investments@[v2].amount, false))
        &&& post.bids == pre.bids
        &&& post.escrows == pre.escrows
        &&& post.disputes == pre.disputes
        &&& post.admin == pre.admin
        &&& post.currencies == pre.currencies
        &&& post.business_verifications == pre.business_verifications
        &&& post.platform_fee_bps == pre.platform_fee_bps
        &&& post.payment_locked == pre.payment_locked
    }

    /// Marks a `Funded` invoice defaulted once its due date plus the grace
    /// period (the platform default when none is given) has elapsed — and
    /// defensively refuses any earlier moment.  The investment defaults
    /// with it and the outcome is recorded as a failure.
    pub fn mark_invoice_defaulted(
        &mut self,
        invoice_id: u64,
        grace_period: Option<u64>,
        now: u64,
    ) -> (r: Result<(), QuickLendXError>)
        requires
            old(self).wf(),
        ensures
            final(self).wf(),
            ({
                let grace = match grace_period {
                    Some(g) => g,
                    None => DEFAULT_GRACE_PERIOD,
                };
                match old(self).default_error(invoice_id, grace, now) {
                    Some(e) => r == Err::<(), QuickLendXError>(e) && *final(self) == *old(self),
                    None => {
                        &&& r == Ok::<(), QuickLendXError>(())
                        &&& Self::defaulted_unit_ok(*old(self), *final(self), invoice_id)
                    },
                }
            }),
    {
        let grace = match grace_period {
            Some(g) => g,
            None => DEFAULT_GRACE_PERIOD,
        };
        if invoice_id >= self.invoices.len() as u64 {
            return Err(QuickLendXError::InvoiceNotFound);
        }
        let idx = invoice_id as usize;
        if !matches!(self.invoices[idx].status, InvoiceStatus::Funded) {
            return Err(QuickLendXError::InvalidStatus);
        }
        let due = self.invoices[idx].due_date;
        let deadline = match due.checked_add(grace) {
            Some(d) => d,
            None => {
                // The deadline lies beyond the clock's range: never due.
                return Err(QuickLendXError::InvoiceNotDue);
            },
        };
        if now < deadline {
            return Err(QuickLendXError::InvoiceNotDue);
        }
        self.set_invoice_status(invoice_id, InvoiceStatus::Defaulted);
        let ghost mid = *self;
        match self.find_investment_by_invoice(invoice_id) {
            Some(v) => {
                let investor = self.investments[v].investor;
                let amount = self.investments[v].amount;
                self.investments[v].status = InvestmentStatus::Defaulted;
                proof {
                    lemma_wf_investments_update(mid, *self, v as int);
                }
                self.record_investor_outcome(investor, amount, false);
            },
            None => {},
        }
        Ok(())
    }

    /// Marks a `Funded` invoice defaulted under the platform's default
    /// grace period, with the same full effect as
    /// [`Self::mark_invoice_defaulted`].
    pub fn handle_default(&mut self, invoice_id: u64, now: u64)
        -> (r: Result<(), QuickLendXError>)
        requires
            old(self).wf(),
        ensures
            final(self).wf(),
            match old(self).default_error(invoice_id, DEFAULT_GRACE_PERIOD, now) {
                Some(e) => r == Err::<(), QuickLendXError>(e) && *final(self) == *old(self),
                None => {
                    &&& r == Ok::<(), QuickLendXError>(())
                    &&& Self::defaulted_unit_ok(*old(self), *final(self), invoice_id)
                },
            },
    {
        self.mark_invoice_defaulted(invoice_id, None, now)
    }

    /// Checks one invoice for expiration: a `Funded` invoice past its due
    /// date plus grace period is defaulted, and the call reports whether it
    /// was.
    pub fn check_invoice_expiration(
        &mut self,
        invoice_id: u64,
        grace_period: Option<u64>,
        now: u64,
    ) -> (r: Result<bool, QuickLendXError>)
        requires
            old(self).wf(),
        ensures
            final(self).wf(),
            invoice_id >= old(self).invoices@.len() ==> r
                == Err::<bool, QuickLendXError>(QuickLendXError::InvoiceNotFound)
                && *final(self) == *old(self),
            ({
                let grace = match grace_period {
                    Some(g) => g,
                    None => DEFAULT_GRACE_PERIOD,
                };
                invoice_id < old(self).invoices@.len() ==> {
                    if old(self).invoices@[invoice_id as int].status == InvoiceStatus::Funded
                        && now as int >= default_deadline(
                        old(self).invoices@[invoice_id as int].due_date, grace) {
                        r == Ok::<bool, QuickLendXError>(true)
                            && final(self).invoices@[invoice_id as int].status
                            == InvoiceStatus::Defaulted
                    } else {
                        r == Ok::<bool, QuickLendXError>(false) && *final(self) == *old(self)
                    }
                }
            }),
    {
        let grace = match grace_period {
            Some(g) => g,
            None => DEFAULT_GRACE_PERIOD,
        };
        if invoice_id >= self.invoices.len() as u64 {
            return Err(QuickLendXError::InvoiceNotFound);
        }
        let idx = invoice_id as usize;
        let due = self.invoices[idx].due_date;
        let reached = match due.checked_add(grace) {
            Some(d) => now >= d,
            None => false,
        };
        if matches!(self.invoices[idx].status, InvoiceStatus::Funded) && reached {
            match self.mark_invoice_defaulted(invoice_id, Some(grace), now) {
                Ok(()) => Ok(true),
                Err(e) => Err(e),
            }
        } else {
            Ok(false)
        }
    }
}

impl QuickLendXContract {
    /// Sweeps every `Funded` invoice: counts those past their due date,
    /// and defaults those past the due date plus grace period.  No timer
    /// is involved; the sweep is triggered explicitly.
    pub fn check_overdue_invoices_grace(&mut self, grace_period: u64, now: u64)
        -> (r: Result<u32, QuickLendXError>)
        requires
            old(self).wf(),
        ensures
            final(self).wf(),
            ({
                let ids = old(self).status_list(InvoiceStatus::Funded);
                let invs = old(self).invoices@;
                &&& match r {
                    Ok(c) => count_overdue(ids, invs, now) <= u32::MAX
                        ==> c as int == count_overdue(ids, invs, now),
                    Err(_) => false,
                }
                &&& forall|j: int| 0 <= j < ids.len() ==> {
                    let id = #[trigger] ids[j] as int;
                    if now as int >= default_deadline(invs[id].due_date, grace_period) {
                        final(self).invoices@[id].status == InvoiceStatus::Defaulted
                    } else {
                        final(self).invoices@[id] == invs[id]
                    }
                }
                &&& forall|id2: int| 0 <= id2 < invs.len() && !ids.contains(id2 as u64)
                    ==> final(self).invoices@[id2] == invs[id2]
                &&& final(self).invoices@.len() == invs.len()
                &&& final(self).bids == old(self).bids
                &&& final(self).escrows == old(self).escrows
                &&& final(self).disputes == old(self).disputes
                &&& final(self).payment_locked == old(self).payment_locked
            }),
    {
        let ids = crate::contract::copy_ids(&self.funded_invoices);
        let ghost pre = *old(self);
        let ghost idseq = ids@;
        proof {
            assert(idseq == pre.status_list(InvoiceStatus::Funded));
            assert(idseq.take(0) =~= Seq::<u64>::empty());
        }
        let mut count: usize = 0;
        let mut i: usize = 0;
        while i < ids.len()
            invariant
                i <= idseq.len(),
                ids@ == idseq,
                idseq == pre.status_list(InvoiceStatus::Funded),
                pre.wf(),
                self.wf(),
                self.invoices@.len() == pre.invoices@.len(),
                count as int == count_overdue(idseq.take(i as int), pre.invoices@, now),
                count <= i,
                forall|id2: int| 0 <= id2 < pre.invoices@.len()
                    && !idseq.take(i as int).contains(id2 as u64)
                    ==> self.invoices@[id2] == pre.invoices@[id2],
                forall|j: int| 0 <= j < i ==> {
                    let id = #[trigger] idseq[j] as int;
                    if now as int >= default_deadline(pre.invoices@[id].due_date,
                        grace_period) {
                        self.invoices@[id].status == InvoiceStatus::Defaulted
                    } else {
                        self.invoices@[id] == pre.invoices@[id]
                    }
                },
                self.bids == pre.bids,
                self.escrows == pre.escrows,
                self.disputes == pre.disputes,
                self.payment_locked == pre.payment_locked,
            decreases idseq.len() - i,
        {
            let id = ids[i];
            proof {
                assert(pre.list_ok(InvoiceStatus::Funded));
                assert(idseq[i as int] < pre.invoices@.len());
                assert(!idseq.take(i as int).contains(idseq[i as int])) by {
                    if idseq.take(i as int).contains(idseq[i as int]) {
                        let j0 = choose|j0: int|
                            0 <= j0 < i && idseq.take(i as int)[j0] == idseq[i as int];
                        assert(idseq[j0] == idseq[i as int]);
                    }
                }
                assert(self.invoices@[idseq[i as int] as int]
                    == pre.invoices@[idseq[i as int] as int]);
                assert(idseq.take(i as int + 1)
                    =~= idseq.take(i as int).push(idseq[i as int]));
                lemma_count_overdue_push(idseq.take(i as int), pre.invoices@, now,
                    idseq[i as int]);
            }
            let n_inv: usize = self.invoices.len();
            proof {
                assert(id < n_inv as u64);
            }
            let idx = id as usize;
            if now > self.invoices[idx].due_date {
                count = count + 1;
            }
            let ghost before = *self;
            let outcome = self.mark_invoice_defaulted(id, Some(grace_period), now);
            proof {
                assert forall|id2: int|
                    0 <= id2 < pre.invoices@.len()
                        && !idseq.take(i as int + 1).contains(id2 as u64)
                    implies self.invoices@[id2] == pre.invoices@[id2] by {
                    assert(!idseq.take(i as int).contains(id2 as u64));
                    assert(id2 as u64 != id);
                    assert(before.invoices@[id2] == pre.invoices@[id2]);
                }
                assert forall|j: int| 0 <= j < i + 1 implies {
                    let id3 = #[trigger] idseq[j] as int;
                    if now as int >= default_deadline(pre.invoices@[id3].due_date,
                        grace_period) {
                        self.invoices@[id3].status == InvoiceStatus::Defaulted
                    } else {
                        self.invoices@[id3] == pre.invoices@[id3]
                    }
                } by {
                    let id3 = idseq[j] as int;
                    if j < i {
                        if id3 == id as int {
                            assert(idseq.no_duplicates());
                            assert(false);
                        } else {
                            assert(self.invoices@[id3] == before.invoices@[id3]);
                        }
                    } else {
                        assert(before.invoices@[id3] == pre.invoices@[id3]);
                        assert(before.invoices@[id3].status == InvoiceStatus::Funded);
                    }
                }
            }
            i += 1;
        }
        proof {
            assert(idseq.take(idseq.len() as int) =~= idseq);
        }
        Ok(#[verifier::truncate] (count as u32))
    }

    /// Sweeps every `Funded` invoice under the platform's default grace
    /// period, with the same full effect as
    /// [`Self::check_overdue_invoices_grace`].
    pub fn check_overdue_invoices(&mut self, now: u64) -> (r: Result<u32, QuickLendXError>)
        requires
            old(self).wf(),
        ensures
            final(self).wf(),
            ({
                let ids = old(self).status_list(InvoiceStatus::Funded);
                let invs = old(self).invoices@;
                &&& match r {
                    Ok(c) => count_overdue(ids, invs, now) <= u32::MAX
                        ==> c as int == count_overdue(ids, invs, now),
                    Err(_) => false,
                }
                &&& forall|j: int| 0 <= j < ids.len() ==> {
                    let id = #[trigger] ids[j] as int;
                    if now as int >= default_deadline(invs[id].due_date, DEFAULT_GRACE_PERIOD) {
                        final(self).invoices@[id].status == InvoiceStatus::Defaulted
                    } else {
                        final(self).invoices@[id] == invs[id]
                    }
                }
                &&& forall|id2: int| 0 <= id2 < invs.len() && !ids.contains(id2 as u64)
                    ==> final(self).invoices@[id2] == invs[id2]
                &&& final(self).invoices@.len() == invs.len()
                &&& final(self).bids == old(self).bids
                &&& final(self).escrows == old(self).escrows
                &&& final(self).disputes == old(self).disputes
                &&& final(self).payment_locked == old(self).payment_locked
            }),
    {
        self.check_overdue_invoices_grace(DEFAULT_GRACE_PERIOD, now)
    }
}

/// How many of `ids` name an invoice past its due date at `now`.
pub open spec fn count_overdue(ids: Seq<u64>, invs: Seq<Invoice>, now: u64) -> int
    decreases ids.len(),
{
    if ids.len() == 0 {
        0
    } else {
        count_overdue(ids.drop_last(), invs, now) + if now > invs[ids.last() as int].due_date {
            1int
        } else {
            0int
        }
    }
}

/// How [`count_overdue`] grows as identifiers are appended.
pub proof fn lemma_count_overdue_push(ids: Seq<u64>, invs: Seq<Invoice>, now: u64, x: u64)
    ensures
        count_overdue(ids.push(x), invs, now) == count_overdue(ids, invs, now)
            + if now > invs[x as int].due_date {
            1int
        } else {
            0int
        },
{
    assert(ids.push(x).drop_last() =~= ids);
    assert(count_overdue(ids.push(x).drop_last(), invs, now) == count_overdue(ids, invs, now));
}

/// When a funded invoice may be defaulted: its due date plus the grace
/// period, as an unbounded instant.  A deadline beyond the clock's range
/// can never be reached, so such an invoice fails closed and is never
/// defaulted.
pub open spec fn default_deadline(due_date: u64, grace: u64) -> int {
    due_date + grace
}

/// The investor KYC table after one outcome is recorded for `investor`:
/// unchanged when the investor has no record, and with exactly that
/// record's counters advanced when they have one.
pub open spec fn analytics_recorded(
    pre: Seq<InvestorVerification>,
    post: Seq<InvestorVerification>,
    investor: Address,
    amount: i128,
    is_successful: bool,
) -> bool {
    if forall|k: int| 0 <= k < pre.len() ==> (#[trigger] pre[k]).investor != investor {
        post == pre
    } else {
        exists|i: int|
            0 <= i < pre.len() && (#[trigger] pre[i]).investor == investor
                && post == pre.update(i, bumped_record(pre[i], amount, is_successful))
    }
}

/// Changing one investment's status (or other non-identity fields that
/// keep at most one active insurance entry) keeps the store consistent.
pub proof fn lemma_wf_investments_update(
    pre: QuickLendXContract,
    post: QuickLendXContract,
    v: int,
)
    requires
        pre.wf(),
        0 <= v < pre.investments@.len(),
        post.investments@.len() == pre.investments@.len(),
        forall|k: int| 0 <= k < pre.investments@.len() && k != v
            ==> post.investments@[k] == pre.investments@[k],
        post.investments@[v].investment_id == pre.investments@[v].investment_id,
        forall|i: int, j: int| 0 <= i < j < post.investments@[v].insurance@.len()
            ==> !((#[trigger] post.investments@[v].insurance@[i]).active
                && (#[trigger] post.investments@[v].insurance@[j]).active),
        post.invoices == pre.invoices,
        post.bids == pre.bids,
        post.escrows == pre.escrows,
        post.disputes == pre.disputes,
        post.business_verifications == pre.business_verifications,
        post.investor_verifications == pre.investor_verifications,
        post.currencies == pre.currencies,
        QuickLendXContract::indices_unchanged(pre, post),
        post.platform_fee_bps == pre.platform_fee_bps,
    ensures
        post.wf(),
{
    assert(forall|s: InvoiceStatus| post.status_list(s) == pre.status_list(s));
    assert forall|s: InvoiceStatus| #[trigger] post.list_ok(s) by {
        assert(pre.list_ok(s));
    }
    assert forall|id: int| 0 <= id < post.invoices@.len()
        implies #[trigger] post.status_list(post.invoices@[id].status).contains(id as u64) by {
        assert(pre.status_list(pre.invoices@[id].status).contains(id as u64));
    }
    assert forall|id: int| 0 <= id < post.invoices@.len()
        implies #[trigger] post.wf_invoice_at(id) by {
        assert(pre.wf_invoice_at(id));
    }
    assert forall|k: int| 0 <= k < post.bids@.len() implies #[trigger] post.wf_bid_at(k) by {
        assert(pre.wf_bid_at(k));
    }
    assert forall|k: int| 0 <= k < post.escrows@.len() implies #[trigger] post.wf_escrow_at(k) by {
        assert(pre.wf_escrow_at(k));
    }
    assert forall|k: int| 0 <= k < post.disputes@.len()
        implies #[trigger] post.wf_dispute_at(k) by {
        assert(pre.wf_dispute_at(k));
    }
    assert forall|k: int| 0 <= k < post.investments@.len() implies {
        let w = #[trigger] post.investments@[k];
        &&& w.investment_id == k as u64
        &&& forall|i: int, j: int| 0 <= i < j < w.insurance@.len()
            ==> !(#[trigger] w.insurance@[i].active && #[trigger] w.insurance@[j].active)
    } by {
        if k != v {
            assert(post.investments@[k] == pre.investments@[k]);
        }
    }
}

/// Changing only the investor KYC table, preserving each record's address,
/// keeps the store consistent.
pub proof fn lemma_wf_investor_records(pre: QuickLendXContract, post: QuickLendXContract)
    requires
        pre.wf(),
        post.investor_verifications@.len() == pre.investor_verifications@.len(),
        forall|k: int| 0 <= k < pre.investor_verifications@.len()
            ==> (#[trigger] post.investor_verifications@[k]).investor
            == pre.investor_verifications@[k].investor,
        post.invoices == pre.invoices,
        post.bids == pre.bids,
        post.escrows == pre.escrows,
        post.investments == pre.investments,
        post.disputes == pre.disputes,
        post.business_verifications == pre.business_verifications,
        post.currencies == pre.currencies,
        QuickLendXContract::indices_unchanged(pre, post),
        post.platform_fee_bps == pre.platform_fee_bps,
    ensures
        post.wf(),
{
    assert(forall|s: InvoiceStatus| post.status_list(s) == pre.status_list(s));
    assert forall|s: InvoiceStatus| #[trigger] post.list_ok(s) by {
        assert(pre.list_ok(s));
    }
    assert forall|id: int| 0 <= id < post.invoices@.len()
        implies #[trigger] post.status_list(post.invoices@[id].status).contains(id as u64) by {
        assert(pre.status_list(pre.invoices@[id].status).contains(id as u64));
    }
    assert forall|id: int| 0 <= id < post.invoices@.len()
        implies #[trigger] post.wf_invoice_at(id) by {
        assert(pre.wf_invoice_at(id));
    }
    assert forall|k: int| 0 <= k < post.bids@.len() implies #[trigger] post.wf_bid_at(k) by {
        assert(pre.wf_bid_at(k));
    }
    assert forall|k: int| 0 <= k < post.escrows@.len() implies #[trigger] post.wf_escrow_at(k) by {
        assert(pre.wf_escrow_at(k));
    }
    assert forall|k: int| 0 <= k < post.disputes@.len()
        implies #[trigger] post.wf_dispute_at(k) by {
        assert(pre.wf_dispute_at(k));
    }
}

/// Consistency does not depend on the fee configuration's exact value
/// within its permitted range.
proof fn lemma_wf_congruence_fee(pre: QuickLendXContract, post: QuickLendXContract)
    requires
        pre.wf(),
        0 <= post.platform_fee_bps <= 10000,
        post.invoices == pre.invoices,
        post.bids == pre.bids,
        post.escrows == pre.escrows,
        post.investments == pre.investments,
        post.disputes == pre.disputes,
        post.business_verifications == pre.business_verifications,
        post.investor_verifications == pre.investor_verifications,
        post.currencies == pre.currencies,
        QuickLendXContract::indices_unchanged(pre, post),
    ensures
        post.wf(),
{
    assert(forall|s: InvoiceStatus| post.status_list(s) == pre.status_list(s));
    assert forall|s: InvoiceStatus| #[trigger] post.list_ok(s) by {
        assert(pre.list_ok(s));
    }
    assert forall|id: int| 0 <= id < post.invoices@.len()
        implies #[trigger] post.status_list(post.invoices@[id].status).contains(id as u64) by {
        assert(pre.status_list(pre.invoices@[id].status).contains(id as u64));
    }
    assert forall|id: int| 0 <= id < post.invoices@.len()
        implies #[trigger] post.wf_invoice_at(id) by {
        assert(pre.wf_invoice_at(id));
    }
    assert forall|k: int| 0 <= k < post.bids@.len() implies #[trigger] post.wf_bid_at(k) by {
        assert(pre.wf_bid_at(k));
    }
    assert forall|k: int| 0 <= k < post.escrows@.len() implies #[trigger] post.wf_escrow_at(k) by {
        assert(pre.wf_escrow_at(k));
    }
    assert forall|k: int| 0 <= k < post.disputes@.len()
        implies #[trigger] post.wf_dispute_at(k) by {
        assert(pre.wf_dispute_at(k));
    }
}

} // verus!
