//! Funded positions and their insurance coverage.
//!
//! An investment is opened when a bid is accepted and escrow is created.  It
//! may carry insurance entries; at most one entry is *active* at a time, and
//! inactive entries are retained as history.  Premium and coverage arithmetic
//! saturates at the extremes of `i128` instead of overflowing.

use crate::errors::QuickLendXError;
use crate::Address;
use vstd::prelude::*;

verus! {

/// Premium rate in basis points of the covered amount.
pub const DEFAULT_INSURANCE_PREMIUM_BPS: i128 = 200;

/// Lifecycle of a funded position.
#[derive(Clone, Copy, Debug, PartialEq, Eq, Structural)]
pub enum InvestmentStatus {
    /// Funds are committed and the invoice is outstanding.
    Active,
    /// The invoice was settled in full.
    Completed,
    /// The invoice defaulted.
    Defaulted,
    /// The position was withdrawn.
    Withdrawn,
}

/// One insurance entry attached to an investment.
#[derive(Clone, Copy, Debug, PartialEq, Eq, Structural)]
pub struct InsuranceCoverage {
    /// The insurer.
    pub provider: Address,
    /// Covered share of the investment amount, in percent.
    pub coverage_percentage: u32,
    /// Covered amount: `amount * percentage / 100`, saturating.
    pub coverage_amount: i128,
    /// Premium charged: `coverage * rate / 10000`, saturating, with a floor
    /// of one unit whenever any positive amount is covered.
    pub premium_amount: i128,
    /// Whether this entry currently provides coverage.
    pub active: bool,
}

/// An investor's funded position in an invoice.
#[derive(Clone, Debug)]
pub struct Investment {
    /// This record's identifier.
    pub investment_id: u64,
    /// The invoice the position funds.
    pub invoice_id: u64,
    /// The investor who funded it.
    pub investor: Address,
    /// The funded amount (the accepted bid's amount).
    pub amount: i128,
    /// When the position was funded.
    pub funded_at: u64,
    /// Lifecycle status.
    pub status: InvestmentStatus,
    /// Insurance entries, oldest first; at most one is active.
    pub insurance: Vec<InsuranceCoverage>,
}

/// Clamps an unbounded integer into the `i128` range, the way saturating
/// `i128` arithmetic does.
pub open spec fn sat_i128(x: int) -> int {
    if x > i128::MAX {
        i128::MAX as int
    } else if x < i128::MIN {
        i128::MIN as int
    } else {
        x
    }
}

/// Division rounding toward zero (the machine's signed division), for a
/// positive divisor.
pub open spec fn div_trunc(x: int, d: int)
    -> int
    recommends
        d > 0,
{
    if x >= 0 {
        x / d
    } else {
        -((-x) / d)
    }
}

/// The covered amount for an investment of `amount` at `pct` percent:
/// `(amount as int) * (pct as int) / 100` with saturating multiplication.
pub open spec fn coverage_of(amount: i128, pct: u32) -> int {
    div_trunc(sat_i128((amount as int) * (pct as int)), 100)
}

/// The premium for covering `amount` at `pct` percent: the configured basis
/// points of the covered amount (saturating), floored at one unit whenever a
/// positive amount is covered.  The floor is deliberate policy: coverage is
/// never granted for free, so a small position pays the minimum premium
/// rather than rounding down to zero.
pub open spec fn premium_of(amount: i128, pct: u32) -> int {
    let raw = div_trunc(sat_i128(coverage_of(amount, pct) * (DEFAULT_INSURANCE_PREMIUM_BPS as int)), 10000);
    if raw == 0 && coverage_of(amount, pct) > 0 {
        1
    } else {
        raw
    }
}

/// Whether any entry in `s` is active.
pub open spec fn has_active(s: Seq<InsuranceCoverage>) -> bool {
    exists|i: int| 0 <= i < s.len() && s[i].active
}

/// Value equality on investments, with the insurance entries compared by
/// contents.
pub open spec fn same_investment(a: Investment, b: Investment) -> bool {
    &&& a.investment_id == b.investment_id
    &&& a.invoice_id == b.invoice_id
    &&& a.investor == b.investor
    &&& a.amount == b.amount
    &&& a.funded_at == b.funded_at
    &&& a.status == b.status
    &&& a.insurance@ == b.insurance@
}

/// Copies a vector of insurance entries, value for value.
pub fn copy_coverages(v: &Vec<InsuranceCoverage>) -> (r: Vec<InsuranceCoverage>)
    ensures
        r@ == v@,
{
    let mut r: Vec<InsuranceCoverage> = Vec::new();
    let mut i: usize = 0;
    while i < v.len()
        invariant
            i <= v@.len(),
            r@ == v@.take(i as int),
        decreases v@.len() - i,
    {
        r.push(v[i]);
        proof {
            assert(v@.take(i as int + 1) =~= v@.take(i as int).push(v@[i as int]));
        }
        i += 1;
    }
    proof {
        assert(v@.take(v@.len() as int) =~= v@);
    }
    r
}

/// `i128` multiplication that saturates at the type's bounds.
pub(crate) fn sat_mul_i128(a: i128, b: i128) -> (r: i128)
    ensures
        r as int == sat_i128((a as int) * (b as int)),
{
    match a.checked_mul(b) {
        Some(v) => v,
        None => {
            proof {
                assert((a as int) * (b as int) > i128::MAX || (a as int) * (b as int) < i128::MIN);
                if a > 0 && b > 0 {
                    assert((a as int) * (b as int) > 0) by (nonlinear_arith)
                        requires a > 0 && b > 0;
                } else if a < 0 && b < 0 {
                    assert((a as int) * (b as int) > 0) by (nonlinear_arith)
                        requires a < 0 && b < 0;
                } else if a > 0 && b < 0 {
                    assert((a as int) * (b as int) < 0) by (nonlinear_arith)
                        requires a > 0 && b < 0;
                } else if a < 0 && b > 0 {
                    assert((a as int) * (b as int) < 0) by (nonlinear_arith)
                        requires a < 0 && b > 0;
                } else {
                    assert((a as int) * (b as int) == 0) by (nonlinear_arith)
                        requires a == 0 || b == 0;
                }
            }
            if (a > 0) == (b > 0) {
                i128::MAX
            } else {
                i128::MIN
            }
        },
    }
}

/// `i128` addition that saturates at the type's bounds.
pub(crate) fn sat_add_i128(a: i128, b: i128) -> (r: i128)
    ensures
        r as int == sat_i128(a as int + b as int),
{
    match a.checked_add(b) {
        Some(v) => v,
        None => {
            if a > 0 {
                i128::MAX
            } else {
                i128::MIN
            }
        },
    }
}

/// `i128` division by a positive divisor; cannot overflow.
pub(crate) fn div_pos_i128(x: i128, d: i128) -> (r: i128)
    requires
        d > 0,
    ensures
        r as int == div_trunc(x as int, d as int),
{
    proof {
        if x >= 0 {
            assert((x as int) / (d as int) <= x as int) by (nonlinear_arith)
                requires x >= 0 && d >= 1;
            assert((x as int) / (d as int) >= 0) by (nonlinear_arith)
                requires x >= 0 && d >= 1;
        } else {
            let nx = -(x as int);
            assert(nx / (d as int) <= nx) by (nonlinear_arith)
                requires nx >= 0 && d >= 1;
            assert(nx / (d as int) >= 0) by (nonlinear_arith)
                requires nx >= 0 && d >= 1;
        }
    }
    x.checked_div(d).unwrap_or(0)
}

impl Investment {
    /// An owned copy with the same contents as this investment.
    pub fn duplicate(&self) -> (r: Investment)
        ensures
            same_investment(r, *self),
    {
        Investment {
            investment_id: self.investment_id,
            invoice_id: self.invoice_id,
            investor: self.investor,
            amount: self.amount,
            funded_at: self.funded_at,
            status: self.status,
            insurance: copy_coverages(&self.insurance),
        }
    }

    /// The premium charged for covering `amount` at `coverage_percentage`
    /// percent, using saturating arithmetic at extreme magnitudes.
    pub fn calculate_premium(amount: i128, coverage_percentage: u32) -> (premium: i128)
        ensures
            premium as int == premium_of(amount, coverage_percentage),
    {
        let coverage = Self::calculate_coverage(amount, coverage_percentage);
        let raw = div_pos_i128(sat_mul_i128(coverage, DEFAULT_INSURANCE_PREMIUM_BPS), 10000);
        if raw == 0 && coverage > 0 {
            1
        } else {
            raw
        }
    }

    /// The covered amount for `amount` at `coverage_percentage` percent,
    /// using saturating arithmetic at extreme magnitudes.
    pub fn calculate_coverage(amount: i128, coverage_percentage: u32) -> (coverage: i128)
        ensures
            coverage as int == coverage_of(amount, coverage_percentage),
    {
        div_pos_i128(sat_mul_i128(amount, coverage_percentage as i128), 100)
    }

    /// Whether the investment currently carries active coverage.
    pub fn has_active_insurance(&self) -> (r: bool)
        ensures
            r == has_active(self.insurance@),
    {
        let mut i: usize = 0;
        while i < self.insurance.len()
            invariant
                i <= self.insurance.len(),
                forall|k: int| 0 <= k < i ==> !self.insurance@[k].active,
            decreases self.insurance.len() - i,
        {
            if self.insurance[i].active {
                return true;
            }
            i += 1;
        }
        false
    }

    /// Attaches a new insurance entry.  The percentage must lie in (0, 100],
    /// the premium must be positive, and no other entry may be active; on
    /// any rejection the investment is left unchanged.  On success the entry
    /// is appended, active, and the covered amount is returned.
    pub fn add_insurance(&mut self, provider: Address, coverage_percentage: u32, premium: i128)
        -> (r: Result<i128, QuickLendXError>)
        ensures
            coverage_percentage == 0 || coverage_percentage > 100 ==> r
                == Err::<i128, QuickLendXError>(QuickLendXError::InvalidCoveragePercentage)
                && *final(self) == *old(self),
            0 < coverage_percentage <= 100 && premium <= 0 ==> r
                == Err::<i128, QuickLendXError>(QuickLendXError::InvalidAmount)
                && *final(self) == *old(self),
            0 < coverage_percentage <= 100 && premium > 0 && has_active(old(self).insurance@)
                ==> r == Err::<i128, QuickLendXError>(QuickLendXError::OperationNotAllowed)
                && *final(self) == *old(self),
            0 < coverage_percentage <= 100 && premium > 0 && !has_active(old(self).insurance@)
                ==> {
                let entry = InsuranceCoverage {
                    provider,
                    coverage_percentage,
                    coverage_amount: coverage_of(old(self).amount, coverage_percentage) as i128,
                    premium_amount: premium,
                    active: true,
                };
                &&& r == Ok::<i128, QuickLendXError>(coverage_of(old(self).amount,
                    coverage_percentage) as i128)
                &&& final(self).insurance@ == old(self).insurance@.push(entry)
                &&& final(self).investment_id == old(self).investment_id
                &&& final(self).invoice_id == old(self).invoice_id
                &&& final(self).investor == old(self).investor
                &&& final(self).amount == old(self).amount
                &&& final(self).funded_at == old(self).funded_at
                &&& final(self).status == old(self).status
            },
    {
        if coverage_percentage == 0 || coverage_percentage > 100 {
            return Err(QuickLendXError::InvalidCoveragePercentage);
        }
        if premium <= 0 {
            return Err(QuickLendXError::InvalidAmount);
        }
        if self.has_active_insurance() {
            return Err(QuickLendXError::OperationNotAllowed);
        }
        let coverage_amount = Self::calculate_coverage(self.amount, coverage_percentage);
        self.insurance.push(InsuranceCoverage {
            provider,
            coverage_percentage,
            coverage_amount,
            premium_amount: premium,
            active: true,
        });
        Ok(coverage_amount)
    }

    /// Pays out the active coverage, if any: the active entry is
    /// deactivated (and retained as history) and its provider and covered
    /// amount are returned.  With no active entry, nothing changes and no
    /// result is returned.
    pub fn process_insurance_claim(&mut self) -> (r: Option<(Address, i128)>)
        ensures
            !has_active(old(self).insurance@) ==> r == Option::<(Address, i128)>::None
                && *final(self) == *old(self),
            has_active(old(self).insurance@) ==> exists|j: int|
                {
                    &&& 0 <= j < old(self).insurance@.len()
                    &&& old(self).insurance@[j].active
                    &&& forall|k: int| 0 <= k < j ==> !old(self).insurance@[k].active
                    &&& r == Some((old(self).insurance@[j].provider,
                        old(self).insurance@[j].coverage_amount))
                    &&& final(self).insurance@ == old(self).insurance@.update(j,
                        InsuranceCoverage { active: false, ..old(self).insurance@[j] })
                },
            final(self).investment_id == old(self).investment_id,
            final(self).invoice_id == old(self).invoice_id,
            final(self).investor == old(self).investor,
            final(self).amount == old(self).amount,
            final(self).funded_at == old(self).funded_at,
            final(self).status == old(self).status,
    {
        let mut i: usize = 0;
        while i < self.insurance.len()
            invariant
                i <= self.insurance.len(),
                forall|k: int| 0 <= k < i ==> !self.insurance@[k].active,
                *self == *old(self),
            decreases self.insurance.len() - i,
        {
            if self.insurance[i].active {
                let entry = self.insurance[i];
                self.insurance[i] = InsuranceCoverage { active: false, ..entry };
                proof {
                    assert(self.insurance@ == old(self).insurance@.update(i as int,
                        InsuranceCoverage { active: false, ..old(self).insurance@[i as int] }));
                }
                return Some((entry.provider, entry.coverage_amount));
            }
            i += 1;
        }
        None
    }
}

} // verus!
