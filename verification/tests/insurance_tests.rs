//! Investment insurance: authorization, state validation, premium and
//! coverage arithmetic, history retention, and duplicate prevention.

use quicklendx::contract::QuickLendXContract;
use quicklendx::errors::QuickLendXError;
use quicklendx::investment::{Investment, InvestmentStatus, DEFAULT_INSURANCE_PREMIUM_BPS};
use quicklendx::Address;

const NOW: u64 = 1_000_000;

fn setup() -> QuickLendXContract {
    QuickLendXContract::new()
}

fn invoice_id_from_seed(seed: u64) -> u64 {
    0xAB00 + seed
}

fn store_investment(
    c: &mut QuickLendXContract,
    investor: Address,
    amount: i128,
    status: InvestmentStatus,
    seed: u64,
) -> u64 {
    c.store_investment(invoice_id_from_seed(seed), investor, amount, NOW, status)
}

fn set_insurance_inactive(c: &mut QuickLendXContract, investment_id: u64, idx: usize) {
    c.investments[investment_id as usize].insurance[idx].active = false;
}

#[test]
fn test_add_insurance_requires_investor_auth() {
    let mut c = setup();
    let investor: Address = 20;
    let attacker: Address = 21;
    let provider: Address = 22;

    let investment_id = store_investment(&mut c, investor, 10_000, InvestmentStatus::Active, 1);

    let result = c.add_investment_insurance(attacker, investment_id, provider, 60);
    assert_eq!(result.err().unwrap(), QuickLendXError::Unauthorized);

    let stored = c.get_investment(investment_id).unwrap();
    assert_eq!(stored.insurance.len(), 0);
}

#[test]
fn test_add_insurance_requires_active_investment() {
    let mut c = setup();
    let investor: Address = 20;
    let provider: Address = 22;

    let statuses = [
        InvestmentStatus::Withdrawn,
        InvestmentStatus::Completed,
        InvestmentStatus::Defaulted,
    ];

    for (idx, status) in statuses.iter().enumerate() {
        let investment_id =
            store_investment(&mut c, investor, 5_000, *status, (idx + 2) as u64);

        let result = c.add_investment_insurance(investor, investment_id, provider, 50);
        assert_eq!(result.err().unwrap(), QuickLendXError::InvalidStatus);

        let stored = c.get_investment(investment_id).unwrap();
        assert_eq!(stored.insurance.len(), 0);
    }
}

#[test]
fn test_add_insurance_storage_key_not_found() {
    let mut c = setup();
    let provider: Address = 22;
    let missing_id: u64 = 9_999;

    let result = c.add_investment_insurance(0, missing_id, provider, 45);
    assert_eq!(result.err().unwrap(), QuickLendXError::StorageKeyNotFound);
}

#[test]
fn test_state_transition_before_add_rejected() {
    let mut c = setup();
    let investor: Address = 20;
    let provider: Address = 22;

    let investment_id = store_investment(&mut c, investor, 7_500, InvestmentStatus::Active, 9);

    c.investments[investment_id as usize].status = InvestmentStatus::Completed;

    let result = c.add_investment_insurance(investor, investment_id, provider, 35);
    assert_eq!(result.err().unwrap(), QuickLendXError::InvalidStatus);

    let stored = c.get_investment(investment_id).unwrap();
    assert_eq!(stored.insurance.len(), 0);
}

#[test]
fn test_premium_and_coverage_math_exact() {
    let mut c = setup();
    let investor: Address = 20;
    let provider: Address = 22;

    let investment_id = store_investment(&mut c, investor, 10_000, InvestmentStatus::Active, 4);

    c.add_investment_insurance(investor, investment_id, provider, 80)
        .unwrap();

    let stored = c.get_investment(investment_id).unwrap();
    let insurance = stored.insurance[0];
    assert_eq!(insurance.coverage_amount, 8_000);
    assert_eq!(insurance.premium_amount, 160);
    assert_eq!(insurance.premium_amount, Investment::calculate_premium(10_000, 80));

    let investment_id_small = store_investment(&mut c, investor, 500, InvestmentStatus::Active, 5);
    c.add_investment_insurance(investor, investment_id_small, provider, 1)
        .unwrap();

    let stored_small = c.get_investment(investment_id_small).unwrap();
    let insurance_small = stored_small.insurance[0];
    assert_eq!(insurance_small.coverage_amount, 5);
    assert_eq!(insurance_small.premium_amount, 1);
}

#[test]
fn test_zero_coverage_and_invalid_inputs() {
    let mut c = setup();
    let investor: Address = 20;
    let provider: Address = 22;

    let investment_id = store_investment(&mut c, investor, 1_000, InvestmentStatus::Active, 6);

    let result = c.add_investment_insurance(investor, investment_id, provider, 0);
    assert_eq!(result.err().unwrap(), QuickLendXError::InvalidAmount);

    let result = c.add_investment_insurance(investor, investment_id, provider, 150);
    assert_eq!(
        result.err().unwrap(),
        QuickLendXError::InvalidCoveragePercentage
    );

    let small_amount_id = store_investment(&mut c, investor, 50, InvestmentStatus::Active, 7);
    let result = c.add_investment_insurance(investor, small_amount_id, provider, 1);
    assert_eq!(result.err().unwrap(), QuickLendXError::InvalidAmount);

    let negative_amount_id = store_investment(&mut c, investor, -10, InvestmentStatus::Active, 8);
    let result = c.add_investment_insurance(investor, negative_amount_id, provider, 10);
    assert_eq!(result.err().unwrap(), QuickLendXError::InvalidAmount);
}

#[test]
fn test_large_values_handle_saturation() {
    let mut c = setup();
    let investor: Address = 20;
    let provider: Address = 22;

    let amount = i128::MAX;
    let investment_id = store_investment(&mut c, investor, amount, InvestmentStatus::Active, 10);

    c.add_investment_insurance(investor, investment_id, provider, 100)
        .unwrap();

    let stored = c.get_investment(investment_id).unwrap();
    let insurance = stored.insurance[0];

    let expected_coverage = amount.saturating_mul(100).checked_div(100).unwrap_or(0);
    let expected_premium = expected_coverage
        .saturating_mul(DEFAULT_INSURANCE_PREMIUM_BPS)
        .checked_div(10_000)
        .unwrap_or(0);

    assert_eq!(insurance.coverage_amount, expected_coverage);
    assert_eq!(insurance.premium_amount, expected_premium);
}

#[test]
fn test_multiple_entries_and_no_cross_investment_leakage() {
    let mut c = setup();
    let investor: Address = 20;
    let provider_one: Address = 31;
    let provider_two: Address = 32;
    let provider_three: Address = 33;

    let investment_a = store_investment(&mut c, investor, 12_000, InvestmentStatus::Active, 11);
    let investment_b = store_investment(&mut c, investor, 8_000, InvestmentStatus::Active, 12);

    c.add_investment_insurance(investor, investment_a, provider_one, 60)
        .unwrap();

    set_insurance_inactive(&mut c, investment_a, 0);
    c.add_investment_insurance(investor, investment_a, provider_two, 40)
        .unwrap();

    let stored_a = c.get_investment(investment_a).unwrap();
    assert_eq!(stored_a.insurance.len(), 2);
    let first = stored_a.insurance[0];
    let second = stored_a.insurance[1];
    assert_eq!(first.provider, provider_one);
    assert!(!first.active);
    assert_eq!(second.provider, provider_two);
    assert!(second.active);

    let stored_b = c.get_investment(investment_b).unwrap();
    assert_eq!(stored_b.insurance.len(), 0);

    c.add_investment_insurance(investor, investment_b, provider_three, 50)
        .unwrap();

    let stored_a_after = c.get_investment(investment_a).unwrap();
    let stored_b_after = c.get_investment(investment_b).unwrap();

    assert_eq!(stored_a_after.insurance.len(), 2);
    assert_eq!(stored_b_after.insurance.len(), 1);
    assert_eq!(stored_b_after.insurance[0].provider, provider_three);
}

#[test]
fn test_duplicate_submission_rejected_and_state_unchanged() {
    let mut c = setup();
    let investor: Address = 20;
    let provider: Address = 22;
    let provider_two: Address = 23;

    let investment_id = store_investment(&mut c, investor, 9_000, InvestmentStatus::Active, 13);
    c.add_investment_insurance(investor, investment_id, provider, 70)
        .unwrap();

    let before = c.get_investment(investment_id).unwrap();
    assert_eq!(before.insurance.len(), 1);

    let result = c.add_investment_insurance(investor, investment_id, provider_two, 30);
    assert_eq!(result.err().unwrap(), QuickLendXError::OperationNotAllowed);

    let after = c.get_investment(investment_id).unwrap();
    assert_eq!(after.insurance.len(), 1);
    assert_eq!(after.insurance[0].provider, provider);
}

#[test]
fn test_investment_helpers_cover_branches() {
    let investor: Address = 20;
    let provider: Address = 22;

    let mut investment = Investment {
        investment_id: 1,
        invoice_id: 2,
        investor,
        amount: 1_000,
        funded_at: NOW,
        status: InvestmentStatus::Active,
        insurance: Vec::new(),
    };

    assert_eq!(Investment::calculate_premium(0, 50), 0);
    assert_eq!(Investment::calculate_premium(1_000, 0), 0);

    let premium = Investment::calculate_premium(1_000, 50);
    let coverage_amount = investment
        .add_insurance(provider, 50, premium)
        .expect("insurance should be added");
    assert_eq!(coverage_amount, 500);
    assert!(investment.has_active_insurance());

    let duplicate = investment.add_insurance(provider, 40, premium);
    assert_eq!(duplicate, Err(QuickLendXError::OperationNotAllowed));

    let mut empty_investment = investment.clone();
    empty_investment.insurance = Vec::new();
    let invalid = empty_investment.add_insurance(provider, 150, premium);
    assert_eq!(invalid, Err(QuickLendXError::InvalidCoveragePercentage));

    let invalid_premium = empty_investment.add_insurance(provider, 50, 0);
    assert_eq!(invalid_premium, Err(QuickLendXError::InvalidAmount));

    let claim = investment
        .process_insurance_claim()
        .expect("claim should succeed");
    assert_eq!(claim.0, provider);
    assert_eq!(claim.1, 500);
    assert!(!investment.has_active_insurance());

    let no_claim = investment.process_insurance_claim();
    assert!(no_claim.is_none());
}
