//! The funding lifecycle end to end: bids, acceptance, escrow custody,
//! settlement, default handling, and the payment reentrancy guard.

use quicklendx::bid::BidStatus;
use quicklendx::contract::QuickLendXContract;
use quicklendx::errors::QuickLendXError;
use quicklendx::escrow::EscrowStatus;
use quicklendx::investment::InvestmentStatus;
use quicklendx::invoice::{InvoiceCategory, InvoiceStatus, DEFAULT_GRACE_PERIOD};
use quicklendx::Address;

const NOW: u64 = 1_000_000;
const MONTH: u64 = 30 * 24 * 60 * 60;

fn setup() -> (QuickLendXContract, Address) {
    let mut c = QuickLendXContract::new();
    let admin: Address = 1;
    c.set_admin(admin, admin).unwrap();
    (c, admin)
}

fn verified_business(c: &mut QuickLendXContract, admin: Address, business: Address) {
    c.submit_kyc_application(business, "business KYC".to_string(), NOW)
        .unwrap();
    c.verify_business(admin, business, NOW).unwrap();
}

fn verified_investor(c: &mut QuickLendXContract, admin: Address, investor: Address, limit: i128) {
    c.submit_investor_kyc(investor, "investor KYC".to_string(), NOW)
        .unwrap();
    c.verify_investor(admin, investor, limit, NOW).unwrap();
}

fn verified_invoice(c: &mut QuickLendXContract, admin: Address, business: Address, amount: i128)
    -> u64 {
    let invoice_id = c
        .store_invoice(
            business,
            amount,
            500,
            NOW + MONTH,
            "shipment of goods".to_string(),
            InvoiceCategory::Goods,
            Vec::new(),
            NOW,
        )
        .unwrap();
    c.verify_invoice(admin, invoice_id).unwrap();
    invoice_id
}

#[test]
fn test_funding_scenario() {
    let (mut c, admin) = setup();
    let business: Address = 10;
    let investor: Address = 20;
    verified_business(&mut c, admin, business);
    verified_investor(&mut c, admin, investor, 1_000_000);

    let invoice_id = verified_invoice(&mut c, admin, business, 1000);
    let bid_id = c.place_bid(investor, invoice_id, 800, 50, NOW).unwrap();

    let escrow_id = c
        .accept_bid_and_fund(business, invoice_id, bid_id, NOW + 10)
        .unwrap();

    let escrow = c.get_escrow_details(invoice_id).unwrap();
    assert_eq!(escrow.escrow_id, escrow_id);
    assert_eq!(escrow.amount, 800);
    assert_eq!(escrow.investor, investor);
    assert_eq!(escrow.business, business);
    assert_eq!(escrow.status, EscrowStatus::Funded);

    let invoice = c.get_invoice(invoice_id).unwrap();
    assert_eq!(invoice.status, InvoiceStatus::Funded);
    assert_eq!(invoice.funded_amount, 800);
    assert_eq!(invoice.investor, Some(investor));

    let investment = c.get_invoice_investment(invoice_id).unwrap();
    assert_eq!(investment.status, InvestmentStatus::Active);
    assert_eq!(investment.amount, 800);
    assert_eq!(investment.investor, investor);

    let bid = c.get_bid(bid_id).unwrap();
    assert_eq!(bid.status, BidStatus::Accepted);
}

#[test]
fn test_second_accept_on_funded_invoice_fails() {
    let (mut c, admin) = setup();
    let business: Address = 10;
    let investor_one: Address = 20;
    let investor_two: Address = 21;
    verified_business(&mut c, admin, business);
    verified_investor(&mut c, admin, investor_one, 1_000_000);
    verified_investor(&mut c, admin, investor_two, 1_000_000);

    let invoice_id = verified_invoice(&mut c, admin, business, 1000);
    let bid_one = c.place_bid(investor_one, invoice_id, 800, 50, NOW).unwrap();
    let bid_two = c.place_bid(investor_two, invoice_id, 850, 40, NOW).unwrap();

    c.accept_bid_and_fund(business, invoice_id, bid_one, NOW).unwrap();

    let second = c.accept_bid_and_fund(business, invoice_id, bid_two, NOW);
    assert_eq!(second.err().unwrap(), QuickLendXError::InvalidStatus);

    // The losing bid is untouched and no second escrow exists.
    assert_eq!(c.get_bid(bid_two).unwrap().status, BidStatus::Placed);
    assert_eq!(c.escrows.len(), 1);
}

#[test]
fn test_settlement_scenario() {
    let (mut c, admin) = setup();
    let business: Address = 10;
    let investor: Address = 20;
    verified_business(&mut c, admin, business);
    verified_investor(&mut c, admin, investor, 1_000_000);

    let invoice_id = verified_invoice(&mut c, admin, business, 1000);
    let bid_id = c.place_bid(investor, invoice_id, 800, 200, NOW).unwrap();
    c.accept_bid_and_fund(business, invoice_id, bid_id, NOW).unwrap();

    // The configured fee is 200 basis points of profit.
    let (investor_gain, fee) = c.calculate_profit(800, 1000);
    assert_eq!(fee, (1000 - 800) * 200 / 10_000);
    assert_eq!(investor_gain, 200 - fee);

    // Settlement reports the same split it applies.
    let (settled_gain, settled_fee) = c.settle_invoice(invoice_id, 1000, NOW + MONTH).unwrap();
    assert_eq!(settled_gain, investor_gain);
    assert_eq!(settled_fee, fee);

    assert_eq!(c.get_invoice(invoice_id).unwrap().status, InvoiceStatus::Paid);
    let investment = c.get_invoice_investment(invoice_id).unwrap();
    assert_eq!(investment.status, InvestmentStatus::Completed);

    let analytics = c.get_investor_analytics(investor).unwrap();
    assert_eq!(analytics.successful_investments, 1);
    assert_eq!(analytics.failed_investments, 0);
    assert_eq!(analytics.total_invested, 800);
}

#[test]
fn test_partial_payment_then_settlement() {
    let (mut c, admin) = setup();
    let business: Address = 10;
    let investor: Address = 20;
    verified_business(&mut c, admin, business);
    verified_investor(&mut c, admin, investor, 1_000_000);

    let invoice_id = verified_invoice(&mut c, admin, business, 1000);
    let bid_id = c.place_bid(investor, invoice_id, 800, 100, NOW).unwrap();
    c.accept_bid_and_fund(business, invoice_id, bid_id, NOW).unwrap();

    c.process_partial_payment(invoice_id, 300, "tx-1".to_string(), NOW + 1)
        .unwrap();
    let invoice = c.get_invoice(invoice_id).unwrap();
    assert_eq!(invoice.status, InvoiceStatus::Funded);
    assert_eq!(invoice.paid_amount, 300);

    // A partial payment cannot cover the whole outstanding balance.
    let too_much = c.process_partial_payment(invoice_id, 700, "tx-2".to_string(), NOW + 2);
    assert_eq!(too_much.err().unwrap(), QuickLendXError::InvalidAmount);

    // Settlement needs the outstanding balance, not the face amount.
    let short = c.settle_invoice(invoice_id, 699, NOW + 3);
    assert_eq!(short.err().unwrap(), QuickLendXError::InvalidAmount);
    c.settle_invoice(invoice_id, 700, NOW + 3).unwrap();
    assert_eq!(c.get_invoice(invoice_id).unwrap().status, InvoiceStatus::Paid);
}

#[test]
fn test_default_scenario_grace_boundary() {
    let (mut c, admin) = setup();
    let business: Address = 10;
    let investor: Address = 20;
    verified_business(&mut c, admin, business);
    verified_investor(&mut c, admin, investor, 1_000_000);

    let invoice_id = verified_invoice(&mut c, admin, business, 1000);
    let bid_id = c.place_bid(investor, invoice_id, 800, 100, NOW).unwrap();
    c.accept_bid_and_fund(business, invoice_id, bid_id, NOW).unwrap();

    let due = NOW + MONTH;
    let deadline = due + DEFAULT_GRACE_PERIOD;

    // One second before grace expiry the call is refused.
    let early = c.mark_invoice_defaulted(invoice_id, None, deadline - 1);
    assert_eq!(early.err().unwrap(), QuickLendXError::InvoiceNotDue);
    assert_eq!(c.get_invoice(invoice_id).unwrap().status, InvoiceStatus::Funded);

    c.mark_invoice_defaulted(invoice_id, None, deadline).unwrap();
    assert_eq!(
        c.get_invoice(invoice_id).unwrap().status,
        InvoiceStatus::Defaulted
    );
    let investment = c.get_invoice_investment(invoice_id).unwrap();
    assert_eq!(investment.status, InvestmentStatus::Defaulted);
    let analytics = c.get_investor_analytics(investor).unwrap();
    assert_eq!(analytics.failed_investments, 1);
}

#[test]
fn test_overdue_sweep_defaults_expired_invoices() {
    let (mut c, admin) = setup();
    let business: Address = 10;
    let investor: Address = 20;
    verified_business(&mut c, admin, business);
    verified_investor(&mut c, admin, investor, 1_000_000);

    let invoice_id = verified_invoice(&mut c, admin, business, 1000);
    let bid_id = c.place_bid(investor, invoice_id, 800, 100, NOW).unwrap();
    c.accept_bid_and_fund(business, invoice_id, bid_id, NOW).unwrap();

    let due = NOW + MONTH;
    let overdue_count = c.check_overdue_invoices(due + DEFAULT_GRACE_PERIOD).unwrap();
    assert_eq!(overdue_count, 1);
    assert_eq!(
        c.get_invoice(invoice_id).unwrap().status,
        InvoiceStatus::Defaulted
    );
}

#[test]
fn test_escrow_release_and_refund_are_one_way() {
    let (mut c, admin) = setup();
    let business: Address = 10;
    let investor: Address = 20;
    verified_business(&mut c, admin, business);
    verified_investor(&mut c, admin, investor, 1_000_000);

    let first = verified_invoice(&mut c, admin, business, 1000);
    let bid_one = c.place_bid(investor, first, 800, 100, NOW).unwrap();
    c.accept_bid_and_fund(business, first, bid_one, NOW).unwrap();

    c.release_escrow_funds(first).unwrap();
    assert_eq!(c.get_escrow_status(first).unwrap(), EscrowStatus::Released);
    let refund_after_release = c.refund_escrow_funds(admin, first);
    assert_eq!(
        refund_after_release.err().unwrap(),
        QuickLendXError::InvalidStatus
    );

    let second = verified_invoice(&mut c, admin, business, 2000);
    let bid_two = c.place_bid(investor, second, 900, 100, NOW).unwrap();
    c.accept_bid_and_fund(business, second, bid_two, NOW).unwrap();

    let stranger_refund = c.refund_escrow_funds(77, second);
    assert_eq!(stranger_refund.err().unwrap(), QuickLendXError::Unauthorized);
    c.refund_escrow_funds(business, second).unwrap();
    assert_eq!(c.get_escrow_status(second).unwrap(), EscrowStatus::Refunded);
    let release_after_refund = c.release_escrow_funds(second);
    assert_eq!(
        release_after_refund.err().unwrap(),
        QuickLendXError::InvalidStatus
    );
}

#[test]
fn test_payment_guard_blocks_reentrant_calls() {
    let (mut c, admin) = setup();
    let business: Address = 10;
    let investor: Address = 20;
    verified_business(&mut c, admin, business);
    verified_investor(&mut c, admin, investor, 1_000_000);

    let invoice_id = verified_invoice(&mut c, admin, business, 1000);
    let bid_id = c.place_bid(investor, invoice_id, 800, 100, NOW).unwrap();

    // Simulate a nested money-moving call: the guard is held.
    c.payment_locked = true;
    let accept = c.accept_bid_and_fund(business, invoice_id, bid_id, NOW);
    assert_eq!(accept.err().unwrap(), QuickLendXError::OperationNotAllowed);
    let settle = c.settle_invoice(invoice_id, 1000, NOW);
    assert_eq!(settle.err().unwrap(), QuickLendXError::OperationNotAllowed);
    let release = c.release_escrow_funds(invoice_id);
    assert_eq!(release.err().unwrap(), QuickLendXError::OperationNotAllowed);

    // Once released, the same calls proceed, and the guard is clear again
    // after each exit path.
    c.payment_locked = false;
    c.accept_bid_and_fund(business, invoice_id, bid_id, NOW).unwrap();
    assert!(!c.payment_locked);
}

#[test]
fn test_bid_ranking_and_best_bid() {
    let (mut c, admin) = setup();
    let business: Address = 10;
    let a: Address = 20;
    let b: Address = 21;
    let d: Address = 22;
    verified_business(&mut c, admin, business);
    verified_investor(&mut c, admin, a, 1_000_000);
    verified_investor(&mut c, admin, b, 1_000_000);
    verified_investor(&mut c, admin, d, 1_000_000);

    let invoice_id = verified_invoice(&mut c, admin, business, 1000);
    // Cost of capital: 50/800 = 0.0625, 45/900 = 0.05, 45/900 again later.
    let bid_a = c.place_bid(a, invoice_id, 800, 50, NOW).unwrap();
    let bid_b = c.place_bid(b, invoice_id, 900, 45, NOW + 1).unwrap();
    let bid_d = c.place_bid(d, invoice_id, 900, 45, NOW + 2).unwrap();

    let ranked = c.get_ranked_bids(invoice_id);
    assert_eq!(ranked.len(), 3);
    // Best terms first; equal terms fall back to earliest placement.
    assert_eq!(ranked[0].bid_id, bid_b);
    assert_eq!(ranked[1].bid_id, bid_d);
    assert_eq!(ranked[2].bid_id, bid_a);

    let best = c.get_best_bid(invoice_id).unwrap();
    assert_eq!(best.bid_id, bid_b);

    // Withdrawn bids leave the ranking.
    c.withdraw_bid(b, bid_b).unwrap();
    let ranked = c.get_ranked_bids(invoice_id);
    assert_eq!(ranked.len(), 2);
    assert_eq!(ranked[0].bid_id, bid_d);
}

#[test]
fn test_bid_expiration_sweep() {
    let (mut c, admin) = setup();
    let business: Address = 10;
    let investor: Address = 20;
    verified_business(&mut c, admin, business);
    verified_investor(&mut c, admin, investor, 1_000_000);

    let invoice_id = verified_invoice(&mut c, admin, business, 1000);
    let bid_id = c.place_bid(investor, invoice_id, 800, 100, NOW).unwrap();

    let expiry = c.get_bid(bid_id).unwrap().expiration_timestamp;
    let count = c.cleanup_expired_bids(invoice_id, expiry + 1);
    assert_eq!(count, 1);
    assert_eq!(c.get_bid(bid_id).unwrap().status, BidStatus::Expired);

    // An expired bid cannot be accepted.
    let late = c.accept_bid_and_fund(business, invoice_id, bid_id, expiry + 1);
    assert_eq!(late.err().unwrap(), QuickLendXError::InvalidStatus);
}

#[test]
fn test_withdraw_bid_rules() {
    let (mut c, admin) = setup();
    let business: Address = 10;
    let investor: Address = 20;
    verified_business(&mut c, admin, business);
    verified_investor(&mut c, admin, investor, 1_000_000);

    let invoice_id = verified_invoice(&mut c, admin, business, 1000);
    let bid_id = c.place_bid(investor, invoice_id, 800, 100, NOW).unwrap();

    let stranger = c.withdraw_bid(99, bid_id);
    assert_eq!(stranger.err().unwrap(), QuickLendXError::Unauthorized);

    c.withdraw_bid(investor, bid_id).unwrap();
    assert_eq!(c.get_bid(bid_id).unwrap().status, BidStatus::Withdrawn);

    let again = c.withdraw_bid(investor, bid_id);
    assert_eq!(again.err().unwrap(), QuickLendXError::OperationNotAllowed);
}

#[test]
fn test_place_bid_requires_verified_investor_within_limit() {
    let (mut c, admin) = setup();
    let business: Address = 10;
    let investor: Address = 20;
    let pending: Address = 21;
    let unknown: Address = 22;
    verified_business(&mut c, admin, business);
    verified_investor(&mut c, admin, investor, 500);
    c.submit_investor_kyc(pending, "pending KYC".to_string(), NOW)
        .unwrap();

    let invoice_id = verified_invoice(&mut c, admin, business, 1000);

    let anonymous = c.place_bid(unknown, invoice_id, 100, 10, NOW);
    assert_eq!(anonymous.err().unwrap(), QuickLendXError::BusinessNotVerified);

    let unverified = c.place_bid(pending, invoice_id, 100, 10, NOW);
    assert_eq!(unverified.err().unwrap(), QuickLendXError::KYCAlreadyPending);

    let over_limit = c.place_bid(investor, invoice_id, 501, 10, NOW);
    assert_eq!(over_limit.err().unwrap(), QuickLendXError::InvalidAmount);

    let ok = c.place_bid(investor, invoice_id, 500, 10, NOW);
    assert!(ok.is_ok());
}

#[test]
fn test_admin_and_currency_management() {
    let mut c = QuickLendXContract::new();
    let admin: Address = 1;
    let other: Address = 2;

    assert!(c.get_current_admin().is_none());
    c.initialize_admin(admin).unwrap();
    let again = c.initialize_admin(other);
    assert_eq!(again.err().unwrap(), QuickLendXError::AdminAlreadyInitialized);
    assert_eq!(c.get_current_admin(), Some(admin));

    let stranger_transfer = c.transfer_admin(other, other);
    assert_eq!(stranger_transfer.err().unwrap(), QuickLendXError::NotAdmin);
    c.transfer_admin(admin, other).unwrap();
    assert_eq!(c.get_admin(), Some(other));

    // While the allow-list is empty every currency is allowed; once a
    // currency is listed, only listed currencies are.
    assert!(c.is_allowed_currency(500));
    let not_admin = c.add_currency(admin, 500);
    assert_eq!(not_admin.err().unwrap(), QuickLendXError::NotAdmin);
    c.add_currency(other, 500).unwrap();
    assert!(c.is_allowed_currency(500));
    assert!(!c.is_allowed_currency(501));
    assert_eq!(c.get_whitelisted_currencies(), vec![500]);

    let business: Address = 10;
    let rejected = c.store_invoice(
        business,
        100,
        501,
        NOW + MONTH,
        "wrong currency".to_string(),
        InvoiceCategory::Other,
        Vec::new(),
        NOW,
    );
    assert_eq!(rejected.err().unwrap(), QuickLendXError::CurrencyNotAllowed);

    c.remove_currency(other, 500).unwrap();
    assert!(c.is_allowed_currency(501));
}

#[test]
fn test_upload_invoice_requires_verified_business() {
    let (mut c, admin) = setup();
    let business: Address = 10;

    let unverified = c.upload_invoice(
        business,
        1000,
        500,
        NOW + MONTH,
        "not yet verified".to_string(),
        InvoiceCategory::Services,
        Vec::new(),
        NOW,
    );
    assert_eq!(
        unverified.err().unwrap(),
        QuickLendXError::BusinessNotVerified
    );

    verified_business(&mut c, admin, business);
    let resubmit = c.submit_kyc_application(business, "again".to_string(), NOW);
    assert!(resubmit.is_err());

    let ok = c.upload_invoice(
        business,
        1000,
        500,
        NOW + MONTH,
        "verified now".to_string(),
        InvoiceCategory::Services,
        Vec::new(),
        NOW,
    );
    assert!(ok.is_ok());
}

#[test]
fn test_update_invoice_status_follows_lifecycle() {
    let (mut c, _admin) = setup();
    let business: Address = 10;
    let invoice_id = c
        .store_invoice(
            business,
            1000,
            500,
            NOW + MONTH,
            "direct transitions".to_string(),
            InvoiceCategory::Services,
            Vec::new(),
            NOW,
        )
        .unwrap();

    let skip_ahead = c.update_invoice_status(invoice_id, InvoiceStatus::Paid, NOW);
    assert_eq!(skip_ahead.err().unwrap(), QuickLendXError::InvalidStatus);

    c.update_invoice_status(invoice_id, InvoiceStatus::Verified, NOW)
        .unwrap();
    c.update_invoice_status(invoice_id, InvoiceStatus::Funded, NOW)
        .unwrap();
    c.update_invoice_status(invoice_id, InvoiceStatus::Paid, NOW)
        .unwrap();
    assert_eq!(c.get_invoice(invoice_id).unwrap().status, InvoiceStatus::Paid);

    let missing = c.get_invoice(9_999);
    assert_eq!(missing.err().unwrap(), QuickLendXError::InvoiceNotFound);
}

#[test]
fn test_paged_queries() {
    let (mut c, admin) = setup();
    let business: Address = 10;
    let investor: Address = 20;
    verified_business(&mut c, admin, business);
    verified_investor(&mut c, admin, investor, 1_000_000);

    let mut ids = Vec::new();
    for k in 0..5i128 {
        let id = verified_invoice(&mut c, admin, business, 1_000 + k);
        ids.push(id);
    }

    let page = c.get_business_invoices_paged(business, None, 1, 2);
    assert_eq!(page, vec![ids[1], ids[2]]);
    let tail = c.get_business_invoices_paged(business, None, 4, 10);
    assert_eq!(tail, vec![ids[4]]);
    let beyond = c.get_business_invoices_paged(business, None, 10, 2);
    assert!(beyond.is_empty());

    let available = c.get_available_invoices_paged(Some(1_002), None, None, 0, 10);
    assert_eq!(available, vec![ids[2], ids[3], ids[4]]);

    for id in &ids {
        c.place_bid(investor, *id, 500, 10, NOW).unwrap();
    }
    let bids = c.get_investor_bids_paged(investor, None, 2, 2);
    assert_eq!(bids.len(), 2);
    assert_eq!(bids[0].invoice_id, ids[2]);

    c.accept_bid_and_fund(business, ids[0], 0, NOW).unwrap();
    let invs = c.get_investor_investments_paged(investor, None, 0, 10);
    assert_eq!(invs.len(), 1);
    let history = c.get_bid_history_paged(ids[0], None, 0, 10);
    assert_eq!(history.len(), 1);
    assert_eq!(history[0].bid_id, 0);
}

#[test]
fn test_kyc_registries_and_limits() {
    let (mut c, admin) = setup();
    let business: Address = 10;
    let rejected_business: Address = 11;
    let investor: Address = 20;

    verified_business(&mut c, admin, business);
    c.submit_kyc_application(rejected_business, "weak application".to_string(), NOW)
        .unwrap();
    c.reject_business(admin, rejected_business, "incomplete".to_string())
        .unwrap();

    assert_eq!(c.get_verified_businesses(), vec![business]);
    assert_eq!(c.get_rejected_businesses(), vec![rejected_business]);
    assert!(c.get_pending_businesses().is_empty());

    verified_investor(&mut c, admin, investor, 1_000);
    assert!(c.is_investor_verified(investor));
    assert_eq!(c.get_verified_investors(), vec![investor]);

    assert!(c.validate_investor_investment(investor, 1_000).is_ok());
    assert_eq!(
        c.validate_investor_investment(investor, 1_001).err().unwrap(),
        QuickLendXError::InvalidAmount
    );

    c.set_investment_limit(admin, investor, 2_000).unwrap();
    assert!(c.validate_investor_investment(investor, 1_001).is_ok());
    let rec = c.get_investor_verification(investor).unwrap();
    assert_eq!(rec.investment_limit, 2_000);

    // A rejected business may re-apply and ends up pending again.
    c.submit_kyc_application(rejected_business, "better application".to_string(), NOW + 1)
        .unwrap();
    assert_eq!(c.get_pending_businesses(), vec![rejected_business]);
}

#[test]
fn test_error_messages_are_stable() {
    assert_eq!(QuickLendXError::InvoiceNotFound.message(), "invoice not found");
    assert_eq!(QuickLendXError::InvalidAmount.message(), "invalid amount");
    assert_eq!(
        QuickLendXError::DisputeAlreadyExists.message(),
        "dispute already exists"
    );
}


#[test]
fn test_bid_sweep_is_idempotent() {
    let (mut c, admin) = setup();
    let business: Address = 10;
    let investor: Address = 20;
    verified_business(&mut c, admin, business);
    verified_investor(&mut c, admin, investor, 1_000_000);

    let invoice_id = verified_invoice(&mut c, admin, business, 1000);
    let bid_id = c.place_bid(investor, invoice_id, 800, 100, NOW).unwrap();
    let expiry = c.get_bid(bid_id).unwrap().expiration_timestamp;

    assert_eq!(c.cleanup_expired_bids(invoice_id, expiry + 1), 1);
    // An immediate second sweep finds nothing left to mark.
    assert_eq!(c.cleanup_expired_bids(invoice_id, expiry + 1), 0);
}

#[test]
fn test_default_deadline_beyond_clock_fails_closed() {
    let (mut c, admin) = setup();
    let business: Address = 10;
    let investor: Address = 20;
    verified_business(&mut c, admin, business);
    verified_investor(&mut c, admin, investor, 1_000_000);

    let invoice_id = verified_invoice(&mut c, admin, business, 1000);
    let bid_id = c.place_bid(investor, invoice_id, 800, 100, NOW).unwrap();
    c.accept_bid_and_fund(business, invoice_id, bid_id, NOW).unwrap();

    // A grace period pushing the deadline past the clock's range means the
    // invoice can never be defaulted, even at the last representable time.
    let never = c.mark_invoice_defaulted(invoice_id, Some(u64::MAX), u64::MAX);
    assert_eq!(never.err().unwrap(), QuickLendXError::InvoiceNotDue);
    assert_eq!(
        c.check_invoice_expiration(invoice_id, Some(u64::MAX), u64::MAX)
            .unwrap(),
        false
    );
    assert_eq!(c.get_invoice(invoice_id).unwrap().status, InvoiceStatus::Funded);
}

#[test]
fn test_accept_bid_matches_full_funding_unit() {
    let (mut c, admin) = setup();
    let business: Address = 10;
    let investor: Address = 20;
    verified_business(&mut c, admin, business);
    verified_investor(&mut c, admin, investor, 1_000_000);

    let invoice_id = verified_invoice(&mut c, admin, business, 1000);
    let bid_id = c.place_bid(investor, invoice_id, 800, 50, NOW).unwrap();

    c.accept_bid(business, invoice_id, bid_id, NOW + 10).unwrap();

    let escrow = c.get_escrow_details(invoice_id).unwrap();
    assert_eq!(escrow.amount, 800);
    assert_eq!(escrow.investor, investor);
    assert_eq!(escrow.status, EscrowStatus::Funded);
    let investment = c.get_invoice_investment(invoice_id).unwrap();
    assert_eq!(investment.status, InvestmentStatus::Active);
    assert_eq!(investment.amount, 800);
    assert_eq!(c.get_invoice(invoice_id).unwrap().status, InvoiceStatus::Funded);
}
