//! Dispute resolution: creation, review, resolution, authorization,
//! duplicate prevention, and text-length validation.

use quicklendx::contract::QuickLendXContract;
use quicklendx::errors::QuickLendXError;
use quicklendx::invoice::{DisputeStatus, InvoiceCategory};
use quicklendx::Address;

const NOW: u64 = 1_000_000;
const MONTH: u64 = 30 * 24 * 60 * 60;

fn setup() -> (QuickLendXContract, Address) {
    let mut c = QuickLendXContract::new();
    let admin: Address = 1;
    c.set_admin(admin, admin).unwrap();
    (c, admin)
}

fn create_verified_business(c: &mut QuickLendXContract, admin: Address, business: Address) {
    c.submit_kyc_application(business, "KYC data".to_string(), NOW)
        .unwrap();
    c.verify_business(admin, business, NOW).unwrap();
}

fn create_test_invoice(c: &mut QuickLendXContract, business: Address, amount: i128) -> u64 {
    let currency: Address = 500;
    let due_date = NOW + MONTH;
    c.store_invoice(
        business,
        amount,
        currency,
        due_date,
        "Test invoice for dispute".to_string(),
        InvoiceCategory::Services,
        Vec::new(),
        NOW,
    )
    .unwrap()
}

#[test]
fn test_create_dispute_by_business() {
    let (mut c, admin) = setup();
    let business: Address = 10;
    create_verified_business(&mut c, admin, business);
    let invoice_id = create_test_invoice(&mut c, business, 100_000);

    let reason = "Invoice amount discrepancy".to_string();
    let evidence = "Supporting documentation provided".to_string();

    let result = c.create_dispute(invoice_id, business, reason.clone(), evidence.clone());
    assert!(result.is_ok());

    let dispute_result = c.get_dispute_details(invoice_id);
    assert!(dispute_result.is_ok());
    let dispute_opt = dispute_result.unwrap();
    assert!(dispute_opt.is_some());

    let dispute = dispute_opt.unwrap();
    assert_eq!(dispute.created_by, business);
    assert_eq!(dispute.reason, reason);
    assert_eq!(dispute.evidence, evidence);
    assert_eq!(dispute.resolved_at, 0);
}

#[test]
fn test_create_dispute_nonexistent_invoice() {
    let (mut c, admin) = setup();
    let business: Address = 10;
    create_verified_business(&mut c, admin, business);
    let fake_invoice_id: u64 = 9_999;

    let result = c.create_dispute(
        fake_invoice_id,
        business,
        "Test reason".to_string(),
        "Test evidence".to_string(),
    );
    assert!(result.is_err());
}

#[test]
fn test_create_dispute_unauthorized() {
    let (mut c, admin) = setup();
    let business: Address = 10;
    let unauthorized: Address = 66;
    create_verified_business(&mut c, admin, business);
    let invoice_id = create_test_invoice(&mut c, business, 100_000);

    let result = c.create_dispute(
        invoice_id,
        unauthorized,
        "Unauthorized dispute attempt".to_string(),
        "Evidence".to_string(),
    );
    assert!(result.is_err());
    assert_eq!(result.err().unwrap(), QuickLendXError::DisputeNotAuthorized);
}

#[test]
fn test_create_dispute_duplicate() {
    let (mut c, admin) = setup();
    let business: Address = 10;
    create_verified_business(&mut c, admin, business);
    let invoice_id = create_test_invoice(&mut c, business, 100_000);

    let result1 = c.create_dispute(
        invoice_id,
        business,
        "First dispute".to_string(),
        "Evidence 1".to_string(),
    );
    assert!(result1.is_ok());

    let result2 = c.create_dispute(
        invoice_id,
        business,
        "Second dispute".to_string(),
        "Evidence 2".to_string(),
    );
    assert!(result2.is_err());
    assert_eq!(result2.err().unwrap(), QuickLendXError::DisputeAlreadyExists);
}

#[test]
fn test_create_dispute_empty_reason() {
    let (mut c, admin) = setup();
    let business: Address = 10;
    create_verified_business(&mut c, admin, business);
    let invoice_id = create_test_invoice(&mut c, business, 100_000);

    let result = c.create_dispute(
        invoice_id,
        business,
        "".to_string(),
        "Valid evidence".to_string(),
    );
    assert!(result.is_err());
    assert_eq!(result.err().unwrap(), QuickLendXError::InvalidDisputeReason);
}

#[test]
fn test_create_dispute_reason_too_long() {
    let (mut c, admin) = setup();
    let business: Address = 10;
    create_verified_business(&mut c, admin, business);
    let invoice_id = create_test_invoice(&mut c, business, 100_000);

    let result = c.create_dispute(
        invoice_id,
        business,
        "a".repeat(501),
        "Valid evidence".to_string(),
    );
    assert!(result.is_err());
    assert_eq!(result.err().unwrap(), QuickLendXError::InvalidDisputeReason);
}

#[test]
fn test_create_dispute_empty_evidence() {
    let (mut c, admin) = setup();
    let business: Address = 10;
    create_verified_business(&mut c, admin, business);
    let invoice_id = create_test_invoice(&mut c, business, 100_000);

    let result = c.create_dispute(
        invoice_id,
        business,
        "Valid reason".to_string(),
        "".to_string(),
    );
    assert!(result.is_err());
    assert_eq!(result.err().unwrap(), QuickLendXError::InvalidDisputeEvidence);
}

#[test]
fn test_create_dispute_evidence_too_long() {
    let (mut c, admin) = setup();
    let business: Address = 10;
    create_verified_business(&mut c, admin, business);
    let invoice_id = create_test_invoice(&mut c, business, 100_000);

    let result = c.create_dispute(invoice_id, business, "Valid reason".to_string(), "x".repeat(1001));
    assert!(result.is_err());
    assert_eq!(result.err().unwrap(), QuickLendXError::InvalidDisputeEvidence);
}

#[test]
fn test_put_under_review_status_transition() {
    let (mut c, admin) = setup();
    let business: Address = 10;
    create_verified_business(&mut c, admin, business);
    let invoice_id = create_test_invoice(&mut c, business, 100_000);

    c.create_dispute(
        invoice_id,
        business,
        "Valid reason".to_string(),
        "Valid evidence".to_string(),
    )
    .unwrap();

    let invoice = c.get_invoice(invoice_id).unwrap();
    assert_eq!(invoice.dispute_status, DisputeStatus::Disputed);

    let result = c.put_dispute_under_review(invoice_id, admin);
    assert!(result.is_ok());

    let updated_invoice = c.get_invoice(invoice_id).unwrap();
    assert_eq!(updated_invoice.dispute_status, DisputeStatus::UnderReview);
}

#[test]
fn test_put_under_review_invalid_transition() {
    let (mut c, admin) = setup();
    let business: Address = 10;
    create_verified_business(&mut c, admin, business);
    let invoice_id = create_test_invoice(&mut c, business, 100_000);

    let result = c.put_dispute_under_review(invoice_id, admin);
    assert!(result.is_err());
    assert_eq!(result.err().unwrap(), QuickLendXError::DisputeNotFound);
}

#[test]
fn test_complete_dispute_lifecycle() {
    let (mut c, admin) = setup();
    let business: Address = 10;
    create_verified_business(&mut c, admin, business);
    let invoice_id = create_test_invoice(&mut c, business, 100_000);

    let reason = "Service quality issue".to_string();
    let evidence = "Documentation attached".to_string();
    c.create_dispute(invoice_id, business, reason.clone(), evidence.clone())
        .unwrap();

    let invoice = c.get_invoice(invoice_id).unwrap();
    assert_eq!(invoice.dispute_status, DisputeStatus::Disputed);

    c.put_dispute_under_review(invoice_id, admin).unwrap();

    let invoice = c.get_invoice(invoice_id).unwrap();
    assert_eq!(invoice.dispute_status, DisputeStatus::UnderReview);

    let resolution = "Dispute resolved with partial refund".to_string();
    c.resolve_dispute(invoice_id, admin, resolution.clone(), NOW + 10)
        .unwrap();

    let invoice = c.get_invoice(invoice_id).unwrap();
    assert_eq!(invoice.dispute_status, DisputeStatus::Resolved);

    let dispute_opt = c.get_dispute_details(invoice_id).unwrap();
    assert!(dispute_opt.is_some());
    let dispute = dispute_opt.unwrap();
    assert_eq!(dispute.created_by, business);
    assert_eq!(dispute.reason, reason);
    assert_eq!(dispute.evidence, evidence);
    assert_eq!(dispute.resolution, resolution);
    assert_eq!(dispute.resolved_by, Some(admin));
}

#[test]
fn test_resolve_dispute_invalid_transition() {
    let (mut c, admin) = setup();
    let business: Address = 10;
    create_verified_business(&mut c, admin, business);
    let invoice_id = create_test_invoice(&mut c, business, 100_000);

    c.create_dispute(
        invoice_id,
        business,
        "Test reason".to_string(),
        "Test evidence".to_string(),
    )
    .unwrap();

    let result = c.resolve_dispute(invoice_id, admin, "Resolution attempt".to_string(), NOW);
    assert!(result.is_err());
    assert_eq!(result.err().unwrap(), QuickLendXError::DisputeNotUnderReview);
}

#[test]
fn test_resolve_dispute_empty_resolution() {
    let (mut c, admin) = setup();
    let business: Address = 10;
    create_verified_business(&mut c, admin, business);
    let invoice_id = create_test_invoice(&mut c, business, 100_000);

    c.create_dispute(
        invoice_id,
        business,
        "Test reason".to_string(),
        "Test evidence".to_string(),
    )
    .unwrap();
    c.put_dispute_under_review(invoice_id, admin).unwrap();

    let result = c.resolve_dispute(invoice_id, admin, "".to_string(), NOW);
    assert!(result.is_err());
    assert_eq!(result.err().unwrap(), QuickLendXError::InvalidDisputeReason);
}

#[test]
fn test_resolve_dispute_resolution_too_long() {
    let (mut c, admin) = setup();
    let business: Address = 10;
    create_verified_business(&mut c, admin, business);
    let invoice_id = create_test_invoice(&mut c, business, 100_000);

    c.create_dispute(
        invoice_id,
        business,
        "Test reason".to_string(),
        "Test evidence".to_string(),
    )
    .unwrap();
    c.put_dispute_under_review(invoice_id, admin).unwrap();

    let result = c.resolve_dispute(invoice_id, admin, "r".repeat(501), NOW);
    assert!(result.is_err());
    assert_eq!(result.err().unwrap(), QuickLendXError::InvalidDisputeReason);
}

#[test]
fn test_query_dispute_none_exists() {
    let (mut c, admin) = setup();
    let business: Address = 10;
    create_verified_business(&mut c, admin, business);
    let invoice_id = create_test_invoice(&mut c, business, 100_000);

    let result = c.get_dispute_details(invoice_id);
    assert!(result.is_ok());
    assert!(result.unwrap().is_none());
}

#[test]
fn test_multiple_disputes_different_invoices() {
    let (mut c, admin) = setup();
    let business: Address = 10;
    create_verified_business(&mut c, admin, business);

    let invoice_id_1 = create_test_invoice(&mut c, business, 100_000);
    let invoice_id_2 = create_test_invoice(&mut c, business, 150_000);

    c.create_dispute(
        invoice_id_1,
        business,
        "Dispute 1".to_string(),
        "Evidence 1".to_string(),
    )
    .unwrap();
    c.create_dispute(
        invoice_id_2,
        business,
        "Dispute 2".to_string(),
        "Evidence 2".to_string(),
    )
    .unwrap();

    let dispute1_opt = c.get_dispute_details(invoice_id_1).unwrap();
    let dispute2_opt = c.get_dispute_details(invoice_id_2).unwrap();
    assert!(dispute1_opt.is_some());
    assert!(dispute2_opt.is_some());

    let dispute1 = dispute1_opt.unwrap();
    let dispute2 = dispute2_opt.unwrap();
    assert_eq!(dispute1.created_by, business);
    assert_eq!(dispute2.created_by, business);

    c.put_dispute_under_review(invoice_id_1, admin).unwrap();

    let invoice1 = c.get_invoice(invoice_id_1).unwrap();
    let invoice2 = c.get_invoice(invoice_id_2).unwrap();
    assert_eq!(invoice1.dispute_status, DisputeStatus::UnderReview);
    assert_eq!(invoice2.dispute_status, DisputeStatus::Disputed);
}

#[test]
fn test_create_dispute_reason_boundary_min() {
    let (mut c, admin) = setup();
    let business: Address = 10;
    create_verified_business(&mut c, admin, business);
    let invoice_id = create_test_invoice(&mut c, business, 100_000);

    let result = c.create_dispute(
        invoice_id,
        business,
        "A".to_string(),
        "Valid evidence".to_string(),
    );
    assert!(result.is_ok());
}

#[test]
fn test_create_dispute_reason_boundary_max() {
    let (mut c, admin) = setup();
    let business: Address = 10;
    create_verified_business(&mut c, admin, business);
    let invoice_id = create_test_invoice(&mut c, business, 100_000);

    let result = c.create_dispute(
        invoice_id,
        business,
        "x".repeat(500),
        "Valid evidence".to_string(),
    );
    assert!(result.is_ok());
}

#[test]
fn test_create_dispute_evidence_boundary_max() {
    let (mut c, admin) = setup();
    let business: Address = 10;
    create_verified_business(&mut c, admin, business);
    let invoice_id = create_test_invoice(&mut c, business, 100_000);

    let result = c.create_dispute(
        invoice_id,
        business,
        "Valid reason".to_string(),
        "e".repeat(1000),
    );
    assert!(result.is_ok());
}
