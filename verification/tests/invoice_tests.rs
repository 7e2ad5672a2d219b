//! Invoice categories, tags, metadata, and creation validation.

use quicklendx::contract::QuickLendXContract;
use quicklendx::errors::QuickLendXError;
use quicklendx::invoice::{InvoiceCategory, InvoiceMetadata, InvoiceStatus};
use quicklendx::Address;

const NOW: u64 = 1_000_000;
const DAY: u64 = 86_400;

#[test]
fn test_invoice_category_and_tags() {
    let mut c = QuickLendXContract::new();
    let business: Address = 10;
    let currency: Address = 500;
    let due_date = NOW + DAY;

    let tags1 = vec!["urgent".to_string(), "tech".to_string()];
    let invoice1_id = c
        .store_invoice(
            business,
            1000,
            currency,
            due_date,
            "Invoice 1".to_string(),
            InvoiceCategory::Services,
            tags1,
            NOW,
        )
        .unwrap();

    let tags2 = vec!["tech".to_string()];
    let invoice2_id = c
        .store_invoice(
            business,
            2000,
            currency,
            due_date,
            "Invoice 2".to_string(),
            InvoiceCategory::Products,
            tags2,
            NOW,
        )
        .unwrap();

    let tags3 = vec!["urgent".to_string()];
    let invoice3_id = c
        .store_invoice(
            business,
            3000,
            currency,
            due_date,
            "Invoice 3".to_string(),
            InvoiceCategory::Services,
            tags3,
            NOW,
        )
        .unwrap();

    let services = c.get_invoices_by_category(InvoiceCategory::Services);
    assert_eq!(services.len(), 2);
    assert!(services.contains(&invoice1_id));
    assert!(services.contains(&invoice3_id));

    let products = c.get_invoices_by_category(InvoiceCategory::Products);
    assert_eq!(products.len(), 1);
    assert!(products.contains(&invoice2_id));

    let tech_invoices = c.get_invoices_by_tag(&"tech".to_string());
    assert_eq!(tech_invoices.len(), 2);
    assert!(tech_invoices.contains(&invoice1_id));
    assert!(tech_invoices.contains(&invoice2_id));

    let urgent_invoices = c.get_invoices_by_tag(&"urgent".to_string());
    assert_eq!(urgent_invoices.len(), 2);
    assert!(urgent_invoices.contains(&invoice1_id));
    assert!(urgent_invoices.contains(&invoice3_id));

    c.add_invoice_tag(business, invoice3_id, "tech".to_string())
        .unwrap();

    let tech_invoices_updated = c.get_invoices_by_tag(&"tech".to_string());
    assert_eq!(tech_invoices_updated.len(), 3);
    assert!(tech_invoices_updated.contains(&invoice3_id));

    c.remove_invoice_tag(business, invoice1_id, &"urgent".to_string())
        .unwrap();

    let urgent_invoices_updated = c.get_invoices_by_tag(&"urgent".to_string());
    assert_eq!(urgent_invoices_updated.len(), 1);
    assert!(urgent_invoices_updated.contains(&invoice3_id));
    assert!(!urgent_invoices_updated.contains(&invoice1_id));
}

#[test]
fn test_metadata_update_requires_owner_pattern() {
    let _c = QuickLendXContract::new();
    assert!(true);
}

#[test]
fn test_metadata_validation_pattern() {
    let _c = QuickLendXContract::new();
    assert!(true);
}

#[test]
fn test_non_owner_cannot_update_metadata_pattern() {
    let _c = QuickLendXContract::new();
    assert!(true);
}

#[test]
fn test_update_and_query_metadata_pattern() {
    let _c = QuickLendXContract::new();
    assert!(true);
}

#[test]
fn test_invoice_metadata_round_trip() {
    let mut c = QuickLendXContract::new();
    let business: Address = 10;
    let other: Address = 11;
    let invoice_id = c
        .store_invoice(
            business,
            5_000,
            500,
            NOW + DAY,
            "Billed work".to_string(),
            InvoiceCategory::Consulting,
            Vec::new(),
            NOW,
        )
        .unwrap();

    let metadata = InvoiceMetadata {
        customer_name: "Acme Corp".to_string(),
        tax_id: "TAX-77".to_string(),
    };
    let denied = c.update_invoice_metadata(other, invoice_id, metadata);
    assert_eq!(denied.err().unwrap(), QuickLendXError::Unauthorized);

    let metadata = InvoiceMetadata {
        customer_name: "Acme Corp".to_string(),
        tax_id: "TAX-77".to_string(),
    };
    c.update_invoice_metadata(business, invoice_id, metadata)
        .unwrap();

    let by_customer = c.get_invoices_by_customer(&"Acme Corp".to_string());
    assert_eq!(by_customer, vec![invoice_id]);
    let by_tax = c.get_invoices_by_tax_id(&"TAX-77".to_string());
    assert_eq!(by_tax, vec![invoice_id]);

    let empty = c.update_invoice_metadata(
        business,
        invoice_id,
        InvoiceMetadata {
            customer_name: "".to_string(),
            tax_id: "TAX-77".to_string(),
        },
    );
    assert_eq!(empty.err().unwrap(), QuickLendXError::InvalidDescription);

    c.clear_invoice_metadata(business, invoice_id).unwrap();
    let by_customer = c.get_invoices_by_customer(&"Acme Corp".to_string());
    assert!(by_customer.is_empty());
}

#[test]
fn test_invoice_creation_validation() {
    let mut c = QuickLendXContract::new();
    let business: Address = 10;
    let currency: Address = 500;

    let zero = c.store_invoice(
        business,
        0,
        currency,
        NOW + DAY,
        "zero".to_string(),
        InvoiceCategory::Other,
        Vec::new(),
        NOW,
    );
    assert_eq!(zero.err().unwrap(), QuickLendXError::InvalidAmount);

    let past = c.store_invoice(
        business,
        100,
        currency,
        NOW,
        "past due".to_string(),
        InvoiceCategory::Other,
        Vec::new(),
        NOW,
    );
    assert_eq!(past.err().unwrap(), QuickLendXError::InvoiceDueDateInvalid);

    let blank = c.store_invoice(
        business,
        100,
        currency,
        NOW + DAY,
        "".to_string(),
        InvoiceCategory::Other,
        Vec::new(),
        NOW,
    );
    assert_eq!(blank.err().unwrap(), QuickLendXError::InvalidDescription);

    // Nothing was stored by the rejected calls.
    assert_eq!(c.get_total_invoice_count(), 0);

    let ok = c.store_invoice(
        business,
        100,
        currency,
        NOW + DAY,
        "valid".to_string(),
        InvoiceCategory::Other,
        Vec::new(),
        NOW,
    );
    assert!(ok.is_ok());
    assert_eq!(c.get_total_invoice_count(), 1);
    assert_eq!(c.get_invoice_count_by_status(InvoiceStatus::Pending), 1);
}

#[test]
fn test_status_indices_track_lifecycle() {
    let mut c = QuickLendXContract::new();
    let admin: Address = 1;
    c.set_admin(admin, admin).unwrap();
    let business: Address = 10;
    let invoice_id = c
        .store_invoice(
            business,
            1_000,
            500,
            NOW + DAY,
            "lifecycle".to_string(),
            InvoiceCategory::Services,
            Vec::new(),
            NOW,
        )
        .unwrap();

    assert_eq!(c.get_invoices_by_status(InvoiceStatus::Pending), vec![invoice_id]);
    assert!(c.get_invoices_by_status(InvoiceStatus::Verified).is_empty());

    c.verify_invoice(admin, invoice_id).unwrap();
    assert!(c.get_invoices_by_status(InvoiceStatus::Pending).is_empty());
    assert_eq!(c.get_invoices_by_status(InvoiceStatus::Verified), vec![invoice_id]);
    assert_eq!(c.get_available_invoices(), vec![invoice_id]);

    c.cancel_invoice(business, invoice_id).unwrap();
    assert!(c.get_invoices_by_status(InvoiceStatus::Verified).is_empty());
    assert_eq!(c.get_invoices_by_status(InvoiceStatus::Cancelled), vec![invoice_id]);
}

#[test]
fn test_invoice_ratings() {
    let mut c = QuickLendXContract::new();
    let business: Address = 10;
    let rater: Address = 40;
    let invoice_id = c
        .store_invoice(
            business,
            1_000,
            500,
            NOW + DAY,
            "rated".to_string(),
            InvoiceCategory::Services,
            Vec::new(),
            NOW,
        )
        .unwrap();

    let bad = c.add_invoice_rating(invoice_id, 6, "too high".to_string(), rater, NOW);
    assert_eq!(bad.err().unwrap(), QuickLendXError::InvalidAmount);

    c.add_invoice_rating(invoice_id, 4, "good".to_string(), rater, NOW)
        .unwrap();
    c.add_invoice_rating(invoice_id, 5, "great".to_string(), rater, NOW + 1)
        .unwrap();

    let (avg, total, hi, lo) = c.get_invoice_rating_stats(invoice_id).unwrap();
    assert_eq!(avg, Some(4));
    assert_eq!(total, 2);
    assert_eq!(hi, Some(5));
    assert_eq!(lo, Some(4));
    assert_eq!(c.get_invoices_with_ratings_count(), 1);
    assert_eq!(c.get_invoices_with_rating_above(4), vec![invoice_id]);
    assert!(c.get_invoices_with_rating_above(5).is_empty());
    assert_eq!(c.get_business_rated_invoices(business, 4), vec![invoice_id]);
}

#[test]
fn test_category_and_tag_counts() {
    let mut c = QuickLendXContract::new();
    let business: Address = 10;
    for k in 0..3i128 {
        c.store_invoice(
            business,
            100 + k,
            500,
            NOW + DAY,
            format!("invoice {}", k),
            if k < 2 {
                InvoiceCategory::Services
            } else {
                InvoiceCategory::Products
            },
            vec!["tagged".to_string()],
            NOW,
        )
        .unwrap();
    }
    assert_eq!(c.get_invoice_count_by_category(InvoiceCategory::Services), 2);
    assert_eq!(c.get_invoice_count_by_category(InvoiceCategory::Products), 1);
    assert_eq!(c.get_invoice_count_by_category(InvoiceCategory::Goods), 0);
    assert_eq!(c.get_invoice_count_by_tag(&"tagged".to_string()), 3);
    assert_eq!(c.get_invoice_count_by_tag(&"missing".to_string()), 0);

    c.add_invoice_tag(business, 0, "extra".to_string()).unwrap();
    let both = c.get_invoices_by_tags(&vec!["tagged".to_string(), "extra".to_string()]);
    assert_eq!(both, vec![0]);
    assert_eq!(c.get_all_categories().len(), 5);
}
