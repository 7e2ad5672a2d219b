//! The error taxonomy shared by every operation: validation, authorization,
//! state, and not-found failures are all returned as explicit values.

use vstd::prelude::*;

verus! {

/// Why an operation was rejected.  Every rejection is reported through this
/// enum; no operation panics on bad input.
#[derive(Clone, Copy, Debug, PartialEq, Eq, Structural)]
pub enum QuickLendXError {
    /// An amount (invoice amount, bid amount, payment, premium) was not
    /// positive or exceeded a permitted limit.
    InvalidAmount,
    /// An invoice's due date was not strictly in the future at creation.
    InvoiceDueDateInvalid,
    /// A required text field (description, metadata field) was empty.
    InvalidDescription,
    /// The named invoice identifier does not exist.
    InvoiceNotFound,
    /// The entity is not in a status that permits the operation.
    InvalidStatus,
    /// The caller is not the party whose authorization the operation needs.
    Unauthorized,
    /// The operation is not allowed in the present state: a re-entrant
    /// money-moving call, a withdrawal of a non-placed bid, or a second
    /// active insurance entry.
    OperationNotAllowed,
    /// The named bid, escrow, or investment identifier does not exist.
    StorageKeyNotFound,
    /// The caller is not the configured administrator, or none is configured.
    NotAdmin,
    /// The administrator was already initialized.
    AdminAlreadyInitialized,
    /// The business or investor has no verified KYC record.
    BusinessNotVerified,
    /// A KYC application is already pending for this party.
    KYCAlreadyPending,
    /// The invoice currency is not on the allow-list.
    CurrencyNotAllowed,
    /// The due date plus grace period has not elapsed yet.
    InvoiceNotDue,
    /// The dispute creator is neither the invoice's business nor its investor.
    DisputeNotAuthorized,
    /// A dispute already exists for this invoice.
    DisputeAlreadyExists,
    /// No dispute exists for this invoice.
    DisputeNotFound,
    /// The dispute is not under review, so it cannot be resolved.
    DisputeNotUnderReview,
    /// A dispute reason or resolution text was empty or over 500 characters.
    InvalidDisputeReason,
    /// Dispute evidence text was empty or over 1000 characters.
    InvalidDisputeEvidence,
    /// An insurance coverage percentage was outside (0, 100].
    InvalidCoveragePercentage,
}

impl QuickLendXError {
    /// A short human-readable name for the error.
    pub fn message(&self) -> (r: &'static str) {
        match self {
            QuickLendXError::InvalidAmount => "invalid amount",
            QuickLendXError::InvoiceDueDateInvalid => "due date not in the future",
            QuickLendXError::InvalidDescription => "invalid description",
            QuickLendXError::InvoiceNotFound => "invoice not found",
            QuickLendXError::InvalidStatus => "invalid status",
            QuickLendXError::Unauthorized => "unauthorized",
            QuickLendXError::OperationNotAllowed => "operation not allowed",
            QuickLendXError::StorageKeyNotFound => "storage key not found",
            QuickLendXError::NotAdmin => "not admin",
            QuickLendXError::AdminAlreadyInitialized => "admin already initialized",
            QuickLendXError::BusinessNotVerified => "not verified",
            QuickLendXError::KYCAlreadyPending => "kyc application already pending",
            QuickLendXError::CurrencyNotAllowed => "currency not allowed",
            QuickLendXError::InvoiceNotDue => "grace period has not elapsed",
            QuickLendXError::DisputeNotAuthorized => "dispute not authorized",
            QuickLendXError::DisputeAlreadyExists => "dispute already exists",
            QuickLendXError::DisputeNotFound => "dispute not found",
            QuickLendXError::DisputeNotUnderReview => "dispute not under review",
            QuickLendXError::InvalidDisputeReason => "invalid dispute reason",
            QuickLendXError::InvalidDisputeEvidence => "invalid dispute evidence",
            QuickLendXError::InvalidCoveragePercentage => "invalid coverage percentage",
        }
    }
}

} // verus!
