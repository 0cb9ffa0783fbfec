use dcap_verify::{ErrorCategory, VerifyError};

// Display is the slug — rejection messages must name their category.
#[test]
fn display_matches_the_stable_slug() {
    assert_eq!(ErrorCategory::QuoteParse.to_string(), "quote-parse-error");
    assert_eq!(
        ErrorCategory::DebugEnclaveRejected.to_string(),
        "debug-enclave-rejected"
    );
    assert_eq!(
        ErrorCategory::TcbStandingRejected.to_string(),
        "tcb-standing-rejected"
    );
}

#[test]
fn every_category_has_its_slug() {
    let slugs = [
        (ErrorCategory::QuoteParse, "quote-parse-error"),
        (ErrorCategory::CollateralParse, "collateral-parse-error"),
        (ErrorCategory::QuoteSignatureInvalid, "quote-signature-invalid"),
        (
            ErrorCategory::QeReportSignatureInvalid,
            "qe-report-signature-invalid",
        ),
        (ErrorCategory::QeBindingInvalid, "qe-binding-invalid"),
        (ErrorCategory::QeVendorInvalid, "qe-vendor-invalid"),
        (
            ErrorCategory::QeIdentitySignatureInvalid,
            "qe-identity-signature-invalid",
        ),
        (ErrorCategory::QeIdentityStale, "qe-identity-stale"),
        (ErrorCategory::QeIdentityMismatch, "qe-identity-mismatch"),
        (
            ErrorCategory::TcbInfoSignatureInvalid,
            "tcb-info-signature-invalid",
        ),
        (ErrorCategory::TcbInfoStale, "tcb-info-stale"),
        (ErrorCategory::CertOrCrlTimeInvalid, "cert-or-crl-time-invalid"),
        (ErrorCategory::CrlInvalid, "crl-invalid"),
        (ErrorCategory::RootCaUntrusted, "root-ca-untrusted"),
        (ErrorCategory::TcbLevelUnsupported, "tcb-level-unsupported"),
        (ErrorCategory::TcbStandingRejected, "tcb-standing-rejected"),
        (ErrorCategory::MrenclaveMismatch, "mrenclave-mismatch"),
        (ErrorCategory::DebugEnclaveRejected, "debug-enclave-rejected"),
    ];
    for (category, slug) in slugs {
        assert_eq!(category.as_str(), slug);
    }
}

#[test]
fn an_error_displays_its_category_and_detail() {
    let e = VerifyError::new(ErrorCategory::CrlInvalid, "no CRL block present".to_string());
    assert_eq!(e.to_string(), "[crl-invalid] no CRL block present");
}
