//! Why a verification was rejected.

use vstd::prelude::*;
use vstd::string::StringExecFns;

verus! {

/// The classification of a verification rejection — the single source of truth
/// for rejection reasons. It is chosen at the rejection site, with
/// [`VerifyError::new`].
///
/// `#[non_exhaustive]`: the category set grows over time, so downstream
/// matches must carry a wildcard arm — new categories are then additive, not
/// breaking.
#[non_exhaustive]
#[derive(Debug, Clone, Copy, PartialEq, Eq, Hash, Structural)]
pub enum ErrorCategory {
    QuoteParse,
    CollateralParse,
    QuoteSignatureInvalid,
    QeReportSignatureInvalid,
    QeBindingInvalid,
    QeVendorInvalid,
    QeIdentitySignatureInvalid,
    QeIdentityStale,
    QeIdentityMismatch,
    TcbInfoSignatureInvalid,
    TcbInfoStale,
    CertOrCrlTimeInvalid,
    CrlInvalid,
    RootCaUntrusted,
    TcbLevelUnsupported,
    TcbStandingRejected,
    MrenclaveMismatch,
    DebugEnclaveRejected,
}

impl ErrorCategory {
    /// The stable slug of this category.
    pub open spec fn slug(self) -> Seq<char> {
        match self {
            Self::QuoteParse => "quote-parse-error"@,
            Self::CollateralParse => "collateral-parse-error"@,
            Self::QuoteSignatureInvalid => "quote-signature-invalid"@,
            Self::QeReportSignatureInvalid => "qe-report-signature-invalid"@,
            Self::QeBindingInvalid => "qe-binding-invalid"@,
            Self::QeVendorInvalid => "qe-vendor-invalid"@,
            Self::QeIdentitySignatureInvalid => "qe-identity-signature-invalid"@,
            Self::QeIdentityStale => "qe-identity-stale"@,
            Self::QeIdentityMismatch => "qe-identity-mismatch"@,
            Self::TcbInfoSignatureInvalid => "tcb-info-signature-invalid"@,
            Self::TcbInfoStale => "tcb-info-stale"@,
            Self::CertOrCrlTimeInvalid => "cert-or-crl-time-invalid"@,
            Self::CrlInvalid => "crl-invalid"@,
            Self::RootCaUntrusted => "root-ca-untrusted"@,
            Self::TcbLevelUnsupported => "tcb-level-unsupported"@,
            Self::TcbStandingRejected => "tcb-standing-rejected"@,
            Self::MrenclaveMismatch => "mrenclave-mismatch"@,
            Self::DebugEnclaveRejected => "debug-enclave-rejected"@,
        }
    }

    /// The stable slug used in fixture `meta.json` and in error display. The
    /// exhaustive match means a new variant cannot be added without giving it a
    /// slug here — it will not compile otherwise.
    pub fn as_str(self) -> (slug: &'static str)
        ensures
            slug@ == self.slug(),
    {
        match self {
            Self::QuoteParse => "quote-parse-error",
            Self::CollateralParse => "collateral-parse-error",
            Self::QuoteSignatureInvalid => "quote-signature-invalid",
            Self::QeReportSignatureInvalid => "qe-report-signature-invalid",
            Self::QeBindingInvalid => "qe-binding-invalid",
            Self::QeVendorInvalid => "qe-vendor-invalid",
            Self::QeIdentitySignatureInvalid => "qe-identity-signature-invalid",
            Self::QeIdentityStale => "qe-identity-stale",
            Self::QeIdentityMismatch => "qe-identity-mismatch",
            Self::TcbInfoSignatureInvalid => "tcb-info-signature-invalid",
            Self::TcbInfoStale => "tcb-info-stale",
            Self::CertOrCrlTimeInvalid => "cert-or-crl-time-invalid",
            Self::CrlInvalid => "crl-invalid",
            Self::RootCaUntrusted => "root-ca-untrusted",
            Self::TcbLevelUnsupported => "tcb-level-unsupported",
            Self::TcbStandingRejected => "tcb-standing-rejected",
            Self::MrenclaveMismatch => "mrenclave-mismatch",
            Self::DebugEnclaveRejected => "debug-enclave-rejected",
        }
    }

    /// The slug as an owned text: how a category is displayed.
    pub fn to_string(&self) -> (text: String)
        ensures
            text@ == self.slug(),
    {
        self.as_str().to_owned()
    }
}

/// What a [`VerifyError`] says: its category and the text of its detail.
pub ghost struct Rejection {
    pub category: ErrorCategory,
    pub detail: Seq<char>,
}

/// A rejection under `category` with the text `detail`.
pub open spec fn rejection(category: ErrorCategory, detail: Seq<char>) -> Rejection {
    Rejection { category, detail }
}

/// A verification rejection: a machine-checkable [`ErrorCategory`] plus a
/// human-readable detail specific enough to debug the failure. The category is
/// chosen at the rejection site via [`VerifyError::new`], so — unlike a separate
/// variant-to-category mapping — it cannot be silently mis-mapped.
#[derive(Debug)]
pub struct VerifyError {
    pub category: ErrorCategory,
    pub detail: String,
}

impl View for VerifyError {
    type V = Rejection;

    open spec fn view(&self) -> Rejection {
        rejection(self.category, self.detail@)
    }
}

impl VerifyError {
    pub fn new(category: ErrorCategory, detail: String) -> (error: Self)
        ensures
            error@ == rejection(category, detail@),
    {
        VerifyError { category, detail }
    }

    /// How a rejection is displayed: the category's slug in brackets, then the detail.
    pub fn to_string(&self) -> (text: String)
        ensures
            text@ == "["@ + self.category.slug() + "] "@ + self.detail@,
    {
        "[".to_owned().concat(self.category.as_str()).concat("] ").concat(self.detail.as_str())
    }
}

/// The outcome of a check that returns nothing, with its rejection by its content.
pub open spec fn verdict(result: Result<(), VerifyError>) -> Option<Rejection> {
    match result {
        Ok(_) => None,
        Err(e) => Some(e@),
    }
}

/// The outcome of a check that returns a value, with the value and the rejection by their
/// contents.
pub open spec fn outcome<Value: View>(result: Result<Value, VerifyError>) -> Result<
    Value::V,
    Rejection,
> {
    match result {
        Ok(value) => Ok(value@),
        Err(e) => Err(e@),
    }
}

/// The fault of a first check or, when it has none, of a second.
pub open spec fn either(first: Option<Rejection>, second: Option<Rejection>) -> Option<Rejection> {
    match first {
        Some(fault) => Some(fault),
        None => second,
    }
}

/// The first fault that `faults` names among the items before `n`.
pub open spec fn first_fault(n: nat, faults: spec_fn(int) -> Option<Rejection>) -> Option<
    Rejection,
>
    decreases n,
{
    if n == 0 {
        None
    } else {
        match first_fault((n - 1) as nat, faults) {
            Some(fault) => Some(fault),
            None => faults(n - 1),
        }
    }
}

/// A fault found among the first items is the first fault of all.
pub proof fn lemma_first_fault_stays(
    m: nat,
    n: nat,
    faults: spec_fn(int) -> Option<Rejection>,
)
    requires
        m <= n,
        first_fault(m, faults) is Some,
    ensures
        first_fault(n, faults) == first_fault(m, faults),
    decreases n,
{
    if m < n {
        lemma_first_fault_stays(m, (n - 1) as nat, faults);
    }
}

/// There is no first fault exactly when no item has one.
pub proof fn lemma_no_first_fault(n: nat, faults: spec_fn(int) -> Option<Rejection>)
    ensures
        first_fault(n, faults) is None <==> forall|i: int|
            0 <= i < n ==> #[trigger] faults(i) is None,
    decreases n,
{
    if n > 0 {
        lemma_no_first_fault((n - 1) as nat, faults);
        if first_fault(n, faults) is Some && first_fault((n - 1) as nat, faults) is None {
            assert(faults(n - 1) is Some);
        }
    }
}

/// The length and the sixth character of a category's slug, which tell all slugs apart.
spec fn slug_shape(category: ErrorCategory) -> (nat, char) {
    match category {
        ErrorCategory::QuoteParse => (17nat, '-'),
        ErrorCategory::CollateralParse => (22nat, 't'),
        ErrorCategory::QuoteSignatureInvalid => (23nat, '-'),
        ErrorCategory::QeReportSignatureInvalid => (27nat, 'p'),
        ErrorCategory::QeBindingInvalid => (18nat, 'n'),
        ErrorCategory::QeVendorInvalid => (17nat, 'n'),
        ErrorCategory::QeIdentitySignatureInvalid => (29nat, 'e'),
        ErrorCategory::QeIdentityStale => (17nat, 'e'),
        ErrorCategory::QeIdentityMismatch => (20nat, 'e'),
        ErrorCategory::TcbInfoSignatureInvalid => (26nat, 'n'),
        ErrorCategory::TcbInfoStale => (14nat, 'n'),
        ErrorCategory::CertOrCrlTimeInvalid => (24nat, 'o'),
        ErrorCategory::CrlInvalid => (11nat, 'n'),
        ErrorCategory::RootCaUntrusted => (17nat, 'c'),
        ErrorCategory::TcbLevelUnsupported => (21nat, 'e'),
        ErrorCategory::TcbStandingRejected => (21nat, 't'),
        ErrorCategory::MrenclaveMismatch => (18nat, 'l'),
        ErrorCategory::DebugEnclaveRejected => (22nat, '-'),
    }
}

proof fn lemma_slug_shape(category: ErrorCategory)
    ensures
        slug_shape(category) == (category.slug().len(), category.slug()[5]),
{
    match category {
        ErrorCategory::QuoteParse => {
            reveal_strlit("quote-parse-error");
            assert("quote-parse-error"@[5] == '-');
        },
        ErrorCategory::CollateralParse => {
            reveal_strlit("collateral-parse-error");
            assert("collateral-parse-error"@[5] == 't');
        },
        ErrorCategory::QuoteSignatureInvalid => {
            reveal_strlit("quote-signature-invalid");
            assert("quote-signature-invalid"@[5] == '-');
        },
        ErrorCategory::QeReportSignatureInvalid => {
            reveal_strlit("qe-report-signature-invalid");
            assert("qe-report-signature-invalid"@[5] == 'p');
        },
        ErrorCategory::QeBindingInvalid => {
            reveal_strlit("qe-binding-invalid");
            assert("qe-binding-invalid"@[5] == 'n');
        },
        ErrorCategory::QeVendorInvalid => {
            reveal_strlit("qe-vendor-invalid");
            assert("qe-vendor-invalid"@[5] == 'n');
        },
        ErrorCategory::QeIdentitySignatureInvalid => {
            reveal_strlit("qe-identity-signature-invalid");
            assert("qe-identity-signature-invalid"@[5] == 'e');
        },
        ErrorCategory::QeIdentityStale => {
            reveal_strlit("qe-identity-stale");
            assert("qe-identity-stale"@[5] == 'e');
        },
        ErrorCategory::QeIdentityMismatch => {
            reveal_strlit("qe-identity-mismatch");
            assert("qe-identity-mismatch"@[5] == 'e');
        },
        ErrorCategory::TcbInfoSignatureInvalid => {
            reveal_strlit("tcb-info-signature-invalid");
            assert("tcb-info-signature-invalid"@[5] == 'n');
        },
        ErrorCategory::TcbInfoStale => {
            reveal_strlit("tcb-info-stale");
            assert("tcb-info-stale"@[5] == 'n');
        },
        ErrorCategory::CertOrCrlTimeInvalid => {
            reveal_strlit("cert-or-crl-time-invalid");
            assert("cert-or-crl-time-invalid"@[5] == 'o');
        },
        ErrorCategory::CrlInvalid => {
            reveal_strlit("crl-invalid");
            assert("crl-invalid"@[5] == 'n');
        },
        ErrorCategory::RootCaUntrusted => {
            reveal_strlit("root-ca-untrusted");
            assert("root-ca-untrusted"@[5] == 'c');
        },
        ErrorCategory::TcbLevelUnsupported => {
            reveal_strlit("tcb-level-unsupported");
            assert("tcb-level-unsupported"@[5] == 'e');
        },
        ErrorCategory::TcbStandingRejected => {
            reveal_strlit("tcb-standing-rejected");
            assert("tcb-standing-rejected"@[5] == 't');
        },
        ErrorCategory::MrenclaveMismatch => {
            reveal_strlit("mrenclave-mismatch");
            assert("mrenclave-mismatch"@[5] == 'l');
        },
        ErrorCategory::DebugEnclaveRejected => {
            reveal_strlit("debug-enclave-rejected");
            assert("debug-enclave-rejected"@[5] == '-');
        },
    }
}

/// A slug identifies its category: no two categories share one.
pub proof fn slugs_identify_categories(a: ErrorCategory, b: ErrorCategory)
    requires
        a.slug() == b.slug(),
    ensures
        a == b,
{
    lemma_slug_shape(a);
    lemma_slug_shape(b);
}

/// What is reported of items is the fault of the first that has one.
pub proof fn the_first_fault_is_reported(n: nat, faults: spec_fn(int) -> Option<Rejection>)
    ensures
        first_fault(n, faults) is Some ==> exists|i: int|
            0 <= i < n && #[trigger] faults(i) == first_fault(n, faults) && forall|j: int|
                0 <= j < i ==> #[trigger] faults(j) is None,
        forall|i: int|
            0 <= i < n && #[trigger] faults(i) is Some && (forall|j: int|
                0 <= j < i ==> #[trigger] faults(j) is None) ==> first_fault(n, faults) == faults(
                i,
            ),
    decreases n,
{
    if n > 0 {
        let m = (n - 1) as nat;
        the_first_fault_is_reported(m, faults);
        lemma_no_first_fault(m, faults);
        if first_fault(n, faults) is Some && first_fault(m, faults) is None {
            assert(faults(n - 1) == first_fault(n, faults));
        }
    }
}

/// A rejection is displayed with its category, as it was given.
pub proof fn rejections_keep_category_and_detail(category: ErrorCategory, detail: Seq<char>)
    ensures
        rejection(category, detail).category == category,
        rejection(category, detail).detail == detail,
{
}

} // verus!
