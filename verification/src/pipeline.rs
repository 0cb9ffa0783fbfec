//! Comparing this verifier with Intel's QVL on one input: how each outcome is named, how the pair
//! is classified, and what a run's tally amounts to.

use vstd::prelude::*;
use vstd::string::StringExecFns;

use crate::clock::{self, read_back};
use crate::error::ErrorCategory;
use crate::pki::INTEL_SGX_ROOT_CA_PUBLIC_KEY_SEC1;
use crate::standing::{StandingView, TcbStanding};
use crate::text::{self, contains, decimal_u64};
use crate::types::collateral::{CollateralView, SgxCollateral};
use crate::types::quote::{self, peek_mrenclave, SgxQuote};
use crate::verify::{self, verify_at};

verus! {

/// What this verifier made of an input.
#[derive(Debug)]
pub enum DcapOutcome {
    Accept(TcbStanding),
    Reject { category: ErrorCategory, detail: String },
    Panic(String),
}

/// What a [`DcapOutcome`] says.
#[verifier::ext_equal]
pub ghost enum DcapView {
    Accept(StandingView),
    Reject { category: ErrorCategory, detail: Seq<char> },
    Panic(Seq<char>),
}

impl View for DcapOutcome {
    type V = DcapView;

    open spec fn view(&self) -> DcapView {
        match self {
            DcapOutcome::Accept(standing) => DcapView::Accept(standing@),
            DcapOutcome::Reject { category, detail } => DcapView::Reject {
                category: *category,
                detail: detail@,
            },
            DcapOutcome::Panic(message) => DcapView::Panic(message@),
        }
    }
}

/// The name of a standing.
pub open spec fn standing_name(standing: StandingView) -> Seq<char> {
    match standing {
        StandingView::UpToDate => "up-to-date"@,
        StandingView::SWHardeningNeeded { .. } => "sw-hardening-needed"@,
        StandingView::ConfigurationAndSWHardeningNeeded { .. }
            => "configuration-and-sw-hardening-needed"@,
    }
}

pub fn standing_slug(standing: &TcbStanding) -> (slug: &'static str)
    ensures
        slug@ == standing_name(standing@),
{
    match standing {
        TcbStanding::UpToDate => "up-to-date",
        TcbStanding::SWHardeningNeeded { .. } => "sw-hardening-needed",
        TcbStanding::ConfigurationAndSWHardeningNeeded { .. }
            => "configuration-and-sw-hardening-needed",
    }
}

impl DcapView {
    /// How the outcome is named in a report.
    pub open spec fn name(self) -> Seq<char> {
        match self {
            DcapView::Accept(standing) => "accept("@ + standing_name(standing) + ")"@,
            DcapView::Reject { category, .. } => "reject("@ + category.slug() + ")"@,
            DcapView::Panic(_) => "panic"@,
        }
    }
}

impl DcapOutcome {
    pub fn label(&self) -> (label: String)
        ensures
            label@ == self@.name(),
    {
        match self {
            DcapOutcome::Accept(standing) => "accept(".to_owned().concat(
                standing_slug(standing),
            ).concat(")"),
            DcapOutcome::Reject { category, .. } => "reject(".to_owned().concat(
                category.as_str(),
            ).concat(")"),
            DcapOutcome::Panic(_) => "panic".to_owned(),
        }
    }
}

/// QVL's verdict on a quote. The ones it accepts under are told apart; any other goes by its name.
#[derive(Debug, Clone, PartialEq, Eq)]
pub enum QvlResult {
    Passed,
    SwHardeningNeeded,
    ConfigAndSwHardeningNeeded,
    Other(String),
}

/// What a [`QvlResult`] says.
#[verifier::ext_equal]
pub ghost enum QvlResultView {
    Passed,
    SwHardeningNeeded,
    ConfigAndSwHardeningNeeded,
    Other(Seq<char>),
}

impl View for QvlResult {
    type V = QvlResultView;

    open spec fn view(&self) -> QvlResultView {
        match self {
            QvlResult::Passed => QvlResultView::Passed,
            QvlResult::SwHardeningNeeded => QvlResultView::SwHardeningNeeded,
            QvlResult::ConfigAndSwHardeningNeeded => QvlResultView::ConfigAndSwHardeningNeeded,
            QvlResult::Other(name) => QvlResultView::Other(name@),
        }
    }
}

impl QvlResultView {
    /// QVL's own name for the verdict.
    pub open spec fn name(self) -> Seq<char> {
        match self {
            QvlResultView::Passed => "SGX_QL_QV_RESULT_OK"@,
            QvlResultView::SwHardeningNeeded => "SGX_QL_QV_RESULT_SW_HARDENING_NEEDED"@,
            QvlResultView::ConfigAndSwHardeningNeeded
                => "SGX_QL_QV_RESULT_CONFIG_AND_SW_HARDENING_NEEDED"@,
            QvlResultView::Other(name) => name,
        }
    }
}

impl QvlResult {
    /// QVL's own name for the verdict.
    pub fn label(&self) -> (label: &str)
        ensures
            label@ == self@.name(),
    {
        match self {
            QvlResult::Passed => "SGX_QL_QV_RESULT_OK",
            QvlResult::SwHardeningNeeded => "SGX_QL_QV_RESULT_SW_HARDENING_NEEDED",
            QvlResult::ConfigAndSwHardeningNeeded
                => "SGX_QL_QV_RESULT_CONFIG_AND_SW_HARDENING_NEEDED",
            QvlResult::Other(name) => name.as_str(),
        }
    }
}

/// What QVL made of an input: why it was not run, the name of its error, or its verdict.
#[derive(Debug)]
pub enum QvlOutcome {
    NotRun(String),
    Error(String),
    Verdict { exp_status: u32, result: QvlResult },
}

/// What a [`QvlOutcome`] says.
#[verifier::ext_equal]
pub ghost enum QvlView {
    NotRun(Seq<char>),
    Error(Seq<char>),
    Verdict { exp_status: u32, result: QvlResultView },
}

impl View for QvlOutcome {
    type V = QvlView;

    open spec fn view(&self) -> QvlView {
        match self {
            QvlOutcome::NotRun(reason) => QvlView::NotRun(reason@),
            QvlOutcome::Error(code) => QvlView::Error(code@),
            QvlOutcome::Verdict { exp_status, result } => QvlView::Verdict {
                exp_status: *exp_status,
                result: result@,
            },
        }
    }
}

impl QvlView {
    /// How the outcome is named in a report.
    pub open spec fn name(self) -> Seq<char> {
        match self {
            QvlView::NotRun(reason) => "not-run("@ + reason + ")"@,
            QvlView::Error(code) => "err("@ + code + ")"@,
            QvlView::Verdict { exp_status, result } => "exp="@ + text::decimal(exp_status as int)
                + " "@ + result.name(),
        }
    }
}

impl QvlOutcome {
    pub fn label(&self) -> (label: String)
        ensures
            label@ == self@.name(),
    {
        match self {
            QvlOutcome::NotRun(reason) => "not-run(".to_owned().concat(reason.as_str()).concat(
                ")",
            ),
            QvlOutcome::Error(code) => "err(".to_owned().concat(code.as_str()).concat(")"),
            QvlOutcome::Verdict { exp_status, result } => "exp=".to_owned().concat(
                decimal_u64(*exp_status as u64).as_str(),
            ).concat(" ").concat(result.label()),
        }
    }

    /// The outcome of collateral that could not be handed to QVL.
    pub fn marshal_failed(reason: &str) -> (outcome: Self)
        ensures
            outcome@ == QvlView::NotRun("marshal-failed: "@ + reason@),
    {
        QvlOutcome::NotRun("marshal-failed: ".to_owned().concat(reason))
    }
}

/// What this verifier makes of a quote and of collateral that was decoded or was not, at
/// `current_time`: collateral that did not decode is rejected first, then a quote that does not
/// parse. The quote's own measurement is pinned and no round is too old, so that neither gate can
/// reject.
pub open spec fn dcap_view(
    quote_bytes: Seq<u8>,
    collateral: Result<CollateralView, Seq<char>>,
    current_time: i64,
) -> DcapView {
    match collateral {
        Err(e) => DcapView::Reject {
            category: ErrorCategory::CollateralParse,
            detail: "collateral JSON: "@ + e,
        },
        Ok(collateral) => match quote::quote_fault(quote_bytes) {
            Some(fault) => DcapView::Reject { category: fault.category, detail: fault.detail },
            None => match verify::attestation_outcome(
                INTEL_SGX_ROOT_CA_PUBLIC_KEY_SEC1@,
                clock::signed_seconds(clock::distance_of(current_time)),
                collateral,
                quote::quote_fields(quote_bytes),
                quote_bytes.subrange(112, 144),
                0,
            ) {
                Ok(standing) => DcapView::Accept(standing),
                Err(fault) => DcapView::Reject {
                    category: fault.category,
                    detail: fault.detail,
                },
            },
        },
    }
}

/// Runs this verifier on a quote and on collateral that was decoded or was not.
pub fn dcap_outcome(
    quote_bytes: &[u8],
    collateral: Result<SgxCollateral, String>,
    current_time: i64,
) -> (outcome: DcapOutcome)
    ensures
        outcome@ == dcap_view(
            quote_bytes@,
            match collateral {
                Ok(c) => Ok::<CollateralView, Seq<char>>(c@),
                Err(e) => Err(e@),
            },
            current_time,
        ),
{
    let collateral = match collateral {
        Ok(collateral) => collateral,
        Err(e) => {
            return DcapOutcome::Reject {
                category: ErrorCategory::CollateralParse,
                detail: "collateral JSON: ".to_owned().concat(e.as_str()),
            };
        },
    };
    let mut cursor = quote_bytes;
    let quote = match SgxQuote::read(&mut cursor) {
        Ok(quote) => quote,
        Err(e) => {
            return DcapOutcome::Reject { category: e.category, detail: e.detail };
        },
    };
    // Pin the quote's own measurement so the MRENCLAVE gate never fires,
    // and pass 0 to disable the TCB evaluation-round floor; QVL has no
    // equivalent gate for either.
    let expected: [u8; 32] = match peek_mrenclave(quote_bytes) {
        Some(mrenclave) => *mrenclave,
        None => [0;32],
    };
    let anchor = INTEL_SGX_ROOT_CA_PUBLIC_KEY_SEC1;
    match verify_at(&anchor, read_back(current_time), collateral, quote, &expected, 0) {
        Ok((standing, _)) => DcapOutcome::Accept(standing),
        Err(e) => DcapOutcome::Reject { category: e.category, detail: e.detail },
    }
}

/// How two outcomes compare.
#[derive(Debug, Clone, PartialEq, Eq)]
pub enum Bucket {
    AgreeAccept,
    AgreeReject,
    StandingMismatch,
    Dangerous(&'static str),
    KnownDelta(&'static str),
    UnexplainedSafe,
    DcapPanic,
}

/// What a [`Bucket`] says.
#[verifier::ext_equal]
pub ghost enum BucketView {
    AgreeAccept,
    AgreeReject,
    StandingMismatch,
    Dangerous(Seq<char>),
    KnownDelta(Seq<char>),
    UnexplainedSafe,
    DcapPanic,
}

impl View for Bucket {
    type V = BucketView;

    open spec fn view(&self) -> BucketView {
        match self {
            Bucket::AgreeAccept => BucketView::AgreeAccept,
            Bucket::AgreeReject => BucketView::AgreeReject,
            Bucket::StandingMismatch => BucketView::StandingMismatch,
            Bucket::Dangerous(kind) => BucketView::Dangerous(kind@),
            Bucket::KnownDelta(kind) => BucketView::KnownDelta(kind@),
            Bucket::UnexplainedSafe => BucketView::UnexplainedSafe,
            Bucket::DcapPanic => BucketView::DcapPanic,
        }
    }
}

impl BucketView {
    /// How the bucket is named in a report.
    pub open spec fn name(self) -> Seq<char> {
        match self {
            BucketView::AgreeAccept => "agree-accept"@,
            BucketView::AgreeReject => "agree-reject"@,
            BucketView::StandingMismatch => "standing-mismatch"@,
            BucketView::Dangerous(kind) => "DANGEROUS("@ + kind + ")"@,
            BucketView::KnownDelta(kind) => "known-delta("@ + kind + ")"@,
            BucketView::UnexplainedSafe => "unexplained-safe"@,
            BucketView::DcapPanic => "dcap-panic"@,
        }
    }

    /// Whether both verifiers agree.
    pub open spec fn agrees(self) -> bool {
        self is AgreeAccept || self is AgreeReject
    }
}

impl Bucket {
    pub fn label(&self) -> (label: String)
        ensures
            label@ == self@.name(),
    {
        match self {
            Bucket::AgreeAccept => "agree-accept".to_owned(),
            Bucket::AgreeReject => "agree-reject".to_owned(),
            Bucket::StandingMismatch => "standing-mismatch".to_owned(),
            Bucket::Dangerous(kind) => "DANGEROUS(".to_owned().concat(kind).concat(")"),
            Bucket::KnownDelta(kind) => "known-delta(".to_owned().concat(kind).concat(")"),
            Bucket::UnexplainedSafe => "unexplained-safe".to_owned(),
            Bucket::DcapPanic => "dcap-panic".to_owned(),
        }
    }

    pub fn is_agreement(&self) -> (agreement: bool)
        ensures
            agreement == self@.agrees(),
    {
        matches!(self, Bucket::AgreeAccept | Bucket::AgreeReject)
    }

    /// Whether the comparison calls for a look: neither an agreement nor an expected difference.
    pub fn is_finding(&self) -> (finding: bool)
        ensures
            finding == !(self@.agrees() || self@ is KnownDelta),
    {
        matches!(
            self,
            Bucket::StandingMismatch | Bucket::Dangerous(_) | Bucket::UnexplainedSafe
                | Bucket::DcapPanic
        )
    }
}

/// Whether QVL accepts under a verdict.
pub open spec fn accepted_by_qvl(result: QvlResultView) -> bool {
    !(result is Other)
}

fn qvl_accepts(result: &QvlResult) -> (accepts: bool)
    ensures
        accepts == accepted_by_qvl(result@),
{
    matches!(
        result,
        QvlResult::Passed | QvlResult::SwHardeningNeeded | QvlResult::ConfigAndSwHardeningNeeded
    )
}

/// Whether a verdict of QVL and a standing say the same.
pub open spec fn same_standing(result: QvlResultView, standing: StandingView) -> bool {
    match standing {
        StandingView::UpToDate => result is Passed,
        StandingView::SWHardeningNeeded { .. } => result is SwHardeningNeeded,
        StandingView::ConfigurationAndSWHardeningNeeded { .. }
            => result is ConfigAndSwHardeningNeeded,
    }
}

fn standing_matches(result: &QvlResult, standing: &TcbStanding) -> (same: bool)
    ensures
        same == same_standing(result@, standing@),
{
    match standing {
        TcbStanding::UpToDate => matches!(result, QvlResult::Passed),
        TcbStanding::SWHardeningNeeded { .. } => matches!(result, QvlResult::SwHardeningNeeded),
        TcbStanding::ConfigurationAndSWHardeningNeeded { .. } => {
            matches!(result, QvlResult::ConfigAndSwHardeningNeeded)
        },
    }
}

/// Whether the detail of a rejection comes from a document-format gate.
pub open spec fn from_format_gate(detail: Seq<char>) -> bool {
    ||| text::occurs_in(detail, "only version 3 is supported"@)
    ||| text::occurs_in(detail, "only versions 2 and 3 are supported"@)
    ||| text::occurs_in(detail, "only version 2 is supported"@)
    ||| text::occurs_in(detail, "tcbType"@)
}

fn names_format_gate(detail: &str) -> (named: bool)
    ensures
        named == from_format_gate(detail@),
{
    contains(detail, "only version 3 is supported") || contains(
        detail,
        "only versions 2 and 3 are supported",
    ) || contains(detail, "only version 2 is supported") || contains(detail, "tcbType")
}

/// Whether a rejection is one of staleness.
pub open spec fn is_staleness(category: ErrorCategory) -> bool {
    ||| category == ErrorCategory::TcbInfoStale
    ||| category == ErrorCategory::QeIdentityStale
    ||| category == ErrorCategory::CertOrCrlTimeInvalid
}

/// How a rejection compares with an acceptance by QVL, which carries `exp_status`: expected where
/// it comes from the debug gate, from a format gate, or from staleness that QVL reports too.
pub open spec fn stricter(category: ErrorCategory, detail: Seq<char>, exp_status: u32) -> BucketView {
    if category == ErrorCategory::DebugEnclaveRejected {
        BucketView::KnownDelta("debug-gate"@)
    } else if category == ErrorCategory::CollateralParse && from_format_gate(detail) {
        BucketView::KnownDelta("format-gate"@)
    } else if is_staleness(category) && exp_status != 0 {
        BucketView::KnownDelta("expiry-model"@)
    } else {
        BucketView::UnexplainedSafe
    }
}

/// How an acceptance compares with what QVL made of the input. An acceptance on expired collateral
/// is none.
pub open spec fn laxer(standing: StandingView, qvl: QvlView) -> BucketView {
    match qvl {
        QvlView::NotRun(_) => BucketView::Dangerous("qvl-not-run"@),
        QvlView::Error(_) => BucketView::Dangerous("qvl-rejects"@),
        QvlView::Verdict { exp_status, result } => if !accepted_by_qvl(result) {
            BucketView::Dangerous("qvl-rejects"@)
        } else if exp_status != 0 {
            BucketView::Dangerous("qvl-accept-expired"@)
        } else if same_standing(result, standing) {
            BucketView::AgreeAccept
        } else {
            BucketView::StandingMismatch
        },
    }
}

/// How the two outcomes on one input compare.
pub open spec fn classified(dcap: DcapView, qvl: QvlView) -> BucketView {
    match dcap {
        DcapView::Panic(_) => BucketView::DcapPanic,
        DcapView::Accept(standing) => laxer(standing, qvl),
        DcapView::Reject { category, detail } => match qvl {
            QvlView::Verdict { exp_status, result } if accepted_by_qvl(result) => stricter(
                category,
                detail,
                exp_status,
            ),
            _ => BucketView::AgreeReject,
        },
    }
}

/// Compares the two outcomes on one input. QVL not running or failing counts as a rejection.
pub fn classify(dcap: &DcapOutcome, qvl: &QvlOutcome) -> (bucket: Bucket)
    ensures
        bucket@ == classified(dcap@, qvl@),
{
    match dcap {
        DcapOutcome::Panic(_) => Bucket::DcapPanic,
        DcapOutcome::Accept(standing) => match qvl {
            QvlOutcome::NotRun(_) => Bucket::Dangerous("qvl-not-run"),
            QvlOutcome::Error(_) => Bucket::Dangerous("qvl-rejects"),
            QvlOutcome::Verdict { exp_status, result } => {
                if !qvl_accepts(result) {
                    Bucket::Dangerous("qvl-rejects")
                } else if *exp_status != 0 {
                    Bucket::Dangerous("qvl-accept-expired")
                } else if standing_matches(result, standing) {
                    Bucket::AgreeAccept
                } else {
                    Bucket::StandingMismatch
                }
            },
        },
        DcapOutcome::Reject { category, detail } => match qvl {
            QvlOutcome::NotRun(_) => Bucket::AgreeReject,
            QvlOutcome::Error(_) => Bucket::AgreeReject,
            QvlOutcome::Verdict { exp_status, result } => {
                if !qvl_accepts(result) {
                    Bucket::AgreeReject
                } else if *category == ErrorCategory::DebugEnclaveRejected {
                    Bucket::KnownDelta("debug-gate")
                } else if *category == ErrorCategory::CollateralParse && names_format_gate(
                    detail.as_str(),
                ) {
                    Bucket::KnownDelta("format-gate")
                } else if (*category == ErrorCategory::TcbInfoStale || *category
                    == ErrorCategory::QeIdentityStale || *category
                    == ErrorCategory::CertOrCrlTimeInvalid) && *exp_status != 0 {
                    Bucket::KnownDelta("expiry-model")
                } else {
                    Bucket::UnexplainedSafe
                }
            },
        },
    }
}

/// Both outcomes on one input and how they compare.
#[derive(Debug)]
pub struct ComparisonRecord {
    pub dcap: DcapOutcome,
    pub qvl: QvlOutcome,
    pub bucket: Bucket,
}

/// Joins both outcomes on one input with how they compare.
pub fn compare_outcomes(dcap: DcapOutcome, qvl: QvlOutcome) -> (record: ComparisonRecord)
    ensures
        record.dcap == dcap,
        record.qvl == qvl,
        record.bucket@ == classified(dcap@, qvl@),
{
    let bucket = classify(&dcap, &qvl);
    ComparisonRecord { dcap, qvl, bucket }
}

/// Process exit code of a clean run.
pub const EXIT_CLEAN: i32 = 0;

/// Process exit code of a run with an unrecorded divergence, or with a recorded one that vanished.
pub const EXIT_REVIEW: i32 = 10;

/// Process exit code of a run that shows a defect.
pub const EXIT_FAIL: i32 = 20;

/// Running count of comparison buckets, collapsed to a verdict. `standing-mismatch`
/// and `dcap-panic` are unambiguous defects (FAIL); `dangerous` (dcap accepts where
/// QVL rejects) is surfaced for REVIEW; everything
/// else (agreements, known policy deltas, dcap-stricter safe-direction) is CLEAN.
/// A dangerous record matched by the allowlist counts as `dangerous_known`
/// (CLEAN); an in-scope allowlist entry that did not fire counts as `vanished`
/// (REVIEW) so a silently disappearing finding is surfaced too.
#[derive(Debug, Clone, Copy, PartialEq, Eq, Structural)]
pub struct Tally {
    pub agree_accept: u64,
    pub agree_reject: u64,
    pub known_delta: u64,
    pub unexplained_safe: u64,
    pub dangerous: u64,
    pub dangerous_known: u64,
    pub vanished: u64,
    pub standing_mismatch: u64,
    pub dcap_panic: u64,
}

impl Default for Tally {
    fn default() -> (tally: Self)
        ensures
            tally == Tally::zero(),
    {
        Tally {
            agree_accept: 0,
            agree_reject: 0,
            known_delta: 0,
            unexplained_safe: 0,
            dangerous: 0,
            dangerous_known: 0,
            vanished: 0,
            standing_mismatch: 0,
            dcap_panic: 0,
        }
    }
}

impl Tally {
    /// Nothing counted.
    pub open spec fn zero() -> Tally {
        Tally {
            agree_accept: 0,
            agree_reject: 0,
            known_delta: 0,
            unexplained_safe: 0,
            dangerous: 0,
            dangerous_known: 0,
            vanished: 0,
            standing_mismatch: 0,
            dcap_panic: 0,
        }
    }

    /// The count of the buckets of one kind.
    pub open spec fn count(self, bucket: BucketView) -> u64 {
        match bucket {
            BucketView::AgreeAccept => self.agree_accept,
            BucketView::AgreeReject => self.agree_reject,
            BucketView::KnownDelta(_) => self.known_delta,
            BucketView::UnexplainedSafe => self.unexplained_safe,
            BucketView::Dangerous(_) => self.dangerous,
            BucketView::StandingMismatch => self.standing_mismatch,
            BucketView::DcapPanic => self.dcap_panic,
        }
    }

    /// How many records were counted.
    pub open spec fn recorded(self) -> int {
        self.agree_accept + self.agree_reject + self.known_delta + self.unexplained_safe
            + self.dangerous + self.dangerous_known + self.standing_mismatch + self.dcap_panic
    }

    /// The tally with one more of a bucket.
    pub open spec fn with(self, bucket: BucketView) -> Tally {
        match bucket {
            BucketView::AgreeAccept => Tally {
                agree_accept: (self.agree_accept + 1) as u64,
                ..self
            },
            BucketView::AgreeReject => Tally {
                agree_reject: (self.agree_reject + 1) as u64,
                ..self
            },
            BucketView::KnownDelta(_) => Tally {
                known_delta: (self.known_delta + 1) as u64,
                ..self
            },
            BucketView::UnexplainedSafe => Tally {
                unexplained_safe: (self.unexplained_safe + 1) as u64,
                ..self
            },
            BucketView::Dangerous(_) => Tally { dangerous: (self.dangerous + 1) as u64, ..self },
            BucketView::StandingMismatch => Tally {
                standing_mismatch: (self.standing_mismatch + 1) as u64,
                ..self
            },
            BucketView::DcapPanic => Tally { dcap_panic: (self.dcap_panic + 1) as u64, ..self },
        }
    }

    pub fn add(&mut self, bucket: &Bucket)
        requires
            old(self).count(bucket@) < u64::MAX,
        ensures
            *final(self) == old(self).with(bucket@),
    {
        match bucket {
            Bucket::AgreeAccept => {
                self.agree_accept = self.agree_accept + 1;
            },
            Bucket::AgreeReject => {
                self.agree_reject = self.agree_reject + 1;
            },
            Bucket::KnownDelta(_) => {
                self.known_delta = self.known_delta + 1;
            },
            Bucket::UnexplainedSafe => {
                self.unexplained_safe = self.unexplained_safe + 1;
            },
            Bucket::Dangerous(_) => {
                self.dangerous = self.dangerous + 1;
            },
            Bucket::StandingMismatch => {
                self.standing_mismatch = self.standing_mismatch + 1;
            },
            Bucket::DcapPanic => {
                self.dcap_panic = self.dcap_panic + 1;
            },
        }
    }

    /// The exit code that the counts amount to.
    pub open spec fn code(self) -> i32 {
        if self.dcap_panic > 0 || self.standing_mismatch > 0 {
            EXIT_FAIL
        } else if self.dangerous > 0 || self.vanished > 0 {
            EXIT_REVIEW
        } else {
            EXIT_CLEAN
        }
    }

    pub fn exit_code(&self) -> (code: i32)
        ensures
            code == self.code(),
    {
        if self.dcap_panic > 0 || self.standing_mismatch > 0 {
            EXIT_FAIL
        } else if self.dangerous > 0 || self.vanished > 0 {
            EXIT_REVIEW
        } else {
            EXIT_CLEAN
        }
    }

    /// The counts in words.
    pub open spec fn counts_text(self) -> Seq<char> {
        text::decimal(self.agree_accept + self.agree_reject) + " agree ("@ + text::decimal(
            self.agree_accept as int,
        ) + " accept / "@ + text::decimal(self.agree_reject as int) + " reject), "@
            + text::decimal(self.known_delta as int) + " known-delta, "@ + text::decimal(
            self.unexplained_safe as int,
        ) + " safe-direction (dcap stricter), "@ + text::decimal(self.dangerous as int)
            + " dangerous, "@ + text::decimal(self.dangerous_known as int)
            + " known-dangerous (allowlisted), "@ + text::decimal(self.vanished as int)
            + " vanished, "@ + text::decimal(self.standing_mismatch as int)
            + " standing-mismatch, "@ + text::decimal(self.dcap_panic as int) + " panic"@
    }

    /// The one-line verdict.
    pub open spec fn verdict(self) -> Seq<char> {
        if self.code() == EXIT_FAIL {
            "RESULT: FAIL — "@ + text::decimal(self.dcap_panic as int) + " dcap-panic, "@
                + text::decimal(self.standing_mismatch as int)
                + " standing-mismatch (real defect). ["@ + self.counts_text() + "]"@
        } else if self.code() == EXIT_REVIEW {
            "RESULT: REVIEW — "@ + text::decimal(self.dangerous as int)
                + " unrecorded dcap-accept/QVL-reject divergence(s), "@ + text::decimal(
                self.vanished as int,
            )
                + " allowlisted case(s) that no longer reproduce; triage against dcap-differ/FINDINGS.md. ["@
                + self.counts_text() + "]"@
        } else {
            "RESULT: CLEAN — dcap-verify matches Intel QVL (only expected deltas). ["@
                + self.counts_text() + "]"@
        }
    }

    fn counts(&self) -> (counts: String)
        requires
            self.agree_accept + self.agree_reject <= u64::MAX,
        ensures
            counts@ == self.counts_text(),
    {
        decimal_u64(self.agree_accept + self.agree_reject).concat(" agree (").concat(
            decimal_u64(self.agree_accept).as_str(),
        ).concat(" accept / ").concat(decimal_u64(self.agree_reject).as_str()).concat(
            " reject), ",
        ).concat(decimal_u64(self.known_delta).as_str()).concat(" known-delta, ").concat(
            decimal_u64(self.unexplained_safe).as_str(),
        ).concat(" safe-direction (dcap stricter), ").concat(
            decimal_u64(self.dangerous).as_str(),
        ).concat(" dangerous, ").concat(decimal_u64(self.dangerous_known).as_str()).concat(
            " known-dangerous (allowlisted), ",
        ).concat(decimal_u64(self.vanished).as_str()).concat(" vanished, ").concat(
            decimal_u64(self.standing_mismatch).as_str(),
        ).concat(" standing-mismatch, ").concat(decimal_u64(self.dcap_panic).as_str()).concat(
            " panic",
        )
    }

    /// The one-line verdict, whose exit code is [`Tally::exit_code`].
    pub fn verdict_line(&self) -> (line: String)
        requires
            self.agree_accept + self.agree_reject <= u64::MAX,
        ensures
            line@ == self.verdict(),
    {
        let counts = self.counts();
        let code: i32 = self.exit_code();
        if code == EXIT_FAIL {
            "RESULT: FAIL — ".to_owned().concat(decimal_u64(self.dcap_panic).as_str()).concat(
                " dcap-panic, ",
            ).concat(decimal_u64(self.standing_mismatch).as_str()).concat(
                " standing-mismatch (real defect). [",
            ).concat(counts.as_str()).concat("]")
        } else if code == EXIT_REVIEW {
            "RESULT: REVIEW — ".to_owned().concat(decimal_u64(self.dangerous).as_str()).concat(
                " unrecorded dcap-accept/QVL-reject divergence(s), ",
            ).concat(decimal_u64(self.vanished).as_str()).concat(
                " allowlisted case(s) that no longer reproduce; triage against dcap-differ/FINDINGS.md. [",
            ).concat(counts.as_str()).concat("]")
        } else {
            "RESULT: CLEAN — dcap-verify matches Intel QVL (only expected deltas). [".to_owned().concat(
            counts.as_str()).concat("]")
        }
    }

    /// Whether a record counts as a recorded dangerous finding.
    pub open spec fn is_known(bucket: BucketView, recorded: bool) -> bool {
        recorded && bucket is Dangerous
    }

    /// The tally after one record, which may be recorded as dangerous.
    pub open spec fn settled(self, bucket: BucketView, recorded: bool) -> Tally {
        if Tally::is_known(bucket, recorded) {
            Tally { dangerous_known: (self.dangerous_known + 1) as u64, ..self }
        } else {
            self.with(bucket)
        }
    }

    /// Counts one record: a dangerous one that is recorded as such counts as known, and `true` is
    /// returned for it; any other counts under its bucket.
    pub fn settle(&mut self, bucket: &Bucket, recorded: bool) -> (known: bool)
        requires
            old(self).count(bucket@) < u64::MAX,
            old(self).dangerous_known < u64::MAX,
        ensures
            known == Tally::is_known(bucket@, recorded),
            *final(self) == old(self).settled(bucket@, recorded),
    {
        if recorded && matches!(bucket, Bucket::Dangerous(_)) {
            self.dangerous_known = self.dangerous_known + 1;
            true
        } else {
            self.add(bucket);
            false
        }
    }
}

/// A recorded finding that vanished keeps a run from being clean.
pub proof fn vanished_findings_call_for_review(tally: Tally)
    requires
        tally.vanished > 0,
    ensures
        tally.code() != EXIT_CLEAN,
{
}

/// An acceptance that QVL does not share is never passed over: it is dangerous, and a standing
/// that differs is a mismatch.
pub proof fn laxness_is_always_a_finding(standing: StandingView, qvl: QvlView)
    ensures
        ({
            let bucket = classified(DcapView::Accept(standing), qvl);
            &&& bucket is AgreeAccept <==> (qvl matches QvlView::Verdict { exp_status, result }
                && exp_status == 0 && same_standing(result, standing))
            &&& !(bucket is AgreeAccept) ==> bucket is Dangerous || bucket is StandingMismatch
        }),
{
}

/// A rejection is never dangerous: it agrees with QVL, or is stricter than it.
pub proof fn strictness_is_never_dangerous(
    category: ErrorCategory,
    detail: Seq<char>,
    qvl: QvlView,
)
    ensures
        ({
            let bucket = classified(DcapView::Reject { category, detail }, qvl);
            bucket is AgreeReject || bucket is KnownDelta || bucket is UnexplainedSafe
        }),
{
}

/// A panic is always reported as one.
pub proof fn panics_are_always_reported(message: Seq<char>, qvl: QvlView)
    ensures
        classified(DcapView::Panic(message), qvl) is DcapPanic,
{
}

/// A run is clean exactly when it counts no defect, no unrecorded danger and no vanished finding,
/// and a defect always outweighs the rest.
pub proof fn defects_outweigh_the_rest(tally: Tally)
    ensures
        tally.code() == EXIT_CLEAN <==> tally.dcap_panic == 0 && tally.standing_mismatch == 0
            && tally.dangerous == 0 && tally.vanished == 0,
        tally.code() == EXIT_FAIL <==> tally.dcap_panic > 0 || tally.standing_mismatch > 0,
{
}

/// Recorded findings that still occur keep a run clean; the same findings unrecorded do not.
pub proof fn recorded_findings_stay_clean(tally: Tally, kind: Seq<char>)
    requires
        tally.dangerous < u64::MAX,
    ensures
        tally.settled(BucketView::Dangerous(kind), true).code() == tally.code(),
        tally.settled(BucketView::Dangerous(kind), false).code() != EXIT_CLEAN,
{
}

/// An acceptance compares by what QVL said: it agrees for exactly the three pairs of a standing and
/// QVL's verdict of the same name, on collateral that is not expired; another verdict that QVL
/// accepts under is a mismatch; everything else is dangerous, and says why.
pub proof fn acceptances_compare_standing_by_standing(standing: StandingView, qvl: QvlView)
    ensures
        ({
            let bucket = classified(DcapView::Accept(standing), qvl);
            match qvl {
                QvlView::NotRun(_) => bucket == BucketView::Dangerous("qvl-not-run"@),
                QvlView::Error(_) => bucket == BucketView::Dangerous("qvl-rejects"@),
                QvlView::Verdict { exp_status, result } => {
                    let same = {
                        ||| standing is UpToDate && result is Passed
                        ||| standing is SWHardeningNeeded && result is SwHardeningNeeded
                        ||| standing is ConfigurationAndSWHardeningNeeded
                            && result is ConfigAndSwHardeningNeeded
                    };
                    &&& result is Other ==> bucket == BucketView::Dangerous("qvl-rejects"@)
                    &&& !(result is Other) && exp_status != 0 ==> bucket == BucketView::Dangerous(
                        "qvl-accept-expired"@,
                    )
                    &&& exp_status == 0 && same ==> bucket is AgreeAccept
                    &&& exp_status == 0 && !(result is Other) && !same
                        ==> bucket is StandingMismatch
                },
            }
        }),
{
}

/// A rejection agrees with QVL wherever QVL does not accept. Where it does, the rejection is an
/// expected difference for a debug enclave, for collateral that a format gate names, and for
/// staleness on collateral that QVL finds expired too; any other is an unexplained one.
pub proof fn rejections_compare_reason_by_reason(
    category: ErrorCategory,
    detail: Seq<char>,
    qvl: QvlView,
)
    ensures
        ({
            let bucket = classified(DcapView::Reject { category, detail }, qvl);
            let gate = {
                ||| text::occurs_in(detail, "only version 3 is supported"@)
                ||| text::occurs_in(detail, "only versions 2 and 3 are supported"@)
                ||| text::occurs_in(detail, "only version 2 is supported"@)
                ||| text::occurs_in(detail, "tcbType"@)
            };
            let stale = category == ErrorCategory::TcbInfoStale || category
                == ErrorCategory::QeIdentityStale || category
                == ErrorCategory::CertOrCrlTimeInvalid;
            match qvl {
                QvlView::NotRun(_) => bucket is AgreeReject,
                QvlView::Error(_) => bucket is AgreeReject,
                QvlView::Verdict { exp_status, result } => {
                    &&& result is Other ==> bucket is AgreeReject
                    &&& !(result is Other) ==> {
                        &&& category == ErrorCategory::DebugEnclaveRejected ==> bucket
                            == BucketView::KnownDelta("debug-gate"@)
                        &&& category == ErrorCategory::CollateralParse ==> bucket == (if gate {
                            BucketView::KnownDelta("format-gate"@)
                        } else {
                            BucketView::UnexplainedSafe
                        })
                        &&& stale ==> bucket == (if exp_status != 0 {
                            BucketView::KnownDelta("expiry-model"@)
                        } else {
                            BucketView::UnexplainedSafe
                        })
                        &&& category != ErrorCategory::DebugEnclaveRejected && category
                            != ErrorCategory::CollateralParse && !stale
                            ==> bucket is UnexplainedSafe
                    }
                },
            }
        }),
{
}

/// What this verifier makes of an input is what verification makes of it under Intel's root key, at
/// the given time, with the quote's own measurement pinned and no floor. Collateral that did not
/// decode comes first, then a quote that does not parse.
#[verifier::rlimit(40)]
pub proof fn comparisons_run_the_plain_verification(
    quote_bytes: Seq<u8>,
    collateral: Result<CollateralView, Seq<char>>,
    current_time: i64,
)
    requires
        current_time > i64::MIN,
    ensures
        ({
            let view = dcap_view(quote_bytes, collateral, current_time);
            &&& !(view is Panic)
            &&& collateral is Err ==> (view matches DcapView::Reject { category, .. } && category
                == ErrorCategory::CollateralParse)
            &&& collateral is Ok && quote::quote_fault(quote_bytes) is Some ==> (
            view matches DcapView::Reject { category, .. } && category
                == ErrorCategory::QuoteParse)
            &&& collateral is Ok && quote::quote_fault(quote_bytes) is None ==> {
                let quote = quote::quote_fields(quote_bytes);
                match verify::attestation_outcome(
                    INTEL_SGX_ROOT_CA_PUBLIC_KEY_SEC1@,
                    current_time,
                    collateral->Ok_0,
                    quote,
                    quote.report_body.mrenclave,
                    0,
                ) {
                    Ok(standing) => view == DcapView::Accept(standing),
                    Err(fault) => view == (DcapView::Reject {
                        category: fault.category,
                        detail: fault.detail,
                    }),
                }
            }
        }),
{
    quote::quote_faults_are_parse_failures(quote_bytes);
    if quote::quote_fault(quote_bytes) is None {
        quote::peeks_agree_with_the_parser(quote_bytes);
    }
}

/// Outcomes are named after what they are: an acceptance by its standing, a rejection by its
/// category, QVL's verdict by its expiration status and QVL's own name for it.
pub proof fn outcomes_are_named_after_what_they_are(
    advisory_ids: Seq<Seq<char>>,
    category: ErrorCategory,
    detail: Seq<char>,
    exp_status: u32,
    other: Seq<char>,
)
    ensures
        DcapView::Accept(StandingView::UpToDate).name() == "accept("@ + "up-to-date"@ + ")"@,
        DcapView::Accept(StandingView::SWHardeningNeeded { advisory_ids }).name() == "accept("@
            + "sw-hardening-needed"@ + ")"@,
        DcapView::Accept(StandingView::ConfigurationAndSWHardeningNeeded { advisory_ids }).name()
            == "accept("@ + "configuration-and-sw-hardening-needed"@ + ")"@,
        (DcapView::Reject { category, detail }).name() == "reject("@ + category.slug() + ")"@,
        DcapView::Panic(detail).name() == "panic"@,
        QvlView::NotRun(other).name() == "not-run("@ + other + ")"@,
        QvlView::Error(other).name() == "err("@ + other + ")"@,
        (QvlView::Verdict { exp_status, result: QvlResultView::Passed }).name() == "exp="@
            + text::decimal(exp_status as int) + " "@ + "SGX_QL_QV_RESULT_OK"@,
        (QvlView::Verdict { exp_status, result: QvlResultView::SwHardeningNeeded }).name()
            == "exp="@ + text::decimal(exp_status as int) + " "@
            + "SGX_QL_QV_RESULT_SW_HARDENING_NEEDED"@,
        (QvlView::Verdict {
            exp_status,
            result: QvlResultView::ConfigAndSwHardeningNeeded,
        }).name() == "exp="@ + text::decimal(exp_status as int) + " "@
            + "SGX_QL_QV_RESULT_CONFIG_AND_SW_HARDENING_NEEDED"@,
        (QvlView::Verdict { exp_status, result: QvlResultView::Other(other) }).name() == "exp="@
            + text::decimal(exp_status as int) + " "@ + other,
{
}

/// What an outcome, a verdict and a bucket are taken to say is the variant that they are.
pub proof fn comparisons_show_their_variants(
    dcap: DcapOutcome,
    qvl: QvlOutcome,
    result: QvlResult,
    bucket: Bucket,
)
    ensures
        match dcap {
            DcapOutcome::Accept(standing) => dcap@ == DcapView::Accept(standing@),
            DcapOutcome::Reject { category, detail } => dcap@ == (DcapView::Reject {
                category,
                detail: detail@,
            }),
            DcapOutcome::Panic(message) => dcap@ == DcapView::Panic(message@),
        },
        match qvl {
            QvlOutcome::NotRun(reason) => qvl@ == QvlView::NotRun(reason@),
            QvlOutcome::Error(code) => qvl@ == QvlView::Error(code@),
            QvlOutcome::Verdict { exp_status, result } => qvl@ == (QvlView::Verdict {
                exp_status,
                result: result@,
            }),
        },
        match result {
            QvlResult::Passed => result@ is Passed,
            QvlResult::SwHardeningNeeded => result@ is SwHardeningNeeded,
            QvlResult::ConfigAndSwHardeningNeeded => result@ is ConfigAndSwHardeningNeeded,
            QvlResult::Other(name) => result@ == QvlResultView::Other(name@),
        },
        match bucket {
            Bucket::AgreeAccept => bucket@ is AgreeAccept,
            Bucket::AgreeReject => bucket@ is AgreeReject,
            Bucket::StandingMismatch => bucket@ is StandingMismatch,
            Bucket::Dangerous(kind) => bucket@ == BucketView::Dangerous(kind@),
            Bucket::KnownDelta(kind) => bucket@ == BucketView::KnownDelta(kind@),
            Bucket::UnexplainedSafe => bucket@ is UnexplainedSafe,
            Bucket::DcapPanic => bucket@ is DcapPanic,
        },
{
}

/// Each bucket has a name of its own, and one with a kind names the kind.
pub proof fn buckets_are_named_after_what_they_are(kind: Seq<char>)
    ensures
        BucketView::AgreeAccept.name() == "agree-accept"@,
        BucketView::AgreeReject.name() == "agree-reject"@,
        BucketView::StandingMismatch.name() == "standing-mismatch"@,
        BucketView::Dangerous(kind).name() == "DANGEROUS("@ + kind + ")"@,
        BucketView::KnownDelta(kind).name() == "known-delta("@ + kind + ")"@,
        BucketView::UnexplainedSafe.name() == "unexplained-safe"@,
        BucketView::DcapPanic.name() == "dcap-panic"@,
        BucketView::AgreeAccept.agrees() && BucketView::AgreeReject.agrees(),
        !BucketView::StandingMismatch.agrees() && !BucketView::Dangerous(kind).agrees(),
        !BucketView::KnownDelta(kind).agrees() && !BucketView::UnexplainedSafe.agrees(),
        !BucketView::DcapPanic.agrees(),
{
}

/// A record adds one to the count of its bucket and to no other; a dangerous one that is recorded
/// adds one to the known ones instead.
pub proof fn a_record_is_counted_once(tally: Tally, bucket: BucketView, recorded: bool)
    requires
        tally.recorded() < u64::MAX,
    ensures
        ({
            let after = tally.settled(bucket, recorded);
            let more = |counts: bool|
                if counts {
                    1int
                } else {
                    0int
                };
            &&& after.agree_accept == tally.agree_accept + more(bucket is AgreeAccept)
            &&& after.agree_reject == tally.agree_reject + more(bucket is AgreeReject)
            &&& after.known_delta == tally.known_delta + more(bucket is KnownDelta)
            &&& after.unexplained_safe == tally.unexplained_safe + more(bucket is UnexplainedSafe)
            &&& after.dangerous == tally.dangerous + more(bucket is Dangerous && !recorded)
            &&& after.dangerous_known == tally.dangerous_known + more(
                bucket is Dangerous && recorded,
            )
            &&& after.standing_mismatch == tally.standing_mismatch + more(
                bucket is StandingMismatch,
            )
            &&& after.dcap_panic == tally.dcap_panic + more(bucket is DcapPanic)
            &&& after.vanished == tally.vanished
            &&& tally.with(bucket) == tally.settled(bucket, false)
            &&& Tally::is_known(bucket, recorded) == (bucket is Dangerous && recorded)
        }),
{
}

/// Nothing counted means nothing in any count.
pub proof fn a_tally_starts_at_zero()
    ensures
        ({
            let zero = Tally::zero();
            &&& zero.agree_accept == 0 && zero.agree_reject == 0 && zero.known_delta == 0
            &&& zero.unexplained_safe == 0 && zero.dangerous == 0 && zero.dangerous_known == 0
            &&& zero.vanished == 0 && zero.standing_mismatch == 0 && zero.dcap_panic == 0
        }),
{
}

/// The exit code and the verdict go together: 20 and "FAIL" for a panic or a standing mismatch, else
/// 10 and "REVIEW" for an unrecorded danger or a vanished finding, else 0 and "CLEAN".
pub proof fn the_verdict_says_what_the_exit_code_says(tally: Tally)
    ensures
        tally.code() == (if tally.dcap_panic > 0 || tally.standing_mismatch > 0 {
            20i32
        } else if tally.dangerous > 0 || tally.vanished > 0 {
            10i32
        } else {
            0i32
        }),
        "RESULT: FAIL"@.is_prefix_of(tally.verdict()) <==> tally.code() == 20,
        "RESULT: REVIEW"@.is_prefix_of(tally.verdict()) <==> tally.code() == 10,
        "RESULT: CLEAN"@.is_prefix_of(tally.verdict()) <==> tally.code() == 0,
{
    reveal_strlit("RESULT: FAIL");
    reveal_strlit("RESULT: REVIEW");
    reveal_strlit("RESULT: CLEAN");
    reveal_strlit("RESULT: FAIL — ");
    reveal_strlit("RESULT: REVIEW — ");
    reveal_strlit(
        "RESULT: CLEAN — dcap-verify matches Intel QVL (only expected deltas). [",
    );
    let line = tally.verdict();
    let fail = "RESULT: FAIL"@;
    let review = "RESULT: REVIEW"@;
    let clean = "RESULT: CLEAN"@;
    assert(fail[8] == 'F' && review[8] == 'R' && clean[8] == 'C');
    if fail.is_prefix_of(line) {
        assert(line.subrange(0, fail.len() as int)[8] == 'F');
        assert(line[8] == 'F');
    }
    if review.is_prefix_of(line) {
        assert(line.subrange(0, review.len() as int)[8] == 'R');
        assert(line[8] == 'R');
    }
    if clean.is_prefix_of(line) {
        assert(line.subrange(0, clean.len() as int)[8] == 'C');
        assert(line[8] == 'C');
    }
    if tally.code() == 20 {
        assert(fail =~= line.subrange(0, fail.len() as int));
        assert(line[8] == 'F');
    } else if tally.code() == 10 {
        assert(review =~= line.subrange(0, review.len() as int));
        assert(line[8] == 'R');
    } else {
        assert(clean =~= line.subrange(0, clean.len() as int));
        assert(line[8] == 'C');
    }
}

} // verus!
