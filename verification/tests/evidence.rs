//! Whole verifications over evidence that is built here: certificates and revocation lists of a
//! hierarchy of its own, documents signed by its TCB signing key, and quotes signed by its keys.
//! The anchor is handed to the verification in place of the pinned one.

use p256::ecdsa::signature::Signer;
use p256::ecdsa::{Signature, SigningKey};
use p256::pkcs8::DecodePrivateKey;
use rcgen::{
    date_time_ymd, BasicConstraints, CertificateParams, CertificateRevocationListParams,
    CustomExtension, DnType, IsCa, Issuer, KeyIdMethod, KeyPair, KeyUsagePurpose,
    RevokedCertParams, SerialNumber,
};
use sha2::{Digest, Sha256};
use std::time::{Duration, UNIX_EPOCH};

use dcap_verify::pki::{INTEL_QE_VENDOR_ID, INTEL_TCB_SIGNING_CN};
use dcap_verify::types::collateral::{expected_document, SgxCollateral, Signed};
use dcap_verify::types::qe_identity::{QeIdentity, QeTcb, QeTcbLevel};
use dcap_verify::types::report::{MREnclave, SgxReportBody};
use dcap_verify::types::tcb_info::{TcbComponent, TcbInfo, TcbLevel, TcbPlatform};
use dcap_verify::verify::{judge, verify_at, verify_at_with_policy};
use dcap_verify::x509::Certificate;
use dcap_verify::{
    pck_collateral_params, peek_mrenclave, peek_report_data, verify_remote_attestation,
    verify_remote_attestation_with_policy, ErrorCategory, PckCa, SgxQuote, TcbPolicy, TcbStanding,
    VerifyError,
};

const NOW: i64 = 1_780_000_000; // 2026-05-29, inside every window below
const DOC_ISSUE: i64 = 1_767_225_600; // 2026-01-01
const DOC_NEXT: i64 = 1_798_761_600; // 2027-01-01
const PCK_CRL_NEXT: i64 = 1_796_083_200; // 2026-12-01
const PCK_LEAF_SERIAL: &[u8] = &[0x5a, 0x01];
const UNRELATED_SERIAL: &[u8] = &[0x5a, 0x02];
const FMSPC: [u8; 6] = [0x00, 0xa0, 0x67, 0x11, 0x00, 0x00];
const ENCLAVE: [u8; 32] = [0xe1; 32];

// ---- DER of the SGX extension of a PCK certificate ----

fn tlv(tag: u8, content: &[u8]) -> Vec<u8> {
    let mut out = vec![tag];
    if content.len() < 0x80 {
        out.push(content.len() as u8);
    } else if content.len() < 0x100 {
        out.extend_from_slice(&[0x81, content.len() as u8]);
    } else {
        out.extend_from_slice(&[0x82, (content.len() >> 8) as u8, content.len() as u8]);
    }
    out.extend_from_slice(content);
    out
}

fn entry(tail: &[u8], value: &[u8]) -> Vec<u8> {
    let mut oid = vec![0x2a, 0x86, 0x48, 0x86, 0xf8, 0x4d, 0x01, 0x0d, 0x01];
    oid.extend_from_slice(tail);
    let mut pair = tlv(0x06, &oid);
    pair.extend_from_slice(value);
    tlv(0x30, &pair)
}

fn sgx_extension(fmspc: &[u8], svns: &[u8; 16], pcesvn: u8) -> Vec<u8> {
    let mut tcb = Vec::new();
    for (i, svn) in svns.iter().enumerate() {
        tcb.extend(entry(&[2, i as u8 + 1], &tlv(0x02, &[*svn])));
    }
    tcb.extend(entry(&[2, 17], &tlv(0x02, &[pcesvn])));
    tcb.extend(entry(&[2, 18], &tlv(0x04, svns)));
    let mut fields = entry(&[1], &tlv(0x04, &[0x77; 16]));
    fields.extend(entry(&[2], &tlv(0x30, &tcb)));
    fields.extend(entry(&[3], &tlv(0x04, &[0x00, 0x00])));
    fields.extend(entry(&[4], &tlv(0x04, fmspc)));
    fields.extend(entry(&[5], &tlv(0x0a, &[0x00])));
    tlv(0x30, &fields)
}

// ---- the hierarchy ----

fn ca_params(cn: &str) -> CertificateParams {
    let mut params = CertificateParams::new(Vec::<String>::new()).expect("params");
    params.distinguished_name.push(DnType::CommonName, cn);
    params.is_ca = IsCa::Ca(BasicConstraints::Unconstrained);
    params.key_usages = vec![KeyUsagePurpose::KeyCertSign, KeyUsagePurpose::CrlSign];
    params
}

fn leaf_params(cn: &str) -> CertificateParams {
    let mut params = CertificateParams::new(Vec::<String>::new()).expect("params");
    params.distinguished_name.push(DnType::CommonName, cn);
    params
}

fn crl(issuer: &Issuer<'_, KeyPair>, revoked_serial: &[u8], next: (i32, u8)) -> String {
    CertificateRevocationListParams {
        this_update: date_time_ymd(2026, 1, 1),
        next_update: date_time_ymd(next.0, next.1, 1),
        crl_number: SerialNumber::from_slice(&[0x01]),
        issuing_distribution_point: None,
        revoked_certs: vec![RevokedCertParams {
            serial_number: SerialNumber::from_slice(revoked_serial),
            revocation_time: date_time_ymd(2026, 2, 1),
            reason_code: None,
            invalidity_date: None,
        }],
        key_identifier_method: KeyIdMethod::Sha256,
    }
    .signed_by(issuer)
    .expect("CRL")
    .pem()
    .expect("CRL PEM")
}

fn to_pem(tag: &str, der: Vec<u8>) -> String {
    pem::encode(&pem::Pem::new(tag, der))
}

fn chain_pem(ders: &[&[u8]]) -> String {
    ders.iter().map(|d| to_pem("CERTIFICATE", d.to_vec())).collect()
}

fn signing_key(pair: &KeyPair) -> SigningKey {
    SigningKey::from_pkcs8_der(&pair.serialize_der()).expect("PKCS#8 P-256 key")
}

fn sign(key: &SigningKey, message: &[u8]) -> [u8; 64] {
    let signature: Signature = key.sign(message);
    signature.to_bytes().into()
}

/// A platform, its quoting enclave and its collateral, with the keys that made them.
struct Evidence {
    anchor: [u8; 65],
    root_der: Vec<u8>,
    pck_ca_issuer: Issuer<'static, KeyPair>,
    leaf_key: SigningKey,
    doc_key: SigningKey,
    attestation_key: SigningKey,
    quote_chain: String,
    tcb_leaf_der: Vec<u8>,
    collateral: SgxCollateral,
    min_eval: u32,
    now: i64,
}

/// The parts of a quote, before they are signed and put together.
struct QuoteParts {
    version: u16,
    att_key_type: u16,
    vendor: [u8; 16],
    report: [u8; 384],
    qe_report: [u8; 384],
    auth: Vec<u8>,
    cert_data_type: u16,
}

fn enclave_report() -> [u8; 384] {
    let mut raw = [0u8; 384];
    raw[64..96].copy_from_slice(&ENCLAVE);
    for (i, b) in raw[320..384].iter_mut().enumerate() {
        *b = i as u8;
    }
    raw
}

fn qe_report() -> [u8; 384] {
    let mut raw = [0u8; 384];
    raw[128..160].copy_from_slice(&[0x11; 32]);
    raw[256..258].copy_from_slice(&1u16.to_le_bytes());
    raw[258..260].copy_from_slice(&8u16.to_le_bytes());
    raw
}

fn quote_parts() -> QuoteParts {
    QuoteParts {
        version: 3,
        att_key_type: 2,
        vendor: INTEL_QE_VENDOR_ID,
        report: enclave_report(),
        qe_report: qe_report(),
        auth: vec![0xa5; 32],
        cert_data_type: 5,
    }
}

fn level(status: &str, advisories: &[&str]) -> TcbLevel {
    TcbLevel {
        tcb: TcbPlatform {
            sgxtcbcomponents: (0..16).map(|_| TcbComponent { svn: 3 }).collect(),
            pcesvn: 11,
        },
        tcb_date: DOC_ISSUE,
        tcb_status: status.to_string(),
        advisory_ids: advisories.iter().map(|s| s.to_string()).collect(),
    }
}

fn tcb_info(levels: Vec<TcbLevel>) -> TcbInfo {
    TcbInfo {
        id: "SGX".to_string(),
        version: 3,
        issue_date: DOC_ISSUE,
        next_update: DOC_NEXT,
        fmspc: "00A067110000".to_string(),
        pce_id: "0000".to_string(),
        tcb_type: 0,
        tcb_evaluation_data_number: 17,
        tcb_levels: levels,
    }
}

fn qe_identity(mrsigner: String) -> QeIdentity {
    QeIdentity {
        id: "QE".to_string(),
        version: 2,
        issue_date: DOC_ISSUE,
        next_update: DOC_NEXT,
        tcb_evaluation_data_number: 17,
        miscselect: "00000000".to_string(),
        miscselect_mask: "FFFFFFFF".to_string(),
        attributes: "00000000000000000000000000000000".to_string(),
        attributes_mask: "FBFFFFFFFFFFFFFF0000000000000000".to_string(),
        mrsigner,
        isvprodid: 1,
        tcb_levels: vec![QeTcbLevel {
            tcb: QeTcb { isvsvn: 8 },
            tcb_date: DOC_ISSUE,
            tcb_status: "UpToDate".to_string(),
            advisory_ids: vec![],
        }],
    }
}

fn signed<T>(key: &SigningKey, body_json: &str, body: T) -> Signed<T> {
    Signed {
        body_json: body_json.to_string(),
        body,
        signature_hex: hex::encode(sign(key, body_json.as_bytes())),
    }
}

fn evidence() -> Evidence {
    let root_params = ca_params("dcap-verify synthetic Root CA");
    let root_key = KeyPair::generate().expect("root key");
    let root_der = root_params.self_signed(&root_key).expect("root cert").der().to_vec();
    let root_issuer = Issuer::new(root_params, root_key);
    let root = Certificate::from_der(&root_der).expect("root der");
    let anchor: [u8; 65] = root.body.public_key.as_slice().try_into().expect("a P-256 point");

    let pck_ca_key = KeyPair::generate().expect("PCK CA key");
    let pck_ca_params = ca_params("Intel SGX PCK Processor CA");
    let pck_ca_der =
        pck_ca_params.signed_by(&pck_ca_key, &root_issuer).expect("PCK CA cert").der().to_vec();
    let pck_ca_issuer = Issuer::new(pck_ca_params, pck_ca_key);

    let leaf_pair = KeyPair::generate().expect("PCK leaf key");
    let mut pck_leaf = leaf_params("Intel SGX PCK Certificate");
    pck_leaf.serial_number = Some(SerialNumber::from_slice(PCK_LEAF_SERIAL));
    pck_leaf.custom_extensions = vec![CustomExtension::from_oid_content(
        &[1, 2, 840, 113741, 1, 13, 1],
        sgx_extension(&FMSPC, &[3; 16], 11),
    )];
    let pck_leaf_der =
        pck_leaf.signed_by(&leaf_pair, &pck_ca_issuer).expect("PCK leaf cert").der().to_vec();

    let tcb_pair = KeyPair::generate().expect("TCB signing key");
    let tcb_leaf_der = leaf_params(INTEL_TCB_SIGNING_CN)
        .signed_by(&tcb_pair, &root_issuer)
        .expect("TCB signing cert")
        .der()
        .to_vec();
    let doc_key = signing_key(&tcb_pair);

    let tcb_chain = chain_pem(&[&tcb_leaf_der, &root_der]);
    let collateral = SgxCollateral {
        version: 3,
        root_ca_crl: crl(&root_issuer, UNRELATED_SERIAL, (2027, 1)),
        pck_crl: crl(&pck_ca_issuer, UNRELATED_SERIAL, (2026, 12)),
        tcb_info_issuer_chain: tcb_chain.clone(),
        pck_crl_issuer_chain: chain_pem(&[&pck_ca_der, &root_der]),
        qe_identity_issuer_chain: tcb_chain,
        tcb_info: signed(&doc_key, "{\"tcb\":17}", tcb_info(vec![level("UpToDate", &[])])),
        qe_identity: signed(&doc_key, "{\"qe\":17}", qe_identity("11".repeat(32))),
    };
    Evidence {
        anchor,
        quote_chain: chain_pem(&[&pck_leaf_der, &pck_ca_der, &root_der]),
        root_der,
        pck_ca_issuer,
        leaf_key: signing_key(&leaf_pair),
        doc_key,
        attestation_key: SigningKey::from_slice(&[0x31; 32]).expect("a scalar"),
        tcb_leaf_der,
        collateral,
        min_eval: 0,
        now: NOW,
    }
}

impl Evidence {
    /// A quote of the parts, signed as a quoting enclave signs it.
    fn assemble(&self, parts: &QuoteParts) -> Vec<u8> {
        let mut signed_part = Vec::new();
        signed_part.extend_from_slice(&parts.version.to_le_bytes());
        signed_part.extend_from_slice(&parts.att_key_type.to_le_bytes());
        signed_part.extend_from_slice(&[0; 4]);
        signed_part.extend_from_slice(&9u16.to_le_bytes());
        signed_part.extend_from_slice(&13u16.to_le_bytes());
        signed_part.extend_from_slice(&parts.vendor);
        signed_part.extend_from_slice(&[0x55; 20]);
        signed_part.extend_from_slice(&parts.report);

        let point = self.attestation_key.verifying_key().to_encoded_point(false);
        let attestation_pub = &point.as_bytes()[1..];
        let mut qe_report = parts.qe_report;
        let digest = Sha256::new().chain_update(attestation_pub).chain_update(&parts.auth);
        qe_report[320..352].copy_from_slice(&digest.finalize());

        let mut section = Vec::new();
        section.extend_from_slice(&sign(&self.attestation_key, &signed_part));
        section.extend_from_slice(attestation_pub);
        section.extend_from_slice(&qe_report);
        section.extend_from_slice(&sign(&self.leaf_key, &qe_report));
        section.extend_from_slice(&(parts.auth.len() as u16).to_le_bytes());
        section.extend_from_slice(&parts.auth);
        section.extend_from_slice(&parts.cert_data_type.to_le_bytes());
        section.extend_from_slice(&(self.quote_chain.len() as u32).to_le_bytes());
        section.extend_from_slice(self.quote_chain.as_bytes());

        let mut quote = signed_part;
        quote.extend_from_slice(&(section.len() as u32).to_le_bytes());
        quote.extend_from_slice(&section);
        quote
    }

    fn quote_bytes(&self) -> Vec<u8> {
        self.assemble(&quote_parts())
    }

    fn verify_bytes(&self, bytes: &[u8]) -> Result<(TcbStanding, SgxReportBody), VerifyError> {
        let quote = read(bytes)?;
        verify_at(
            &self.anchor,
            self.now,
            self.collateral.clone(),
            quote,
            &ENCLAVE,
            self.min_eval,
        )
    }

    fn verify(&self) -> Result<(TcbStanding, SgxReportBody), VerifyError> {
        self.verify_bytes(&self.quote_bytes())
    }

    fn verify_under(
        &self,
        policy: &TcbPolicy,
    ) -> Result<(TcbStanding, SgxReportBody), VerifyError> {
        let quote = read(&self.quote_bytes())?;
        let collateral = self.collateral.clone();
        verify_at_with_policy(&self.anchor, self.now, collateral, quote, &ENCLAVE, policy)
    }

    fn expect_reject(&self) -> ErrorCategory {
        self.verify().expect_err("must be rejected, not accepted").category
    }

    /// The same evidence with a quote bytes edited after signing.
    fn reject_edited(&self, at: usize) -> ErrorCategory {
        let mut bytes = self.quote_bytes();
        bytes[at] ^= 0x01;
        self.verify_bytes(&bytes).expect_err("must be rejected, not accepted").category
    }
}

fn read(bytes: &[u8]) -> Result<SgxQuote, VerifyError> {
    let mut cursor: &[u8] = bytes;
    SgxQuote::read(&mut cursor)
}

fn cert_blocks(pem: &str) -> Vec<String> {
    const END: &str = "-----END CERTIFICATE-----";
    let mut out = Vec::new();
    let mut rest = pem;
    while let Some(end) = rest.find(END) {
        let begin = rest.find("-----BEGIN CERTIFICATE-----").expect("a BEGIN marker");
        out.push(format!("{}\n", &rest[begin..end + END.len()]));
        rest = &rest[end + END.len()..];
    }
    out
}

// ---- acceptance ----

// Genuine evidence is accepted, so each rejection below comes from its own mutation.
#[test]
fn baseline_evidence_accepts() {
    let e = evidence();
    let (standing, body) = e.verify().expect("genuine evidence accepts");
    assert_eq!(standing, TcbStanding::UpToDate);
    assert_eq!(body, SgxReportBody::parse(&enclave_report()).unwrap());
}

// The exact accesses a freshness-binding wrapper performs on the report body.
#[test]
fn report_body_surface_is_stable() {
    let e = evidence();
    let (_standing, report_body) = e.verify().expect("genuine evidence accepts");
    let data_hash: &[u8] = &report_body.sgx_report_data_bytes[..32];
    let nonce: &[u8] = &report_body.sgx_report_data_bytes[32..64];
    let returned: [u8; 64] = report_body.sgx_report_data_bytes;
    assert_eq!(data_hash.len(), 32);
    assert_eq!(nonce.len(), 32);
    assert_eq!(returned.len(), 64);
    let expected_mr: MREnclave = ENCLAVE;
    assert_eq!(report_body.mrenclave, expected_mr);
}

// The standing is that of the platform's level, with its advisories.
#[test]
fn degraded_standings_are_returned_with_their_advisories() {
    let mut e = evidence();
    e.collateral.tcb_info.body.tcb_levels = vec![level("SWHardeningNeeded", &["INTEL-SA-00615"])];
    assert_eq!(
        e.verify().unwrap().0,
        TcbStanding::SWHardeningNeeded { advisory_ids: vec!["INTEL-SA-00615".to_string()] }
    );
}

// ---- the entry points ----

// A list naming the quote's own PCK serial rejects through the whole verification.
#[test]
fn revoked_pck_leaf_rejects_through_the_entry_point() {
    let mut e = evidence();
    e.collateral.pck_crl = crl(&e.pck_ca_issuer, PCK_LEAF_SERIAL, (2026, 12));
    let err = e.verify().unwrap_err();
    assert_eq!(err.category, ErrorCategory::CrlInvalid);
    assert!(err.detail.contains("revoked"), "{}", err.detail);
}

#[test]
fn qe_identity_mismatch_rejects_through_the_entry_point() {
    let mut e = evidence();
    e.collateral.qe_identity = signed(&e.doc_key, "{\"qe\":2}", qe_identity("22".repeat(32)));
    let err = e.verify().unwrap_err();
    assert_eq!(err.category, ErrorCategory::QeIdentityMismatch, "{}", err.detail);
}

// With clean lists and a matching QE identity, a QE report signed by another key than the PCK
// leaf's passes both of the gates above and fails only at its signature.
#[test]
fn control_reaches_the_qe_report_signature_check() {
    let mut e = evidence();
    e.leaf_key = SigningKey::from_slice(&[0x42; 32]).expect("a scalar");
    let err = e.verify().unwrap_err();
    assert_eq!(err.category, ErrorCategory::QeReportSignatureInvalid, "{}", err.detail);
}

// Through the public entry point the same evidence dies at the pinned anchor.
#[test]
fn synthetic_chain_without_override_dies_at_the_anchor() {
    let e = evidence();
    let quote = read(&e.quote_bytes()).expect("the quote parses");
    let now = UNIX_EPOCH + Duration::from_secs(NOW as u64);
    let err = verify_remote_attestation(now, e.collateral.clone(), quote, &ENCLAVE, 0).unwrap_err();
    assert_eq!(err.category, ErrorCategory::RootCaUntrusted, "{}", err.detail);

    let quote = read(&e.quote_bytes()).expect("the quote parses");
    let policy = TcbPolicy {
        min_tcb_evaluation_data_number: 0,
        accept_sw_hardening_needed: true,
        accept_configuration_and_sw_hardening_needed: true,
    };
    let err = verify_remote_attestation_with_policy(now, e.collateral, quote, &ENCLAVE, &policy)
        .unwrap_err();
    assert_eq!(err.category, ErrorCategory::RootCaUntrusted, "{}", err.detail);
}

// ---- policies ----

fn degraded() -> Evidence {
    let mut e = evidence();
    e.collateral.tcb_info.body.tcb_levels =
        vec![level("ConfigurationAndSWHardeningNeeded", &["INTEL-SA-00289", "INTEL-SA-00615"])];
    e
}

#[test]
fn with_policy_permissive_matches_plain_verification() {
    let e = degraded();
    let policy = TcbPolicy {
        min_tcb_evaluation_data_number: 0,
        accept_sw_hardening_needed: true,
        accept_configuration_and_sw_hardening_needed: true,
    };
    let (standing, body) = e.verify_under(&policy).expect("a permissive policy accepts");
    let (plain_standing, plain_body) = e.verify().expect("genuine evidence accepts");
    assert_eq!(standing, plain_standing);
    assert_eq!(body.sgx_report_data_bytes, plain_body.sgx_report_data_bytes);
    assert_eq!(body.mrenclave, plain_body.mrenclave);
}

#[test]
fn with_policy_strict_rejects_degraded_standing() {
    let e = degraded();
    let policy = TcbPolicy {
        min_tcb_evaluation_data_number: 0,
        accept_sw_hardening_needed: true,
        accept_configuration_and_sw_hardening_needed: false,
    };
    let err = e.verify_under(&policy).expect_err("a strict policy must reject");
    assert_eq!(err.category, ErrorCategory::TcbStandingRejected);
    assert!(err.detail.contains("configuration-and-sw-hardening-needed"));
    assert!(err.detail.contains("[\"INTEL-SA-00289\", \"INTEL-SA-00615\"]"), "{}", err.detail);
}

// The policy's floor reaches verification: an impossible one rejects as stale collateral, not as a
// standing rejection.
#[test]
fn with_policy_forwards_the_evaluation_round_floor() {
    let e = degraded();
    let policy = TcbPolicy {
        min_tcb_evaluation_data_number: u32::MAX,
        accept_sw_hardening_needed: true,
        accept_configuration_and_sw_hardening_needed: true,
    };
    let err = e.verify_under(&policy).expect_err("u32::MAX floor must reject");
    assert_eq!(err.category, ErrorCategory::TcbInfoStale);
    let at_the_round = TcbPolicy { min_tcb_evaluation_data_number: 17, ..policy };
    e.verify_under(&at_the_round).expect("the floor is inclusive");
}

#[test]
fn check_is_pure_and_reusable_on_returned_standings() {
    let (standing, _) = degraded().verify().expect("genuine evidence accepts");
    let strict = TcbPolicy {
        min_tcb_evaluation_data_number: 0,
        accept_sw_hardening_needed: false,
        accept_configuration_and_sw_hardening_needed: false,
    };
    let err = strict.check(&standing).expect_err("strict rejects");
    assert_eq!(err.category, ErrorCategory::TcbStandingRejected);
    assert!(matches!(standing, TcbStanding::ConfigurationAndSWHardeningNeeded { .. }));
}

// A policy never accepts what verification rejected.
#[test]
fn a_policy_keeps_rejections() {
    let mut e = evidence();
    e.min_eval = 18;
    let policy = TcbPolicy {
        min_tcb_evaluation_data_number: 18,
        accept_sw_hardening_needed: true,
        accept_configuration_and_sw_hardening_needed: true,
    };
    let err = judge(e.verify(), &policy).unwrap_err();
    assert_eq!(err.category, ErrorCategory::TcbInfoStale);
}

// ---- the evaluation-round floor ----

#[test]
fn evaluation_round_below_floor_is_rejected_as_stale() {
    let mut e = evidence();
    e.min_eval = 18;
    assert_eq!(e.expect_reject(), ErrorCategory::TcbInfoStale);
}

#[test]
fn evaluation_round_at_floor_still_accepts() {
    let mut e = evidence();
    e.min_eval = 17;
    e.verify().expect("the floor is inclusive");
}

#[test]
fn a_stale_qe_round_has_its_own_category() {
    let mut e = evidence();
    e.collateral.qe_identity.body.tcb_evaluation_data_number = 16;
    e.min_eval = 17;
    assert_eq!(e.expect_reject(), ErrorCategory::QeIdentityStale);
}

// ---- document-format gates ----

#[test]
fn collateral_version_not_3_is_rejected() {
    let mut e = evidence();
    e.collateral.version = 4;
    assert_eq!(e.expect_reject(), ErrorCategory::CollateralParse);
}

#[test]
fn tcb_info_version_not_3_is_rejected() {
    let mut e = evidence();
    e.collateral.tcb_info.body.version = 4;
    assert_eq!(e.expect_reject(), ErrorCategory::CollateralParse);
}

#[test]
fn tcb_info_version_2_is_rejected_by_the_format_gate() {
    let mut e = evidence();
    e.collateral.tcb_info.body.version = 2;
    assert_eq!(e.expect_reject(), ErrorCategory::CollateralParse);
}

#[test]
fn enclave_identity_version_not_2_is_rejected() {
    let mut e = evidence();
    e.collateral.qe_identity.body.version = 3;
    assert_eq!(e.expect_reject(), ErrorCategory::CollateralParse);
}

#[test]
fn tcb_type_not_0_is_rejected() {
    let mut e = evidence();
    e.collateral.tcb_info.body.tcb_type = 1;
    assert_eq!(e.expect_reject(), ErrorCategory::CollateralParse);
}

// The substituted chain alone is untrusted (see below); with a bad version too, the format gate
// answers first.
#[test]
fn format_gate_precedes_document_processing() {
    let mut e = evidence();
    e.collateral.tcb_info_issuer_chain = e.collateral.pck_crl_issuer_chain.clone();
    e.collateral.version = 99;
    assert_eq!(e.expect_reject(), ErrorCategory::CollateralParse);
}

// ---- validity windows ----

#[test]
fn tcb_info_not_yet_valid_is_rejected() {
    let mut e = evidence();
    e.collateral.tcb_info.body.issue_date = NOW + 900;
    assert_eq!(e.expect_reject(), ErrorCategory::TcbInfoStale);
}

#[test]
fn qe_identity_expired_is_rejected() {
    let mut e = evidence();
    e.collateral.qe_identity.body.next_update = NOW;
    assert_eq!(e.expect_reject(), ErrorCategory::QeIdentityStale);
}

// The PCK CRL is the item that expires first; its expiry instant rejects, the second before
// accepts.
#[test]
fn collateral_at_exact_next_update_rejects_one_second_before_accepts() {
    let mut e = evidence();
    e.now = PCK_CRL_NEXT - 1;
    e.verify().expect("one second before the expiry");
    e.now = PCK_CRL_NEXT;
    assert_eq!(e.expect_reject(), ErrorCategory::CertOrCrlTimeInvalid);
}

// ---- path roles and the signer's identity ----

#[test]
fn non_tcb_signing_leaf_for_tcb_info_is_rejected() {
    let mut e = evidence();
    e.collateral.tcb_info_issuer_chain = e.collateral.pck_crl_issuer_chain.clone();
    assert_eq!(e.expect_reject(), ErrorCategory::RootCaUntrusted);
}

#[test]
fn non_tcb_signing_leaf_for_qe_identity_is_rejected() {
    let mut e = evidence();
    e.collateral.qe_identity_issuer_chain = e.collateral.pck_crl_issuer_chain.clone();
    assert_eq!(e.expect_reject(), ErrorCategory::RootCaUntrusted);
}

#[test]
fn chain_not_terminating_at_pinned_root_is_rejected() {
    let mut e = evidence();
    e.collateral.tcb_info_issuer_chain = chain_pem(&[&e.tcb_leaf_der]);
    assert_eq!(e.expect_reject(), ErrorCategory::RootCaUntrusted);
}

#[test]
fn oversized_chain_is_rejected() {
    let mut e = evidence();
    let leaf = cert_blocks(&e.collateral.tcb_info_issuer_chain)[0].clone();
    let mut oversized = leaf.repeat(11);
    oversized.push_str(&e.collateral.tcb_info_issuer_chain);
    e.collateral.tcb_info_issuer_chain = oversized;
    assert_eq!(e.expect_reject(), ErrorCategory::CollateralParse);
}

// The root's list under the PCK CRL's name is genuine and in date, but it does not speak of the
// serials that the PCK leaf's issuer gave out.
#[test]
fn pck_crl_scope_substitution_is_rejected() {
    let mut e = evidence();
    e.collateral.pck_crl = e.collateral.root_ca_crl.clone();
    e.collateral.pck_crl_issuer_chain = chain_pem(&[&e.root_der]);
    let err = e.verify().expect_err("a mis-scoped PCK CRL must be rejected");
    assert_eq!(err.category, ErrorCategory::CrlInvalid, "{}", err.detail);
}

// ---- the outer signatureAlgorithm of certificates and lists ----

fn der_header(bytes: &[u8], pos: usize) -> (usize, usize) {
    let len_byte = bytes[pos + 1];
    if len_byte < 0x80 {
        (2, usize::from(len_byte))
    } else {
        let n = usize::from(len_byte & 0x7f);
        let mut len = 0usize;
        for i in 0..n {
            len = (len << 8) | usize::from(bytes[pos + 2 + i]);
        }
        (2 + n, len)
    }
}

fn outer_alg_range(der: &[u8]) -> (usize, usize) {
    let (h0, _) = der_header(der, 0);
    let (h1, c1) = der_header(der, h0);
    let alg_start = h0 + h1 + c1;
    let (h2, c2) = der_header(der, alg_start);
    (alg_start, alg_start + h2 + c2)
}

fn replace_outer_alg(der: &[u8], new_alg: &[u8]) -> Vec<u8> {
    let (start, end) = outer_alg_range(der);
    let (h0, c0) = der_header(der, 0);
    let mut content = der[h0..start].to_vec();
    content.extend_from_slice(new_alg);
    content.extend_from_slice(&der[end..h0 + c0]);
    tlv(0x30, &content)
}

// The outer algorithm with a NULL behind it: well formed, but not the signed copy.
fn alg_with_null_params(der: &[u8]) -> Vec<u8> {
    let (start, end) = outer_alg_range(der);
    let alg = &der[start..end];
    let (h, c) = der_header(alg, 0);
    let mut inner = alg[h..h + c].to_vec();
    inner.extend_from_slice(&[0x05, 0x00]);
    tlv(0x30, &inner)
}

// A sequence without the object identifier that an algorithm must have.
const MALFORMED_ALG: [u8; 4] = [0x30, 0x02, 0x05, 0x00];

// A sequence that announces three bytes and holds two: it overruns into the signature.
const OVERRUN_ALG: [u8; 4] = [0x30, 0x03, 0x05, 0x00];

fn with_leaf_alg(e: &mut Evidence, alg: Vec<u8>) {
    let mutated = replace_outer_alg(&e.tcb_leaf_der, &alg);
    e.collateral.tcb_info_issuer_chain = chain_pem(&[&mutated, &e.root_der]);
}

fn with_crl_alg(e: &mut Evidence, alg: fn(&[u8]) -> Vec<u8>) {
    let block = pem::parse(&e.collateral.pck_crl).expect("crl pem");
    let mutated = replace_outer_alg(block.contents(), &alg(block.contents()));
    e.collateral.pck_crl = to_pem(block.tag(), mutated);
}

#[test]
fn cert_outer_alg_mismatching_inner_is_rejected() {
    let mut e = evidence();
    let alg = alg_with_null_params(&e.tcb_leaf_der);
    with_leaf_alg(&mut e, alg);
    assert_eq!(e.expect_reject(), ErrorCategory::RootCaUntrusted);
}

#[test]
fn cert_malformed_outer_alg_is_rejected() {
    let mut e = evidence();
    with_leaf_alg(&mut e, MALFORMED_ALG.to_vec());
    assert_eq!(e.expect_reject(), ErrorCategory::RootCaUntrusted);
}

#[test]
fn cert_undecodable_outer_alg_is_rejected() {
    let mut e = evidence();
    with_leaf_alg(&mut e, OVERRUN_ALG.to_vec());
    assert_eq!(e.expect_reject(), ErrorCategory::CollateralParse);
}

#[test]
fn crl_outer_alg_mismatching_inner_is_rejected() {
    let mut e = evidence();
    with_crl_alg(&mut e, alg_with_null_params);
    assert_eq!(e.expect_reject(), ErrorCategory::CrlInvalid);
}

#[test]
fn crl_malformed_outer_alg_is_rejected() {
    let mut e = evidence();
    with_crl_alg(&mut e, |_| MALFORMED_ALG.to_vec());
    assert_eq!(e.expect_reject(), ErrorCategory::CrlInvalid);
}

#[test]
fn crl_undecodable_outer_alg_is_rejected() {
    let mut e = evidence();
    with_crl_alg(&mut e, |_| OVERRUN_ALG.to_vec());
    assert_eq!(e.expect_reject(), ErrorCategory::CrlInvalid);
}

// ---- what a quote must be ----

#[test]
fn bit_flips_are_rejected_by_the_check_they_break() {
    let e = evidence();
    // The enclave's signature.
    assert_eq!(e.reject_edited(436), ErrorCategory::QuoteSignatureInvalid);
    // The attestation key: the QE no longer vouches for it.
    assert_eq!(e.reject_edited(436 + 64 + 5), ErrorCategory::QeBindingInvalid);
    // The authentication data of the QE.
    assert_eq!(e.reject_edited(436 + 64 + 64 + 384 + 64 + 2), ErrorCategory::QeBindingInvalid);
    // The signature on the QE's report.
    assert_eq!(
        e.reject_edited(436 + 64 + 64 + 384 + 3),
        ErrorCategory::QeReportSignatureInvalid
    );
    // A part of the report that the enclave signed.
    assert_eq!(e.reject_edited(48 + 330), ErrorCategory::QuoteSignatureInvalid);
}

#[test]
fn tampered_documents_are_rejected() {
    let mut e = evidence();
    e.collateral.tcb_info.body_json.push(' ');
    assert_eq!(e.expect_reject(), ErrorCategory::TcbInfoSignatureInvalid);
    let mut e = evidence();
    e.collateral.qe_identity.body_json.push(' ');
    assert_eq!(e.expect_reject(), ErrorCategory::QeIdentitySignatureInvalid);
}

#[test]
fn another_enclave_is_rejected_before_anything_else() {
    let mut e = evidence();
    e.collateral.version = 99;
    let quote = read(&e.quote_bytes()).unwrap();
    let err = verify_at(&e.anchor, NOW, e.collateral.clone(), quote, &[0; 32], 0).unwrap_err();
    assert_eq!(err.category, ErrorCategory::MrenclaveMismatch);
}

#[test]
fn debug_enclaves_are_rejected() {
    let e = evidence();
    let mut parts = quote_parts();
    parts.report[48] = 0x02;
    let err = e.verify_bytes(&e.assemble(&parts)).unwrap_err();
    assert_eq!(err.category, ErrorCategory::DebugEnclaveRejected);
}

#[test]
fn unsupported_quotes_are_rejected() {
    let e = evidence();
    let mut parts = quote_parts();
    parts.version = 4;
    let err = e.verify_bytes(&e.assemble(&parts)).unwrap_err();
    assert_eq!(err.category, ErrorCategory::QuoteParse, "{}", err.detail);
    let mut parts = quote_parts();
    parts.att_key_type = 1;
    let err = e.verify_bytes(&e.assemble(&parts)).unwrap_err();
    assert_eq!(err.category, ErrorCategory::QuoteParse, "{}", err.detail);
    let mut parts = quote_parts();
    parts.cert_data_type = 1;
    let err = e.verify_bytes(&e.assemble(&parts)).unwrap_err();
    assert_eq!(err.category, ErrorCategory::QuoteParse, "{}", err.detail);
    let mut parts = quote_parts();
    parts.vendor[0] ^= 1;
    let err = e.verify_bytes(&e.assemble(&parts)).unwrap_err();
    assert_eq!(err.category, ErrorCategory::QeVendorInvalid, "{}", err.detail);
}

#[test]
fn platforms_without_a_supported_level_are_rejected() {
    let mut e = evidence();
    e.collateral.tcb_info.body.fmspc = "00A067110001".to_string();
    assert_eq!(e.expect_reject(), ErrorCategory::TcbLevelUnsupported);
    let mut e = evidence();
    e.collateral.tcb_info.body.tcb_levels[0].tcb.pcesvn = 12;
    assert_eq!(e.expect_reject(), ErrorCategory::TcbLevelUnsupported);
    let mut e = evidence();
    e.collateral.tcb_info.body.tcb_levels[0].tcb.sgxtcbcomponents[15].svn = 4;
    assert_eq!(e.expect_reject(), ErrorCategory::TcbLevelUnsupported);
}

#[test]
fn times_outside_the_certificates_are_rejected() {
    let mut e = evidence();
    e.now = -3_000_000_000;
    assert_eq!(e.expect_reject(), ErrorCategory::CertOrCrlTimeInvalid);
    e.now = i64::MAX;
    assert_eq!(e.expect_reject(), ErrorCategory::CertOrCrlTimeInvalid);
}

// ---- reading quotes ----

// The peeks read at fixed offsets; the parser walks the layout. They see the same fields.
#[test]
fn peek_offsets_agree_with_parser() {
    let e = evidence();
    for seed in 0..10u8 {
        let mut parts = quote_parts();
        for (i, b) in parts.report.iter_mut().enumerate() {
            *b = seed.wrapping_mul(31).wrapping_add(i as u8);
        }
        let bytes = e.assemble(&parts);
        let quote = read(&bytes).expect("the quote parses");
        assert_eq!(peek_mrenclave(&bytes).unwrap(), &quote.report_body.mrenclave);
        assert_eq!(peek_report_data(&bytes).unwrap(), &quote.report_body.sgx_report_data_bytes);
    }
}

#[test]
fn quote_truncations_return_errors() {
    let bytes = evidence().quote_bytes();
    for len in 0..bytes.len() {
        let err = read(&bytes[..len]).unwrap_err();
        assert_eq!(err.category, ErrorCategory::QuoteParse, "{len}");
    }
    assert!(read(&bytes).is_ok());
}

// What follows a quote is left over.
#[test]
fn bytes_behind_a_quote_are_left_over() {
    let mut bytes = evidence().quote_bytes();
    bytes.extend_from_slice(b"tail");
    let mut cursor: &[u8] = &bytes;
    let quote = SgxQuote::read(&mut cursor).expect("the quote parses");
    assert_eq!(cursor, b"tail");
    assert_eq!(quote.header.qe_svn, 9);
    assert_eq!(quote.header.pce_svn, 13);
    assert_eq!(quote.signed_bytes(), &bytes[..432]);
}

// Bytes of the signature section that nothing reads are a fault.
#[test]
fn slack_in_the_signature_section_is_rejected() {
    let mut bytes = evidence().quote_bytes();
    let len = (bytes.len() - 436 + 1) as u32;
    bytes[432..436].copy_from_slice(&len.to_le_bytes());
    bytes.push(0);
    assert_eq!(read(&bytes).unwrap_err().category, ErrorCategory::QuoteParse);
}

// ---- selecting collateral ----

#[test]
fn pck_collateral_params_surface_is_stable() {
    let e = evidence();
    let quote = read(&e.quote_bytes()).expect("the quote parses");
    let (fmspc, ca): ([u8; 6], PckCa) =
        pck_collateral_params(&quote).expect("the selectors are readable");
    assert_eq!(fmspc.len(), 6);
    assert_eq!(ca, PckCa::Processor);
    assert_eq!(ca.as_str(), "processor");
    assert_eq!(PckCa::Platform.as_str(), "platform");
}

// The selectors come from the quote, and genuine collateral agrees with them.
#[test]
fn pck_collateral_params_agree_with_collateral() {
    let e = evidence();
    let quote = read(&e.quote_bytes()).expect("the quote parses");
    let (fmspc, _) = pck_collateral_params(&quote).expect("the selectors are readable");
    assert_eq!(fmspc, FMSPC);
    assert_eq!(hex::encode(fmspc), e.collateral.tcb_info.body.fmspc.to_lowercase());
}

#[test]
fn a_quote_without_a_pck_chain_has_no_selectors() {
    let mut e = evidence();
    e.quote_chain = "no certificates here".to_string();
    let quote = read(&e.quote_bytes()).expect("the quote parses");
    let err = pck_collateral_params(&quote).unwrap_err();
    assert_eq!(err.category, ErrorCategory::QuoteParse);
    assert_eq!(e.expect_reject(), ErrorCategory::QuoteParse);
}

#[test]
fn an_unknown_pck_ca_selects_nothing() {
    let mut e = evidence();
    e.quote_chain = chain_pem(&[&e.tcb_leaf_der, &e.root_der]);
    let quote = read(&e.quote_bytes()).expect("the quote parses");
    assert!(pck_collateral_params(&quote).is_err());
}

#[test]
fn signed_deserialize_error_names_the_document() {
    let msg = expected_document::<TcbInfo>();
    assert!(msg.contains("a signed tcbInfo document"), "{msg}");
    assert_eq!(expected_document::<QeIdentity>(), "a signed enclaveIdentity document");
}

// ---- leniency that is deliberate ----

// A chain whose root comes twice still leads to the anchor.
#[test]
fn a_repeated_root_is_accepted() {
    let mut e = evidence();
    e.collateral.tcb_info_issuer_chain = chain_pem(&[&e.tcb_leaf_der, &e.root_der, &e.root_der]);
    e.verify().expect("the repeated root issues itself");
}

// NULs and white space behind PEM data are passed over, in chains and in revocation lists.
#[test]
fn trailing_junk_behind_pem_data_is_accepted() {
    let mut e = evidence();
    e.collateral.tcb_info_issuer_chain.push_str("\n\0 \0");
    e.collateral.pck_crl.push('\0');
    e.quote_chain.push('\0');
    e.verify().expect("nothing that is signed has changed");
}

// The text of a document is what is signed: another spelling of the same JSON is not.
#[test]
fn documents_signed_by_another_key_are_rejected() {
    let mut e = evidence();
    let other = SigningKey::from_slice(&[0x21; 32]).expect("a scalar");
    e.collateral.tcb_info.signature_hex = hex::encode(sign(&other, b"{\"tcb\":17}"));
    let err = e.verify().unwrap_err();
    assert_eq!(err.category, ErrorCategory::TcbInfoSignatureInvalid);
    assert_eq!(err.detail, "signature does not match the signed document body");
    e.collateral.tcb_info.signature_hex = "00".repeat(64);
    let err = e.verify().unwrap_err();
    assert_eq!(
        err.detail,
        "signature is not a 64-byte P-256 signature: signature error"
    );
    e.collateral.tcb_info.signature_hex = "zz".to_string();
    let err = e.verify().unwrap_err();
    assert!(err.detail.starts_with("signature is not valid hex: "), "{}", err.detail);
}

#[test]
fn rejections_of_a_quote_name_what_they_saw() {
    let e = evidence();
    let mut parts = quote_parts();
    parts.vendor = [0xab; 16];
    let err = e.verify_bytes(&e.assemble(&parts)).unwrap_err();
    assert_eq!(
        err.detail,
        "quote names QE vendor abababababababababababababababab, only Intel's QE (939a7233f79c4ca9940a0db3957f0607) is accepted"
    );
    let quote = read(&e.quote_bytes()).unwrap();
    let err = verify_at(&e.anchor, NOW, e.collateral.clone(), quote, &[0; 32], 0).unwrap_err();
    assert_eq!(
        err.detail,
        format!("report measures {}, caller pinned {}", "e1".repeat(32), "00".repeat(32))
    );
}
