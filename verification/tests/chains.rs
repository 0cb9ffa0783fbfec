use rcgen::{
    date_time_ymd, BasicConstraints, CertificateParams, CertificateRevocationListParams, DnType,
    IsCa, Issuer, KeyIdMethod, KeyPair, KeyUsagePurpose, RevokedCertParams, SerialNumber,
};

use dcap_verify::crl::{check_crl, ensure_none_revoked, normalized_serial, RevokedEntry};
use dcap_verify::pki::{
    require_ca, spki_verifying_key, trim_trailing_junk, CertChain, ChainKind, MAX_CHAIN_LEN,
    MAX_CHAIN_PEM_LEN,
};
use dcap_verify::x509::Certificate;
use dcap_verify::{ErrorCategory, VerifyError};

fn test_cert_der(is_ca: IsCa, key_usages: Vec<KeyUsagePurpose>) -> Vec<u8> {
    let key = KeyPair::generate().expect("P-256 key");
    let mut params = CertificateParams::new(Vec::<String>::new()).expect("params");
    params.distinguished_name.push(DnType::CommonName, "dcap-verify test certificate");
    params.is_ca = is_ca;
    params.key_usages = key_usages;
    params.self_signed(&key).expect("self-signed certificate").der().to_vec()
}

fn require_ca_on(der: &[u8]) -> Result<(), VerifyError> {
    let cert = Certificate::from_der(der).expect("certificate DER");
    require_ca("test", 1, &cert)
}

// basicConstraints cA=false in an issuer position rejects.
#[test]
fn require_ca_rejects_basic_constraints_ca_false() {
    let der = test_cert_der(IsCa::ExplicitNoCa, vec![]);
    let err = require_ca_on(&der).expect_err("cA=false must not be accepted as an issuer");
    assert_eq!(err.category, ErrorCategory::RootCaUntrusted);
}

// A certificate with no basicConstraints extension at all
// rejects in an issuer position.
#[test]
fn require_ca_rejects_missing_basic_constraints() {
    let der = test_cert_der(IsCa::NoCa, vec![]);
    let err = require_ca_on(&der)
        .expect_err("a cert without basicConstraints must not be accepted as an issuer");
    assert_eq!(err.category, ErrorCategory::RootCaUntrusted);
}

// A keyUsage extension that is present but lacks keyCertSign
// rejects, even with cA=true.
#[test]
fn require_ca_rejects_key_usage_without_key_cert_sign() {
    let der = test_cert_der(
        IsCa::Ca(BasicConstraints::Unconstrained),
        vec![KeyUsagePurpose::DigitalSignature],
    );
    let err = require_ca_on(&der)
        .expect_err("keyUsage without keyCertSign must not be accepted as an issuer");
    assert_eq!(err.category, ErrorCategory::RootCaUntrusted);
}

// cA=true passes with keyCertSign asserted, and with no
// keyUsage extension at all (keyUsage is enforced only where present).
#[test]
fn require_ca_accepts_valid_issuer() {
    let der = test_cert_der(
        IsCa::Ca(BasicConstraints::Unconstrained),
        vec![KeyUsagePurpose::KeyCertSign],
    );
    require_ca_on(&der).expect("cA=true with keyCertSign must be accepted");

    let der = test_cert_der(IsCa::Ca(BasicConstraints::Unconstrained), vec![]);
    require_ca_on(&der).expect("cA=true without a keyUsage extension must be accepted");
}

// An end-entity certificate must be rejected in an issuer position; a genuine CA is accepted.
#[test]
fn require_ca_rejects_non_ca_accepts_ca() {
    let h = hierarchy(OTHER_SERIAL);
    assert!(require_ca_on(&h.leaf_der).is_err());
    assert!(require_ca_on(&h.ca_der).is_ok());
}

const LEAF_SERIAL: &[u8] = &[0x03, 0x9f];
const OTHER_SERIAL: &[u8] = &[0x04, 0x11];

// A CA, a leaf it issued (leaf issuer DN == CA subject DN), and a CA-signed
// CRL revoking one serial, all generated fresh per test.
struct Hierarchy {
    ca_der: Vec<u8>,
    leaf_der: Vec<u8>,
    crl_pem: String,
    anchor: Vec<u8>,
}

fn hierarchy(revoked_serial: &[u8]) -> Hierarchy {
    let ca_key = KeyPair::generate().expect("CA key");
    let mut ca_params = CertificateParams::new(Vec::<String>::new()).expect("CA params");
    ca_params.distinguished_name.push(DnType::CommonName, "dcap-verify test CA");
    ca_params.is_ca = IsCa::Ca(BasicConstraints::Unconstrained);
    ca_params.key_usages = vec![KeyUsagePurpose::KeyCertSign, KeyUsagePurpose::CrlSign];
    ca_params.not_before = date_time_ymd(2018, 5, 21);
    ca_params.not_after = date_time_ymd(2049, 12, 31);
    let ca_der = ca_params.self_signed(&ca_key).expect("CA certificate").der().to_vec();
    let issuer = Issuer::new(ca_params, ca_key);

    let leaf_key = KeyPair::generate().expect("leaf key");
    let mut leaf_params = CertificateParams::new(Vec::<String>::new()).expect("leaf params");
    leaf_params.distinguished_name.push(DnType::CommonName, "dcap-verify test leaf");
    leaf_params.serial_number = Some(SerialNumber::from_slice(LEAF_SERIAL));
    leaf_params.not_before = date_time_ymd(2025, 5, 6);
    leaf_params.not_after = date_time_ymd(2032, 5, 6);
    let leaf_der =
        leaf_params.signed_by(&leaf_key, &issuer).expect("leaf certificate").der().to_vec();

    let crl_pem = CertificateRevocationListParams {
        this_update: date_time_ymd(2026, 1, 1),
        next_update: date_time_ymd(2027, 1, 1),
        crl_number: SerialNumber::from_slice(&[0x01]),
        issuing_distribution_point: None,
        revoked_certs: vec![RevokedCertParams {
            serial_number: SerialNumber::from_slice(revoked_serial),
            revocation_time: date_time_ymd(2026, 2, 1),
            reason_code: None,
            invalidity_date: None,
        }],
        key_identifier_method: KeyIdMethod::Sha256,
    }
    .signed_by(&issuer)
    .expect("CRL")
    .pem()
    .expect("CRL PEM");

    let anchor = Certificate::from_der(&ca_der).expect("CA DER").body.public_key;
    Hierarchy { ca_der, leaf_der, crl_pem, anchor }
}

// Run the CRL through the full `check_crl` gate (signature against the
// CA key, issuer DN match, validity window) to obtain the revoked set.
fn crl_entries(h: &Hierarchy, now: i64) -> Result<Vec<RevokedEntry>, VerifyError> {
    let ca = Certificate::from_der(&h.ca_der).expect("CA DER");
    let ca_key = spki_verifying_key("test CRL", &ca).expect("CA verifying key");
    check_crl("test CRL", h.crl_pem.as_bytes(), &ca.names.subject_raw, ca_key, now)
}

fn unix(y: i32, m: u8, d: u8) -> i64 {
    date_time_ymd(y, m, d).unix_timestamp()
}

fn leaf_chain(h: &Hierarchy) -> CertChain {
    CertChain { kind: ChainKind::QuotePck, ders: vec![h.leaf_der.clone()] }
}

// A CRL listing the leaf's serial, issued by the leaf's own CA, must make
// the revocation gate reject a chain holding that leaf.
#[test]
fn crl_listing_leaf_serial_rejects_chain() {
    let h = hierarchy(LEAF_SERIAL);
    let revoked = crl_entries(&h, unix(2026, 6, 1)).expect("a well-formed CRL must pass");
    assert_eq!(revoked.len(), 1, "the CRL revokes exactly one serial");
    let parsed = leaf_chain(&h).parse().expect("leaf chain parses");
    let err = ensure_none_revoked(&[&parsed], &revoked)
        .expect_err("a leaf listed in its issuer's CRL must be rejected");
    assert_eq!(err.category, ErrorCategory::CrlInvalid);
}

// The same CA-signed CRL revoking a different serial leaves the leaf alone:
// the issuer matches, so only the serial comparison keeps the chain valid.
#[test]
fn crl_without_leaf_serial_passes_revocation_check() {
    let h = hierarchy(OTHER_SERIAL);
    let revoked = crl_entries(&h, unix(2026, 6, 1)).expect("a well-formed CRL must pass");
    assert_eq!(revoked.len(), 1, "the CRL revokes exactly one serial");
    let parsed = leaf_chain(&h).parse().expect("leaf chain parses");
    ensure_none_revoked(&[&parsed], &revoked)
        .expect("a leaf whose serial the CRL does not list must pass");
}

// An entry with the issuer's name and the serial of a certificate rejects its chain; the same
// issuer with another serial does not, nor the same serial under another issuer.
#[test]
fn revocation_entries_match_by_issuer_and_serial() {
    let h = hierarchy(OTHER_SERIAL);
    let parsed = leaf_chain(&h).parse().expect("chain parses");
    let leaf = &parsed.certs[0];
    let entry = RevokedEntry {
        issuer_raw: leaf.names.issuer_raw.clone(),
        serial: normalized_serial(&leaf.body.serial),
    };
    let err = ensure_none_revoked(&[&parsed], &[entry]).unwrap_err();
    assert_eq!(err.category, ErrorCategory::CrlInvalid);
    assert!(err.detail.contains("embedded in the quote"), "{}", err.detail);

    let other_serial = RevokedEntry {
        issuer_raw: leaf.names.issuer_raw.clone(),
        serial: vec![0xde, 0xad, 0xbe, 0xef],
    };
    let other_issuer = RevokedEntry {
        issuer_raw: leaf.names.subject_raw.clone(),
        serial: normalized_serial(&leaf.body.serial),
    };
    ensure_none_revoked(&[&parsed], &[other_serial, other_issuer])
        .expect("neither entry names the certificate");
}

// CRL expiry is exclusive — evaluated exactly at nextUpdate the CRL
// rejects, one second before it passes the full check (signature included).
#[test]
fn crl_at_exact_next_update_rejects_one_second_before_passes() {
    let h = hierarchy(OTHER_SERIAL);
    let next_update = unix(2027, 1, 1);
    assert!(crl_entries(&h, next_update - 1).is_ok());
    let err = crl_entries(&h, next_update)
        .err()
        .expect("a CRL evaluated exactly at nextUpdate must reject");
    assert_eq!(err.category, ErrorCategory::CertOrCrlTimeInvalid);
}

// The CRL lower bound is inclusive — evaluated exactly at thisUpdate the CRL
// passes, one second before it rejects as not yet in effect.
#[test]
fn crl_at_exact_this_update_passes_one_second_before_rejects() {
    let h = hierarchy(OTHER_SERIAL);
    let this_update = unix(2026, 1, 1);
    assert!(crl_entries(&h, this_update).is_ok());
    let err = crl_entries(&h, this_update - 1)
        .err()
        .expect("a CRL evaluated before thisUpdate must reject");
    assert_eq!(err.category, ErrorCategory::CertOrCrlTimeInvalid);
}

#[test]
fn crls_of_another_issuer_or_key_are_rejected() {
    let h = hierarchy(OTHER_SERIAL);
    let other = hierarchy(OTHER_SERIAL);
    let ca = Certificate::from_der(&h.ca_der).unwrap();
    let now = unix(2026, 6, 1);
    let pem = h.crl_pem.as_bytes();
    let foreign_key = check_crl("x", pem, &ca.names.subject_raw, &other.anchor, now);
    assert_eq!(foreign_key.err().unwrap().category, ErrorCategory::CrlInvalid);
    let foreign_name = check_crl("x", pem, b"someone else", &h.anchor, now);
    assert_eq!(foreign_name.err().unwrap().category, ErrorCategory::CrlInvalid);
    let no_list = check_crl("x", b"nothing", &ca.names.subject_raw, &h.anchor, now);
    assert_eq!(no_list.err().unwrap().category, ErrorCategory::CrlInvalid);
}

fn whole_chain(h: &Hierarchy) -> CertChain {
    CertChain {
        kind: ChainKind::TcbInfoIssuer,
        ders: vec![h.leaf_der.clone(), h.ca_der.clone()],
    }
}

// Certificate expiry is exclusive — a chain evaluated exactly at its
// earliest notAfter instant rejects, one second before it validates.
#[test]
fn cert_at_exact_not_after_rejects_one_second_before_validates() {
    let h = hierarchy(OTHER_SERIAL);
    let parsed = whole_chain(&h).parse().expect("chain parses");
    let earliest_not_after = parsed.certs.iter().map(|c| c.body.not_after).min().unwrap();
    assert_eq!(earliest_not_after, unix(2032, 5, 6));
    assert!(parsed.validate(&h.anchor, earliest_not_after - 1).is_ok());
    let err = parsed.validate(&h.anchor, earliest_not_after).unwrap_err();
    assert_eq!(err.category, ErrorCategory::CertOrCrlTimeInvalid);
}

// The certificate lower time bound is inclusive — a chain evaluated exactly
// at its latest notBefore validates, one second before it rejects.
#[test]
fn cert_at_exact_not_before_validates_one_second_before_rejects() {
    let h = hierarchy(OTHER_SERIAL);
    let parsed = whole_chain(&h).parse().expect("chain parses");
    let latest_not_before = parsed.certs.iter().map(|c| c.body.not_before).max().unwrap();
    assert_eq!(latest_not_before, unix(2025, 5, 6));
    assert!(parsed.validate(&h.anchor, latest_not_before).is_ok());
    let err = parsed.validate(&h.anchor, latest_not_before - 1).unwrap_err();
    assert_eq!(err.category, ErrorCategory::CertOrCrlTimeInvalid);
}

#[test]
fn chains_must_lead_to_the_anchor() {
    let h = hierarchy(OTHER_SERIAL);
    let other = hierarchy(OTHER_SERIAL);
    let now = unix(2026, 6, 1);
    // The chain under another anchor.
    let parsed = whole_chain(&h).parse().unwrap();
    let err = parsed.validate(&other.anchor, now).unwrap_err();
    assert_eq!(err.category, ErrorCategory::RootCaUntrusted);
    // A leaf that another CA issued, above the right root.
    let spliced = CertChain {
        kind: ChainKind::TcbInfoIssuer,
        ders: vec![other.leaf_der.clone(), h.ca_der.clone()],
    };
    let err = spliced.parse().unwrap().validate(&h.anchor, now).unwrap_err();
    assert_eq!(err.category, ErrorCategory::RootCaUntrusted);
    // An end-entity certificate in an issuer's place.
    let flipped = CertChain {
        kind: ChainKind::TcbInfoIssuer,
        ders: vec![h.leaf_der.clone(), h.leaf_der.clone(), h.ca_der.clone()],
    };
    let err = flipped.parse().unwrap().validate(&h.anchor, now).unwrap_err();
    assert_eq!(err.category, ErrorCategory::RootCaUntrusted);
}

#[test]
fn chains_give_the_names_of_their_ends() {
    let h = hierarchy(OTHER_SERIAL);
    let parsed = whole_chain(&h).parse().unwrap();
    assert_eq!(parsed.leaf_common_name().unwrap(), "dcap-verify test leaf");
    assert_eq!(parsed.leaf_issuer_raw(), parsed.root_subject_raw());
    assert_eq!(parsed.leaf_subject_raw(), &parsed.certs[0].names.subject_raw[..]);
    assert_eq!(parsed.leaf_verifying_key().unwrap(), &parsed.certs[0].body.public_key[..]);
}

// Serial normalization strips leading zero octets. The revocation tests feed
// both sides of the comparison through it, so a normalization regression
// cancels out there and must be pinned directly.
#[test]
fn normalized_serial_strips_leading_zeros() {
    assert_eq!(normalized_serial(&[0x00, 0xa3]), vec![0xa3]);
    assert_eq!(normalized_serial(&[0x00, 0x00]), vec![0x00]);
    assert_eq!(normalized_serial(&[0x5a, 0x01]), vec![0x5a, 0x01]);
}

// Unparseable chain bytes classify by chain kind: the quote-embedded chain
// is a quote-parse failure, collateral chains are collateral-parse failures.
#[test]
fn chain_parse_errors_carry_the_chain_kind_category() {
    let err = CertChain::from_pem(ChainKind::QuotePck, b"no certificates here")
        .err()
        .expect("garbage must not parse");
    assert_eq!(err.category, ErrorCategory::QuoteParse);
    let err = CertChain::from_pem(ChainKind::TcbInfoIssuer, b"no certificates here")
        .err()
        .expect("garbage must not parse");
    assert_eq!(err.category, ErrorCategory::CollateralParse);
}

fn root_pem() -> String {
    let der = test_cert_der(IsCa::Ca(BasicConstraints::Unconstrained), vec![]);
    pem::encode(&pem::Pem::new("CERTIFICATE", der))
}

// The chain-length cap admits exactly MAX_CHAIN_LEN certificates and
// rejects one more.
#[test]
fn chain_length_cap_boundary() {
    let root_pem = root_pem();
    let chain = CertChain::from_pem(
        ChainKind::TcbInfoIssuer,
        root_pem.repeat(MAX_CHAIN_LEN).as_bytes(),
    );
    assert_eq!(chain.expect("a chain at the cap parses").ders.len(), MAX_CHAIN_LEN);
    let err = CertChain::from_pem(
        ChainKind::TcbInfoIssuer,
        root_pem.repeat(MAX_CHAIN_LEN + 1).as_bytes(),
    )
    .err()
    .expect("an over-cap chain must not parse");
    assert_eq!(err.category, ErrorCategory::CollateralParse);
}

// The byte cap admits exactly MAX_CHAIN_PEM_LEN bytes and rejects one
// more, before any base64/DER decoding happens.
#[test]
fn chain_byte_cap_boundary() {
    let mut data = root_pem().into_bytes();
    data.resize(MAX_CHAIN_PEM_LEN, b' ');
    assert!(CertChain::from_pem(ChainKind::TcbInfoIssuer, &data).is_ok());
    data.push(b' ');
    let err = CertChain::from_pem(ChainKind::TcbInfoIssuer, &data)
        .err()
        .expect("an over-cap chain must not parse");
    assert_eq!(err.category, ErrorCategory::CollateralParse);
}

// Only trailing NULs and whitespace are trimmed — the deliberate PEM-trailer
// leniency, pinned so it is neither widened nor silently dropped.
#[test]
fn trim_trailing_junk_semantics() {
    assert_eq!(trim_trailing_junk(b"abc\n\0 "), b"abc");
    assert_eq!(trim_trailing_junk(b"abc"), b"abc");
    assert_eq!(trim_trailing_junk(b"\0\n"), b"");
    assert_eq!(trim_trailing_junk(b""), b"");
    assert_eq!(trim_trailing_junk(b"\0abc"), b"\0abc");
}
