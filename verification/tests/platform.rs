use dcap_verify::platform::{
    ca_by_name, find_component, parse_sgx_extension, platform_in, PckCa,
};
use dcap_verify::types::collateral::{Envelope, EnvelopeFault, EnvelopeField};
use dcap_verify::types::qe_identity::QeIdentity;
use dcap_verify::types::tcb_info::TcbInfo;
use dcap_verify::x509::{CertificateNames, DerCell, DerObject};
use dcap_verify::ErrorCategory;

fn tlv(tag: u8, content: &[u8]) -> Vec<u8> {
    let mut out = vec![tag];
    if content.len() < 0x80 {
        out.push(content.len() as u8);
    } else {
        out.extend_from_slice(&[0x82, (content.len() >> 8) as u8, content.len() as u8]);
    }
    out.extend_from_slice(content);
    out
}

fn entry(tail: &[u8], value: &[u8]) -> Vec<u8> {
    let mut oid = vec![0x2a, 0x86, 0x48, 0x86, 0xf8, 0x4d, 0x01, 0x0d, 0x01];
    oid.extend_from_slice(tail);
    let mut pair = tlv(0x06, &oid);
    pair.extend_from_slice(value);
    tlv(0x30, &pair)
}

fn number(n: u8) -> Vec<u8> {
    tlv(0x02, &[n])
}

fn tcb_entries() -> Vec<Vec<u8>> {
    (1..=17).map(|k| entry(&[2, k], &number(k + 10))).collect()
}

fn tcb_field(entries: &[Vec<u8>]) -> Vec<u8> {
    entry(&[2], &tlv(0x30, &entries.concat()))
}

fn fmspc_field() -> Vec<u8> {
    entry(&[4], &tlv(0x04, &[0x00, 0xa0, 0x67, 0x11, 0x00, 0x01]))
}

fn pce_field() -> Vec<u8> {
    entry(&[3], &tlv(0x04, &[0x00, 0x07]))
}

fn extension(fields: &[Vec<u8>]) -> Vec<u8> {
    tlv(0x30, &fields.concat())
}

fn fault(fields: &[Vec<u8>]) -> String {
    let err = parse_sgx_extension(&extension(fields)).unwrap_err();
    assert_eq!(err.category, ErrorCategory::QuoteParse);
    err.detail
}

// Every field is read wherever it stands, and what is not known is passed over.
#[test]
fn the_sgx_extension_gives_the_platform() {
    let fields = [
        pce_field(),
        entry(&[9], &number(1)),
        tlv(0x02, &[1]),
        tcb_field(&tcb_entries()),
        fmspc_field(),
    ];
    let platform = parse_sgx_extension(&extension(&fields)).expect("the extension is complete");
    assert_eq!(platform.fmspc, [0x00, 0xa0, 0x67, 0x11, 0x00, 0x01]);
    assert_eq!(platform.pce_id, [0x00, 0x07]);
    assert_eq!(platform.comp_svns, core::array::from_fn::<u32, 16, _>(|i| i as u32 + 11));
    assert_eq!(platform.pcesvn, 27);
}

#[test]
fn incomplete_extensions_name_what_is_missing() {
    let tcb = tcb_field(&tcb_entries());
    assert_eq!(fault(&[pce_field(), tcb.clone()]), "SGX platform extension: FMSPC missing");
    assert_eq!(fault(&[fmspc_field(), tcb]), "SGX platform extension: PCE-ID missing");
    let no_pcesvn = tcb_field(&tcb_entries()[..16]);
    assert_eq!(
        fault(&[pce_field(), fmspc_field(), no_pcesvn]),
        "SGX platform extension: PCESVN missing"
    );
    let no_component = tcb_field(&tcb_entries()[1..]);
    assert_eq!(
        fault(&[pce_field(), fmspc_field(), no_component]),
        "SGX platform extension: a TCB component SVN is missing"
    );
}

#[test]
fn fields_of_the_wrong_kind_are_named() {
    let flag = entry(&[4], &tlv(0x01, &[0xff]));
    assert_eq!(fault(&[flag]), "SGX platform extension: FMSPC is not a byte string");
    let short = entry(&[4], &tlv(0x04, &[1, 2]));
    assert_eq!(fault(&[short]), "SGX platform extension: FMSPC is not 6 bytes");
    let long = entry(&[3], &tlv(0x04, &[1, 2, 3]));
    assert_eq!(fault(&[long]), "SGX platform extension: PCE-ID is not 2 bytes");
    let flag = entry(&[3], &tlv(0x01, &[0xff]));
    assert_eq!(fault(&[flag]), "SGX platform extension: PCE-ID is not a byte string");
    let no_sequence = entry(&[2], &number(1));
    assert_eq!(fault(&[no_sequence]), "SGX platform extension: TCB field is not a sequence");
    let bytes_for_number = tcb_field(&[entry(&[2, 1], &tlv(0x04, &[1]))]);
    assert_eq!(
        fault(&[bytes_for_number]),
        "SGX platform extension: a TCB component SVN is not a small integer"
    );
    let large = tcb_field(&[entry(&[2, 17], &tlv(0x02, &[1, 0, 0, 0, 0]))]);
    assert_eq!(fault(&[large]), "SGX platform extension: PCESVN is not a small integer");
}

#[test]
fn what_is_no_sequence_is_no_extension() {
    let err = parse_sgx_extension(&number(1)).unwrap_err();
    assert_eq!(err.category, ErrorCategory::QuoteParse);
    assert!(err.detail.starts_with("SGX platform extension is not a sequence: "), "{}", err.detail);
    let err = parse_sgx_extension(&[0x30, 0x05, 0x01]).unwrap_err();
    assert!(
        err.detail.starts_with("SGX platform extension is not parseable DER: "),
        "{}",
        err.detail
    );
}

fn object(oid: Option<&str>, bytes: Option<&[u8]>) -> DerObject {
    DerObject { oid: oid.map(str::to_string), bytes: bytes.map(<[u8]>::to_vec), rows: None }
}

fn cell(oid: Option<&str>, number: Option<u32>) -> DerCell {
    DerCell { oid: oid.map(str::to_string), number }
}

#[test]
fn the_platform_is_read_off_the_entries() {
    let oid = |tail: &str| format!("1.2.840.113741.1.13.1.{tail}");
    let rows = || -> Vec<Option<Vec<DerCell>>> {
        let mut rows: Vec<Option<Vec<DerCell>>> = (1..=17)
            .map(|k| Some(vec![cell(Some(&oid(&format!("2.{k}"))), None), cell(None, Some(k + 10))]))
            .collect();
        // Passed over: no sequence, a single cell, a row without an identifier.
        rows.push(None);
        rows.push(Some(vec![cell(Some(&oid("2.1")), None)]));
        rows.push(Some(vec![cell(None, None), cell(None, None)]));
        rows
    };
    let tcb = |rows| DerObject { rows, ..object(None, None) };
    let entries = |rows| {
        vec![
            None,
            Some(vec![object(Some(&oid("4")), None)]),
            Some(vec![object(None, None), object(None, None)]),
            Some(vec![object(Some(&oid("1")), None), object(None, None)]),
            Some(vec![object(Some(&oid("2")), None), tcb(rows)]),
            Some(vec![object(Some(&oid("3")), None), object(None, Some(&[7, 8]))]),
            Some(vec![object(Some(&oid("4")), None), object(None, Some(&[1, 2, 3, 4, 5, 6]))]),
        ]
    };
    let platform = platform_in(&entries(Some(rows()))).unwrap();
    assert_eq!(platform.fmspc, [1, 2, 3, 4, 5, 6]);
    assert_eq!(platform.pce_id, [7, 8]);
    let svns: Vec<u32> = (11..=26).collect();
    assert_eq!(platform.comp_svns.to_vec(), svns);
    assert_eq!(platform.pcesvn, 27);

    let err = platform_in(&entries(None)).unwrap_err();
    assert_eq!(err.detail, "SGX platform extension: TCB field is not a sequence");
    let err = platform_in(&vec![]).unwrap_err();
    assert_eq!(err.detail, "SGX platform extension: FMSPC missing");
}

#[test]
fn the_first_common_name_counts() {
    let names = |subject: &[Option<&str>], issuer: &[Option<&str>]| CertificateNames {
        subject: String::new(),
        subject_raw: vec![],
        issuer_raw: vec![],
        common_names: subject.iter().map(|cn| cn.map(str::to_string)).collect(),
        issuer_common_names: issuer.iter().map(|cn| cn.map(str::to_string)).collect(),
    };
    let both = names(&[Some("a"), Some("b")], &[Some("c"), None]);
    assert_eq!(both.common_name(), Some("a"));
    assert_eq!(both.issuer_common_name(), Some("c"));
    // An unreadable name is not passed over in favour of the next.
    let unreadable = names(&[None, Some("b")], &[]);
    assert_eq!(unreadable.common_name(), None);
    assert_eq!(unreadable.issuer_common_name(), None);
}

#[test]
fn components_are_numbered_by_their_identifiers() {
    assert_eq!(find_component("1.2.840.113741.1.13.1.2.16"), Some(16));
    assert_eq!(find_component("1.2.840.113741.1.13.1.2.17"), Some(17));
    assert_eq!(find_component("1.2.840.113741.1.13.1.3"), None);
    assert_eq!(find_component("1.2.840.113741.1.13.1.2."), None);
}

#[test]
fn pck_cas_are_known_by_their_names() {
    assert_eq!(ca_by_name(Some("Intel SGX PCK Processor CA")).unwrap(), PckCa::Processor);
    assert_eq!(ca_by_name(Some("Intel SGX PCK Platform CA")).unwrap(), PckCa::Platform);
    let err = ca_by_name(Some("Intel SGX Root CA")).unwrap_err();
    assert!(err.detail.contains("Intel SGX Root CA"), "{}", err.detail);
    assert!(ca_by_name(None).is_err());
}

// ---- the envelope of a signed document ----

#[test]
fn envelopes_take_body_and_signature_once_each() {
    let mut envelope = Envelope::new();
    assert_eq!(envelope.field::<TcbInfo>("extra").unwrap(), EnvelopeField::Ignored);
    assert_eq!(envelope.field::<TcbInfo>("signature").unwrap(), EnvelopeField::Signature);
    envelope.signature_hex = Some("00".to_string());
    assert_eq!(envelope.field::<TcbInfo>("tcbInfo").unwrap(), EnvelopeField::Body);
    envelope.body_json = Some("{}".to_string());
    assert!(matches!(
        envelope.field::<TcbInfo>("tcbInfo"),
        Err(EnvelopeFault::Duplicate("tcbInfo"))
    ));
    assert!(matches!(
        envelope.field::<TcbInfo>("signature"),
        Err(EnvelopeFault::Duplicate("signature"))
    ));
    assert_eq!(envelope.field::<QeIdentity>("tcbInfo").unwrap(), EnvelopeField::Ignored);
    let parts = envelope.finish::<TcbInfo>().expect("both came");
    assert_eq!(parts, ("{}".to_string(), "00".to_string()));
}

#[test]
fn envelopes_name_what_is_missing() {
    assert!(matches!(
        Envelope::new().finish::<QeIdentity>(),
        Err(EnvelopeFault::Missing("enclaveIdentity"))
    ));
    let unsigned = Envelope { body_json: Some("{}".to_string()), signature_hex: None };
    assert!(matches!(
        unsigned.finish::<QeIdentity>(),
        Err(EnvelopeFault::Missing("signature"))
    ));
}
