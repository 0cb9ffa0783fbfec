//! Certificate chains to the pinned Intel root, revocation, and the platform TCB that a PCK
//! certificate carries.

use vstd::prelude::*;
use vstd::slice::slice_subrange;
use vstd::string::StringExecFns;

use crate::crypto::{self, decode_der_signature, decode_key, verify_signature};
use crate::error::{self, ErrorCategory, Rejection, VerifyError};
use crate::text::{self, decimal_i64, decimal_u64, same_bytes, same_text};
use crate::x509::{self, parse_pem, Certificate, CertificateView};

verus! {

pub const INTEL_QE_VENDOR_ID: [u8; 16] = [
    0x93, 0x9a, 0x72, 0x33, 0xf7, 0x9c, 0x4c, 0xa9, 0x94, 0x0a, 0x0d, 0xb3, 0x95, 0x7f, 0x06, 0x07,
];

/// Subject common name of Intel's dedicated collateral-signing certificate. The
/// leaves that sign `tcbInfo` and `enclaveIdentity` must carry this exact name;
/// merely chaining to the root is not enough.
pub const INTEL_TCB_SIGNING_CN: &'static str = "Intel SGX TCB Signing";

/// Intel PKI paths are three certificates (leaf, intermediate, root). A generous
/// cap bounds the per-certificate signature work an attacker-supplied chain can
/// force before the pinned-root anchor is even reached.
pub const MAX_CHAIN_LEN: usize = 10;

/// Byte cap on a PEM chain, checked before any decoding. Real Intel chains are
/// ~2 KiB and even `MAX_CHAIN_LEN` certificates fit in a fraction of this; the
/// cap bounds the base64/DER work an oversized attacker-supplied blob can force
/// before the certificate-count cap is reachable.
pub const MAX_CHAIN_PEM_LEN: usize = 65536;

/// Uncompressed P-256 point of the Intel SGX Provisioning Certification Root CA key,
/// taken from Intel's published root certificate.
pub const INTEL_SGX_ROOT_CA_PUBLIC_KEY_SEC1: [u8; 65] = [
    0x04, 0x0b, 0xa9, 0xc4, 0xc0, 0xc0, 0xc8, 0x61, 0x93, 0xa3, 0xfe, 0x23, 0xd6, 0xb0, 0x2c, 0xda,
    0x10, 0xa8, 0xbb, 0xd4, 0xe8, 0x8e, 0x48, 0xb4, 0x45, 0x85, 0x61, 0xa3, 0x6e, 0x70, 0x55, 0x25,
    0xf5, 0x67, 0x91, 0x8e, 0x2e, 0xdc, 0x88, 0xe4, 0x0d, 0x86, 0x0b, 0xd0, 0xcc, 0x4e, 0xe2, 0x6a,
    0xac, 0xc9, 0x88, 0xe5, 0x05, 0xa9, 0x53, 0x55, 0x8c, 0x45, 0x3f, 0x6b, 0x09, 0x04, 0xae, 0x73,
    0x94,
];

/// DER content of the identifier of ECDSA with SHA-256, 1.2.840.10045.4.3.2.
pub const OID_ECDSA_WITH_SHA256: [u8; 8] = [0x2a, 0x86, 0x48, 0xce, 0x3d, 0x04, 0x03, 0x02];

/// DER content of the identifier of EC public keys, 1.2.840.10045.2.1.
pub const OID_EC_PUBLIC_KEY: [u8; 7] = [0x2a, 0x86, 0x48, 0xce, 0x3d, 0x02, 0x01];

/// DER content of the identifier of the curve P-256, 1.2.840.10045.3.1.7.
pub const OID_EC_P256: [u8; 8] = [0x2a, 0x86, 0x48, 0xce, 0x3d, 0x03, 0x01, 0x07];

/// What a chain of certificates is there for.
#[derive(Clone, Copy, Debug, PartialEq, Eq, Structural)]
pub enum ChainKind {
    TcbInfoIssuer,
    PckCrlIssuer,
    QeIdentityIssuer,
    QuotePck,
}

impl ChainKind {
    /// How a chain of this kind is named in rejections.
    pub open spec fn name(self) -> Seq<char> {
        match self {
            Self::TcbInfoIssuer => "TCB info issuer chain"@,
            Self::PckCrlIssuer => "PCK CRL issuer chain"@,
            Self::QeIdentityIssuer => "QE identity issuer chain"@,
            Self::QuotePck => "PCK chain embedded in the quote"@,
        }
    }

    /// The rejection of a chain of this kind that cannot be parsed.
    pub open spec fn unparsed(self, detail: Seq<char>) -> Rejection {
        error::rejection(
            if self == Self::QuotePck {
                ErrorCategory::QuoteParse
            } else {
                ErrorCategory::CollateralParse
            },
            self.name() + ": "@ + detail,
        )
    }

    pub fn label(self) -> (label: &'static str)
        ensures
            label@ == self.name(),
    {
        match self {
            Self::TcbInfoIssuer => "TCB info issuer chain",
            Self::PckCrlIssuer => "PCK CRL issuer chain",
            Self::QeIdentityIssuer => "QE identity issuer chain",
            Self::QuotePck => "PCK chain embedded in the quote",
        }
    }

    pub fn parse_error(self, detail: String) -> (error: VerifyError)
        ensures
            error@ == self.unparsed(detail@),
    {
        let category = match self {
            Self::QuotePck => ErrorCategory::QuoteParse,
            _ => ErrorCategory::CollateralParse,
        };
        VerifyError::new(
            category,
            self.label().to_owned().concat(": ").concat(detail.as_str()),
        )
    }
}

/// Whether a byte is trailing junk of PEM data: NUL or ASCII whitespace.
pub open spec fn is_junk(b: u8) -> bool {
    b == 0 || b == 0x20 || b == 0x09 || b == 0x0a || b == 0x0c || b == 0x0d
}

/// `data` without the junk at its end.
pub open spec fn trimmed(data: Seq<u8>) -> Seq<u8>
    decreases data.len(),
{
    if data.len() > 0 && is_junk(data.last()) {
        trimmed(data.drop_last())
    } else {
        data
    }
}

pub fn trim_trailing_junk(data: &[u8]) -> (rest: &[u8])
    ensures
        rest@ == trimmed(data@),
{
    let mut end: usize = data.len();
    assert(data@.subrange(0, end as int) == data@);
    while end > 0 && (data[end - 1] == 0 || data[end - 1] == 0x20 || data[end - 1] == 0x09
        || data[end - 1] == 0x0a || data[end - 1] == 0x0c || data[end - 1] == 0x0d)
        invariant
            end <= data.len(),
            trimmed(data@) == trimmed(data@.subrange(0, end as int)),
        decreases end,
    {
        assert(data@.subrange(0, end as int).drop_last() == data@.subrange(0, end - 1));
        end -= 1;
    }
    assert(end > 0 ==> data@.subrange(0, end as int).last() == data@[end - 1]);
    slice_subrange(data, 0, end)
}

/// The contents of the certificate blocks among `blocks`, in order.
pub open spec fn certificate_contents(blocks: Seq<(Seq<char>, Seq<u8>)>) -> Seq<Seq<u8>>
    decreases blocks.len(),
{
    if blocks.len() == 0 {
        seq![]
    } else if blocks.last().0 == "CERTIFICATE"@ {
        certificate_contents(blocks.drop_last()).push(blocks.last().1)
    } else {
        certificate_contents(blocks.drop_last())
    }
}

/// The certificates in a PEM chain, or why it is refused.
pub open spec fn chain_ders(kind: ChainKind, data: Seq<u8>) -> Result<DersView, Rejection> {
    if data.len() > MAX_CHAIN_PEM_LEN {
        Err(
            kind.unparsed(
                "chain is "@ + text::decimal(data.len() as int)
                    + " bytes, more than the accepted maximum of "@ + text::decimal(
                    MAX_CHAIN_PEM_LEN as int,
                ),
            ),
        )
    } else {
        match x509::pem_blocks(trimmed(data)) {
            Err(e) => Err(kind.unparsed("PEM decoding failed: "@ + e)),
            Ok(blocks) => counted_ders(kind, certificate_contents(blocks)),
        }
    }
}

/// A chain of `ders`, when there are neither none nor too many.
pub open spec fn counted_ders(kind: ChainKind, ders: Seq<Seq<u8>>) -> Result<
    DersView,
    Rejection,
> {
    if ders.len() == 0 {
        Err(kind.unparsed("no certificates present"@))
    } else if ders.len() > MAX_CHAIN_LEN {
        Err(
            kind.unparsed(
                "chain holds "@ + text::decimal(ders.len() as int)
                    + " certificates, more than the accepted maximum of "@ + text::decimal(
                    MAX_CHAIN_LEN as int,
                ),
            ),
        )
    } else {
        Ok(DersView { kind, ders })
    }
}

/// A PEM certificate chain with its DER bytes owned. Parse it exactly once into a
/// [`ParsedChain`] and reuse that across every check.
pub struct CertChain {
    pub kind: ChainKind,
    pub ders: Vec<Vec<u8>>,
}

/// What a [`CertChain`] holds.
#[verifier::ext_equal]
pub ghost struct DersView {
    pub kind: ChainKind,
    pub ders: Seq<Seq<u8>>,
}

impl View for CertChain {
    type V = DersView;

    open spec fn view(&self) -> DersView {
        DersView { kind: self.kind, ders: self.ders@.map_values(|der: Vec<u8>| der@) }
    }
}

impl CertChain {
    pub fn from_pem(kind: ChainKind, data: &[u8]) -> (chain: Result<Self, VerifyError>)
        ensures
            error::outcome(chain) == chain_ders(kind, data@),
    {
        if data.len() > MAX_CHAIN_PEM_LEN {
            return Err(
                kind.parse_error(
                    "chain is ".to_owned().concat(decimal_u64(data.len() as u64).as_str()).concat(
                        " bytes, more than the accepted maximum of ",
                    ).concat(decimal_u64(MAX_CHAIN_PEM_LEN as u64).as_str()),
                ),
            );
        }
        let blocks = match parse_pem(trim_trailing_junk(data)) {
            Err(e) => {
                return Err(
                    kind.parse_error("PEM decoding failed: ".to_owned().concat(e.as_str())),
                );
            },
            Ok(blocks) => blocks,
        };
        Self::from_blocks(kind, blocks)
    }

    /// Keeps the certificates among decoded PEM blocks, when their number is acceptable.
    pub fn from_blocks(kind: ChainKind, blocks: Vec<(String, Vec<u8>)>) -> (chain: Result<
        Self,
        VerifyError,
    >)
        ensures
            error::outcome(chain) == counted_ders(
                kind,
                certificate_contents(x509::labelled(blocks@)),
            ),
    {
        let ghost all = x509::labelled(blocks@);
        let mut ders: Vec<Vec<u8>> = Vec::new();
        let mut i: usize = 0;
        assert(all.subrange(0, 0) == Seq::<(Seq<char>, Seq<u8>)>::empty());
        while i < blocks.len()
            invariant
                i <= blocks.len(),
                all == x509::labelled(blocks@),
                ders@.map_values(|der: Vec<u8>| der@) == certificate_contents(
                    all.subrange(0, i as int),
                ),
            decreases blocks.len() - i,
        {
            assert(all.subrange(0, i + 1).drop_last() == all.subrange(0, i as int));
            assert(all.subrange(0, i + 1).last() == (blocks@[i as int].0@, blocks@[i as int].1@));
            if same_text(blocks[i].0.as_str(), "CERTIFICATE") {
                let der = blocks[i].1.clone();
                assert(der@ == blocks@[i as int].1@);
                let ghost before = ders@;
                ders.push(der);
                assert(ders@.map_values(|der: Vec<u8>| der@) == before.map_values(
                    |der: Vec<u8>| der@,
                ).push(der@));
            }
            i += 1;
        }
        assert(all.subrange(0, i as int) == all);
        if ders.len() == 0 {
            return Err(kind.parse_error("no certificates present".to_owned()));
        }
        if ders.len() > MAX_CHAIN_LEN {
            return Err(
                kind.parse_error(
                    "chain holds ".to_owned().concat(
                        decimal_u64(ders.len() as u64).as_str(),
                    ).concat(" certificates, more than the accepted maximum of ").concat(
                        decimal_u64(MAX_CHAIN_LEN as u64).as_str(),
                    ),
                ),
            );
        }
        Ok(CertChain { kind, ders })
    }

    /// Decode every certificate in the chain a single time.
    pub fn parse(&self) -> (parsed: Result<ParsedChain, VerifyError>)
        ensures
            error::outcome(parsed) == parsed_chain(self@),
    {
        let mut certs: Vec<Certificate> = Vec::new();
        let mut i: usize = 0;
        assert(self@.ders.subrange(0, 0) == Seq::<Seq<u8>>::empty());
        assert(certs@.map_values(|cert: Certificate| cert@) == Seq::<CertificateView>::empty());
        while i < self.ders.len()
            invariant
                i <= self.ders.len(),
                parsed_certificates(self.kind, self@.ders.subrange(0, i as int)) == Ok::<
                    Seq<CertificateView>,
                    Rejection,
                >(certs@.map_values(|cert: Certificate| cert@)),
            decreases self.ders.len() - i,
        {
            assert(self@.ders.subrange(0, i + 1).drop_last() == self@.ders.subrange(0, i as int));
            assert(self@.ders.subrange(0, i + 1).last() == self.ders@[i as int]@);
            match Certificate::from_der(self.ders[i].as_slice()) {
                Err(e) => {
                    let error = self.kind.parse_error(
                        "certificate ".to_owned().concat(decimal_u64(i as u64).as_str()).concat(
                            " is not valid DER: ",
                        ).concat(e.as_str()),
                    );
                    proof {
                        lemma_parse_fault_stays(self.kind, self@.ders, i + 1);
                    }
                    return Err(error);
                },
                Ok(cert) => {
                    let ghost before = certs@;
                    certs.push(cert);
                    assert(certs@.map_values(|cert: Certificate| cert@) == before.map_values(
                        |cert: Certificate| cert@,
                    ).push(cert@));
                },
            }
            i += 1;
        }
        assert(self@.ders.subrange(0, i as int) == self@.ders);
        Ok(ParsedChain { kind: self.kind, certs })
    }
}

/// The certificates that `ders` encode, or the fault of the first that does not decode.
pub open spec fn parsed_certificates(kind: ChainKind, ders: Seq<Seq<u8>>) -> Result<
    Seq<CertificateView>,
    Rejection,
>
    decreases ders.len(),
{
    if ders.len() == 0 {
        Ok(seq![])
    } else {
        match parsed_certificates(kind, ders.drop_last()) {
            Err(fault) => Err(fault),
            Ok(before) => match x509::certificate(ders.last()) {
                Ok(cert) => Ok(before.push(cert)),
                Err(e) => Err(
                    kind.unparsed(
                        "certificate "@ + text::decimal(ders.len() - 1) + " is not valid DER: "@
                            + e,
                    ),
                ),
            },
        }
    }
}

/// The chain that a chain of DER encodes, or the fault of the first certificate that does not
/// decode.
pub open spec fn parsed_chain(chain: DersView) -> Result<ChainView, Rejection> {
    match parsed_certificates(chain.kind, chain.ders) {
        Ok(certs) => Ok(ChainView { kind: chain.kind, certs }),
        Err(fault) => Err(fault),
    }
}

proof fn lemma_parse_fault_stays(kind: ChainKind, ders: Seq<Seq<u8>>, n: int)
    requires
        0 <= n <= ders.len(),
        parsed_certificates(kind, ders.subrange(0, n)) is Err,
    ensures
        parsed_certificates(kind, ders) == parsed_certificates(kind, ders.subrange(0, n)),
    decreases ders.len(),
{
    if n == ders.len() {
        assert(ders.subrange(0, n) == ders);
    } else {
        assert(ders.drop_last().subrange(0, n) == ders.subrange(0, n));
        lemma_parse_fault_stays(kind, ders.drop_last(), n);
    }
}

/// A decoded chain has a certificate for each DER.
pub proof fn lemma_parsed_len(kind: ChainKind, ders: Seq<Seq<u8>>)
    ensures
        parsed_certificates(kind, ders) matches Ok(certs) ==> certs.len() == ders.len(),
    decreases ders.len(),
{
    if ders.len() > 0 {
        lemma_parsed_len(kind, ders.drop_last());
    }
}

/// A certificate chain decoded once. All path checks and accessors read the
/// already-parsed certificates rather than re-decoding DER. The leaf comes first, the root last.
pub struct ParsedChain {
    pub kind: ChainKind,
    pub certs: Vec<Certificate>,
}

/// What a [`ParsedChain`] holds.
#[verifier::ext_equal]
pub ghost struct ChainView {
    pub kind: ChainKind,
    pub certs: Seq<CertificateView>,
}

impl View for ParsedChain {
    type V = ChainView;

    open spec fn view(&self) -> ChainView {
        ChainView {
            kind: self.kind,
            certs: self.certs@.map_values(|cert: Certificate| cert@),
        }
    }
}

/// The fault of a certificate outside its validity at `now`. The lower bound is inclusive, the
/// upper is not.
pub open spec fn time_fault(label: Seq<char>, cert: CertificateView, now: i64) -> Option<
    Rejection,
> {
    if now < cert.body.not_before || now >= cert.body.not_after {
        Some(
            error::rejection(
                ErrorCategory::CertOrCrlTimeInvalid,
                label + ": '"@ + cert.names.subject + "' is valid from unix "@ + text::decimal(
                    cert.body.not_before as int,
                ) + " until unix "@ + text::decimal(cert.body.not_after as int)
                    + ", verification time is "@ + text::decimal(now as int),
            ),
        )
    } else {
        None
    }
}

/// A rejection for want of a path to the pinned root.
pub open spec fn untrusted(detail: Seq<char>) -> Rejection {
    error::rejection(ErrorCategory::RootCaUntrusted, detail)
}

/// The fault of a certificate that is not ECDSA P-256 with SHA-256 throughout.
pub open spec fn algorithm_fault(label: Seq<char>, cert: CertificateView) -> Option<Rejection> {
    let subject = cert.names.subject;
    let algorithms = cert.algorithms;
    if !algorithms.agree {
        Some(
            untrusted(
                label + ": '"@ + subject
                    + "' declares an outer signatureAlgorithm that differs from the signed tbsCertificate.signature field"@,
            ),
        )
    } else if algorithms.signature.bytes != OID_ECDSA_WITH_SHA256@ {
        Some(
            untrusted(
                label + ": '"@ + subject + "' is signed with algorithm "@
                    + algorithms.signature.text + " instead of ECDSA-with-SHA256"@,
            ),
        )
    } else if algorithms.key.bytes != OID_EC_PUBLIC_KEY@ {
        Some(
            untrusted(
                label + ": '"@ + subject + "' holds a non-EC public key ("@ + algorithms.key.text
                    + ")"@,
            ),
        )
    } else {
        match algorithms.curve {
            None => Some(
                untrusted(
                    label + ": '"@ + subject
                        + "' does not name an EC curve in its key parameters"@,
                ),
            ),
            Some(curve) => if curve.bytes != OID_EC_P256@ {
                Some(
                    untrusted(
                        label + ": '"@ + subject + "' uses curve "@ + curve.text
                            + " instead of P-256"@,
                    ),
                )
            } else {
                None
            },
        }
    }
}

/// Requires ECDSA P-256 with SHA-256 of a certificate: the two signature algorithm fields agree,
/// they name ECDSA with SHA-256, and the key is on P-256.
pub fn check_p256_sha256_algs(label: &str, cert: &Certificate) -> (checked: Result<
    (),
    VerifyError,
>)
    ensures
        error::verdict(checked) == algorithm_fault(label@, cert@),
{
    let subject = cert.names.subject.as_str();
    let algorithms = &cert.algorithms;
    // RFC 5280 §4.1.1.2: the outer signatureAlgorithm is not covered by the signature, so it
    // must agree (OID and parameters) with the signed tbsCertificate.signature copy.
    if !algorithms.agree {
        return Err(
            VerifyError::new(
                ErrorCategory::RootCaUntrusted,
                label.to_owned().concat(": '").concat(subject).concat(
                    "' declares an outer signatureAlgorithm that differs from the signed tbsCertificate.signature field",
                ),
            ),
        );
    }
    if !same_bytes(algorithms.signature.bytes.as_slice(), OID_ECDSA_WITH_SHA256.as_slice()) {
        return Err(
            VerifyError::new(
                ErrorCategory::RootCaUntrusted,
                label.to_owned().concat(": '").concat(subject).concat(
                    "' is signed with algorithm ",
                ).concat(algorithms.signature.text.as_str()).concat(
                    " instead of ECDSA-with-SHA256",
                ),
            ),
        );
    }
    if !same_bytes(algorithms.key.bytes.as_slice(), OID_EC_PUBLIC_KEY.as_slice()) {
        return Err(
            VerifyError::new(
                ErrorCategory::RootCaUntrusted,
                label.to_owned().concat(": '").concat(subject).concat(
                    "' holds a non-EC public key (",
                ).concat(algorithms.key.text.as_str()).concat(")"),
            ),
        );
    }
    match &algorithms.curve {
        None => Err(
            VerifyError::new(
                ErrorCategory::RootCaUntrusted,
                label.to_owned().concat(": '").concat(subject).concat(
                    "' does not name an EC curve in its key parameters",
                ),
            ),
        ),
        Some(curve) => {
            if !same_bytes(curve.bytes.as_slice(), OID_EC_P256.as_slice()) {
                return Err(
                    VerifyError::new(
                        ErrorCategory::RootCaUntrusted,
                        label.to_owned().concat(": '").concat(subject).concat(
                            "' uses curve ",
                        ).concat(curve.text.as_str()).concat(" instead of P-256"),
                    ),
                );
            }
            Ok(())
        },
    }
}

/// The fault of certificate `index` as an issuer: it must be a CA, and where it limits its key's
/// usage, signing certificates must be in it.
pub open spec fn issuer_fault(label: Seq<char>, index: int, cert: CertificateView) -> Option<
    Rejection,
> {
    let subject = cert.names.subject;
    let number = text::decimal(index);
    match cert.extensions.ca {
        Err(e) => Some(
            untrusted(
                label + ": certificate "@ + number + " ('"@ + subject
                    + "') has an unparseable basicConstraints extension: "@ + e,
            ),
        ),
        Ok(None) => Some(
            untrusted(
                label + ": issuer certificate "@ + number + " ('"@ + subject
                    + "') lacks a basicConstraints extension"@,
            ),
        ),
        Ok(Some(false)) => Some(
            untrusted(
                label + ": certificate "@ + number + " ('"@ + subject
                    + "') is used as an issuer but is not a CA (basicConstraints cA=false)"@,
            ),
        ),
        Ok(Some(true)) => match cert.extensions.key_cert_sign {
            Err(e) => Some(
                untrusted(
                    label + ": certificate "@ + number + " ('"@ + subject
                        + "') has an unparseable keyUsage extension: "@ + e,
                ),
            ),
            Ok(Some(false)) => Some(
                untrusted(
                    label + ": issuer certificate "@ + number + " ('"@ + subject
                        + "') keyUsage does not permit keyCertSign"@,
                ),
            ),
            Ok(_) => None,
        },
    }
}

/// Requires CA capability of a certificate used as an issuer. keyUsage is enforced only where
/// present.
pub fn require_ca(label: &str, index: usize, cert: &Certificate) -> (checked: Result<
    (),
    VerifyError,
>)
    ensures
        error::verdict(checked) == issuer_fault(label@, index as int, cert@),
{
    let subject = cert.names.subject.as_str();
    let number = decimal_u64(index as u64);
    match &cert.extensions.ca {
        Err(e) => {
            return Err(
                VerifyError::new(
                    ErrorCategory::RootCaUntrusted,
                    label.to_owned().concat(": certificate ").concat(number.as_str()).concat(
                        " ('",
                    ).concat(subject).concat(
                        "') has an unparseable basicConstraints extension: ",
                    ).concat(e.as_str()),
                ),
            );
        },
        Ok(None) => {
            return Err(
                VerifyError::new(
                    ErrorCategory::RootCaUntrusted,
                    label.to_owned().concat(": issuer certificate ").concat(
                        number.as_str(),
                    ).concat(" ('").concat(subject).concat(
                        "') lacks a basicConstraints extension",
                    ),
                ),
            );
        },
        Ok(Some(ca)) => {
            if !*ca {
                return Err(
                    VerifyError::new(
                        ErrorCategory::RootCaUntrusted,
                        label.to_owned().concat(": certificate ").concat(number.as_str()).concat(
                            " ('",
                        ).concat(subject).concat(
                            "') is used as an issuer but is not a CA (basicConstraints cA=false)",
                        ),
                    ),
                );
            }
        },
    }
    match &cert.extensions.key_cert_sign {
        Err(e) => Err(
            VerifyError::new(
                ErrorCategory::RootCaUntrusted,
                label.to_owned().concat(": certificate ").concat(number.as_str()).concat(
                    " ('",
                ).concat(subject).concat("') has an unparseable keyUsage extension: ").concat(
                    e.as_str(),
                ),
            ),
        ),
        Ok(None) => Ok(()),
        Ok(Some(permitted)) => {
            if !*permitted {
                return Err(
                    VerifyError::new(
                        ErrorCategory::RootCaUntrusted,
                        label.to_owned().concat(": issuer certificate ").concat(
                            number.as_str(),
                        ).concat(" ('").concat(subject).concat(
                            "') keyUsage does not permit keyCertSign",
                        ),
                    ),
                );
            }
            Ok(())
        },
    }
}

/// The rejection of a certificate whose public key does not decode.
pub open spec fn unusable_key(label: Seq<char>, cert: CertificateView) -> Rejection {
    untrusted(
        label + ": public key of '"@ + cert.names.subject
            + "' is not a usable P-256 point: "@ + "signature error"@,
    )
}

/// The public key of a certificate, once it decodes as a point on P-256.
pub fn spki_verifying_key<'a>(label: &str, cert: &'a Certificate) -> (key: Result<
    &'a [u8],
    VerifyError,
>)
    ensures
        key is Ok <==> crypto::p256_point(cert@.body.public_key),
        key matches Ok(sec1) ==> sec1@ == cert@.body.public_key,
        key matches Err(e) ==> e@ == unusable_key(label@, cert@),
{
    let sec1 = cert.body.public_key.as_slice();
    match decode_key(sec1) {
        Err(e) => Err(
            VerifyError::new(
                ErrorCategory::RootCaUntrusted,
                label.to_owned().concat(": public key of '").concat(
                    cert.names.subject.as_str(),
                ).concat("' is not a usable P-256 point: ").concat(e.as_str()),
            ),
        ),
        Ok(_) => Ok(sec1),
    }
}

/// The certificate that signs the one at `i`: the next in the chain, and itself for the root.
pub open spec fn issuer_of(certs: Seq<CertificateView>, i: int) -> CertificateView {
    if i + 1 < certs.len() {
        certs[i + 1]
    } else {
        certs[i]
    }
}

/// The fault in the link from the certificate at `i` to its issuer: the issuer's name, its key,
/// and the signature that it made.
pub open spec fn link_fault(label: Seq<char>, certs: Seq<CertificateView>, i: int) -> Option<
    Rejection,
> {
    let child = certs[i];
    let parent = issuer_of(certs, i);
    let number = text::decimal(i);
    if child.names.issuer_raw != parent.names.subject_raw {
        Some(
            untrusted(
                label + ": certificate "@ + number + " ('"@ + child.names.subject
                    + "') was not issued by the next certificate in the chain ('"@
                    + parent.names.subject + "')"@,
            ),
        )
    } else if !crypto::p256_point(parent.body.public_key) {
        Some(unusable_key(label, parent))
    } else {
        match crypto::der_signature(child.body.signature) {
            None => Some(
                untrusted(
                    label + ": certificate "@ + number
                        + " carries an undecodable signature: "@ + "signature error"@,
                ),
            ),
            Some(signature) => if crypto::p256_verifies(
                parent.body.public_key,
                child.body.signed_bytes,
                signature,
            ) {
                None
            } else {
                Some(
                    untrusted(
                        label + ": signature on certificate "@ + number + " ('"@
                            + child.names.subject + "') does not verify against its issuer"@,
                    ),
                )
            },
        }
    }
}

/// The faults of the certificates in a chain taken one by one: validity, then algorithms.
pub open spec fn own_faults(label: Seq<char>, certs: Seq<CertificateView>, now: i64) -> spec_fn(
    int,
) -> Option<Rejection> {
    |i: int|
        match time_fault(label, certs[i], now) {
            Some(fault) => Some(fault),
            None => algorithm_fault(label, certs[i]),
        }
}

/// The faults of the certificates in a chain as issuers. The leaf issues nothing.
pub open spec fn issuer_faults(label: Seq<char>, certs: Seq<CertificateView>) -> spec_fn(
    int,
) -> Option<Rejection> {
    |i: int|
        if i == 0 {
            None
        } else {
            issuer_fault(label, i, certs[i])
        }
}

/// The faults in the links of a chain.
pub open spec fn link_faults(label: Seq<char>, certs: Seq<CertificateView>) -> spec_fn(
    int,
) -> Option<Rejection> {
    |i: int| link_fault(label, certs, i)
}

/// What is wrong with a chain as a path to `anchor` at `now`. The last certificate must hold the
/// anchor; then come the faults of the single certificates, those of the issuers, and those of the
/// links, each from the leaf on.
pub open spec fn path_fault(chain: ChainView, anchor: Seq<u8>, now: i64) -> Option<Rejection> {
    let label = chain.kind.name();
    let certs = chain.certs;
    if certs.last().body.public_key != anchor {
        Some(
            untrusted(
                label + ": terminal certificate '"@ + certs.last().names.subject
                    + "' does not hold the pinned Intel SGX Root CA key"@,
            ),
        )
    } else {
        match error::first_fault(certs.len(), own_faults(label, certs, now)) {
            Some(fault) => Some(fault),
            None => match error::first_fault(certs.len(), issuer_faults(label, certs)) {
                Some(fault) => Some(fault),
                None => error::first_fault(certs.len(), link_faults(label, certs)),
            },
        }
    }
}

impl ParsedChain {
    fn leaf(&self) -> (leaf: &Certificate)
        requires
            self.certs@.len() > 0,
        ensures
            leaf@ == self@.certs.first(),
    {
        &self.certs[0]
    }

    fn root(&self) -> (root: &Certificate)
        requires
            self.certs@.len() > 0,
        ensures
            root@ == self@.certs.last(),
    {
        &self.certs[self.certs.len() - 1]
    }

    /// Full X.509 path validation to the pinned root key `anchor`.
    pub fn validate(&self, anchor: &[u8], now: i64) -> (checked: Result<(), VerifyError>)
        requires
            self.certs@.len() > 0,
        ensures
            error::verdict(checked) == path_fault(self@, anchor@, now),
    {
        let label = self.kind.label();
        let ghost certs = self@.certs;

        // Anchor first: reject before any unbounded per-certificate signature work
        // if the terminal certificate is not the pinned root.
        let root = self.root();
        if !same_bytes(root.body.public_key.as_slice(), anchor) {
            return Err(
                VerifyError::new(
                    ErrorCategory::RootCaUntrusted,
                    label.to_owned().concat(": terminal certificate '").concat(
                        root.names.subject.as_str(),
                    ).concat("' does not hold the pinned Intel SGX Root CA key"),
                ),
            );
        }
        let ghost own = own_faults(label@, certs, now);
        let mut i: usize = 0;
        while i < self.certs.len()
            invariant
                i <= self.certs.len(),
                certs == self@.certs,
                label@ == self.kind.name(),
                own == own_faults(label@, certs, now),
                certs.last().body.public_key == anchor@,
                error::first_fault(i as nat, own) is None,
            decreases self.certs.len() - i,
        {
            let cert = &self.certs[i];
            assert(cert@ == certs[i as int]);
            if let Err(e) = check_time(label, cert, now) {
                proof {
                    error::lemma_first_fault_stays((i + 1) as nat, certs.len(), own);
                }
                return Err(e);
            }
            if let Err(e) = check_p256_sha256_algs(label, cert) {
                proof {
                    error::lemma_first_fault_stays((i + 1) as nat, certs.len(), own);
                }
                return Err(e);
            }
            i += 1;
        }

        // Every certificate used as an issuer (index >= 1 signs the cert below it,
        // and the root signs itself) must assert CA capability. This is what stops
        // an end-entity leaf from being spliced in as an issuer.
        let ghost issuers = issuer_faults(label@, certs);
        let mut i: usize = 1;
        assert(issuers(0) is None);
        assert(error::first_fault(0, issuers) is None);
        while i < self.certs.len()
            invariant
                1 <= i <= self.certs.len(),
                certs == self@.certs,
                label@ == self.kind.name(),
                own == own_faults(label@, certs, now),
                issuers == issuer_faults(label@, certs),
                certs.last().body.public_key == anchor@,
                error::first_fault(certs.len(), own) is None,
                error::first_fault(i as nat, issuers) is None,
            decreases self.certs.len() - i,
        {
            let cert = &self.certs[i];
            assert(cert@ == certs[i as int]);
            if let Err(e) = require_ca(label, i, cert) {
                proof {
                    error::lemma_first_fault_stays((i + 1) as nat, certs.len(), issuers);
                }
                return Err(e);
            }
            i += 1;
        }

        let ghost links = link_faults(label@, certs);
        let mut i: usize = 0;
        while i < self.certs.len()
            invariant
                i <= self.certs.len(),
                certs == self@.certs,
                label@ == self.kind.name(),
                own == own_faults(label@, certs, now),
                issuers == issuer_faults(label@, certs),
                links == link_faults(label@, certs),
                certs.last().body.public_key == anchor@,
                error::first_fault(certs.len(), own) is None,
                error::first_fault(certs.len(), issuers) is None,
                error::first_fault(i as nat, links) is None,
            decreases self.certs.len() - i,
        {
            if let Err(e) = self.check_link(i) {
                proof {
                    error::lemma_first_fault_stays((i + 1) as nat, certs.len(), links);
                }
                return Err(e);
            }
            i += 1;
        }
        Ok(())
    }

    /// The leaf's public key, once it decodes as a point on P-256.
    pub fn leaf_verifying_key(&self) -> (key: Result<&[u8], VerifyError>)
        requires
            self.certs@.len() > 0,
        ensures
            key is Ok <==> crypto::p256_point(self@.certs.first().body.public_key),
            key matches Ok(sec1) ==> sec1@ == self@.certs.first().body.public_key,
            key matches Err(e) ==> e@ == unusable_key(self.kind.name(), self@.certs.first()),
    {
        spki_verifying_key(self.kind.label(), self.leaf())
    }

    pub fn leaf_subject_raw(&self) -> (name: &[u8])
        requires
            self.certs@.len() > 0,
        ensures
            name@ == self@.certs.first().names.subject_raw,
    {
        self.leaf().names.subject_raw.as_slice()
    }

    pub fn leaf_issuer_raw(&self) -> (name: &[u8])
        requires
            self.certs@.len() > 0,
        ensures
            name@ == self@.certs.first().names.issuer_raw,
    {
        self.leaf().names.issuer_raw.as_slice()
    }

    pub fn root_subject_raw(&self) -> (name: &[u8])
        requires
            self.certs@.len() > 0,
        ensures
            name@ == self@.certs.last().names.subject_raw,
    {
        self.root().names.subject_raw.as_slice()
    }

    /// The leaf certificate's subject common name, for signer-identity pinning.
    pub fn leaf_common_name(&self) -> (name: Result<&str, VerifyError>)
        requires
            self.certs@.len() > 0,
        ensures
            name is Ok <==> self@.certs.first().names.common_name() is Some,
            name matches Ok(cn) ==> self@.certs.first().names.common_name() == Some(cn@),
            name matches Err(e) ==> e@ == self.kind.unparsed(
                "leaf certificate has no readable common name"@,
            ),
    {
        match self.leaf().names.common_name() {
            Some(cn) => Ok(cn),
            None => Err(
                self.kind.parse_error("leaf certificate has no readable common name".to_owned()),
            ),
        }
    }

    /// Checks that the certificate at `i` was issued and signed by the next one, or by itself when
    /// it is the last.
    fn check_link(&self, i: usize) -> (checked: Result<(), VerifyError>)
        requires
            i < self.certs@.len(),
        ensures
            error::verdict(checked) == link_fault(self.kind.name(), self@.certs, i as int),
    {
        let label = self.kind.label();
        let child = &self.certs[i];
        let parent = if i < self.certs.len() - 1 {
            &self.certs[i + 1]
        } else {
            &self.certs[i]
        };
        assert(child@ == self@.certs[i as int]);
        assert(parent@ == issuer_of(self@.certs, i as int));
        let number = decimal_u64(i as u64);
        if !same_bytes(child.names.issuer_raw.as_slice(), parent.names.subject_raw.as_slice()) {
            return Err(
                VerifyError::new(
                    ErrorCategory::RootCaUntrusted,
                    label.to_owned().concat(": certificate ").concat(number.as_str()).concat(
                        " ('",
                    ).concat(child.names.subject.as_str()).concat(
                        "') was not issued by the next certificate in the chain ('",
                    ).concat(parent.names.subject.as_str()).concat("')"),
                ),
            );
        }
        let issuer_key = spki_verifying_key(label, parent)?;
        let signature = match decode_der_signature(child.body.signature.as_slice()) {
            Err(e) => {
                return Err(
                    VerifyError::new(
                        ErrorCategory::RootCaUntrusted,
                        label.to_owned().concat(": certificate ").concat(number.as_str()).concat(
                            " carries an undecodable signature: ",
                        ).concat(e.as_str()),
                    ),
                );
            },
            Ok(signature) => signature,
        };
        if !verify_signature(
            issuer_key,
            child.body.signed_bytes.as_slice(),
            signature.as_slice(),
        ) {
            return Err(
                VerifyError::new(
                    ErrorCategory::RootCaUntrusted,
                    label.to_owned().concat(": signature on certificate ").concat(
                        number.as_str(),
                    ).concat(" ('").concat(child.names.subject.as_str()).concat(
                        "') does not verify against its issuer",
                    ),
                ),
            );
        }
        Ok(())
    }
}

/// Requires a certificate to be valid at `now`.
fn check_time(label: &str, cert: &Certificate, now: i64) -> (checked: Result<(), VerifyError>)
    ensures
        error::verdict(checked) == time_fault(label@, cert@, now),
{
    let not_before: i64 = cert.body.not_before;
    let not_after: i64 = cert.body.not_after;
    // Expiry bound matches Intel's QVL: a certificate is no longer accepted at the exact
    // notAfter instant, while the lower bound is inclusive — valid from the notBefore instant.
    if now < not_before || now >= not_after {
        return Err(
            VerifyError::new(
                ErrorCategory::CertOrCrlTimeInvalid,
                label.to_owned().concat(": '").concat(cert.names.subject.as_str()).concat(
                    "' is valid from unix ",
                ).concat(decimal_i64(not_before).as_str()).concat(" until unix ").concat(
                    decimal_i64(not_after).as_str(),
                ).concat(", verification time is ").concat(decimal_i64(now).as_str()),
            ),
        );
    }
    Ok(())
}

/// Trimming takes junk off the end and nothing else: what is left is a prefix that does not end in
/// junk, what is gone is junk throughout, and trimming again changes nothing.
pub proof fn trimming_takes_only_trailing_junk(data: Seq<u8>)
    ensures
        trimmed(data).is_prefix_of(data),
        trimmed(data).len() > 0 ==> !is_junk(trimmed(data).last()),
        forall|i: int| trimmed(data).len() <= i < data.len() ==> is_junk(#[trigger] data[i]),
        trimmed(trimmed(data)) == trimmed(data),
    decreases data.len(),
{
    if data.len() > 0 && is_junk(data.last()) {
        trimming_takes_only_trailing_junk(data.drop_last());
        assert forall|i: int| trimmed(data).len() <= i < data.len() implies is_junk(
            #[trigger] data[i],
        ) by {
            if i < data.len() - 1 {
                assert(data[i] == data.drop_last()[i]);
            }
        }
        assert(trimmed(data).is_prefix_of(data)) by {
            assert(trimmed(data) =~= data.subrange(0, trimmed(data).len() as int));
        }
    } else {
        assert(data =~= data.subrange(0, data.len() as int));
    }
}

/// A chain that cannot be parsed is classified by where it came from: the quote's own as a quote
/// that cannot be parsed, any other as collateral.
pub proof fn chain_parse_failures_follow_the_chain_kind(kind: ChainKind, data: Seq<u8>)
    ensures
        chain_ders(kind, data) matches Err(fault) ==> fault.category == (if kind
            == ChainKind::QuotePck {
            ErrorCategory::QuoteParse
        } else {
            ErrorCategory::CollateralParse
        }),
        chain_ders(kind, data) matches Ok(chain) ==> chain.kind == kind && data.len()
            <= MAX_CHAIN_PEM_LEN && 1 <= chain.ders.len() <= MAX_CHAIN_LEN,
{
}

/// Trimming goes by the bytes themselves: what is left ends in none of NUL, tab, line feed, form
/// feed, carriage return and space, and what is gone is made of these alone.
pub proof fn trimming_takes_off_nul_and_white_space(data: Seq<u8>)
    ensures
        trimmed(data).len() <= data.len(),
        trimmed(data) == data.subrange(0, trimmed(data).len() as int),
        trimmed(data).len() > 0 ==> !(seq![0u8, 9, 10, 12, 13, 32].contains(trimmed(data).last())),
        forall|i: int|
            trimmed(data).len() <= i < data.len() ==> seq![0u8, 9, 10, 12, 13, 32].contains(
                #[trigger] data[i],
            ),
{
    trimming_takes_only_trailing_junk(data);
    let junk = seq![0u8, 9, 10, 12, 13, 32];
    assert forall|b: u8| is_junk(b) <==> #[trigger] junk.contains(b) by {
        assert(junk[0] == 0 && junk[1] == 9 && junk[2] == 10 && junk[3] == 12 && junk[4] == 13
            && junk[5] == 32);
        if junk.contains(b) {
            let i = choose|i: int| 0 <= i < junk.len() && junk[i] == b;
        }
    }
    assert forall|i: int| trimmed(data).len() <= i < data.len() implies junk.contains(
        #[trigger] data[i],
    ) by {
        assert(is_junk(data[i]));
    }
}

/// Of PEM blocks exactly those tagged "CERTIFICATE" are kept, in order: what two lists of blocks
/// give joined is what they give one after the other.
pub proof fn certificate_blocks_are_kept_in_order(
    a: Seq<(Seq<char>, Seq<u8>)>,
    b: Seq<(Seq<char>, Seq<u8>)>,
    tag: Seq<char>,
    der: Seq<u8>,
)
    ensures
        certificate_contents(seq![]) == Seq::<Seq<u8>>::empty(),
        certificate_contents(seq![(tag, der)]) == (if tag == "CERTIFICATE"@ {
            seq![der]
        } else {
            seq![]
        }),
        certificate_contents(a + b) == certificate_contents(a) + certificate_contents(b),
    decreases b.len(),
{
    reveal_with_fuel(certificate_contents, 2);
    assert(seq![(tag, der)].drop_last() =~= seq![]);
    assert(Seq::<Seq<u8>>::empty().push(der) =~= seq![der]);
    if b.len() == 0 {
        assert(a + b =~= a);
        assert(certificate_contents(a + b) =~= certificate_contents(a) + certificate_contents(b));
    } else {
        certificate_blocks_are_kept_in_order(a, b.drop_last(), tag, der);
        assert((a + b).drop_last() =~= a + b.drop_last());
        assert(certificate_contents(a + b) =~= certificate_contents(a) + certificate_contents(b));
    }
}

/// A chain is read exactly when its data are at most 65536 bytes, decode as PEM once trimmed, and
/// hold from one to ten certificates; what is read are those certificates, under its kind.
pub proof fn a_chain_is_read_when_it_is_short_enough(kind: ChainKind, data: Seq<u8>)
    ensures
        chain_ders(kind, data) is Ok <==> data.len() <= 65536 && (x509::pem_blocks(
            trimmed(data),
        ) matches Ok(blocks) && 1 <= certificate_contents(blocks).len() <= 10),
        chain_ders(kind, data) matches Ok(chain) ==> chain.kind == kind && (x509::pem_blocks(
            trimmed(data),
        ) matches Ok(blocks) && chain.ders == certificate_contents(blocks)),
        chain_ders(kind, data) matches Err(fault) ==> fault.category == (match kind {
            ChainKind::QuotePck => ErrorCategory::QuoteParse,
            _ => ErrorCategory::CollateralParse,
        }),
{
}

/// Every certificate of a chain is decoded, in order, and a chain is decoded exactly when each of
/// them is.
pub proof fn chains_are_decoded_certificate_by_certificate(chain: DersView)
    ensures
        parsed_chain(chain) is Ok <==> forall|i: int|
            0 <= i < chain.ders.len() ==> x509::certificate(#[trigger] chain.ders[i]) is Ok,
        parsed_chain(chain) matches Ok(parsed) ==> parsed.kind == chain.kind && parsed.certs.len()
            == chain.ders.len() && forall|i: int|
            0 <= i < chain.ders.len() ==> x509::certificate(#[trigger] chain.ders[i]) == Ok::<
                CertificateView,
                Seq<char>,
            >(parsed.certs[i]),
        parsed_chain(chain) matches Err(fault) ==> fault.category == (match chain.kind {
            ChainKind::QuotePck => ErrorCategory::QuoteParse,
            _ => ErrorCategory::CollateralParse,
        }),
    decreases chain.ders.len(),
{
    let ders = chain.ders;
    if ders.len() > 0 {
        let front = DersView { kind: chain.kind, ders: ders.drop_last() };
        chains_are_decoded_certificate_by_certificate(front);
        assert(forall|i: int| 0 <= i < front.ders.len() ==> front.ders[i] == ders[i]);
        if parsed_chain(front) is Err {
            let i = choose|i: int|
                0 <= i < front.ders.len() && !(x509::certificate(#[trigger] front.ders[i]) is Ok);
            assert(x509::certificate(ders[i]) is Err);
        } else if x509::certificate(ders.last()) is Err {
            assert(x509::certificate(ders[ders.len() - 1]) is Err);
        } else {
            let parsed = parsed_chain(chain)->Ok_0;
            assert forall|i: int| 0 <= i < ders.len() implies x509::certificate(
                #[trigger] ders[i],
            ) == Ok::<CertificateView, Seq<char>>(parsed.certs[i]) by {
                if i < ders.len() - 1 {
                    assert(front.ders[i] == ders[i]);
                }
            }
        }
    }
}

/// A chain passes as a path exactly when its last certificate holds the anchor, each certificate is
/// in its validity and is ECDSA P-256 with SHA-256 throughout, all but the first may issue, each is
/// signed by the next under the next one's name, and the last by itself.
pub proof fn a_path_is_checked_link_by_link(chain: ChainView, anchor: Seq<u8>, now: i64)
    ensures
        path_fault(chain, anchor, now) is None <==> {
            let certs = chain.certs;
            &&& certs.last().body.public_key == anchor
            &&& forall|i: int|
                #![trigger certs[i]]
                0 <= i < certs.len() ==> {
                    &&& certs[i].body.not_before <= now < certs[i].body.not_after
                    &&& certs[i].algorithms.agree
                    &&& certs[i].algorithms.signature.bytes == seq![
                        0x2au8,
                        0x86,
                        0x48,
                        0xce,
                        0x3d,
                        0x04,
                        0x03,
                        0x02,
                    ]
                    &&& certs[i].algorithms.key.bytes == seq![
                        0x2au8,
                        0x86,
                        0x48,
                        0xce,
                        0x3d,
                        0x02,
                        0x01,
                    ]
                    &&& certs[i].algorithms.curve matches Some(curve) && curve.bytes == seq![
                        0x2au8,
                        0x86,
                        0x48,
                        0xce,
                        0x3d,
                        0x03,
                        0x01,
                        0x07,
                    ]
                }
            &&& forall|i: int|
                #![trigger certs[i]]
                1 <= i < certs.len() ==> {
                    &&& certs[i].extensions.ca == Ok::<Option<bool>, Seq<char>>(Some(true))
                    &&& certs[i].extensions.key_cert_sign is Ok
                    &&& certs[i].extensions.key_cert_sign != Ok::<Option<bool>, Seq<char>>(
                        Some(false),
                    )
                }
            &&& forall|i: int|
                #![trigger certs[i]]
                0 <= i < certs.len() ==> {
                    let parent = if i == certs.len() - 1 {
                        certs[i]
                    } else {
                        certs[i + 1]
                    };
                    &&& certs[i].names.issuer_raw == parent.names.subject_raw
                    &&& crypto::p256_point(parent.body.public_key)
                    &&& crypto::der_signature(certs[i].body.signature) matches Some(signature)
                        && crypto::p256_verifies(
                        parent.body.public_key,
                        certs[i].body.signed_bytes,
                        signature,
                    )
                }
        },
{
    let label = chain.kind.name();
    let certs = chain.certs;
    let own = own_faults(label, certs, now);
    let issuers = issuer_faults(label, certs);
    let links = link_faults(label, certs);
    error::lemma_no_first_fault(certs.len(), own);
    error::lemma_no_first_fault(certs.len(), issuers);
    error::lemma_no_first_fault(certs.len(), links);
    assert(OID_ECDSA_WITH_SHA256@ =~= seq![0x2au8, 0x86, 0x48, 0xce, 0x3d, 0x04, 0x03, 0x02]);
    assert(OID_EC_PUBLIC_KEY@ =~= seq![0x2au8, 0x86, 0x48, 0xce, 0x3d, 0x02, 0x01]);
    assert(OID_EC_P256@ =~= seq![0x2au8, 0x86, 0x48, 0xce, 0x3d, 0x03, 0x01, 0x07]);
    if path_fault(chain, anchor, now) is None {
        assert(forall|i: int| #![trigger certs[i]] 0 <= i < certs.len() ==> own(i) is None);
        assert(forall|i: int| #![trigger certs[i]] 0 <= i < certs.len() ==> issuers(i) is None);
        assert(forall|i: int| #![trigger certs[i]] 0 <= i < certs.len() ==> links(i) is None);
    } else if certs.last().body.public_key == anchor {
        error::the_first_fault_is_reported(certs.len(), own);
        error::the_first_fault_is_reported(certs.len(), issuers);
        error::the_first_fault_is_reported(certs.len(), links);
        let i = if error::first_fault(certs.len(), own) is Some {
            choose|i: int| 0 <= i < certs.len() && #[trigger] own(i) is Some
        } else if error::first_fault(certs.len(), issuers) is Some {
            choose|i: int| 0 <= i < certs.len() && #[trigger] issuers(i) is Some
        } else {
            choose|i: int| 0 <= i < certs.len() && #[trigger] links(i) is Some
        };
        assert(own(i) is Some || issuers(i) is Some || links(i) is Some);
        let cert = certs[i];
    }
}

/// What is wrong with a path is a matter of trust or of time: a chain that does not end in the
/// anchor is untrusted whatever else is wrong with it, a time fault means that some certificate is
/// outside its validity, and such a certificate is reported as a time fault where no certificate
/// has a wrong algorithm.
pub proof fn paths_are_refused_for_trust_or_time(chain: ChainView, anchor: Seq<u8>, now: i64)
    requires
        chain.certs.len() > 0,
    ensures
        ({
            let fault = path_fault(chain, anchor, now);
            let certs = chain.certs;
            &&& fault matches Some(f) ==> f.category == ErrorCategory::RootCaUntrusted
                || f.category == ErrorCategory::CertOrCrlTimeInvalid
            &&& certs.last().body.public_key != anchor ==> (fault matches Some(f) && f.category
                == ErrorCategory::RootCaUntrusted)
            &&& (fault matches Some(f) && f.category == ErrorCategory::CertOrCrlTimeInvalid)
                ==> exists|i: int|
                #![trigger certs[i]]
                0 <= i < certs.len() && !(certs[i].body.not_before <= now
                    < certs[i].body.not_after)
            &&& certs.last().body.public_key == anchor && (exists|i: int|
                #![trigger certs[i]]
                0 <= i < certs.len() && !(certs[i].body.not_before <= now
                    < certs[i].body.not_after)) && (forall|i: int|
                #![trigger certs[i]]
                0 <= i < certs.len() ==> algorithm_fault(chain.kind.name(), certs[i]) is None)
                ==> (fault matches Some(f) && f.category == ErrorCategory::CertOrCrlTimeInvalid)
        }),
{
    let label = chain.kind.name();
    let certs = chain.certs;
    let own = own_faults(label, certs, now);
    let issuers = issuer_faults(label, certs);
    let links = link_faults(label, certs);
    error::lemma_no_first_fault(certs.len(), own);
    error::the_first_fault_is_reported(certs.len(), own);
    error::the_first_fault_is_reported(certs.len(), issuers);
    error::the_first_fault_is_reported(certs.len(), links);
    if certs.last().body.public_key == anchor {
        if error::first_fault(certs.len(), own) is Some {
            let i = choose|i: int|
                0 <= i < certs.len() && #[trigger] own(i) == error::first_fault(certs.len(), own);
            let cert = certs[i];
        } else {
            assert(forall|i: int| #![trigger certs[i]] 0 <= i < certs.len() ==> own(i) is None);
            if error::first_fault(certs.len(), issuers) is Some {
                let i = choose|i: int|
                    0 <= i < certs.len() && #[trigger] issuers(i) == error::first_fault(
                        certs.len(),
                        issuers,
                    );
            } else if error::first_fault(certs.len(), links) is Some {
                let i = choose|i: int|
                    0 <= i < certs.len() && #[trigger] links(i) == error::first_fault(
                        certs.len(),
                        links,
                    );
            }
        }
    }
}

/// The trust anchor is the point of Intel's SGX Root CA key, uncompressed: the tag, then the two
/// coordinates, byte by byte as in Intel's published root certificate.
pub proof fn the_anchor_is_intels_root_key()
    ensures
        INTEL_SGX_ROOT_CA_PUBLIC_KEY_SEC1@ == seq![0x04u8] + seq![
            0x0bu8, 0xa9, 0xc4, 0xc0, 0xc0, 0xc8, 0x61, 0x93, 0xa3, 0xfe, 0x23, 0xd6, 0xb0, 0x2c,
            0xda, 0x10, 0xa8, 0xbb, 0xd4, 0xe8, 0x8e, 0x48, 0xb4, 0x45, 0x85, 0x61, 0xa3, 0x6e,
            0x70, 0x55, 0x25, 0xf5,
        ] + seq![
            0x67u8, 0x91, 0x8e, 0x2e, 0xdc, 0x88, 0xe4, 0x0d, 0x86, 0x0b, 0xd0, 0xcc, 0x4e, 0xe2,
            0x6a, 0xac, 0xc9, 0x88, 0xe5, 0x05, 0xa9, 0x53, 0x55, 0x8c, 0x45, 0x3f, 0x6b, 0x09,
            0x04, 0xae, 0x73, 0x94,
        ],
{
}

} // verus!
