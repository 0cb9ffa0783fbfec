//! The verification pipeline behind [`verify_remote_attestation`]. The order of
//! the checks is load-bearing — see the comments at each gate.

use std::time::SystemTime;

use vstd::prelude::*;
use vstd::string::StringExecFns;

use crate::clock::{self, unix_seconds};
use crate::crl::{self, check_crl, ensure_none_revoked, RevokedEntry, RevokedView};
use crate::crypto::{
    self, decode_key, decode_signature, hex_decode, hex_encode, sha256_of_parts, verify_signature,
};
use crate::error::{self, ErrorCategory, Rejection, VerifyError};
use crate::pki::{
    self, CertChain, ChainKind, ChainView, ParsedChain, INTEL_QE_VENDOR_ID,
    INTEL_SGX_ROOT_CA_PUBLIC_KEY_SEC1, INTEL_TCB_SIGNING_CN,
};
use crate::platform::{self, extract_pck_platform_tcb};
use crate::policy::{self, TcbPolicy};
use crate::standing::{StandingView, TcbStanding};
use crate::tcb::{self, check_qe_identity, platform_standing};
use crate::text::{self, decimal_i64, decimal_u64, same_bytes, same_text};
use crate::types::collateral::{CollateralView, SgxCollateral};
use crate::types::quote::{QuoteFields, SgxQuote, SignatureFields};
use crate::types::report::{self, MREnclave, SgxReportBody};

verus! {

/// The fault of collateral whose declared versions or TCB type are not exactly the supported ones.
pub open spec fn format_fault(collateral: CollateralView) -> Option<Rejection> {
    let tcb_info = collateral.tcb_info.body;
    let qe_identity = collateral.qe_identity.body;
    if collateral.version != 3 {
        Some(
            error::rejection(
                ErrorCategory::CollateralParse,
                "collateral is version "@ + text::decimal(collateral.version as int)
                    + ", only version 3 is supported"@,
            ),
        )
    } else if tcb_info.version != 3 {
        Some(
            error::rejection(
                ErrorCategory::CollateralParse,
                "tcbInfo is version "@ + text::decimal(tcb_info.version as int)
                    + ", only version 3 is supported"@,
            ),
        )
    } else if qe_identity.version != 2 {
        Some(
            error::rejection(
                ErrorCategory::CollateralParse,
                "enclaveIdentity is version "@ + text::decimal(qe_identity.version as int)
                    + ", only version 2 is supported"@,
            ),
        )
    } else if tcb_info.tcb_type != 0 {
        Some(
            error::rejection(
                ErrorCategory::CollateralParse,
                "tcbInfo declares tcbType "@ + text::decimal(tcb_info.tcb_type as int)
                    + "; only type 0 (the component-wise SVN comparison) is supported"@,
            ),
        )
    } else {
        None
    }
}

/// Fail-closed document-format gates. Each field must equal the exact value this verifier was
/// built for; any other value is a rejection, never a best-effort evaluation.
pub fn check_document_formats(collateral: &SgxCollateral) -> (checked: Result<(), VerifyError>)
    ensures
        error::verdict(checked) == format_fault(collateral@),
{
    if collateral.version != 3 {
        return Err(
            VerifyError::new(
                ErrorCategory::CollateralParse,
                "collateral is version ".to_owned().concat(
                    decimal_u64(collateral.version as u64).as_str(),
                ).concat(", only version 3 is supported"),
            ),
        );
    }
    let tcb_version: u32 = collateral.tcb_info.body.version;
    if tcb_version != 3 {
        return Err(
            VerifyError::new(
                ErrorCategory::CollateralParse,
                "tcbInfo is version ".to_owned().concat(
                    decimal_u64(tcb_version as u64).as_str(),
                ).concat(", only version 3 is supported"),
            ),
        );
    }
    let qe_version: u32 = collateral.qe_identity.body.version;
    if qe_version != 2 {
        return Err(
            VerifyError::new(
                ErrorCategory::CollateralParse,
                "enclaveIdentity is version ".to_owned().concat(
                    decimal_u64(qe_version as u64).as_str(),
                ).concat(", only version 2 is supported"),
            ),
        );
    }
    let tcb_type: u32 = collateral.tcb_info.body.tcb_type;
    if tcb_type != 0 {
        return Err(
            VerifyError::new(
                ErrorCategory::CollateralParse,
                "tcbInfo declares tcbType ".to_owned().concat(
                    decimal_u64(tcb_type as u64).as_str(),
                ).concat("; only type 0 (the component-wise SVN comparison) is supported"),
            ),
        );
    }
    Ok(())
}

/// The fault of a chain whose leaf is not Intel's collateral-signing certificate.
pub open spec fn signer_fault(chain: ChainView, document: Seq<char>) -> Option<Rejection> {
    match chain.certs.first().names.common_name() {
        None => Some(chain.kind.unparsed("leaf certificate has no readable common name"@)),
        Some(cn) => if cn == INTEL_TCB_SIGNING_CN@ {
            None
        } else {
            Some(
                pki::untrusted(
                    document + " is signed by a leaf named '"@ + cn
                        + "', not Intel's dedicated '"@ + INTEL_TCB_SIGNING_CN@
                        + "' certificate"@,
                ),
            )
        },
    }
}

/// Signer-identity pin: the document-signing leaf must be Intel's
/// dedicated "Intel SGX TCB Signing" certificate.
pub fn require_tcb_signing_leaf(chain: &ParsedChain, document: &str) -> (checked: Result<
    (),
    VerifyError,
>)
    requires
        chain.certs@.len() > 0,
    ensures
        error::verdict(checked) == signer_fault(chain@, document@),
{
    let cn = chain.leaf_common_name()?;
    if !same_text(cn, INTEL_TCB_SIGNING_CN) {
        return Err(
            VerifyError::new(
                ErrorCategory::RootCaUntrusted,
                document.to_owned().concat(" is signed by a leaf named '").concat(cn).concat(
                    "', not Intel's dedicated '",
                ).concat(INTEL_TCB_SIGNING_CN).concat("' certificate"),
            ),
        );
    }
    Ok(())
}

/// The fault of a document outside its validity at `now`: it is valid from its issue instant up to
/// but not at its next update.
pub open spec fn window_fault(
    document: Seq<char>,
    issue_date: i64,
    next_update: i64,
    now: i64,
    stale: ErrorCategory,
) -> Option<Rejection> {
    if next_update <= now {
        Some(
            error::rejection(
                stale,
                document + " expired at unix "@ + text::decimal(next_update as int)
                    + ", verification time is "@ + text::decimal(now as int),
            ),
        )
    } else if issue_date > now {
        Some(
            error::rejection(
                stale,
                document + " is not valid until unix "@ + text::decimal(issue_date as int)
                    + ", verification time is "@ + text::decimal(now as int),
            ),
        )
    } else {
        None
    }
}

/// Validity-window check for a signed collateral document: reject both when it
/// is stale (now >= `nextUpdate`, matching Intel's QVL expiry boundary) and
/// when it is not yet valid (`issueDate` > now; the document is valid from its
/// issue instant). Both bounds map to the document's own staleness category.
pub fn check_validity_window(
    document: &str,
    issue_date: i64,
    next_update: i64,
    now: i64,
    stale: ErrorCategory,
) -> (checked: Result<(), VerifyError>)
    ensures
        error::verdict(checked) == window_fault(document@, issue_date, next_update, now, stale),
{
    if next_update <= now {
        return Err(
            VerifyError::new(
                stale,
                document.to_owned().concat(" expired at unix ").concat(
                    decimal_i64(next_update).as_str(),
                ).concat(", verification time is ").concat(decimal_i64(now).as_str()),
            ),
        );
    }
    if issue_date > now {
        return Err(
            VerifyError::new(
                stale,
                document.to_owned().concat(" is not valid until unix ").concat(
                    decimal_i64(issue_date).as_str(),
                ).concat(", verification time is ").concat(decimal_i64(now).as_str()),
            ),
        );
    }
    Ok(())
}

/// The fault of a document from an evaluation round below the floor.
pub open spec fn round_fault(
    document: Seq<char>,
    round: u32,
    minimum: u32,
    stale: ErrorCategory,
) -> Option<Rejection> {
    if round < minimum {
        Some(
            error::rejection(
                stale,
                document + " is from TCB evaluation round "@ + text::decimal(round as int)
                    + ", caller requires at least "@ + text::decimal(minimum as int),
            ),
        )
    } else {
        None
    }
}

/// Requires a document to come from an evaluation round at or above `minimum`.
pub fn check_evaluation_round(
    document: &str,
    round: u32,
    minimum: u32,
    stale: ErrorCategory,
) -> (checked: Result<(), VerifyError>)
    ensures
        error::verdict(checked) == round_fault(document@, round, minimum, stale),
{
    if round < minimum {
        return Err(
            VerifyError::new(
                stale,
                document.to_owned().concat(" is from TCB evaluation round ").concat(
                    decimal_u64(round as u64).as_str(),
                ).concat(", caller requires at least ").concat(
                    decimal_u64(minimum as u64).as_str(),
                ),
            ),
        );
    }
    Ok(())
}

/// Why a hex signature does not hold over a message, if so.
pub open spec fn raw_signature_fault(
    key: Seq<u8>,
    message: Seq<u8>,
    signature_hex: Seq<char>,
) -> Option<Seq<char>> {
    if !crypto::is_hex(signature_hex) {
        Some("signature is not valid hex: "@ + crypto::hex_fault(signature_hex))
    } else if !crypto::fixed_signature(crypto::unhex(signature_hex)) {
        Some("signature is not a 64-byte P-256 signature: "@ + "signature error"@)
    } else if !crypto::p256_verifies(key, message, crypto::unhex(signature_hex)) {
        Some("signature does not match the signed document body"@)
    } else {
        None
    }
}

/// Verifies a fixed-width signature given in hex.
pub fn verify_raw_hex_signature(key: &[u8], message: &[u8], signature_hex: &str) -> (checked:
    Result<(), String>)
    ensures
        match checked {
            Ok(_) => raw_signature_fault(key@, message@, signature_hex@) is None,
            Err(e) => raw_signature_fault(key@, message@, signature_hex@) == Some(e@),
        },
{
    let signature = match hex_decode(signature_hex) {
        Err(e) => return Err("signature is not valid hex: ".to_owned().concat(e.as_str())),
        Ok(signature) => signature,
    };
    if let Err(e) = decode_signature(signature.as_slice()) {
        return Err(
            "signature is not a 64-byte P-256 signature: ".to_owned().concat(e.as_str()),
        );
    }
    if !verify_signature(key, message, signature.as_slice()) {
        return Err("signature does not match the signed document body".to_owned());
    }
    Ok(())
}

/// The four certificate chains of a verification.
pub struct Chains {
    pub tcb_info: ParsedChain,
    pub pck_crl: ParsedChain,
    pub qe_identity: ParsedChain,
    pub pck: ParsedChain,
}

/// What [`Chains`] hold.
#[verifier::ext_equal]
pub ghost struct ChainsView {
    pub tcb_info: ChainView,
    pub pck_crl: ChainView,
    pub qe_identity: ChainView,
    pub pck: ChainView,
}

impl View for Chains {
    type V = ChainsView;

    open spec fn view(&self) -> ChainsView {
        ChainsView {
            tcb_info: self.tcb_info@,
            pck_crl: self.pck_crl@,
            qe_identity: self.qe_identity@,
            pck: self.pck@,
        }
    }
}

impl ChainsView {
    /// Every chain has a certificate.
    pub open spec fn inhabited(self) -> bool {
        &&& self.tcb_info.certs.len() > 0
        &&& self.pck_crl.certs.len() > 0
        &&& self.qe_identity.certs.len() > 0
        &&& self.pck.certs.len() > 0
    }

    /// The chains in the order in which they are checked.
    pub open spec fn in_order(self) -> Seq<ChainView> {
        seq![self.tcb_info, self.pck_crl, self.qe_identity, self.pck]
    }
}

/// The chains in the collateral and in the quote's certification data: all four are split into
/// certificates before any is decoded.
pub open spec fn chains_outcome(collateral: CollateralView, cert_data: Seq<u8>) -> Result<
    ChainsView,
    Rejection,
> {
    match (
        pki::chain_ders(
            ChainKind::TcbInfoIssuer,
            vstd::utf8::encode_utf8(collateral.tcb_info_issuer_chain),
        ),
        pki::chain_ders(
            ChainKind::PckCrlIssuer,
            vstd::utf8::encode_utf8(collateral.pck_crl_issuer_chain),
        ),
        pki::chain_ders(
            ChainKind::QeIdentityIssuer,
            vstd::utf8::encode_utf8(collateral.qe_identity_issuer_chain),
        ),
        pki::chain_ders(ChainKind::QuotePck, cert_data),
    ) {
        (Err(fault), _, _, _) => Err(fault),
        (_, Err(fault), _, _) => Err(fault),
        (_, _, Err(fault), _) => Err(fault),
        (_, _, _, Err(fault)) => Err(fault),
        (Ok(tcb_info), Ok(pck_crl), Ok(qe_identity), Ok(pck)) => match (
            pki::parsed_chain(tcb_info),
            pki::parsed_chain(pck_crl),
            pki::parsed_chain(qe_identity),
            pki::parsed_chain(pck),
        ) {
            (Err(fault), _, _, _) => Err(fault),
            (_, Err(fault), _, _) => Err(fault),
            (_, _, Err(fault), _) => Err(fault),
            (_, _, _, Err(fault)) => Err(fault),
            (Ok(tcb_info), Ok(pck_crl), Ok(qe_identity), Ok(pck)) => Ok(
                ChainsView { tcb_info, pck_crl, qe_identity, pck },
            ),
        },
    }
}

/// Reads the four chains of a verification.
pub fn read_chains(collateral: &SgxCollateral, cert_data: &[u8]) -> (chains: Result<
    Chains,
    VerifyError,
>)
    ensures
        error::outcome(chains) == chains_outcome(collateral@, cert_data@),
        chains matches Ok(c) ==> c@.inhabited(),
{
    let tcb_info = CertChain::from_pem(
        ChainKind::TcbInfoIssuer,
        collateral.tcb_info_issuer_chain.as_str().as_bytes(),
    )?;
    let pck_crl = CertChain::from_pem(
        ChainKind::PckCrlIssuer,
        collateral.pck_crl_issuer_chain.as_str().as_bytes(),
    )?;
    let qe_identity = CertChain::from_pem(
        ChainKind::QeIdentityIssuer,
        collateral.qe_identity_issuer_chain.as_str().as_bytes(),
    )?;
    let pck = CertChain::from_pem(ChainKind::QuotePck, cert_data)?;
    proof {
        pki::lemma_parsed_len(tcb_info@.kind, tcb_info@.ders);
        pki::lemma_parsed_len(pck_crl@.kind, pck_crl@.ders);
        pki::lemma_parsed_len(qe_identity@.kind, qe_identity@.ders);
        pki::lemma_parsed_len(pck@.kind, pck@.ders);
    }
    let tcb_info = tcb_info.parse()?;
    let pck_crl = pck_crl.parse()?;
    let qe_identity = qe_identity.parse()?;
    let pck = pck.parse()?;
    Ok(Chains { tcb_info, pck_crl, qe_identity, pck })
}

/// The fault of chains that do not lead to the anchor, are not Intel's, or do not belong together:
/// each is validated, the document signers are pinned, and the PCK CRL's issuer must be the CA
/// that issued the PCK leaf.
pub open spec fn chains_fault(chains: ChainsView, anchor: Seq<u8>, now: i64) -> Option<Rejection> {
    error::either(
        pki::path_fault(chains.tcb_info, anchor, now),
        error::either(
            pki::path_fault(chains.pck_crl, anchor, now),
            error::either(
                pki::path_fault(chains.qe_identity, anchor, now),
                error::either(
                    pki::path_fault(chains.pck, anchor, now),
                    error::either(
                        signer_fault(chains.tcb_info, "TCB info"@),
                        error::either(
                            signer_fault(chains.qe_identity, "QE identity"@),
                            crl_issuer_fault(chains),
                        ),
                    ),
                ),
            ),
        ),
    )
}

/// The fault of a PCK CRL chain whose leaf is not the CA that issued the PCK leaf.
pub open spec fn crl_issuer_fault(chains: ChainsView) -> Option<Rejection> {
    if chains.pck_crl.certs.first().names.subject_raw
        != chains.pck.certs.first().names.issuer_raw {
        Some(
            crl::invalid(
                "PCK CRL issuer chain does not terminate at the CA that issued the quote's PCK certificate"@,
            ),
        )
    } else {
        None
    }
}

/// Validates the four chains against the anchor and pins their signers.
pub fn check_chains(chains: &Chains, anchor: &[u8], now: i64) -> (checked: Result<(), VerifyError>)
    requires
        chains@.inhabited(),
    ensures
        error::verdict(checked) == chains_fault(chains@, anchor@, now),
{
    chains.tcb_info.validate(anchor, now)?;
    chains.pck_crl.validate(anchor, now)?;
    chains.qe_identity.validate(anchor, now)?;
    chains.pck.validate(anchor, now)?;

    // Signer-identity pinning: the leaves that sign tcbInfo and
    // enclaveIdentity must be Intel's dedicated "Intel SGX TCB Signing" cert, not
    // merely some leaf that chains to the root.
    require_tcb_signing_leaf(&chains.tcb_info, "TCB info")?;
    require_tcb_signing_leaf(&chains.qe_identity, "QE identity")?;

    // The PCK CRL only covers revocations issued by the CA that signed the quote's PCK
    // certificate. Intel operates two sibling PCK CAs (Processor and Platform), each with
    // its own CRL, so the supplied PCK CRL issuer chain must terminate at the exact CA that
    // issued this quote's PCK leaf — otherwise a genuine-but-unrelated sibling CRL could be
    // substituted and the leaf's revocation would silently never apply.
    if !same_bytes(chains.pck_crl.leaf_subject_raw(), chains.pck.leaf_issuer_raw()) {
        return Err(
            VerifyError::new(
                ErrorCategory::CrlInvalid,
                "PCK CRL issuer chain does not terminate at the CA that issued the quote's PCK certificate".to_owned(),
            ),
        );
    }
    Ok(())
}

/// The certificates that the two revocation lists name, the root CA's first, or why a list is
/// refused. The PCK CRL's signer must hold a usable key.
pub open spec fn revoked_outcome(
    chains: ChainsView,
    collateral: CollateralView,
    anchor: Seq<u8>,
    now: i64,
) -> Result<Seq<RevokedView>, Rejection> {
    match crl::crl_outcome(
        "root CA CRL"@,
        vstd::utf8::encode_utf8(collateral.root_ca_crl),
        chains.pck.certs.last().names.subject_raw,
        anchor,
        now,
    ) {
        Err(fault) => Err(fault),
        Ok(by_root) => {
            let signer = chains.pck_crl.certs.first();
            if !crypto::p256_point(signer.body.public_key) {
                Err(pki::unusable_key(chains.pck_crl.kind.name(), signer))
            } else {
                match crl::crl_outcome(
                    "PCK CRL"@,
                    vstd::utf8::encode_utf8(collateral.pck_crl),
                    chains.pck.certs.first().names.issuer_raw,
                    signer.body.public_key,
                    now,
                ) {
                    Err(fault) => Err(fault),
                    Ok(by_pck_ca) => Ok(by_root + by_pck_ca),
                }
            }
        },
    }
}

/// The fault of revocation lists that are refused, or that name a certificate in use.
pub open spec fn revocation_fault(
    chains: ChainsView,
    collateral: CollateralView,
    anchor: Seq<u8>,
    now: i64,
) -> Option<Rejection> {
    match revoked_outcome(chains, collateral, anchor, now) {
        Err(fault) => Some(fault),
        Ok(revoked) => error::first_fault(4, crl::revoked_chains(chains.in_order(), revoked)),
    }
}

/// Reads both revocation lists and refuses chains that hold a revoked certificate.
pub fn check_revocation(
    chains: &Chains,
    collateral: &SgxCollateral,
    anchor: &[u8],
    now: i64,
) -> (checked: Result<(), VerifyError>)
    requires
        chains@.inhabited(),
    ensures
        error::verdict(checked) == revocation_fault(chains@, collateral@, anchor@, now),
{
    let mut revoked: Vec<RevokedEntry> = check_crl(
        "root CA CRL",
        collateral.root_ca_crl.as_str().as_bytes(),
        chains.pck.root_subject_raw(),
        anchor,
        now,
    )?;
    let ghost by_root = revoked@;
    let mut by_pck_ca: Vec<RevokedEntry> = check_crl(
        "PCK CRL",
        collateral.pck_crl.as_str().as_bytes(),
        chains.pck.leaf_issuer_raw(),
        chains.pck_crl.leaf_verifying_key()?,
        now,
    )?;
    let ghost by_ca = by_pck_ca@;
    revoked.append(&mut by_pck_ca);
    assert(crl::entries(revoked@) =~= crl::entries(by_root) + crl::entries(by_ca));
    let all: [&ParsedChain; 4] = [
        &chains.tcb_info,
        &chains.pck_crl,
        &chains.qe_identity,
        &chains.pck,
    ];
    assert(crl::chain_views(all@) =~= chains@.in_order());
    ensure_none_revoked(all.as_slice(), revoked.as_slice())
}

/// The fault of a TCB info that its signer did not sign, that is not for SGX, or that is stale.
pub open spec fn tcb_info_fault(
    chain: ChainView,
    collateral: CollateralView,
    now: i64,
    minimum: u32,
) -> Option<Rejection> {
    let signer = chain.certs.first();
    let document = collateral.tcb_info;
    if !crypto::p256_point(signer.body.public_key) {
        Some(pki::unusable_key(chain.kind.name(), signer))
    } else {
        match raw_signature_fault(
            signer.body.public_key,
            vstd::utf8::encode_utf8(document.body_json),
            document.signature_hex,
        ) {
            Some(detail) => Some(
                error::rejection(ErrorCategory::TcbInfoSignatureInvalid, detail),
            ),
            None => if document.body.id != "SGX"@ {
                Some(
                    error::rejection(
                        ErrorCategory::CollateralParse,
                        "TCB info is for '"@ + document.body.id + "', expected SGX"@,
                    ),
                )
            } else {
                error::either(
                    window_fault(
                        "TCB info"@,
                        document.body.issue_date,
                        document.body.next_update,
                        now,
                        ErrorCategory::TcbInfoStale,
                    ),
                    round_fault(
                        "TCB info"@,
                        document.body.tcb_evaluation_data_number,
                        minimum,
                        ErrorCategory::TcbInfoStale,
                    ),
                )
            },
        }
    }
}

/// Checks the TCB info document: signature, subject and freshness.
pub fn check_tcb_info(
    chain: &ParsedChain,
    collateral: &SgxCollateral,
    now: i64,
    minimum: u32,
) -> (checked: Result<(), VerifyError>)
    requires
        chain.certs@.len() > 0,
    ensures
        error::verdict(checked) == tcb_info_fault(chain@, collateral@, now, minimum),
{
    let tcb_info = &collateral.tcb_info;
    let key = chain.leaf_verifying_key()?;
    if let Err(detail) = verify_raw_hex_signature(
        key,
        tcb_info.body_json.as_str().as_bytes(),
        tcb_info.signature_hex.as_str(),
    ) {
        return Err(VerifyError::new(ErrorCategory::TcbInfoSignatureInvalid, detail));
    }
    if !same_text(tcb_info.body.id.as_str(), "SGX") {
        return Err(
            VerifyError::new(
                ErrorCategory::CollateralParse,
                "TCB info is for '".to_owned().concat(tcb_info.body.id.as_str()).concat(
                    "', expected SGX",
                ),
            ),
        );
    }
    check_validity_window(
        "TCB info",
        tcb_info.body.issue_date,
        tcb_info.body.next_update,
        now,
        ErrorCategory::TcbInfoStale,
    )?;
    check_evaluation_round(
        "TCB info",
        tcb_info.body.tcb_evaluation_data_number,
        minimum,
        ErrorCategory::TcbInfoStale,
    )
}

/// The fault of a QE identity that its signer did not sign, that is stale, or that the quote's QE
/// does not match.
pub open spec fn qe_document_fault(
    chain: ChainView,
    collateral: CollateralView,
    qe_report: report::ReportFields,
    now: i64,
    minimum: u32,
) -> Option<Rejection> {
    let signer = chain.certs.first();
    let document = collateral.qe_identity;
    if !crypto::p256_point(signer.body.public_key) {
        Some(pki::unusable_key(chain.kind.name(), signer))
    } else {
        match raw_signature_fault(
            signer.body.public_key,
            vstd::utf8::encode_utf8(document.body_json),
            document.signature_hex,
        ) {
            Some(detail) => Some(
                error::rejection(ErrorCategory::QeIdentitySignatureInvalid, detail),
            ),
            None => error::either(
                window_fault(
                    "QE identity"@,
                    document.body.issue_date,
                    document.body.next_update,
                    now,
                    ErrorCategory::QeIdentityStale,
                ),
                error::either(
                    round_fault(
                        "QE identity"@,
                        document.body.tcb_evaluation_data_number,
                        minimum,
                        ErrorCategory::QeIdentityStale,
                    ),
                    tcb::qe_identity_fault(document.body, qe_report),
                ),
            ),
        }
    }
}

/// Checks the QE identity document — signature and freshness — and the quote's QE against it.
pub fn check_qe_document(
    chain: &ParsedChain,
    collateral: &SgxCollateral,
    qe_report: &SgxReportBody,
    now: i64,
    minimum: u32,
) -> (checked: Result<(), VerifyError>)
    requires
        chain.certs@.len() > 0,
    ensures
        error::verdict(checked) == qe_document_fault(
            chain@,
            collateral@,
            qe_report@,
            now,
            minimum,
        ),
{
    let qe_identity = &collateral.qe_identity;
    let key = chain.leaf_verifying_key()?;
    if let Err(detail) = verify_raw_hex_signature(
        key,
        qe_identity.body_json.as_str().as_bytes(),
        qe_identity.signature_hex.as_str(),
    ) {
        return Err(VerifyError::new(ErrorCategory::QeIdentitySignatureInvalid, detail));
    }
    check_validity_window(
        "QE identity",
        qe_identity.body.issue_date,
        qe_identity.body.next_update,
        now,
        ErrorCategory::QeIdentityStale,
    )?;
    check_evaluation_round(
        "QE identity",
        qe_identity.body.tcb_evaluation_data_number,
        minimum,
        ErrorCategory::QeIdentityStale,
    )?;
    check_qe_identity(&qe_identity.body, qe_report)
}

/// The fault of a QE report that the platform's PCK key did not sign.
pub open spec fn qe_report_fault(pck: ChainView, signature: SignatureFields) -> Option<Rejection> {
    let leaf = pck.certs.first();
    if !crypto::p256_point(leaf.body.public_key) {
        Some(pki::unusable_key(pck.kind.name(), leaf))
    } else if !crypto::fixed_signature(signature.qe_report_signature) {
        Some(
            error::rejection(
                ErrorCategory::QeReportSignatureInvalid,
                "undecodable signature: "@ + "signature error"@,
            ),
        )
    } else if !crypto::p256_verifies(
        leaf.body.public_key,
        signature.qe_report_raw,
        signature.qe_report_signature,
    ) {
        Some(
            error::rejection(
                ErrorCategory::QeReportSignatureInvalid,
                "QE report was not signed by the platform's PCK key"@,
            ),
        )
    } else {
        None
    }
}

/// Verifies the QE report under the PCK leaf's key.
pub fn check_qe_report(pck: &ParsedChain, quote: &SgxQuote) -> (checked: Result<(), VerifyError>)
    requires
        pck.certs@.len() > 0,
    ensures
        error::verdict(checked) == qe_report_fault(pck@, quote@.signature),
{
    let pck_leaf_key = pck.leaf_verifying_key()?;
    if let Err(e) = decode_signature(quote.signature.qe_report_signature.as_slice()) {
        return Err(
            VerifyError::new(
                ErrorCategory::QeReportSignatureInvalid,
                "undecodable signature: ".to_owned().concat(e.as_str()),
            ),
        );
    }
    if !verify_signature(
        pck_leaf_key,
        quote.signature.qe_report_raw.as_slice(),
        quote.signature.qe_report_signature.as_slice(),
    ) {
        return Err(
            VerifyError::new(
                ErrorCategory::QeReportSignatureInvalid,
                "QE report was not signed by the platform's PCK key".to_owned(),
            ),
        );
    }
    Ok(())
}

/// Whether QE report data commit to a digest: the digest, then zeros.
pub open spec fn commits_to(report_data: Seq<u8>, digest: Seq<u8>) -> bool {
    &&& report_data.subrange(0, 32) == digest
    &&& forall|i: int| 32 <= i < 64 ==> #[trigger] report_data[i] == 0
}

/// Whether 64 bytes of QE report data hold `digest` followed by 32 zero bytes.
pub fn check_commitment(report_data: &[u8; 64], digest: &[u8; 32]) -> (commits: bool)
    ensures
        commits == commits_to(report_data@, digest@),
{
    let mut i: usize = 0;
    while i < 32
        invariant
            i <= 32,
            forall|j: int| 0 <= j < i ==> report_data@[j] == digest@[j],
        decreases 32 - i,
    {
        if report_data[i] != digest[i] {
            assert(report_data@.subrange(0, 32)[i as int] != digest@[i as int]);
            return false;
        }
        i += 1;
    }
    assert(report_data@.subrange(0, 32) =~= digest@);
    while i < 64
        invariant
            32 <= i <= 64,
            report_data@.subrange(0, 32) == digest@,
            forall|j: int| 32 <= j < i ==> #[trigger] report_data@[j] == 0,
        decreases 64 - i,
    {
        if report_data[i] != 0 {
            assert(report_data@[i as int] != 0);
            return false;
        }
        i += 1;
    }
    true
}

/// The fault of a QE report that does not commit to the attestation key and the authentication
/// data, by their SHA-256 digest.
pub open spec fn binding_fault(signature: SignatureFields) -> Option<Rejection> {
    if commits_to(
        signature.qe_report.sgx_report_data_bytes,
        crypto::sha256(signature.attestation_pub_key + signature.qe_auth_data),
    ) {
        None
    } else {
        Some(
            error::rejection(
                ErrorCategory::QeBindingInvalid,
                "QE report data does not commit to the attestation key and auth data"@,
            ),
        )
    }
}

/// Requires the QE report to commit to the attestation key and the authentication data.
pub fn check_qe_binding(quote: &SgxQuote) -> (checked: Result<(), VerifyError>)
    ensures
        error::verdict(checked) == binding_fault(quote@.signature),
{
    let binding = sha256_of_parts(
        quote.signature.attestation_pub_key.as_slice(),
        quote.signature.qe_auth_data.as_slice(),
    );
    if !check_commitment(&quote.signature.qe_report.sgx_report_data_bytes, &binding) {
        return Err(
            VerifyError::new(
                ErrorCategory::QeBindingInvalid,
                "QE report data does not commit to the attestation key and auth data".to_owned(),
            ),
        );
    }
    Ok(())
}

/// The attestation key as an uncompressed point: its two coordinates behind the tag.
pub open spec fn attestation_sec1(coordinates: Seq<u8>) -> Seq<u8> {
    seq![0x04u8] + coordinates
}

/// The fault of a quote that its attestation key did not sign.
pub open spec fn quote_signature_fault(quote: QuoteFields) -> Option<Rejection> {
    let key = attestation_sec1(quote.signature.attestation_pub_key);
    if !crypto::p256_point(key) {
        Some(
            error::rejection(
                ErrorCategory::QuoteSignatureInvalid,
                "attestation public key is not a usable P-256 point: "@ + "signature error"@,
            ),
        )
    } else if !crypto::fixed_signature(quote.signature.isv_signature) {
        Some(
            error::rejection(
                ErrorCategory::QuoteSignatureInvalid,
                "undecodable signature: "@ + "signature error"@,
            ),
        )
    } else if !crypto::p256_verifies(key, quote.signed_bytes, quote.signature.isv_signature) {
        Some(
            error::rejection(
                ErrorCategory::QuoteSignatureInvalid,
                "quote header and report body were not signed by the attestation key"@,
            ),
        )
    } else {
        None
    }
}

/// Verifies the header and report body of a quote under its attestation key.
pub fn check_quote_signature(quote: &SgxQuote) -> (checked: Result<(), VerifyError>)
    ensures
        error::verdict(checked) == quote_signature_fault(quote@),
{
    let mut key: [u8; 65] = [0;65];
    key[0] = 0x04;
    let mut i: usize = 0;
    while i < 64
        invariant
            i <= 64,
            key@[0] == 0x04,
            forall|j: int|
                0 <= j < i ==> key@[j + 1] == #[trigger] quote.signature.attestation_pub_key@[j],
        decreases 64 - i,
    {
        key[i + 1] = quote.signature.attestation_pub_key[i];
        i += 1;
    }
    assert forall|k: int| 0 <= k < 65 implies key@[k] == attestation_sec1(
        quote.signature.attestation_pub_key@,
    )[k] by {
        if k > 0 {
            assert(key@[(k - 1) + 1] == quote.signature.attestation_pub_key@[k - 1]);
        }
    }
    assert(key@ =~= attestation_sec1(quote.signature.attestation_pub_key@));
    if let Err(e) = decode_key(key.as_slice()) {
        return Err(
            VerifyError::new(
                ErrorCategory::QuoteSignatureInvalid,
                "attestation public key is not a usable P-256 point: ".to_owned().concat(
                    e.as_str(),
                ),
            ),
        );
    }
    if let Err(e) = decode_signature(quote.signature.isv_signature.as_slice()) {
        return Err(
            VerifyError::new(
                ErrorCategory::QuoteSignatureInvalid,
                "undecodable signature: ".to_owned().concat(e.as_str()),
            ),
        );
    }
    if !verify_signature(
        key.as_slice(),
        quote.signed_bytes(),
        quote.signature.isv_signature.as_slice(),
    ) {
        return Err(
            VerifyError::new(
                ErrorCategory::QuoteSignatureInvalid,
                "quote header and report body were not signed by the attestation key".to_owned(),
            ),
        );
    }
    Ok(())
}

/// The fault of a quote from a debug enclave.
pub open spec fn debug_fault(body: report::ReportFields) -> Option<Rejection> {
    if report::debug_flag(body.attributes) {
        Some(
            error::rejection(
                ErrorCategory::DebugEnclaveRejected,
                "report attributes "@ + crypto::hex_text(body.attributes)
                    + " carry the DEBUG flag"@,
            ),
        )
    } else {
        None
    }
}

/// The fault of a quote from another vendor's QE or with another measurement than the pinned one.
pub open spec fn identity_fault(quote: QuoteFields, expected_mrenclave: Seq<u8>) -> Option<
    Rejection,
> {
    if quote.header.qe_vendor_id != INTEL_QE_VENDOR_ID@ {
        Some(
            error::rejection(
                ErrorCategory::QeVendorInvalid,
                "quote names QE vendor "@ + crypto::hex_text(quote.header.qe_vendor_id)
                    + ", only Intel's QE ("@ + crypto::hex_text(INTEL_QE_VENDOR_ID@)
                    + ") is accepted"@,
            ),
        )
    } else if quote.report_body.mrenclave != expected_mrenclave {
        Some(
            error::rejection(
                ErrorCategory::MrenclaveMismatch,
                "report measures "@ + crypto::hex_text(quote.report_body.mrenclave)
                    + ", caller pinned "@ + crypto::hex_text(expected_mrenclave),
            ),
        )
    } else {
        None
    }
}

/// Requires Intel's QE and the pinned measurement.
pub fn check_identity(quote: &SgxQuote, expected_mrenclave: &MREnclave) -> (checked: Result<
    (),
    VerifyError,
>)
    ensures
        error::verdict(checked) == identity_fault(quote@, expected_mrenclave@),
{
    let vendor = INTEL_QE_VENDOR_ID;
    if !same_bytes(quote.header.qe_vendor_id.as_slice(), vendor.as_slice()) {
        return Err(
            VerifyError::new(
                ErrorCategory::QeVendorInvalid,
                "quote names QE vendor ".to_owned().concat(
                    hex_encode(quote.header.qe_vendor_id.as_slice()).as_str(),
                ).concat(", only Intel's QE (").concat(
                    hex_encode(vendor.as_slice()).as_str(),
                ).concat(") is accepted"),
            ),
        );
    }
    if !same_bytes(quote.report_body.mrenclave.as_slice(), expected_mrenclave.as_slice()) {
        return Err(
            VerifyError::new(
                ErrorCategory::MrenclaveMismatch,
                "report measures ".to_owned().concat(
                    hex_encode(quote.report_body.mrenclave.as_slice()).as_str(),
                ).concat(", caller pinned ").concat(
                    hex_encode(expected_mrenclave.as_slice()).as_str(),
                ),
            ),
        );
    }
    Ok(())
}

/// What is wrong with the collateral and the quote once their chains are read, up to but not
/// including the platform's TCB.
pub open spec fn evidence_fault(
    anchor: Seq<u8>,
    now: i64,
    chains: ChainsView,
    collateral: CollateralView,
    quote: QuoteFields,
    minimum: u32,
) -> Option<Rejection> {
    error::either(
        chains_fault(chains, anchor, now),
        error::either(
            revocation_fault(chains, collateral, anchor, now),
            error::either(
                tcb_info_fault(chains.tcb_info, collateral, now, minimum),
                error::either(
                    qe_document_fault(
                        chains.qe_identity,
                        collateral,
                        quote.signature.qe_report,
                        now,
                        minimum,
                    ),
                    error::either(
                        qe_report_fault(chains.pck, quote.signature),
                        error::either(
                            binding_fault(quote.signature),
                            error::either(
                                quote_signature_fault(quote),
                                debug_fault(quote.report_body),
                            ),
                        ),
                    ),
                ),
            ),
        ),
    )
}

/// The standing of the platform that produced a quote, or why the quote is rejected.
pub open spec fn attestation_outcome(
    anchor: Seq<u8>,
    now: i64,
    collateral: CollateralView,
    quote: QuoteFields,
    expected_mrenclave: Seq<u8>,
    minimum: u32,
) -> Result<StandingView, Rejection> {
    match error::either(identity_fault(quote, expected_mrenclave), format_fault(collateral)) {
        Some(fault) => Err(fault),
        None => match chains_outcome(collateral, quote.signature.cert_data) {
            Err(fault) => Err(fault),
            Ok(chains) => match evidence_fault(
                anchor,
                now,
                chains,
                collateral,
                quote,
                minimum,
            ) {
                Some(fault) => Err(fault),
                None => match platform::platform_outcome(chains.pck) {
                    Err(fault) => Err(fault),
                    Ok(platform) => tcb::standing_outcome(collateral.tcb_info.body, platform),
                },
            },
        },
    }
}

/// Verify a DCAP v3 SGX quote against PCS v4 collateral at `now`, in Unix seconds, with chains
/// anchored at the P-256 key `anchor`, pinning `expected_mrenclave`.
/// [`verify_remote_attestation`] is this at Intel's root key and the given system time.
pub fn verify_at(
    anchor: &[u8; 65],
    now: i64,
    collateral: SgxCollateral,
    quote: SgxQuote,
    expected_mrenclave: &MREnclave,
    min_tcb_evaluation_data_number: u32,
) -> (verified: Result<(TcbStanding, SgxReportBody), VerifyError>)
    ensures
        standing_of(verified) == attestation_outcome(
            anchor@,
            now,
            collateral@,
            quote@,
            expected_mrenclave@,
            min_tcb_evaluation_data_number,
        ),
        verified matches Ok((_, body)) ==> body@ == quote@.report_body,
{
    // Cheapest self-contained identity gates first: a wrong measurement is rejected
    // without touching the collateral-heavy chain/TCB work. The DEBUG gate cannot
    // move this early — a debug-mode quote that also fails another check must
    // reject for that check's reason, so DEBUG stays after the signature checks.
    check_identity(&quote, expected_mrenclave)?;

    // Fail-closed document-format gates: reject any collateral
    // whose declared versions/algorithm are not exactly what this verifier was
    // written for, before deriving any status from the documents.
    check_document_formats(&collateral)?;

    let chains = read_chains(&collateral, quote.signature.cert_data.as_slice())?;
    check_chains(&chains, anchor.as_slice(), now)?;
    check_revocation(&chains, &collateral, anchor.as_slice(), now)?;
    check_tcb_info(&chains.tcb_info, &collateral, now, min_tcb_evaluation_data_number)?;
    check_qe_document(
        &chains.qe_identity,
        &collateral,
        &quote.signature.qe_report,
        now,
        min_tcb_evaluation_data_number,
    )?;
    check_qe_report(&chains.pck, &quote)?;
    check_qe_binding(&quote)?;
    check_quote_signature(&quote)?;
    if quote.report_body.is_debug() {
        return Err(
            VerifyError::new(
                ErrorCategory::DebugEnclaveRejected,
                "report attributes ".to_owned().concat(
                    hex_encode(quote.report_body.attributes.as_slice()).as_str(),
                ).concat(" carry the DEBUG flag"),
            ),
        );
    }
    let platform_tcb = extract_pck_platform_tcb(&chains.pck)?;
    let standing = platform_standing(&collateral.tcb_info.body, &platform_tcb)?;
    Ok((standing, quote.report_body))
}

/// Verify a DCAP v3 SGX quote against PCS v4 collateral at `current_time`, pinning
/// `expected_mrenclave`. On success returns the platform's TCB standing and the verified
/// report body. On rejection returns a [`crate::error::VerifyError`], whose
/// [`VerifyError::category`] classifies the failure.
///
/// `min_tcb_evaluation_data_number` is a caller-supplied freshness floor: collateral
/// whose tcbInfo or QE identity comes from an Intel TCB evaluation round below it is
/// rejected as stale even inside its nextUpdate window, closing the round-downgrade
/// window after a TCB recovery. Pass 0 to accept any round.
pub fn verify_remote_attestation(
    current_time: SystemTime,
    collateral: SgxCollateral,
    quote: SgxQuote,
    expected_mrenclave: &MREnclave,
    min_tcb_evaluation_data_number: u32,
) -> (verified: Result<(TcbStanding, SgxReportBody), VerifyError>)
    ensures
        standing_of(verified) == attestation_outcome(
            INTEL_SGX_ROOT_CA_PUBLIC_KEY_SEC1@,
            clock::signed_seconds(clock::epoch_distance(current_time)),
            collateral@,
            quote@,
            expected_mrenclave@,
            min_tcb_evaluation_data_number,
        ),
        verified matches Ok((_, body)) ==> body@ == quote@.report_body,
{
    let now: i64 = unix_seconds(current_time);
    let anchor = INTEL_SGX_ROOT_CA_PUBLIC_KEY_SEC1;
    verify_at(
        &anchor,
        now,
        collateral,
        quote,
        expected_mrenclave,
        min_tcb_evaluation_data_number,
    )
}

/// The standing that plain verification found, once a policy tolerates it.
pub open spec fn judged(outcome: Result<StandingView, Rejection>, policy: TcbPolicy) -> Result<
    StandingView,
    Rejection,
> {
    match outcome {
        Err(fault) => Err(fault),
        Ok(standing) => match policy::policy_fault(policy, standing) {
            Some(fault) => Err(fault),
            None => Ok(standing),
        },
    }
}

/// A verification's outcome, by the standing or the rejection.
pub open spec fn standing_of(
    verified: Result<(TcbStanding, SgxReportBody), VerifyError>,
) -> Result<StandingView, Rejection> {
    match verified {
        Ok((standing, _)) => Ok(standing@),
        Err(e) => Err(e@),
    }
}

/// Lets a policy judge what a verification found. What it rejects stays rejected, and what it
/// accepts keeps its report body.
pub fn judge(
    verified: Result<(TcbStanding, SgxReportBody), VerifyError>,
    policy: &TcbPolicy,
) -> (judgement: Result<(TcbStanding, SgxReportBody), VerifyError>)
    ensures
        standing_of(judgement) == judged(standing_of(verified), *policy),
        judgement is Ok ==> judgement == verified,
{
    let (standing, body) = verified?;
    policy.check(&standing)?;
    Ok((standing, body))
}

/// [`verify_at`] under a caller's policy: its evaluation-round floor is forwarded to verification,
/// and the standing found must be one that it tolerates.
pub fn verify_at_with_policy(
    anchor: &[u8; 65],
    now: i64,
    collateral: SgxCollateral,
    quote: SgxQuote,
    expected_mrenclave: &MREnclave,
    policy: &TcbPolicy,
) -> (verified: Result<(TcbStanding, SgxReportBody), VerifyError>)
    ensures
        standing_of(verified) == judged(
            attestation_outcome(
                anchor@,
                now,
                collateral@,
                quote@,
                expected_mrenclave@,
                policy.min_tcb_evaluation_data_number,
            ),
            *policy,
        ),
        verified matches Ok((_, body)) ==> body@ == quote@.report_body,
{
    let verified = verify_at(
        anchor,
        now,
        collateral,
        quote,
        expected_mrenclave,
        policy.min_tcb_evaluation_data_number,
    );
    judge(verified, policy)
}

/// [`verify_remote_attestation`] under a caller's policy: its evaluation-round floor is forwarded
/// to verification, and the standing found must be one that it tolerates.
pub fn verify_remote_attestation_with_policy(
    current_time: SystemTime,
    collateral: SgxCollateral,
    quote: SgxQuote,
    expected_mrenclave: &MREnclave,
    policy: &TcbPolicy,
) -> (verified: Result<(TcbStanding, SgxReportBody), VerifyError>)
    ensures
        standing_of(verified) == judged(
            attestation_outcome(
                INTEL_SGX_ROOT_CA_PUBLIC_KEY_SEC1@,
                clock::signed_seconds(clock::epoch_distance(current_time)),
                collateral@,
                quote@,
                expected_mrenclave@,
                policy.min_tcb_evaluation_data_number,
            ),
            *policy,
        ),
        verified matches Ok((_, body)) ==> body@ == quote@.report_body,
{
    let now: i64 = unix_seconds(current_time);
    let anchor = INTEL_SGX_ROOT_CA_PUBLIC_KEY_SEC1;
    verify_at_with_policy(&anchor, now, collateral, quote, expected_mrenclave, policy)
}

/// A policy accepts a verified quote exactly when its standing is up to date or is a degraded one
/// whose own flag is set; the standing stays what it was, and anything else verified is refused as a
/// rejected standing.
pub proof fn a_policy_judges_by_the_flag_of_the_standing(standing: StandingView, policy: TcbPolicy)
    ensures
        ({
            let judgement = judged(Ok(standing), policy);
            let tolerated = {
                ||| standing is UpToDate
                ||| standing is SWHardeningNeeded && policy.accept_sw_hardening_needed
                ||| standing is ConfigurationAndSWHardeningNeeded
                    && policy.accept_configuration_and_sw_hardening_needed
            };
            &&& tolerated ==> judgement == Ok::<StandingView, Rejection>(standing)
            &&& !tolerated ==> (judgement matches Err(fault) && fault.category
                == ErrorCategory::TcbStandingRejected)
        }),
{
}

/// A document is in its validity from its issue date on, and up to but not at its next update; and
/// recent enough at or above the asked round. Anything else is staleness of that document.
pub proof fn documents_are_fresh_up_to_the_next_update(
    document: Seq<char>,
    issue_date: i64,
    next_update: i64,
    now: i64,
    round: u32,
    minimum: u32,
    stale: ErrorCategory,
)
    ensures
        window_fault(document, issue_date, next_update, now, stale) is None <==> issue_date <= now
            < next_update,
        round_fault(document, round, minimum, stale) is None <==> round >= minimum,
        window_fault(document, issue_date, next_update, now, stale) matches Some(fault)
            ==> fault.category == stale,
        round_fault(document, round, minimum, stale) matches Some(fault) ==> fault.category
            == stale,
{
}

/// Report data commit to a digest byte by byte: its 32 bytes, then 32 zeros.
pub proof fn commitments_are_the_digest_and_zeros(report_data: Seq<u8>, digest: Seq<u8>)
    requires
        report_data.len() == 64,
        digest.len() == 32,
    ensures
        commits_to(report_data, digest) <==> forall|i: int|
            0 <= i < 64 ==> #[trigger] report_data[i] == (if i < 32 {
                digest[i]
            } else {
                0u8
            }),
{
    if commits_to(report_data, digest) {
        assert forall|i: int| 0 <= i < 64 implies #[trigger] report_data[i] == (if i < 32 {
            digest[i]
        } else {
            0u8
        }) by {
            if i < 32 {
                assert(report_data.subrange(0, 32)[i] == digest[i]);
            }
        }
    } else if forall|i: int|
        0 <= i < 64 ==> #[trigger] report_data[i] == (if i < 32 {
            digest[i]
        } else {
            0u8
        }) {
        assert(report_data.subrange(0, 32) =~= digest);
    }
}

/// A document outside its validity is told which bound it misses, an old one which round it is from,
/// and both are refused under the category that was asked for.
pub proof fn stale_documents_are_told_why(
    document: Seq<char>,
    bounds: (i64, i64),
    now: i64,
    rounds: (u32, u32),
    stale: ErrorCategory,
)
    ensures
        now >= bounds.1 ==> window_fault(document, bounds.0, bounds.1, now, stale) == Some(
            error::rejection(
                stale,
                document + " expired at unix "@ + text::decimal(bounds.1 as int)
                    + ", verification time is "@ + text::decimal(now as int),
            ),
        ),
        now < bounds.1 && now < bounds.0 ==> window_fault(document, bounds.0, bounds.1, now, stale)
            == Some(
            error::rejection(
                stale,
                document + " is not valid until unix "@ + text::decimal(bounds.0 as int)
                    + ", verification time is "@ + text::decimal(now as int),
            ),
        ),
        rounds.0 < rounds.1 ==> round_fault(document, rounds.0, rounds.1, stale) == Some(
            error::rejection(
                stale,
                document + " is from TCB evaluation round "@ + text::decimal(rounds.0 as int)
                    + ", caller requires at least "@ + text::decimal(rounds.1 as int),
            ),
        ),
        rounds.0 >= rounds.1 ==> round_fault(document, rounds.0, rounds.1, stale) is None,
{
}

/// A document's signature is sixty-four bytes in hex that verify under the key over the text.
pub proof fn documents_are_signed_in_hex(key: Seq<u8>, message: Seq<u8>, signature_hex: Seq<char>)
    ensures
        raw_signature_fault(key, message, signature_hex) is None <==> {
            &&& crypto::is_hex(signature_hex)
            &&& crypto::fixed_signature(crypto::unhex(signature_hex))
            &&& crypto::p256_verifies(key, message, crypto::unhex(signature_hex))
        },
        signature_hex.len() != 128 ==> raw_signature_fault(key, message, signature_hex) is Some,
{
}

} // verus!
