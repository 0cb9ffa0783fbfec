//! What holds whenever a quote is accepted, and how outcomes relate to each other.

use vstd::prelude::*;

use crate::crl::{self, RevokedView};
use crate::crypto;
use crate::error::{self, ErrorCategory, Rejection};
use crate::pki::{
    self, ChainView, INTEL_QE_VENDOR_ID, INTEL_TCB_SIGNING_CN, OID_ECDSA_WITH_SHA256, OID_EC_P256,
    OID_EC_PUBLIC_KEY,
};
use crate::platform::{self, PckCa};
use crate::policy::TcbPolicy;
use crate::standing::StandingView;
use crate::tcb;
use crate::types::collateral::{CollateralView, SignedView};
use crate::types::quote::QuoteFields;
use crate::types::report;
use crate::verify::{self, ChainsView};
use crate::x509::{self, CertificateView, RevocationListView};

verus! {

/// Whether a certificate is in its validity at `now` and is ECDSA P-256 with SHA-256 throughout.
pub open spec fn sound_certificate(cert: CertificateView, now: i64) -> bool {
    &&& cert.body.not_before <= now < cert.body.not_after
    &&& cert.algorithms.agree
    &&& cert.algorithms.signature.bytes == OID_ECDSA_WITH_SHA256@
    &&& cert.algorithms.key.bytes == OID_EC_PUBLIC_KEY@
    &&& cert.algorithms.curve matches Some(curve) && curve.bytes == OID_EC_P256@
}

/// Whether a certificate may issue others: it is a CA, and its key usage, where limited, includes
/// signing certificates.
pub open spec fn may_issue(cert: CertificateView) -> bool {
    &&& cert.extensions.ca == Ok::<Option<bool>, Seq<char>>(Some(true))
    &&& cert.extensions.key_cert_sign matches Ok(limit) && limit != Some(false)
}

/// Whether `parent` issued `child`: the names meet and the signature verifies.
pub open spec fn issued_by(child: CertificateView, parent: CertificateView) -> bool {
    &&& child.names.issuer_raw == parent.names.subject_raw
    &&& crypto::p256_point(parent.body.public_key)
    &&& crypto::der_signature(child.body.signature) matches Some(signature)
        && crypto::p256_verifies(parent.body.public_key, child.body.signed_bytes, signature)
}

/// Whether a chain leads to `anchor` at `now`.
pub open spec fn leads_to(chain: ChainView, anchor: Seq<u8>, now: i64) -> bool {
    &&& chain.certs.last().body.public_key == anchor
    &&& forall|i: int|
        0 <= i < chain.certs.len() ==> sound_certificate(#[trigger] chain.certs[i], now)
    &&& forall|i: int| 1 <= i < chain.certs.len() ==> may_issue(#[trigger] chain.certs[i])
    &&& forall|i: int|
        #![trigger chain.certs[i]]
        0 <= i < chain.certs.len() ==> issued_by(chain.certs[i], pki::issuer_of(chain.certs, i))
}

/// A chain passes validation exactly when it leads to the anchor.
pub proof fn validation_means_leading_to_the_anchor(chain: ChainView, anchor: Seq<u8>, now: i64)
    ensures
        pki::path_fault(chain, anchor, now) is None <==> leads_to(chain, anchor, now),
{
    let label = chain.kind.name();
    let certs = chain.certs;
    let own = pki::own_faults(label, certs, now);
    let issuers = pki::issuer_faults(label, certs);
    let links = pki::link_faults(label, certs);
    error::lemma_no_first_fault(certs.len(), own);
    error::lemma_no_first_fault(certs.len(), issuers);
    error::lemma_no_first_fault(certs.len(), links);
    assert forall|i: int| 0 <= i < certs.len() implies (own(i) is None <==> sound_certificate(
        #[trigger] certs[i],
        now,
    )) by {}
    assert forall|i: int| 1 <= i < certs.len() implies (issuers(i) is None <==> may_issue(
        #[trigger] certs[i],
    )) by {}
    assert forall|i: int| 0 <= i < certs.len() implies (links(i) is None <==> issued_by(
        #[trigger] certs[i],
        pki::issuer_of(certs, i),
    )) by {}
    if leads_to(chain, anchor, now) {
        assert forall|i: int| 0 <= i < certs.len() implies #[trigger] own(i) is None by {
            assert(sound_certificate(certs[i], now));
        }
        assert forall|i: int| 0 <= i < certs.len() implies #[trigger] issuers(i) is None by {
            if i > 0 {
                assert(may_issue(certs[i]));
            }
        }
        assert forall|i: int| 0 <= i < certs.len() implies #[trigger] links(i) is None by {
            assert(issued_by(certs[i], pki::issuer_of(certs, i)));
        }
    }
    if pki::path_fault(chain, anchor, now) is None {
        assert forall|i: int| 0 <= i < certs.len() implies sound_certificate(
            #[trigger] certs[i],
            now,
        ) by {
            assert(own(i) is None);
        }
        assert forall|i: int| 1 <= i < certs.len() implies may_issue(#[trigger] certs[i]) by {
            assert(issuers(i) is None);
        }
        assert forall|i: int| 0 <= i < certs.len() implies issued_by(
            #[trigger] certs[i],
            pki::issuer_of(certs, i),
        ) by {
            assert(links(i) is None);
        }
    }
}

/// A chain that leads to the anchor still does when its last certificate is repeated, as long as
/// that certificate may issue.
pub proof fn repeating_the_root_keeps_a_chain_valid(
    chain: ChainView,
    longer: ChainView,
    anchor: Seq<u8>,
    now: i64,
)
    requires
        chain.certs.len() > 0,
        leads_to(chain, anchor, now),
        may_issue(chain.certs.last()),
        longer.certs == chain.certs.push(chain.certs.last()),
    ensures
        leads_to(longer, anchor, now),
{
    let certs = longer.certs;
    let n = chain.certs.len() as int;
    assert(issued_by(chain.certs[n - 1], pki::issuer_of(chain.certs, n - 1)));
    assert forall|i: int| #![trigger certs[i]] 0 <= i < certs.len() implies {
        &&& sound_certificate(certs[i], now)
        &&& i >= 1 ==> may_issue(certs[i])
        &&& issued_by(certs[i], pki::issuer_of(certs, i))
    } by {
        let k = if i < n {
            i
        } else {
            n - 1
        };
        assert(certs[i] == chain.certs[k]);
        assert(sound_certificate(chain.certs[k], now));
        assert(issued_by(chain.certs[k], pki::issuer_of(chain.certs, k)));
        if 1 <= k {
            assert(may_issue(chain.certs[k]));
        }
    }
}

/// The arguments of a verification.
pub ghost struct Evidence {
    pub anchor: Seq<u8>,
    pub now: i64,
    pub collateral: CollateralView,
    pub quote: QuoteFields,
    pub expected_mrenclave: Seq<u8>,
    pub minimum: u32,
}

impl Evidence {
    /// What verification makes of the evidence.
    pub open spec fn outcome(self) -> Result<StandingView, Rejection> {
        verify::attestation_outcome(
            self.anchor,
            self.now,
            self.collateral,
            self.quote,
            self.expected_mrenclave,
            self.minimum,
        )
    }

    /// The chains that the evidence holds.
    pub open spec fn chains(self) -> ChainsView {
        verify::chains_outcome(self.collateral, self.quote.signature.cert_data)->Ok_0
    }
}

/// An accepted quote comes from Intel's QE and carries the pinned measurement.
pub proof fn accepted_quotes_are_pinned(evidence: Evidence)
    requires
        evidence.outcome() is Ok,
    ensures
        evidence.quote.header.qe_vendor_id == INTEL_QE_VENDOR_ID@,
        evidence.quote.report_body.mrenclave == evidence.expected_mrenclave,
{
}

/// Collateral that is accepted declares exactly the supported versions and TCB type.
pub proof fn accepted_collateral_has_the_supported_format(evidence: Evidence)
    requires
        evidence.outcome() is Ok,
    ensures
        evidence.collateral.version == 3,
        evidence.collateral.tcb_info.body.version == 3,
        evidence.collateral.qe_identity.body.version == 2,
        evidence.collateral.tcb_info.body.tcb_type == 0,
{
}

/// Every chain of accepted evidence leads to the anchor, the two document signers go by Intel's
/// name for them, and the PCK CRL's signer is the CA that issued the PCK leaf.
pub proof fn accepted_chains_lead_to_the_anchor(evidence: Evidence)
    requires
        evidence.outcome() is Ok,
    ensures
        verify::chains_outcome(evidence.collateral, evidence.quote.signature.cert_data) is Ok,
        leads_to(evidence.chains().tcb_info, evidence.anchor, evidence.now),
        leads_to(evidence.chains().pck_crl, evidence.anchor, evidence.now),
        leads_to(evidence.chains().qe_identity, evidence.anchor, evidence.now),
        leads_to(evidence.chains().pck, evidence.anchor, evidence.now),
        evidence.chains().tcb_info.certs.first().names.common_name() == Some(
            INTEL_TCB_SIGNING_CN@,
        ),
        evidence.chains().qe_identity.certs.first().names.common_name() == Some(
            INTEL_TCB_SIGNING_CN@,
        ),
        evidence.chains().pck_crl.certs.first().names.subject_raw
            == evidence.chains().pck.certs.first().names.issuer_raw,
{
    let chains = evidence.chains();
    validation_means_leading_to_the_anchor(chains.tcb_info, evidence.anchor, evidence.now);
    validation_means_leading_to_the_anchor(chains.pck_crl, evidence.anchor, evidence.now);
    validation_means_leading_to_the_anchor(chains.qe_identity, evidence.anchor, evidence.now);
    validation_means_leading_to_the_anchor(chains.pck, evidence.anchor, evidence.now);
}

/// No certificate in any chain of accepted evidence is named by either revocation list.
pub proof fn accepted_certificates_are_not_revoked(evidence: Evidence, chain: int, cert: int)
    requires
        evidence.outcome() is Ok,
        0 <= chain < 4,
        0 <= cert < evidence.chains().in_order()[chain].certs.len(),
    ensures
        verify::revoked_outcome(
            evidence.chains(),
            evidence.collateral,
            evidence.anchor,
            evidence.now,
        ) matches Ok(revoked) && !crl::is_revoked(
            evidence.chains().in_order()[chain].certs[cert],
            revoked,
        ),
{
    let chains = evidence.chains();
    let revoked = verify::revoked_outcome(
        chains,
        evidence.collateral,
        evidence.anchor,
        evidence.now,
    )->Ok_0;
    let faults = crl::revoked_chains(chains.in_order(), revoked);
    error::lemma_no_first_fault(4, faults);
    assert(faults(chain) is None);
    let of_chain = crl::revoked_faults(chains.in_order()[chain], revoked);
    error::lemma_no_first_fault(chains.in_order()[chain].certs.len(), of_chain);
    assert(of_chain(cert) is None);
}

/// A certificate that an accepted revocation list of its issuer names is never part of accepted
/// evidence: the verdict is a rejection of the revocation kind, unless an earlier check rejects.
pub proof fn revoked_certificates_are_rejected(
    evidence: Evidence,
    revoked: Seq<RevokedView>,
    chain: int,
    cert: int,
)
    requires
        verify::chains_outcome(evidence.collateral, evidence.quote.signature.cert_data) is Ok,
        verify::revoked_outcome(
            evidence.chains(),
            evidence.collateral,
            evidence.anchor,
            evidence.now,
        ) == Ok::<Seq<RevokedView>, Rejection>(revoked),
        0 <= chain < 4,
        0 <= cert < evidence.chains().in_order()[chain].certs.len(),
        crl::is_revoked(evidence.chains().in_order()[chain].certs[cert], revoked),
    ensures
        evidence.outcome() is Err,
{
    if evidence.outcome() is Ok {
        accepted_certificates_are_not_revoked(evidence, chain, cert);
    }
}

/// The revocation list that PEM data hold.
pub open spec fn list_in(pem_data: Seq<u8>) -> Option<RevocationListView> {
    match x509::pem_blocks(pki::trimmed(pem_data)) {
        Err(_) => None,
        Ok(blocks) => match crl::crl_contents(blocks) {
            None => None,
            Some(der) => match x509::revocation_list(der) {
                Err(_) => None,
                Ok(list) => Some(list),
            },
        },
    }
}

/// Whether a revocation list is one that the authority with a name and a key issued, and is in
/// force at `now`: from its update on, and up to but not at the next one where it names one.
pub open spec fn in_force(
    list: RevocationListView,
    issuer_raw: Seq<u8>,
    key: Seq<u8>,
    now: i64,
) -> bool {
    &&& list.algorithms_agree
    &&& list.algorithm.bytes == OID_ECDSA_WITH_SHA256@
    &&& list.issuer_raw == issuer_raw
    &&& list.this_update <= now
    &&& list.next_update matches Some(next_update) ==> now < next_update
    &&& crypto::der_signature(list.signature) matches Some(signature) && crypto::p256_verifies(
        key,
        list.signed_bytes,
        signature,
    )
}

/// A revocation list is taken exactly when it is in force, and what is taken from it is every
/// certificate that it names.
pub proof fn lists_in_force_are_taken_whole(
    label: Seq<char>,
    pem_data: Seq<u8>,
    issuer_raw: Seq<u8>,
    key: Seq<u8>,
    now: i64,
)
    ensures
        crl::crl_outcome(label, pem_data, issuer_raw, key, now) is Ok <==> (list_in(
            pem_data,
        ) matches Some(list) && in_force(list, issuer_raw, key, now)),
        crl::crl_outcome(label, pem_data, issuer_raw, key, now) matches Ok(revoked) ==> revoked
            == crl::listed(list_in(pem_data)->0),
{
}

/// Both revocation lists of accepted evidence are in force: the root CA's is issued by the root
/// under the anchor, and the PCK CA's by the CA that issued the PCK leaf, under its own key.
pub proof fn accepted_revocation_lists_are_in_force(evidence: Evidence)
    requires
        evidence.outcome() is Ok,
    ensures
        list_in(vstd::utf8::encode_utf8(evidence.collateral.root_ca_crl)) matches Some(list)
            && in_force(
            list,
            evidence.chains().pck.certs.last().names.subject_raw,
            evidence.anchor,
            evidence.now,
        ),
        list_in(vstd::utf8::encode_utf8(evidence.collateral.pck_crl)) matches Some(list)
            && in_force(
            list,
            evidence.chains().pck.certs.first().names.issuer_raw,
            evidence.chains().pck_crl.certs.first().body.public_key,
            evidence.now,
        ),
{
}

/// Both documents of accepted evidence are signed, over their text as it stands, by the leaves of
/// their chains; they are in their validity and from rounds at or above the floor.
pub proof fn accepted_documents_are_signed_and_fresh(evidence: Evidence)
    requires
        evidence.outcome() is Ok,
    ensures
        ({
            let document = evidence.collateral.tcb_info;
            &&& crypto::is_hex(document.signature_hex)
            &&& crypto::p256_verifies(
                evidence.chains().tcb_info.certs.first().body.public_key,
                vstd::utf8::encode_utf8(document.body_json),
                crypto::unhex(document.signature_hex),
            )
            &&& document.body.id == "SGX"@
            &&& document.body.issue_date <= evidence.now < document.body.next_update
            &&& document.body.tcb_evaluation_data_number >= evidence.minimum
        }),
        ({
            let document = evidence.collateral.qe_identity;
            &&& crypto::is_hex(document.signature_hex)
            &&& crypto::p256_verifies(
                evidence.chains().qe_identity.certs.first().body.public_key,
                vstd::utf8::encode_utf8(document.body_json),
                crypto::unhex(document.signature_hex),
            )
            &&& document.body.issue_date <= evidence.now < document.body.next_update
            &&& document.body.tcb_evaluation_data_number >= evidence.minimum
            &&& tcb::qe_identity_fault(document.body, evidence.quote.signature.qe_report) is None
        }),
{
}

/// In accepted evidence the PCK key signs the QE report, the QE report commits to the attestation
/// key, the attestation key signs the header and report body, and the enclave is no debug enclave.
pub proof fn accepted_quotes_are_signed_for(evidence: Evidence)
    requires
        evidence.outcome() is Ok,
    ensures
        ({
            let signature = evidence.quote.signature;
            &&& crypto::p256_verifies(
                evidence.chains().pck.certs.first().body.public_key,
                signature.qe_report_raw,
                signature.qe_report_signature,
            )
            &&& verify::commits_to(
                signature.qe_report.sgx_report_data_bytes,
                crypto::sha256(signature.attestation_pub_key + signature.qe_auth_data),
            )
            &&& crypto::p256_verifies(
                verify::attestation_sec1(signature.attestation_pub_key),
                evidence.quote.signed_bytes,
                signature.isv_signature,
            )
        }),
        !report::debug_flag(evidence.quote.report_body.attributes),
{
}

/// The standing of accepted evidence is that of the first level, in document order, that the
/// platform in the PCK leaf meets, and the TCB info is for that platform's family and PCE.
pub proof fn accepted_standing_is_that_of_the_first_level_met(evidence: Evidence)
    requires
        evidence.outcome() is Ok,
    ensures
        platform::platform_outcome(evidence.chains().pck) matches Ok(found) && {
            let info = evidence.collateral.tcb_info.body;
            &&& crypto::unhex(info.fmspc) == found.fmspc
            &&& crypto::unhex(info.pce_id) == found.pce_id
            &&& exists|i: int|
                tcb::first_satisfied(info.tcb_levels, found, i) && tcb::level_standing(
                    info.tcb_levels[i],
                ) == evidence.outcome()
        },
{
    let info = evidence.collateral.tcb_info.body;
    let found = platform::platform_outcome(evidence.chains().pck)->Ok_0;
    let i = choose|i: int| tcb::first_satisfied(info.tcb_levels, found, i);
    assert(tcb::selected_level(info.tcb_levels, found) is Some);
    assert(tcb::first_satisfied(info.tcb_levels, found, i));
    assert(tcb::level_standing(info.tcb_levels[i]) == evidence.outcome());
}

/// The platform family that selects a quote's collateral is the one that accepted collateral is
/// for.
pub proof fn accepted_collateral_is_for_the_selected_family(
    evidence: Evidence,
    fmspc: Seq<u8>,
    ca: PckCa,
)
    requires
        evidence.outcome() is Ok,
        platform::params_outcome(evidence.quote.signature.cert_data) == Ok::<
            (Seq<u8>, PckCa),
            Rejection,
        >((fmspc, ca)),
    ensures
        crypto::unhex(evidence.collateral.tcb_info.body.fmspc) == fmspc,
{
    accepted_standing_is_that_of_the_first_level_met(evidence);
}

/// Whether a document's text is signed by the leaf of a chain.
pub open spec fn signed_by_leaf<V>(document: SignedView<V>, chain: ChainView) -> bool {
    let key = chain.certs.first().body.public_key;
    &&& crypto::p256_point(key)
    &&& crypto::is_hex(document.signature_hex)
    &&& crypto::fixed_signature(crypto::unhex(document.signature_hex))
    &&& crypto::p256_verifies(
        key,
        vstd::utf8::encode_utf8(document.body_json),
        crypto::unhex(document.signature_hex),
    )
}

/// Whether the chains of evidence lead to the anchor, go by the right names and hold no revoked
/// certificate.
pub open spec fn genuine_chains(evidence: Evidence) -> bool {
    let chains = evidence.chains();
    &&& verify::chains_outcome(evidence.collateral, evidence.quote.signature.cert_data) is Ok
    &&& leads_to(chains.tcb_info, evidence.anchor, evidence.now)
    &&& leads_to(chains.pck_crl, evidence.anchor, evidence.now)
    &&& leads_to(chains.qe_identity, evidence.anchor, evidence.now)
    &&& leads_to(chains.pck, evidence.anchor, evidence.now)
    &&& chains.tcb_info.certs.first().names.common_name() == Some(INTEL_TCB_SIGNING_CN@)
    &&& chains.qe_identity.certs.first().names.common_name() == Some(INTEL_TCB_SIGNING_CN@)
    &&& chains.pck_crl.certs.first().names.subject_raw
        == chains.pck.certs.first().names.issuer_raw
    &&& verify::revoked_outcome(
        chains,
        evidence.collateral,
        evidence.anchor,
        evidence.now,
    ) matches Ok(revoked) && forall|chain: int, cert: int|
        0 <= chain < 4 && 0 <= cert < chains.in_order()[chain].certs.len() ==> !crl::is_revoked(
            #[trigger] chains.in_order()[chain].certs[cert],
            revoked,
        )
}

/// Whether the documents of evidence are signed, in their validity, from rounds at or above the
/// floor, for SGX, and of the supported format.
pub open spec fn genuine_documents(evidence: Evidence) -> bool {
    let tcb_info = evidence.collateral.tcb_info;
    let qe_identity = evidence.collateral.qe_identity;
    &&& evidence.collateral.version == 3
    &&& tcb_info.body.version == 3 && tcb_info.body.tcb_type == 0 && tcb_info.body.id == "SGX"@
    &&& qe_identity.body.version == 2
    &&& signed_by_leaf(tcb_info, evidence.chains().tcb_info)
    &&& signed_by_leaf(qe_identity, evidence.chains().qe_identity)
    &&& tcb_info.body.issue_date <= evidence.now < tcb_info.body.next_update
    &&& qe_identity.body.issue_date <= evidence.now < qe_identity.body.next_update
    &&& tcb_info.body.tcb_evaluation_data_number >= evidence.minimum
    &&& qe_identity.body.tcb_evaluation_data_number >= evidence.minimum
}

/// Whether the quote of evidence is pinned, vouched for by the platform's PCK key through its QE,
/// and of no debug enclave.
pub open spec fn genuine_quote(evidence: Evidence) -> bool {
    let quote = evidence.quote;
    let signature = quote.signature;
    let pck_key = evidence.chains().pck.certs.first().body.public_key;
    let attestation_key = verify::attestation_sec1(signature.attestation_pub_key);
    &&& quote.header.qe_vendor_id == INTEL_QE_VENDOR_ID@
    &&& quote.report_body.mrenclave == evidence.expected_mrenclave
    &&& tcb::qe_identity_fault(evidence.collateral.qe_identity.body, signature.qe_report) is None
    &&& crypto::p256_point(pck_key) && crypto::fixed_signature(signature.qe_report_signature)
    &&& crypto::p256_verifies(pck_key, signature.qe_report_raw, signature.qe_report_signature)
    &&& verify::commits_to(
        signature.qe_report.sgx_report_data_bytes,
        crypto::sha256(signature.attestation_pub_key + signature.qe_auth_data),
    )
    &&& crypto::p256_point(attestation_key) && crypto::fixed_signature(signature.isv_signature)
    &&& crypto::p256_verifies(attestation_key, quote.signed_bytes, signature.isv_signature)
    &&& !report::debug_flag(quote.report_body.attributes)
}

/// Whether the platform of evidence has an accepted standing under the TCB info.
pub open spec fn accepted_platform(evidence: Evidence) -> bool {
    platform::platform_outcome(evidence.chains().pck) matches Ok(found) && tcb::standing_outcome(
        evidence.collateral.tcb_info.body,
        found,
    ) is Ok
}

/// Evidence is accepted exactly when its chains, its documents and its quote are genuine and the
/// platform has an accepted standing: no genuine evidence is turned away, and no other accepted.
pub proof fn exactly_the_genuine_is_accepted(evidence: Evidence)
    ensures
        evidence.outcome() is Ok <==> genuine_chains(evidence) && genuine_documents(evidence)
            && genuine_quote(evidence) && accepted_platform(evidence),
{
    let chains = evidence.chains();
    validation_means_leading_to_the_anchor(chains.tcb_info, evidence.anchor, evidence.now);
    validation_means_leading_to_the_anchor(chains.pck_crl, evidence.anchor, evidence.now);
    validation_means_leading_to_the_anchor(chains.qe_identity, evidence.anchor, evidence.now);
    validation_means_leading_to_the_anchor(chains.pck, evidence.anchor, evidence.now);
    if evidence.outcome() is Ok {
        assert forall|chain: int, cert: int|
            0 <= chain < 4 && 0 <= cert < chains.in_order()[chain].certs.len() implies !(
        crl::is_revoked(
            #[trigger] chains.in_order()[chain].certs[cert],
            verify::revoked_outcome(
                chains,
                evidence.collateral,
                evidence.anchor,
                evidence.now,
            )->Ok_0,
        )) by {
            accepted_certificates_are_not_revoked(evidence, chain, cert);
        }
    }
    if genuine_chains(evidence) {
        let revoked = verify::revoked_outcome(
            chains,
            evidence.collateral,
            evidence.anchor,
            evidence.now,
        )->Ok_0;
        let faults = crl::revoked_chains(chains.in_order(), revoked);
        assert forall|k: int| 0 <= k < 4 implies #[trigger] faults(k) is None by {
            let certs = chains.in_order()[k].certs;
            let of_chain = crl::revoked_faults(chains.in_order()[k], revoked);
            error::lemma_no_first_fault(certs.len(), of_chain);
            assert forall|i: int| 0 <= i < certs.len() implies #[trigger] of_chain(i) is None by {
                assert(!crl::is_revoked(chains.in_order()[k].certs[i], revoked));
            }
        }
        error::lemma_no_first_fault(4, faults);
    }
}

/// A wrong measurement is reported as such whatever else is wrong, once the QE is Intel's.
pub proof fn wrong_measurements_are_reported_first(evidence: Evidence)
    requires
        evidence.quote.header.qe_vendor_id == INTEL_QE_VENDOR_ID@,
        evidence.quote.report_body.mrenclave != evidence.expected_mrenclave,
    ensures
        evidence.outcome() matches Err(fault) && fault.category
            == ErrorCategory::MrenclaveMismatch,
{
}

/// A document format that is not supported is reported before anything in the documents is looked
/// at.
pub proof fn format_gates_precede_document_processing(evidence: Evidence)
    requires
        verify::identity_fault(evidence.quote, evidence.expected_mrenclave) is None,
        verify::format_fault(evidence.collateral) is Some,
    ensures
        evidence.outcome() matches Err(fault) && Some(fault) == verify::format_fault(
            evidence.collateral,
        ) && fault.category == ErrorCategory::CollateralParse,
{
}

/// A debug enclave is reported as such only where every signature and identity check passes.
pub proof fn the_debug_gate_comes_last(evidence: Evidence)
    requires
        verify::identity_fault(evidence.quote, evidence.expected_mrenclave) is None,
        verify::format_fault(evidence.collateral) is None,
        verify::chains_outcome(evidence.collateral, evidence.quote.signature.cert_data) is Ok,
        verify::chains_fault(evidence.chains(), evidence.anchor, evidence.now) is None,
        verify::revocation_fault(
            evidence.chains(),
            evidence.collateral,
            evidence.anchor,
            evidence.now,
        ) is None,
        verify::tcb_info_fault(
            evidence.chains().tcb_info,
            evidence.collateral,
            evidence.now,
            evidence.minimum,
        ) is None,
        verify::qe_document_fault(
            evidence.chains().qe_identity,
            evidence.collateral,
            evidence.quote.signature.qe_report,
            evidence.now,
            evidence.minimum,
        ) is None,
        verify::qe_report_fault(evidence.chains().pck, evidence.quote.signature) is None,
        verify::binding_fault(evidence.quote.signature) is None,
        verify::quote_signature_fault(evidence.quote) is None,
        report::debug_flag(evidence.quote.report_body.attributes),
    ensures
        evidence.outcome() matches Err(fault) && fault.category
            == ErrorCategory::DebugEnclaveRejected,
{
}

/// Lowering the evaluation-round floor keeps every acceptance, with its standing.
pub proof fn a_lower_floor_accepts_as_much(evidence: Evidence, lower: u32)
    requires
        evidence.outcome() is Ok,
        lower <= evidence.minimum,
    ensures
        (Evidence { minimum: lower, ..evidence }).outcome() == evidence.outcome(),
{
}

/// The floor decides nothing but freshness: evidence that is accepted at floor zero is accepted at
/// another floor exactly when both documents come from rounds at or above it, and is otherwise
/// rejected as stale: as a stale TCB info where that is from a lower round, else as a stale QE
/// identity.
pub proof fn the_floor_decides_by_the_rounds_alone(evidence: Evidence, floor: u32)
    requires
        (Evidence { minimum: 0, ..evidence }).outcome() is Ok,
    ensures
        (Evidence { minimum: floor, ..evidence }).outcome() is Ok <==> (
        evidence.collateral.tcb_info.body.tcb_evaluation_data_number >= floor
            && evidence.collateral.qe_identity.body.tcb_evaluation_data_number >= floor),
        (Evidence { minimum: floor, ..evidence }).outcome() matches Err(fault) ==> fault.category
            == (if evidence.collateral.tcb_info.body.tcb_evaluation_data_number < floor {
            ErrorCategory::TcbInfoStale
        } else {
            ErrorCategory::QeIdentityStale
        }),
{
}

/// A policy that tolerates both degraded standings reproduces plain verification.
pub proof fn a_permissive_policy_changes_nothing(evidence: Evidence, policy: TcbPolicy)
    requires
        policy.accept_sw_hardening_needed,
        policy.accept_configuration_and_sw_hardening_needed,
    ensures
        verify::judged(evidence.outcome(), policy) == evidence.outcome(),
{
}

/// A policy only ever narrows: what it accepts, plain verification accepts with the same standing.
pub proof fn a_policy_only_narrows(evidence: Evidence, policy: TcbPolicy)
    ensures
        verify::judged(evidence.outcome(), policy) is Ok ==> verify::judged(
            evidence.outcome(),
            policy,
        ) == evidence.outcome(),
        evidence.outcome() is Err ==> verify::judged(evidence.outcome(), policy)
            == evidence.outcome(),
{
}

/// The platform of accepted evidence meets a level of the TCB info in each of its sixteen components
/// and in the PCE's SVN, falls short of every level before it, and has the standing that this
/// level's status says.
#[verifier::rlimit(40)]
pub proof fn accepted_platforms_meet_every_component(evidence: Evidence) -> (i: int)
    requires
        evidence.outcome() is Ok,
    ensures
        platform::platform_outcome(evidence.chains().pck) matches Ok(found) && {
            let levels = evidence.collateral.tcb_info.body.tcb_levels;
            &&& 0 <= i < levels.len()
            &&& levels[i].component_svns.len() == 16
            &&& forall|k: int|
                0 <= k < 16 ==> #[trigger] levels[i].component_svns[k] <= found.comp_svns[k]
            &&& levels[i].pcesvn <= found.pcesvn
            &&& forall|j: int|
                #![trigger levels[j]]
                0 <= j < i && levels[j].component_svns.len() == 16 && levels[j].pcesvn
                    <= found.pcesvn ==> exists|k: int|
                    0 <= k < 16 && found.comp_svns[k] < #[trigger] levels[j].component_svns[k]
            &&& match evidence.outcome()->Ok_0 {
                StandingView::UpToDate => levels[i].tcb_status == "UpToDate"@,
                StandingView::SWHardeningNeeded { advisory_ids } => levels[i].tcb_status
                    == "SWHardeningNeeded"@ && advisory_ids == levels[i].advisory_ids,
                StandingView::ConfigurationAndSWHardeningNeeded {
                    advisory_ids,
                } => levels[i].tcb_status == "ConfigurationAndSWHardeningNeeded"@ && advisory_ids
                    == levels[i].advisory_ids,
            }
        },
{
    accepted_standing_is_that_of_the_first_level_met(evidence);
    let levels = evidence.collateral.tcb_info.body.tcb_levels;
    let found = platform::platform_outcome(evidence.chains().pck)->Ok_0;
    let i = choose|i: int|
        tcb::first_satisfied(levels, found, i) && tcb::level_standing(levels[i])
            == evidence.outcome();
    assert(tcb::first_satisfied(levels, found, i));
    assert forall|j: int|
        #![trigger levels[j]]
        0 <= j < i && levels[j].component_svns.len() == 16 && levels[j].pcesvn
            <= found.pcesvn implies exists|k: int|
        0 <= k < 16 && found.comp_svns[k] < #[trigger] levels[j].component_svns[k] by {
        assert(!tcb::satisfied(levels[j], found));
        let k = choose|k: int|
            0 <= k < 16 && !(found.comp_svns[k] >= #[trigger] levels[j].component_svns[k]);
        assert(found.comp_svns[k] < levels[j].component_svns[k]);
    }
    tcb::three_statuses_are_accepted_and_told_apart(levels[i]);
    i
}

/// The QE behind accepted evidence is the one that the QE identity describes, and the highest level
/// that it reaches is up to date.
pub proof fn accepted_qes_sit_at_an_up_to_date_level(evidence: Evidence) -> (i: int)
    requires
        evidence.outcome() is Ok,
    ensures
        ({
            let identity = evidence.collateral.qe_identity.body;
            let levels = identity.tcb_levels;
            let report = evidence.quote.signature.qe_report;
            &&& identity.id == "QE"@
            &&& crypto::unhex(identity.mrsigner) == report.mrsigner
            &&& identity.isvprodid == report.isv_prod_id
            &&& forall|k: int|
                #![trigger report.misc_select[k]]
                0 <= k < 4 ==> report.misc_select[k] & crypto::unhex(identity.miscselect_mask)[k]
                    == crypto::unhex(identity.miscselect)[k] & crypto::unhex(
                    identity.miscselect_mask,
                )[k]
            &&& forall|k: int|
                #![trigger report.attributes[k]]
                0 <= k < 16 ==> report.attributes[k] & crypto::unhex(identity.attributes_mask)[k]
                    == crypto::unhex(identity.attributes)[k] & crypto::unhex(
                    identity.attributes_mask,
                )[k]
            &&& 0 <= i < levels.len()
            &&& levels[i].isvsvn <= report.isv_svn
            &&& levels[i].tcb_status == "UpToDate"@
            &&& forall|j: int|
                0 <= j < levels.len() && (#[trigger] levels[j]).isvsvn <= report.isv_svn
                    ==> levels[j].isvsvn < levels[i].isvsvn || (levels[j].isvsvn
                    == levels[i].isvsvn && j <= i)
        }),
{
    accepted_documents_are_signed_and_fresh(evidence);
    let identity = evidence.collateral.qe_identity.body;
    let levels = identity.tcb_levels;
    let report = evidence.quote.signature.qe_report;
    assert(tcb::qe_identity_fault(identity, report) is None);
    assert(tcb::qe_level_fault(levels, report.isv_svn) is None);
    tcb::only_an_up_to_date_highest_level_passes(levels, report.isv_svn);
    choose|i: int|
        #![trigger levels[i]]
        {
            &&& 0 <= i < levels.len()
            &&& levels[i].isvsvn <= report.isv_svn
            &&& levels[i].tcb_status == "UpToDate"@
            &&& forall|j: int|
                0 <= j < levels.len() && (#[trigger] levels[j]).isvsvn <= report.isv_svn
                    ==> levels[j].isvsvn < levels[i].isvsvn || (levels[j].isvsvn
                    == levels[i].isvsvn && j <= i)
        }
}

/// Whether a revocation list names a certificate: under the certificate's own issuer, by the number
/// of its serial.
pub open spec fn names(list: RevocationListView, cert: CertificateView) -> bool {
    exists|k: int|
        0 <= k < list.revoked.len() && list.issuer_raw == cert.names.issuer_raw
            && crypto::big_endian(#[trigger] list.revoked[k]) == crypto::big_endian(
            cert.body.serial,
        )
}

/// No certificate in any of the four chains of accepted evidence has the issuer of either revocation
/// list and a serial that is the same number as any entry of that list.
#[verifier::rlimit(40)]
pub proof fn no_entry_of_either_list_names_an_accepted_certificate(
    evidence: Evidence,
    list: RevocationListView,
    k: int,
    chain: ChainView,
    i: int,
)
    requires
        evidence.outcome() is Ok,
        list_in(vstd::utf8::encode_utf8(evidence.collateral.root_ca_crl)) == Some(list) || list_in(
            vstd::utf8::encode_utf8(evidence.collateral.pck_crl),
        ) == Some(list),
        0 <= k < list.revoked.len(),
        chain == evidence.chains().tcb_info || chain == evidence.chains().pck_crl || chain
            == evidence.chains().qe_identity || chain == evidence.chains().pck,
        0 <= i < chain.certs.len(),
    ensures
        list.issuer_raw != chain.certs[i].names.issuer_raw || crypto::big_endian(list.revoked[k])
            != crypto::big_endian(chain.certs[i].body.serial),
{
    let chains = evidence.chains();
    let order = chains.in_order();
    let c: int = if chain == chains.tcb_info {
        0
    } else if chain == chains.pck_crl {
        1
    } else if chain == chains.qe_identity {
        2
    } else {
        3
    };
    assert(order[c] == chain);
    accepted_certificates_are_not_revoked(evidence, c, i);
    lemma_named_means_revoked(evidence, list, k, chain.certs[i]);
}

proof fn lemma_named_means_revoked(
    evidence: Evidence,
    list: RevocationListView,
    k: int,
    cert: CertificateView,
)
    requires
        list_in(vstd::utf8::encode_utf8(evidence.collateral.root_ca_crl)) == Some(list) || list_in(
            vstd::utf8::encode_utf8(evidence.collateral.pck_crl),
        ) == Some(list),
        0 <= k < list.revoked.len(),
    ensures
        verify::revoked_outcome(
            evidence.chains(),
            evidence.collateral,
            evidence.anchor,
            evidence.now,
        ) matches Ok(revoked) ==> list.issuer_raw == cert.names.issuer_raw && crypto::big_endian(
            list.revoked[k],
        ) == crypto::big_endian(cert.body.serial) ==> crl::is_revoked(cert, revoked),
{
    let outcome = verify::revoked_outcome(
        evidence.chains(),
        evidence.collateral,
        evidence.anchor,
        evidence.now,
    );
    if outcome is Ok && list.issuer_raw == cert.names.issuer_raw && crypto::big_endian(
        list.revoked[k],
    ) == crypto::big_endian(cert.body.serial) {
        lemma_both_lists_are_taken(
            evidence.chains(),
            evidence.collateral,
            evidence.anchor,
            evidence.now,
            outcome->Ok_0,
            list,
            cert,
            k,
        );
    }
}

proof fn lemma_list_is_taken(
    label: Seq<char>,
    pem_data: Seq<u8>,
    issuer_raw: Seq<u8>,
    key: Seq<u8>,
    now: i64,
    revoked: Seq<RevokedView>,
)
    requires
        crl::crl_outcome(label, pem_data, issuer_raw, key, now) == Ok::<
            Seq<RevokedView>,
            Rejection,
        >(revoked),
    ensures
        list_in(pem_data) matches Some(list) && {
            &&& revoked.len() == list.revoked.len()
            &&& forall|k: int|
                #![trigger revoked[k]]
                0 <= k < list.revoked.len() ==> {
                    &&& revoked[k].issuer_raw == list.issuer_raw
                    &&& crypto::big_endian(revoked[k].serial) == crypto::big_endian(
                        list.revoked[k],
                    )
                    &&& revoked[k].serial.len() >= 1
                    &&& revoked[k].serial[0] != 0 || revoked[k].serial.len() == 1
                }
        },
{
    let list = list_in(pem_data)->0;
    crl::every_entry_of_an_accepted_list_is_taken(label, list, issuer_raw, key, now);
}

proof fn lemma_both_lists_are_taken(
    chains: ChainsView,
    collateral: CollateralView,
    anchor: Seq<u8>,
    now: i64,
    revoked: Seq<RevokedView>,
    list: RevocationListView,
    cert: CertificateView,
    k: int,
)
    requires
        verify::revoked_outcome(chains, collateral, anchor, now) == Ok::<
            Seq<RevokedView>,
            Rejection,
        >(revoked),
        list_in(vstd::utf8::encode_utf8(collateral.root_ca_crl)) == Some(list) || list_in(
            vstd::utf8::encode_utf8(collateral.pck_crl),
        ) == Some(list),
        0 <= k < list.revoked.len(),
        list.issuer_raw == cert.names.issuer_raw,
        crypto::big_endian(list.revoked[k]) == crypto::big_endian(cert.body.serial),
    ensures
        crl::is_revoked(cert, revoked),
{
    let root_pem = vstd::utf8::encode_utf8(collateral.root_ca_crl);
    let pck_pem = vstd::utf8::encode_utf8(collateral.pck_crl);
    let root_name = chains.pck.certs.last().names.subject_raw;
    let ca_name = chains.pck.certs.first().names.issuer_raw;
    let ca_key = chains.pck_crl.certs.first().body.public_key;
    let by_root = crl::crl_outcome("root CA CRL"@, root_pem, root_name, anchor, now)->Ok_0;
    let by_ca = crl::crl_outcome("PCK CRL"@, pck_pem, ca_name, ca_key, now)->Ok_0;
    lemma_list_is_taken("root CA CRL"@, root_pem, root_name, anchor, now, by_root);
    lemma_list_is_taken("PCK CRL"@, pck_pem, ca_name, ca_key, now, by_ca);
    assert(revoked == by_root + by_ca);
    assert forall|m: int| #![trigger revoked[m]] 0 <= m < revoked.len() implies {
        &&& revoked[m].serial.len() >= 1
        &&& revoked[m].serial[0] != 0 || revoked[m].serial.len() == 1
    } by {
        if m < by_root.len() {
            assert(revoked[m] == by_root[m]);
        } else {
            assert(revoked[m] == by_ca[m - by_root.len()]);
        }
    }
    crl::a_certificate_is_revoked_by_issuer_and_number(cert, revoked);
    if Some(list) == list_in(root_pem) {
        assert(revoked[k] == by_root[k]);
    } else {
        assert(revoked[by_root.len() + k] == by_ca[k]);
    }
}

/// Evidence with a certificate that a list in force names is rejected, wherever the certificate
/// stands in its chains and wherever its entry stands in the list.
pub proof fn a_named_certificate_is_never_accepted(
    evidence: Evidence,
    list: RevocationListView,
    chain: ChainView,
    i: int,
)
    requires
        list_in(vstd::utf8::encode_utf8(evidence.collateral.root_ca_crl)) == Some(list) || list_in(
            vstd::utf8::encode_utf8(evidence.collateral.pck_crl),
        ) == Some(list),
        chain == evidence.chains().tcb_info || chain == evidence.chains().pck_crl || chain
            == evidence.chains().qe_identity || chain == evidence.chains().pck,
        0 <= i < chain.certs.len(),
        names(list, chain.certs[i]),
    ensures
        evidence.outcome() is Err,
{
    if evidence.outcome() is Ok {
        let cert = chain.certs[i];
        let k = choose|k: int|
            0 <= k < list.revoked.len() && list.issuer_raw == cert.names.issuer_raw
                && crypto::big_endian(#[trigger] list.revoked[k]) == crypto::big_endian(
                cert.body.serial,
            );
        no_entry_of_either_list_names_an_accepted_certificate(evidence, list, k, chain, i);
    }
}

/// In accepted evidence the QE is Intel's by its vendor identifier, the documents are signed under
/// Intel's name for their signer, the QE report's data are the digest of the attestation key and the
/// authentication data followed by zeros, the attestation key signs the quote as an uncompressed
/// point, and the debug bit is clear.
pub proof fn accepted_evidence_is_bound_byte_by_byte(evidence: Evidence)
    requires
        evidence.outcome() is Ok,
        evidence.quote.report_body.attributes.len() == 16,
    ensures
        evidence.quote.header.qe_vendor_id == seq![
            0x93u8, 0x9a, 0x72, 0x33, 0xf7, 0x9c, 0x4c, 0xa9, 0x94, 0x0a, 0x0d, 0xb3, 0x95, 0x7f,
            0x06, 0x07,
        ],
        ({
            let signers = evidence.chains().tcb_info.certs.first().names.common_names;
            signers.len() > 0 && signers[0] == Some("Intel SGX TCB Signing"@)
        }),
        ({
            let signers = evidence.chains().qe_identity.certs.first().names.common_names;
            signers.len() > 0 && signers[0] == Some("Intel SGX TCB Signing"@)
        }),
        ({
            let signature = evidence.quote.signature;
            let data = signature.qe_report.sgx_report_data_bytes;
            &&& data.subrange(0, 32) == crypto::sha256(
                signature.attestation_pub_key + signature.qe_auth_data,
            )
            &&& forall|i: int| 32 <= i < 64 ==> #[trigger] data[i] == 0
            &&& crypto::p256_verifies(
                seq![4u8] + signature.attestation_pub_key,
                evidence.quote.signed_bytes,
                signature.isv_signature,
            )
            &&& crypto::p256_verifies(
                evidence.chains().pck.certs.first().body.public_key,
                signature.qe_report_raw,
                signature.qe_report_signature,
            )
        }),
        evidence.quote.report_body.attributes[0] & 2 == 0,
{
    accepted_quotes_are_signed_for(evidence);
    accepted_chains_lead_to_the_anchor(evidence);
    report::debug_is_the_second_bit_of_the_first_byte(evidence.quote.report_body.attributes);
    assert(INTEL_QE_VENDOR_ID@ =~= seq![
        0x93u8, 0x9a, 0x72, 0x33, 0xf7, 0x9c, 0x4c, 0xa9, 0x94, 0x0a, 0x0d, 0xb3, 0x95, 0x7f,
        0x06, 0x07,
    ]);
}

/// The four chains of evidence are read from the collateral's three issuer chains and from the
/// quote's certification data, each under its own kind.
pub proof fn each_chain_comes_from_its_own_place(evidence: Evidence)
    requires
        verify::chains_outcome(evidence.collateral, evidence.quote.signature.cert_data) is Ok,
    ensures
        ({
            let collateral = evidence.collateral;
            let chains = evidence.chains();
            &&& pki::chain_ders(
                pki::ChainKind::TcbInfoIssuer,
                vstd::utf8::encode_utf8(collateral.tcb_info_issuer_chain),
            ) matches Ok(ders) && pki::parsed_chain(ders) == Ok::<ChainView, Rejection>(
                chains.tcb_info,
            )
            &&& pki::chain_ders(
                pki::ChainKind::PckCrlIssuer,
                vstd::utf8::encode_utf8(collateral.pck_crl_issuer_chain),
            ) matches Ok(ders) && pki::parsed_chain(ders) == Ok::<ChainView, Rejection>(
                chains.pck_crl,
            )
            &&& pki::chain_ders(
                pki::ChainKind::QeIdentityIssuer,
                vstd::utf8::encode_utf8(collateral.qe_identity_issuer_chain),
            ) matches Ok(ders) && pki::parsed_chain(ders) == Ok::<ChainView, Rejection>(
                chains.qe_identity,
            )
            &&& pki::chain_ders(
                pki::ChainKind::QuotePck,
                evidence.quote.signature.cert_data,
            ) matches Ok(ders) && pki::parsed_chain(ders) == Ok::<ChainView, Rejection>(chains.pck)
        }),
{
}

/// Before any chain is looked at, a quote of another vendor's QE, one with another measurement and
/// unsupported formats are reported, in this order.
pub proof fn identity_and_format_are_reported_first(evidence: Evidence)
    ensures
        ({
            let intels = evidence.quote.header.qe_vendor_id == INTEL_QE_VENDOR_ID@;
            let pinned = evidence.quote.report_body.mrenclave == evidence.expected_mrenclave;
            let formatted = evidence.collateral.version == 3
                && evidence.collateral.tcb_info.body.version == 3
                && evidence.collateral.qe_identity.body.version == 2
                && evidence.collateral.tcb_info.body.tcb_type == 0;
            &&& !intels ==> (evidence.outcome() matches Err(fault) && fault.category
                == ErrorCategory::QeVendorInvalid)
            &&& intels && !pinned ==> (evidence.outcome() matches Err(fault) && fault.category
                == ErrorCategory::MrenclaveMismatch)
            &&& intels && pinned && !formatted ==> (evidence.outcome() matches Err(fault)
                && fault.category == ErrorCategory::CollateralParse)
        }),
{
}

/// Once identity and format are right, the chains come next: one that cannot be read, one that does
/// not lead to the anchor, a signer that is not Intel's, then a PCK CRL of another CA.
pub proof fn chains_are_checked_before_revocation(evidence: Evidence)
    requires
        evidence.quote.header.qe_vendor_id == INTEL_QE_VENDOR_ID@,
        evidence.quote.report_body.mrenclave == evidence.expected_mrenclave,
        verify::format_fault(evidence.collateral) is None,
    ensures
        ({
            let read = verify::chains_outcome(
                evidence.collateral,
                evidence.quote.signature.cert_data,
            );
            let chains = evidence.chains();
            let (anchor, now) = (evidence.anchor, evidence.now);
            let first = pki::path_fault(chains.tcb_info, anchor, now);
            let second = pki::path_fault(chains.pck_crl, anchor, now);
            let third = pki::path_fault(chains.qe_identity, anchor, now);
            let fourth = pki::path_fault(chains.pck, anchor, now);
            let paths = first is None && second is None && third is None && fourth is None;
            let tcb_signer = chains.tcb_info.certs.first().names.common_name();
            let qe_signer = chains.qe_identity.certs.first().names.common_name();
            let intel = Some("Intel SGX TCB Signing"@);
            let same_ca = chains.pck_crl.certs.first().names.subject_raw
                == chains.pck.certs.first().names.issuer_raw;
            &&& read matches Err(fault) ==> evidence.outcome() == Err::<StandingView, Rejection>(
                fault,
            )
            &&& read is Ok ==> {
                &&& first matches Some(fault) ==> evidence.outcome() == Err::<
                    StandingView,
                    Rejection,
                >(fault)
                &&& first is None ==> (second matches Some(fault) ==> evidence.outcome() == Err::<
                    StandingView,
                    Rejection,
                >(fault))
                &&& first is None && second is None ==> (third matches Some(fault)
                    ==> evidence.outcome() == Err::<StandingView, Rejection>(fault))
                &&& first is None && second is None && third is None ==> (
                fourth matches Some(fault) ==> evidence.outcome() == Err::<
                    StandingView,
                    Rejection,
                >(fault))
                &&& paths && tcb_signer is Some && tcb_signer != intel ==> (
                evidence.outcome() matches Err(fault) && fault.category
                    == ErrorCategory::RootCaUntrusted)
                &&& paths && tcb_signer == intel && qe_signer is Some && qe_signer != intel ==> (
                evidence.outcome() matches Err(fault) && fault.category
                    == ErrorCategory::RootCaUntrusted)
                &&& paths && tcb_signer == intel && qe_signer == intel && !same_ca ==> (
                evidence.outcome() matches Err(fault) && fault.category
                    == ErrorCategory::CrlInvalid)
            }
        }),
{
}

/// Once the chains are right, revocation comes next, then the TCB info: its signature, its subject,
/// then its freshness.
pub proof fn the_tcb_info_is_checked_after_revocation(evidence: Evidence)
    requires
        evidence.quote.header.qe_vendor_id == INTEL_QE_VENDOR_ID@,
        evidence.quote.report_body.mrenclave == evidence.expected_mrenclave,
        verify::format_fault(evidence.collateral) is None,
        verify::chains_outcome(evidence.collateral, evidence.quote.signature.cert_data) is Ok,
        verify::chains_fault(evidence.chains(), evidence.anchor, evidence.now) is None,
        crypto::p256_point(evidence.chains().tcb_info.certs.first().body.public_key),
    ensures
        ({
            let chains = evidence.chains();
            let lists = verify::revoked_outcome(
                chains,
                evidence.collateral,
                evidence.anchor,
                evidence.now,
            );
            let clear = verify::revocation_fault(
                chains,
                evidence.collateral,
                evidence.anchor,
                evidence.now,
            ) is None;
            let document = evidence.collateral.tcb_info;
            let signed = crypto::is_hex(document.signature_hex) && crypto::fixed_signature(
                crypto::unhex(document.signature_hex),
            ) && crypto::p256_verifies(
                chains.tcb_info.certs.first().body.public_key,
                vstd::utf8::encode_utf8(document.body_json),
                crypto::unhex(document.signature_hex),
            );
            let for_sgx = document.body.id == "SGX"@;
            let fresh = document.body.issue_date <= evidence.now < document.body.next_update
                && document.body.tcb_evaluation_data_number >= evidence.minimum;
            &&& lists matches Err(fault) ==> evidence.outcome() == Err::<StandingView, Rejection>(
                fault,
            )
            &&& clear && !signed ==> (evidence.outcome() matches Err(fault) && fault.category
                == ErrorCategory::TcbInfoSignatureInvalid)
            &&& clear && signed && !for_sgx ==> (evidence.outcome() matches Err(fault)
                && fault.category == ErrorCategory::CollateralParse)
            &&& clear && signed && for_sgx && !fresh ==> (evidence.outcome() matches Err(fault)
                && fault.category == ErrorCategory::TcbInfoStale)
        }),
{
}

/// Once the TCB info is right, the QE identity comes next: its signature, its freshness, then the
/// QE against it.
pub proof fn the_qe_identity_is_checked_after_the_tcb_info(evidence: Evidence)
    requires
        evidence.quote.header.qe_vendor_id == INTEL_QE_VENDOR_ID@,
        evidence.quote.report_body.mrenclave == evidence.expected_mrenclave,
        verify::format_fault(evidence.collateral) is None,
        verify::chains_outcome(evidence.collateral, evidence.quote.signature.cert_data) is Ok,
        verify::chains_fault(evidence.chains(), evidence.anchor, evidence.now) is None,
        verify::revocation_fault(
            evidence.chains(),
            evidence.collateral,
            evidence.anchor,
            evidence.now,
        ) is None,
        verify::tcb_info_fault(
            evidence.chains().tcb_info,
            evidence.collateral,
            evidence.now,
            evidence.minimum,
        ) is None,
        crypto::p256_point(evidence.chains().qe_identity.certs.first().body.public_key),
    ensures
        ({
            let document = evidence.collateral.qe_identity;
            let signed = crypto::is_hex(document.signature_hex) && crypto::fixed_signature(
                crypto::unhex(document.signature_hex),
            ) && crypto::p256_verifies(
                evidence.chains().qe_identity.certs.first().body.public_key,
                vstd::utf8::encode_utf8(document.body_json),
                crypto::unhex(document.signature_hex),
            );
            let fresh = document.body.issue_date <= evidence.now < document.body.next_update
                && document.body.tcb_evaluation_data_number >= evidence.minimum;
            let matching = tcb::qe_identity_fault(
                document.body,
                evidence.quote.signature.qe_report,
            );
            &&& !signed ==> (evidence.outcome() matches Err(fault) && fault.category
                == ErrorCategory::QeIdentitySignatureInvalid)
            &&& signed && !fresh ==> (evidence.outcome() matches Err(fault) && fault.category
                == ErrorCategory::QeIdentityStale)
            &&& signed && fresh ==> (matching matches Some(fault) ==> evidence.outcome() == Err::<
                StandingView,
                Rejection,
            >(fault))
        }),
{
}

/// Once the documents and the QE are right, the quote's own signatures come next: the QE report's,
/// the commitment to the attestation key, the quote's, then the debug bit, and last the platform.
pub proof fn the_quotes_signatures_are_checked_last(evidence: Evidence)
    requires
        evidence.quote.header.qe_vendor_id == INTEL_QE_VENDOR_ID@,
        evidence.quote.report_body.mrenclave == evidence.expected_mrenclave,
        verify::format_fault(evidence.collateral) is None,
        verify::chains_outcome(evidence.collateral, evidence.quote.signature.cert_data) is Ok,
        verify::chains_fault(evidence.chains(), evidence.anchor, evidence.now) is None,
        verify::revocation_fault(
            evidence.chains(),
            evidence.collateral,
            evidence.anchor,
            evidence.now,
        ) is None,
        verify::tcb_info_fault(
            evidence.chains().tcb_info,
            evidence.collateral,
            evidence.now,
            evidence.minimum,
        ) is None,
        verify::qe_document_fault(
            evidence.chains().qe_identity,
            evidence.collateral,
            evidence.quote.signature.qe_report,
            evidence.now,
            evidence.minimum,
        ) is None,
        crypto::p256_point(evidence.chains().pck.certs.first().body.public_key),
        evidence.quote.report_body.attributes.len() == 16,
    ensures
        ({
            let quote = evidence.quote;
            let signature = quote.signature;
            let data = signature.qe_report.sgx_report_data_bytes;
            let digest = crypto::sha256(signature.attestation_pub_key + signature.qe_auth_data);
            let key = seq![4u8] + signature.attestation_pub_key;
            let vouched = crypto::fixed_signature(signature.qe_report_signature)
                && crypto::p256_verifies(
                evidence.chains().pck.certs.first().body.public_key,
                signature.qe_report_raw,
                signature.qe_report_signature,
            );
            let bound = data.subrange(0, 32) == digest && forall|i: int|
                32 <= i < 64 ==> #[trigger] data[i] == 0;
            let signed = crypto::p256_point(key) && crypto::fixed_signature(
                signature.isv_signature,
            ) && crypto::p256_verifies(key, quote.signed_bytes, signature.isv_signature);
            let debug = quote.report_body.attributes[0] & 2 != 0;
            let found = platform::platform_outcome(evidence.chains().pck);
            &&& !vouched ==> (evidence.outcome() matches Err(fault) && fault.category
                == ErrorCategory::QeReportSignatureInvalid)
            &&& vouched && !bound ==> (evidence.outcome() matches Err(fault) && fault.category
                == ErrorCategory::QeBindingInvalid)
            &&& vouched && bound && !signed ==> (evidence.outcome() matches Err(fault)
                && fault.category == ErrorCategory::QuoteSignatureInvalid)
            &&& vouched && bound && signed && debug ==> (evidence.outcome() matches Err(fault)
                && fault.category == ErrorCategory::DebugEnclaveRejected)
            &&& vouched && bound && signed && !debug ==> match found {
                Err(fault) => evidence.outcome() == Err::<StandingView, Rejection>(fault),
                Ok(platform) => evidence.outcome() == tcb::standing_outcome(
                    evidence.collateral.tcb_info.body,
                    platform,
                ),
            }
        }),
{
    report::debug_is_the_second_bit_of_the_first_byte(evidence.quote.report_body.attributes);
}

} // verus!
