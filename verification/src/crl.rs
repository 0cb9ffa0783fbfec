//! Certificate revocation lists: which certificates their issuers have withdrawn.

use vstd::prelude::*;
use vstd::slice::{slice_subrange, slice_to_vec};
use vstd::string::StringExecFns;

use crate::crypto::{self, decode_der_signature, verify_signature};
use crate::error::{self, ErrorCategory, Rejection, VerifyError};
use crate::pki::{self, trim_trailing_junk, ChainView, ParsedChain, OID_ECDSA_WITH_SHA256};
use crate::text::{self, contains, decimal_i64, same_bytes};
use crate::x509::{self, parse_pem, CertificateView, RevocationList, RevocationListView};

verus! {

/// One revoked certificate, by its issuer's raw name and its serial without leading zeros.
pub struct RevokedEntry {
    pub issuer_raw: Vec<u8>,
    pub serial: Vec<u8>,
}

/// What a [`RevokedEntry`] holds.
#[verifier::ext_equal]
pub ghost struct RevokedView {
    pub issuer_raw: Seq<u8>,
    pub serial: Seq<u8>,
}

impl View for RevokedEntry {
    type V = RevokedView;

    open spec fn view(&self) -> RevokedView {
        RevokedView { issuer_raw: self.issuer_raw@, serial: self.serial@ }
    }
}

/// Revoked entries by what they hold.
pub open spec fn entries(revoked: Seq<RevokedEntry>) -> Seq<RevokedView> {
    revoked.map_values(|entry: RevokedEntry| entry@)
}

/// `raw` without its leading zero bytes.
pub open spec fn without_leading_zeros(raw: Seq<u8>) -> Seq<u8>
    decreases raw.len(),
{
    if raw.len() > 0 && raw[0] == 0 {
        without_leading_zeros(raw.skip(1))
    } else {
        raw
    }
}

/// The shortest big-endian form of the serial in `raw`: no leading zeros, and one zero byte for
/// zero.
pub open spec fn serial_form(raw: Seq<u8>) -> Seq<u8> {
    if without_leading_zeros(raw).len() == 0 {
        seq![0u8]
    } else {
        without_leading_zeros(raw)
    }
}

pub fn normalized_serial(raw: &[u8]) -> (serial: Vec<u8>)
    ensures
        serial@ == serial_form(raw@),
{
    let mut start: usize = 0;
    assert(raw@.skip(0) == raw@);
    while start < raw.len() && raw[start] == 0
        invariant
            start <= raw.len(),
            without_leading_zeros(raw@) == without_leading_zeros(raw@.skip(start as int)),
        decreases raw.len() - start,
    {
        assert(raw@.skip(start as int).skip(1) == raw@.skip(start + 1));
        start += 1;
    }
    assert(raw@.skip(start as int) == raw@.subrange(start as int, raw@.len() as int));
    if start == raw.len() {
        let zero: Vec<u8> = vec![0u8];
        assert(zero@ == seq![0u8]);
        zero
    } else {
        slice_to_vec(slice_subrange(raw, start, raw.len()))
    }
}

/// A rejection of a revocation list.
pub open spec fn invalid(detail: Seq<char>) -> Rejection {
    error::rejection(ErrorCategory::CrlInvalid, detail)
}

/// The fault of a revocation list that is not in force at `now`. The lower bound is inclusive, the
/// upper is not and may be absent.
pub open spec fn update_fault(label: Seq<char>, list: RevocationListView, now: i64) -> Option<
    Rejection,
> {
    if now < list.this_update {
        Some(
            error::rejection(
                ErrorCategory::CertOrCrlTimeInvalid,
                label + ": takes effect at unix "@ + text::decimal(list.this_update as int)
                    + ", verification time is "@ + text::decimal(now as int),
            ),
        )
    } else {
        match list.next_update {
            Some(next_update) if now >= next_update => Some(
                error::rejection(
                    ErrorCategory::CertOrCrlTimeInvalid,
                    label + ": superseded at unix "@ + text::decimal(next_update as int)
                        + ", verification time is "@ + text::decimal(now as int),
                ),
            ),
            _ => None,
        }
    }
}

/// What is wrong with a revocation list before its signature is looked at: its algorithms, its
/// issuer, then its update times.
pub open spec fn claim_fault(
    label: Seq<char>,
    list: RevocationListView,
    expected_issuer_raw: Seq<u8>,
    now: i64,
) -> Option<Rejection> {
    if !list.algorithms_agree {
        Some(
            invalid(
                label
                    + ": declares an outer signatureAlgorithm that differs from the signed tbsCertList.signature field"@,
            ),
        )
    } else if list.algorithm.bytes != OID_ECDSA_WITH_SHA256@ {
        Some(
            invalid(
                label + ": signed with algorithm "@ + list.algorithm.text
                    + " instead of ECDSA-with-SHA256"@,
            ),
        )
    } else if list.issuer_raw != expected_issuer_raw {
        Some(
            invalid(
                label + ": issued by '"@ + list.issuer
                    + "', which is not the expected authority"@,
            ),
        )
    } else {
        update_fault(label, list, now)
    }
}

/// What is wrong with the signature of a revocation list under `issuer_key`.
pub open spec fn signature_fault(
    label: Seq<char>,
    list: RevocationListView,
    issuer_key: Seq<u8>,
) -> Option<Rejection> {
    match crypto::der_signature(list.signature) {
        None => Some(invalid(label + ": undecodable signature: "@ + "signature error"@)),
        Some(signature) => if crypto::p256_verifies(issuer_key, list.signed_bytes, signature) {
            None
        } else {
            Some(invalid(label + ": signature does not verify against the issuing key"@))
        },
    }
}

/// The certificates that a revocation list names.
pub open spec fn listed(list: RevocationListView) -> Seq<RevokedView> {
    list.revoked.map_values(
        |serial: Seq<u8>| RevokedView { issuer_raw: list.issuer_raw, serial: serial_form(serial) },
    )
}

/// The certificates that an accepted revocation list names, or why it is refused.
pub open spec fn list_outcome(
    label: Seq<char>,
    list: RevocationListView,
    expected_issuer_raw: Seq<u8>,
    issuer_key: Seq<u8>,
    now: i64,
) -> Result<Seq<RevokedView>, Rejection> {
    match claim_fault(label, list, expected_issuer_raw, now) {
        Some(fault) => Err(fault),
        None => match signature_fault(label, list, issuer_key) {
            Some(fault) => Err(fault),
            None => Ok(listed(list)),
        },
    }
}

/// The contents of the first block whose tag speaks of a CRL.
pub open spec fn crl_contents(blocks: Seq<(Seq<char>, Seq<u8>)>) -> Option<Seq<u8>>
    decreases blocks.len(),
{
    if blocks.len() == 0 {
        None
    } else if text::occurs_in(blocks[0].0, "CRL"@) {
        Some(blocks[0].1)
    } else {
        crl_contents(blocks.skip(1))
    }
}

/// The certificates that the revocation list in PEM data names, or why it is refused.
pub open spec fn crl_outcome(
    label: Seq<char>,
    pem_data: Seq<u8>,
    expected_issuer_raw: Seq<u8>,
    issuer_key: Seq<u8>,
    now: i64,
) -> Result<Seq<RevokedView>, Rejection> {
    match x509::pem_blocks(pki::trimmed(pem_data)) {
        Err(e) => Err(invalid(label + ": PEM decoding failed: "@ + e)),
        Ok(blocks) => match crl_contents(blocks) {
            None => Err(invalid(label + ": no CRL block present"@)),
            Some(der) => match x509::revocation_list(der) {
                Err(e) => Err(invalid(label + ": not valid DER: "@ + e)),
                Ok(list) => list_outcome(label, list, expected_issuer_raw, issuer_key, now),
            },
        },
    }
}

/// Refuses a revocation list whose claims do not stand: its algorithms, its issuer and its update
/// times.
pub fn check_claims(
    label: &str,
    list: &RevocationList,
    expected_issuer_raw: &[u8],
    now: i64,
) -> (checked: Result<(), VerifyError>)
    ensures
        error::verdict(checked) == claim_fault(label@, list@, expected_issuer_raw@, now),
{
    // RFC 5280 §4.1.1.2: the unsigned outer signatureAlgorithm must agree with the signed
    // tbsCertList.signature copy.
    if !list.algorithms_agree {
        return Err(
            VerifyError::new(
                ErrorCategory::CrlInvalid,
                label.to_owned().concat(
                    ": declares an outer signatureAlgorithm that differs from the signed tbsCertList.signature field",
                ),
            ),
        );
    }
    if !same_bytes(list.algorithm.bytes.as_slice(), OID_ECDSA_WITH_SHA256.as_slice()) {
        return Err(
            VerifyError::new(
                ErrorCategory::CrlInvalid,
                label.to_owned().concat(": signed with algorithm ").concat(
                    list.algorithm.text.as_str(),
                ).concat(" instead of ECDSA-with-SHA256"),
            ),
        );
    }
    if !same_bytes(list.issuer_raw.as_slice(), expected_issuer_raw) {
        return Err(
            VerifyError::new(
                ErrorCategory::CrlInvalid,
                label.to_owned().concat(": issued by '").concat(list.issuer.as_str()).concat(
                    "', which is not the expected authority",
                ),
            ),
        );
    }
    if now < list.this_update {
        return Err(
            VerifyError::new(
                ErrorCategory::CertOrCrlTimeInvalid,
                label.to_owned().concat(": takes effect at unix ").concat(
                    decimal_i64(list.this_update).as_str(),
                ).concat(", verification time is ").concat(decimal_i64(now).as_str()),
            ),
        );
    }
    // Expiry bound matches Intel's QVL: the CRL is no longer accepted at the exact nextUpdate
    // instant; the thisUpdate lower bound is inclusive.
    if let Some(next_update) = list.next_update {
        if now >= next_update {
            return Err(
                VerifyError::new(
                    ErrorCategory::CertOrCrlTimeInvalid,
                    label.to_owned().concat(": superseded at unix ").concat(
                        decimal_i64(next_update).as_str(),
                    ).concat(", verification time is ").concat(decimal_i64(now).as_str()),
                ),
            );
        }
    }
    Ok(())
}

/// The certificates that a revocation list names, in its order.
pub fn revoked_entries(list: &RevocationList) -> (revoked: Vec<RevokedEntry>)
    ensures
        entries(revoked@) == listed(list@),
{
    let mut revoked: Vec<RevokedEntry> = Vec::new();
    let mut i: usize = 0;
    while i < list.revoked.len()
        invariant
            i <= list.revoked.len(),
            entries(revoked@) == listed(list@).subrange(0, i as int),
        decreases list.revoked.len() - i,
    {
        let entry = RevokedEntry {
            issuer_raw: list.issuer_raw.clone(),
            serial: normalized_serial(list.revoked[i].as_slice()),
        };
        assert(list@.revoked[i as int] == list.revoked@[i as int]@);
        assert(entry@ == listed(list@)[i as int]);
        let ghost before = revoked@;
        revoked.push(entry);
        assert(entries(revoked@) == entries(before).push(entry@));
        assert(listed(list@).subrange(0, i + 1) == listed(list@).subrange(0, i as int).push(
            listed(list@)[i as int],
        ));
        i += 1;
    }
    assert(listed(list@).subrange(0, i as int) == listed(list@));
    revoked
}

/// The certificates that a decoded revocation list names, once its claims stand and its signature
/// verifies under `issuer_key`.
pub fn check_revocation_list(
    label: &str,
    list: &RevocationList,
    expected_issuer_raw: &[u8],
    issuer_key: &[u8],
    now: i64,
) -> (revoked: Result<Vec<RevokedEntry>, VerifyError>)
    ensures
        revocations(revoked) == list_outcome(
            label@,
            list@,
            expected_issuer_raw@,
            issuer_key@,
            now,
        ),
{
    check_claims(label, list, expected_issuer_raw, now)?;
    let signature = match decode_der_signature(list.signature.as_slice()) {
        Err(e) => {
            return Err(
                VerifyError::new(
                    ErrorCategory::CrlInvalid,
                    label.to_owned().concat(": undecodable signature: ").concat(e.as_str()),
                ),
            );
        },
        Ok(signature) => signature,
    };
    if !verify_signature(issuer_key, list.signed_bytes.as_slice(), signature.as_slice()) {
        return Err(
            VerifyError::new(
                ErrorCategory::CrlInvalid,
                label.to_owned().concat(": signature does not verify against the issuing key"),
            ),
        );
    }
    Ok(revoked_entries(list))
}

/// The outcome of reading a revocation list, by its contents.
pub open spec fn revocations(result: Result<Vec<RevokedEntry>, VerifyError>) -> Result<
    Seq<RevokedView>,
    Rejection,
> {
    match result {
        Ok(revoked) => Ok(entries(revoked@)),
        Err(e) => Err(e@),
    }
}

/// The contents of the first block whose tag speaks of a CRL.
pub fn find_crl(blocks: &Vec<(String, Vec<u8>)>) -> (found: Option<&[u8]>)
    ensures
        found is Some <==> crl_contents(x509::labelled(blocks@)) is Some,
        found matches Some(der) ==> crl_contents(x509::labelled(blocks@)) == Some(der@),
{
    let ghost all = x509::labelled(blocks@);
    let mut i: usize = 0;
    assert(all.skip(0) == all);
    while i < blocks.len()
        invariant
            i <= blocks.len(),
            all == x509::labelled(blocks@),
            crl_contents(all) == crl_contents(all.skip(i as int)),
        decreases blocks.len() - i,
    {
        assert(all.skip(i as int)[0] == (blocks@[i as int].0@, blocks@[i as int].1@));
        assert(all.skip(i as int).skip(1) == all.skip(i + 1));
        if contains(blocks[i].0.as_str(), "CRL") {
            return Some(blocks[i].1.as_slice());
        }
        i += 1;
    }
    None
}

/// Reads a PEM revocation list: it must be issued by `expected_issuer_raw`, be in force at `now`
/// and be signed by `issuer_key`. Returns the certificates that it names.
pub fn check_crl(
    label: &str,
    pem_data: &[u8],
    expected_issuer_raw: &[u8],
    issuer_key: &[u8],
    now: i64,
) -> (revoked: Result<Vec<RevokedEntry>, VerifyError>)
    ensures
        revocations(revoked) == crl_outcome(
            label@,
            pem_data@,
            expected_issuer_raw@,
            issuer_key@,
            now,
        ),
{
    let blocks = match parse_pem(trim_trailing_junk(pem_data)) {
        Err(e) => {
            return Err(
                VerifyError::new(
                    ErrorCategory::CrlInvalid,
                    label.to_owned().concat(": PEM decoding failed: ").concat(e.as_str()),
                ),
            );
        },
        Ok(blocks) => blocks,
    };
    let der = match find_crl(&blocks) {
        None => {
            return Err(
                VerifyError::new(
                    ErrorCategory::CrlInvalid,
                    label.to_owned().concat(": no CRL block present"),
                ),
            );
        },
        Some(der) => der,
    };
    let list = match RevocationList::from_der(der) {
        Err(e) => {
            return Err(
                VerifyError::new(
                    ErrorCategory::CrlInvalid,
                    label.to_owned().concat(": not valid DER: ").concat(e.as_str()),
                ),
            );
        },
        Ok(list) => list,
    };
    check_revocation_list(label, &list, expected_issuer_raw, issuer_key, now)
}

/// Whether `revoked` names a certificate: under its issuer's name, with its serial.
pub open spec fn is_revoked(cert: CertificateView, revoked: Seq<RevokedView>) -> bool {
    revoked.contains(
        RevokedView {
            issuer_raw: cert.names.issuer_raw,
            serial: serial_form(cert.body.serial),
        },
    )
}

/// The faults of the certificates of a chain that are revoked.
pub open spec fn revoked_faults(chain: ChainView, revoked: Seq<RevokedView>) -> spec_fn(
    int,
) -> Option<Rejection> {
    |i: int|
        if is_revoked(chain.certs[i], revoked) {
            Some(
                invalid(
                    chain.kind.name() + ": certificate '"@ + chain.certs[i].names.subject
                        + "' (serial "@ + chain.certs[i].body.serial_text
                        + ") is revoked by its issuer"@,
                ),
            )
        } else {
            None
        }
}

/// The fault of the first revoked certificate of a chain, from the leaf on.
pub open spec fn revocation_fault(chain: ChainView, revoked: Seq<RevokedView>) -> Option<
    Rejection,
> {
    error::first_fault(chain.certs.len(), revoked_faults(chain, revoked))
}

/// The faults of chains with a revoked certificate.
pub open spec fn revoked_chains(chains: Seq<ChainView>, revoked: Seq<RevokedView>) -> spec_fn(
    int,
) -> Option<Rejection> {
    |i: int| revocation_fault(chains[i], revoked)
}

/// Chains by what they hold.
pub open spec fn chain_views(chains: Seq<&ParsedChain>) -> Seq<ChainView> {
    chains.map_values(|chain: &ParsedChain| chain@)
}

/// Whether `revoked` names the certificate with this issuer and serial.
fn names_certificate(revoked: &[RevokedEntry], issuer_raw: &[u8], serial: &[u8]) -> (named: bool)
    ensures
        named == entries(revoked@).contains(
            (RevokedView { issuer_raw: issuer_raw@, serial: serial@ }),
        ),
{
    let ghost wanted = RevokedView { issuer_raw: issuer_raw@, serial: serial@ };
    let mut i: usize = 0;
    while i < revoked.len()
        invariant
            i <= revoked.len(),
            wanted == (RevokedView { issuer_raw: issuer_raw@, serial: serial@ }),
            forall|j: int| 0 <= j < i ==> entries(revoked@)[j] != wanted,
        decreases revoked.len() - i,
    {
        assert(entries(revoked@)[i as int] == revoked@[i as int]@);
        if same_bytes(revoked[i].issuer_raw.as_slice(), issuer_raw) && same_bytes(
            revoked[i].serial.as_slice(),
            serial,
        ) {
            assert(entries(revoked@)[i as int] == wanted);
            return true;
        }
        i += 1;
    }
    false
}

/// Refuses a chain that holds a revoked certificate.
fn ensure_chain_not_revoked(chain: &ParsedChain, revoked: &[RevokedEntry]) -> (checked: Result<
    (),
    VerifyError,
>)
    ensures
        error::verdict(checked) == revocation_fault(chain@, entries(revoked@)),
{
    let ghost faults = revoked_faults(chain@, entries(revoked@));
    let mut i: usize = 0;
    while i < chain.certs.len()
        invariant
            i <= chain.certs.len(),
            faults == revoked_faults(chain@, entries(revoked@)),
            error::first_fault(i as nat, faults) is None,
        decreases chain.certs.len() - i,
    {
        let cert = &chain.certs[i];
        assert(cert@ == chain@.certs[i as int]);
        let serial = normalized_serial(cert.body.serial.as_slice());
        if names_certificate(revoked, cert.names.issuer_raw.as_slice(), serial.as_slice()) {
            proof {
                error::lemma_first_fault_stays((i + 1) as nat, chain@.certs.len(), faults);
            }
            return Err(
                VerifyError::new(
                    ErrorCategory::CrlInvalid,
                    chain.kind.label().to_owned().concat(": certificate '").concat(
                        cert.names.subject.as_str(),
                    ).concat("' (serial ").concat(cert.body.serial_text.as_str()).concat(
                        ") is revoked by its issuer",
                    ),
                ),
            );
        }
        i += 1;
    }
    Ok(())
}

/// Refuses chains when any of their certificates is revoked, naming the first.
pub fn ensure_none_revoked(chains: &[&ParsedChain], revoked: &[RevokedEntry]) -> (checked: Result<
    (),
    VerifyError,
>)
    ensures
        error::verdict(checked) == error::first_fault(
            chains@.len(),
            revoked_chains(chain_views(chains@), entries(revoked@)),
        ),
{
    let ghost faults = revoked_chains(chain_views(chains@), entries(revoked@));
    let mut i: usize = 0;
    while i < chains.len()
        invariant
            i <= chains.len(),
            faults == revoked_chains(chain_views(chains@), entries(revoked@)),
            error::first_fault(i as nat, faults) is None,
        decreases chains.len() - i,
    {
        assert(chain_views(chains@)[i as int] == chains@[i as int]@);
        if let Err(e) = ensure_chain_not_revoked(chains[i], revoked) {
            proof {
                error::lemma_first_fault_stays((i + 1) as nat, chains@.len(), faults);
            }
            return Err(e);
        }
        i += 1;
    }
    Ok(())
}

/// The shortest form of a serial is one: it holds the same number, does not start with a zero byte
/// unless it is that byte alone, and is its own shortest form.
pub proof fn serial_forms_are_shortest(raw: Seq<u8>)
    ensures
        crypto::big_endian(serial_form(raw)) == crypto::big_endian(raw),
        serial_form(raw).len() >= 1,
        serial_form(raw)[0] != 0 || serial_form(raw) == seq![0u8],
        serial_form(serial_form(raw)) == serial_form(raw),
    decreases raw.len(),
{
    reveal_with_fuel(crypto::big_endian, 2);
    if raw.len() > 0 && raw[0] == 0 {
        serial_forms_are_shortest(raw.skip(1));
        lemma_leading_zero(raw);
    } else if raw.len() == 0 {
        assert(seq![0u8].skip(1) =~= Seq::<u8>::empty());
        assert(seq![0u8].drop_last() =~= Seq::<u8>::empty());
        reveal_with_fuel(without_leading_zeros, 3);
    }
}

/// A leading zero byte adds nothing to a big-endian number.
proof fn lemma_leading_zero(raw: Seq<u8>)
    requires
        raw.len() > 0,
        raw[0] == 0,
    ensures
        crypto::big_endian(raw.skip(1)) == crypto::big_endian(raw),
    decreases raw.len(),
{
    if raw.len() == 1 {
        assert(raw.skip(1) =~= Seq::<u8>::empty());
        assert(raw.drop_last() =~= Seq::<u8>::empty());
    } else {
        lemma_leading_zero(raw.drop_last());
        assert(raw.drop_last().skip(1) =~= raw.skip(1).drop_last());
    }
}

/// Two serials have the same shortest form exactly when they are the same number.
pub proof fn serial_forms_identify_numbers(a: Seq<u8>, b: Seq<u8>)
    ensures
        serial_form(a) == serial_form(b) <==> crypto::big_endian(a) == crypto::big_endian(b),
{
    serial_forms_are_shortest(a);
    serial_forms_are_shortest(b);
    if crypto::big_endian(a) == crypto::big_endian(b) {
        lemma_shortest_forms_are_unique(serial_form(a), serial_form(b));
    }
}

/// Whether a byte string is a shortest big-endian form.
spec fn is_shortest(s: Seq<u8>) -> bool {
    s.len() >= 1 && (s[0] != 0 || s == seq![0u8])
}

proof fn lemma_shortest_forms_are_unique(s: Seq<u8>, t: Seq<u8>)
    requires
        is_shortest(s),
        is_shortest(t),
        crypto::big_endian(s) == crypto::big_endian(t),
    ensures
        s == t,
    decreases s.len() + t.len(),
{
    let (s0, t0) = (s.drop_last(), t.drop_last());
    let (x, y) = (crypto::big_endian(s0), crypto::big_endian(t0));
    assert(256 * x + s.last() == 256 * y + t.last());
    assert(x == y && s.last() == t.last());
    if s0.len() == 0 && t0.len() == 0 {
        assert(s =~= t);
    } else if s0.len() == 0 {
        lemma_nonzero_start_is_positive(t0);
    } else if t0.len() == 0 {
        lemma_nonzero_start_is_positive(s0);
    } else {
        assert(s0[0] == s[0] && t0[0] == t[0]);
        lemma_shortest_forms_are_unique(s0, t0);
        assert(s =~= s0.push(s.last()));
        assert(t =~= t0.push(t.last()));
    }
}

proof fn lemma_nonzero_start_is_positive(s: Seq<u8>)
    requires
        s.len() >= 1,
        s[0] != 0,
    ensures
        crypto::big_endian(s) > 0,
    decreases s.len(),
{
    if s.len() > 1 {
        lemma_nonzero_start_is_positive(s.drop_last());
    }
}

/// From a revocation list that is accepted every entry is taken, in order: under the list's issuer,
/// with the number that the list gives, in its shortest form.
pub proof fn every_entry_of_an_accepted_list_is_taken(
    label: Seq<char>,
    list: RevocationListView,
    expected_issuer_raw: Seq<u8>,
    issuer_key: Seq<u8>,
    now: i64,
)
    ensures
        list_outcome(label, list, expected_issuer_raw, issuer_key, now) matches Ok(revoked) ==> {
            &&& revoked.len() == list.revoked.len()
            &&& forall|k: int|
                #![trigger revoked[k]]
                0 <= k < list.revoked.len() ==> {
                    &&& revoked[k].issuer_raw == list.issuer_raw
                    &&& crypto::big_endian(revoked[k].serial) == crypto::big_endian(
                        list.revoked[k],
                    )
                    &&& revoked[k].serial.len() >= 1
                    &&& revoked[k].serial[0] != 0 || revoked[k].serial.len() == 1
                }
        },
{
    if let Ok(revoked) = list_outcome(label, list, expected_issuer_raw, issuer_key, now) {
        assert forall|k: int| #![trigger revoked[k]] 0 <= k < list.revoked.len() implies {
            &&& revoked[k].issuer_raw == list.issuer_raw
            &&& crypto::big_endian(revoked[k].serial) == crypto::big_endian(list.revoked[k])
            &&& revoked[k].serial.len() >= 1
            &&& revoked[k].serial[0] != 0 || revoked[k].serial.len() == 1
        } by {
            serial_forms_are_shortest(list.revoked[k]);
        }
    }
}

/// A revocation list is accepted exactly when it stands for itself: both algorithm fields name
/// ECDSA with SHA-256, the expected authority issued it, the time lies from its update up to but not
/// at the next, and its signature verifies. Only a wrong time is a time fault, and it is reported
/// only where the algorithms and the issuer are right.
pub proof fn lists_are_refused_for_what_is_wrong_with_them(
    label: Seq<char>,
    list: RevocationListView,
    expected_issuer_raw: Seq<u8>,
    issuer_key: Seq<u8>,
    now: i64,
)
    ensures
        ({
            let outcome = list_outcome(label, list, expected_issuer_raw, issuer_key, now);
            let claims = list.algorithms_agree && list.algorithm.bytes == seq![
                0x2au8,
                0x86,
                0x48,
                0xce,
                0x3d,
                0x04,
                0x03,
                0x02,
            ] && list.issuer_raw == expected_issuer_raw;
            let timely = list.this_update <= now && (list.next_update matches Some(next) ==> now
                < next);
            let signed = crypto::der_signature(list.signature) matches Some(signature)
                && crypto::p256_verifies(issuer_key, list.signed_bytes, signature);
            &&& outcome is Ok <==> claims && timely && signed
            &&& outcome matches Err(fault) ==> fault.category == (if claims && !timely {
                ErrorCategory::CertOrCrlTimeInvalid
            } else {
                ErrorCategory::CrlInvalid
            })
        }),
{
    assert(OID_ECDSA_WITH_SHA256@ =~= seq![0x2au8, 0x86, 0x48, 0xce, 0x3d, 0x04, 0x03, 0x02]);
}

/// The revocation list in PEM data is that of the first block whose tag speaks of a CRL; blocks
/// before it and behind it do not matter.
pub proof fn the_first_crl_block_counts(blocks: Seq<(Seq<char>, Seq<u8>)>)
    ensures
        crl_contents(blocks) is None <==> forall|i: int|
            0 <= i < blocks.len() ==> !text::occurs_in((#[trigger] blocks[i]).0, "CRL"@),
        crl_contents(blocks) matches Some(der) ==> exists|i: int|
            #![trigger blocks[i]]
            {
                &&& 0 <= i < blocks.len()
                &&& blocks[i].1 == der
                &&& text::occurs_in(blocks[i].0, "CRL"@)
                &&& forall|j: int|
                    0 <= j < i ==> !text::occurs_in((#[trigger] blocks[j]).0, "CRL"@)
            },
    decreases blocks.len(),
{
    if blocks.len() > 0 && !text::occurs_in(blocks[0].0, "CRL"@) {
        let rest = blocks.skip(1);
        the_first_crl_block_counts(rest);
        assert(forall|i: int| 0 <= i < rest.len() ==> rest[i] == blocks[i + 1]);
        if crl_contents(blocks) is None {
            assert forall|i: int| 0 <= i < blocks.len() implies !text::occurs_in(
                (#[trigger] blocks[i]).0,
                "CRL"@,
            ) by {
                if i > 0 {
                    assert(rest[i - 1] == blocks[i]);
                }
            }
        } else {
            let der = crl_contents(rest)->0;
            let i = choose|i: int|
                #![trigger rest[i]]
                {
                    &&& 0 <= i < rest.len()
                    &&& rest[i].1 == der
                    &&& text::occurs_in(rest[i].0, "CRL"@)
                    &&& forall|j: int|
                        0 <= j < i ==> !text::occurs_in((#[trigger] rest[j]).0, "CRL"@)
                };
            assert(rest[i] == blocks[i + 1]);
            assert forall|j: int| 0 <= j < i + 1 implies !text::occurs_in(
                (#[trigger] blocks[j]).0,
                "CRL"@,
            ) by {
                if j > 0 {
                    assert(rest[j - 1] == blocks[j]);
                }
            }
            assert(blocks[i + 1].1 == der);
        }
    } else if blocks.len() > 0 {
        assert(blocks[0].1 == crl_contents(blocks)->0);
    }
}

/// PEM data that hold no readable revocation list are refused as an invalid list.
pub proof fn unreadable_lists_are_invalid(
    label: Seq<char>,
    pem_data: Seq<u8>,
    expected_issuer_raw: Seq<u8>,
    issuer_key: Seq<u8>,
    now: i64,
)
    ensures
        ({
            let outcome = crl_outcome(label, pem_data, expected_issuer_raw, issuer_key, now);
            match x509::pem_blocks(pki::trimmed(pem_data)) {
                Err(_) => outcome matches Err(fault) && fault.category
                    == ErrorCategory::CrlInvalid,
                Ok(blocks) => match crl_contents(blocks) {
                    None => outcome matches Err(fault) && fault.category
                        == ErrorCategory::CrlInvalid,
                    Some(der) => match x509::revocation_list(der) {
                        Err(_) => outcome matches Err(fault) && fault.category
                            == ErrorCategory::CrlInvalid,
                        Ok(list) => outcome == list_outcome(
                            label,
                            list,
                            expected_issuer_raw,
                            issuer_key,
                            now,
                        ),
                    },
                },
            }
        }),
{
}

/// A certificate counts as revoked exactly when an entry is under its own issuer's name and holds
/// the same number as its serial, leading zeros or not.
pub proof fn a_certificate_is_revoked_by_issuer_and_number(
    cert: CertificateView,
    revoked: Seq<RevokedView>,
)
    requires
        forall|k: int|
            #![trigger revoked[k]]
            0 <= k < revoked.len() ==> revoked[k].serial.len() >= 1 && (revoked[k].serial[0] != 0
                || revoked[k].serial.len() == 1),
    ensures
        is_revoked(cert, revoked) <==> exists|k: int|
            #![trigger revoked[k]]
            0 <= k < revoked.len() && revoked[k].issuer_raw == cert.names.issuer_raw
                && crypto::big_endian(revoked[k].serial) == crypto::big_endian(cert.body.serial),
{
    let wanted = RevokedView {
        issuer_raw: cert.names.issuer_raw,
        serial: serial_form(cert.body.serial),
    };
    serial_forms_are_shortest(cert.body.serial);
    if is_revoked(cert, revoked) {
        let k = choose|k: int| 0 <= k < revoked.len() && revoked[k] == wanted;
        assert(revoked[k].issuer_raw == cert.names.issuer_raw);
    }
    if exists|k: int|
        #![trigger revoked[k]]
        0 <= k < revoked.len() && revoked[k].issuer_raw == cert.names.issuer_raw
            && crypto::big_endian(revoked[k].serial) == crypto::big_endian(cert.body.serial) {
        let k = choose|k: int|
            #![trigger revoked[k]]
            0 <= k < revoked.len() && revoked[k].issuer_raw == cert.names.issuer_raw
                && crypto::big_endian(revoked[k].serial) == crypto::big_endian(cert.body.serial);
        if revoked[k].serial[0] == 0 {
            assert(revoked[k].serial =~= seq![0u8]);
        }
        lemma_shortest_forms_are_unique(revoked[k].serial, serial_form(cert.body.serial));
        assert(revoked[k] == wanted);
    }
}

/// A chain is refused for revocation exactly when one of its certificates is revoked, and then as
/// revoked.
pub proof fn one_revoked_certificate_refuses_a_chain(
    chains: Seq<ChainView>,
    revoked: Seq<RevokedView>,
)
    ensures
        error::first_fault(chains.len(), revoked_chains(chains, revoked)) is None <==> forall|
            c: int,
            i: int,
        |
            0 <= c < chains.len() && 0 <= i < chains[c].certs.len() ==> !is_revoked(
                #[trigger] chains[c].certs[i],
                revoked,
            ),
        error::first_fault(chains.len(), revoked_chains(chains, revoked)) matches Some(fault)
            ==> fault.category == ErrorCategory::CrlInvalid,
{
    let faults = revoked_chains(chains, revoked);
    error::lemma_no_first_fault(chains.len(), faults);
    error::the_first_fault_is_reported(chains.len(), faults);
    assert forall|c: int| 0 <= c < chains.len() implies (#[trigger] faults(c) is None <==> forall|
        i: int,
    |
        0 <= i < chains[c].certs.len() ==> !is_revoked(#[trigger] chains[c].certs[i], revoked))
        && (faults(c) matches Some(fault) ==> fault.category == ErrorCategory::CrlInvalid) by {
        let of_chain = revoked_faults(chains[c], revoked);
        error::lemma_no_first_fault(chains[c].certs.len(), of_chain);
        error::the_first_fault_is_reported(chains[c].certs.len(), of_chain);
        if faults(c) is None {
            assert forall|i: int| 0 <= i < chains[c].certs.len() implies !is_revoked(
                #[trigger] chains[c].certs[i],
                revoked,
            ) by {
                assert(of_chain(i) is None);
            }
        } else {
            let i = choose|i: int|
                0 <= i < chains[c].certs.len() && #[trigger] of_chain(i) == faults(c);
            assert(of_chain(i) is Some);
            assert(is_revoked(chains[c].certs[i], revoked));
        }
    }
    if error::first_fault(chains.len(), faults) is None {
        assert forall|c: int, i: int|
            0 <= c < chains.len() && 0 <= i < chains[c].certs.len() implies !is_revoked(
            #[trigger] chains[c].certs[i],
            revoked,
        ) by {
            assert(faults(c) is None);
        }
    }
}

} // verus!
