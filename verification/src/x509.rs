//! Certificates, revocation lists, PEM and DER: what the verifier reads out of them with
//! `x509-parser` and `pem`, held as plain values.

use vstd::prelude::*;
use x509_parser::certificate::X509Certificate;
use x509_parser::der_parser::der::parse_der;
use x509_parser::prelude::FromDer;
use x509_parser::revocation_list::CertificateRevocationList;
use x509_parser::x509::X509Name;

verus! {

/// An object identifier: its DER content and its dotted text.
pub struct ObjectId {
    pub bytes: Vec<u8>,
    pub text: String,
}

/// What an [`ObjectId`] holds.
#[verifier::ext_equal]
pub ghost struct ObjectIdView {
    pub bytes: Seq<u8>,
    pub text: Seq<char>,
}

impl View for ObjectId {
    type V = ObjectIdView;

    open spec fn view(&self) -> ObjectIdView {
        ObjectIdView { bytes: self.bytes@, text: self.text@ }
    }
}

/// The subject and issuer of a certificate, as text, as raw DER and by their common names in order,
/// each of which may be unreadable.
pub struct CertificateNames {
    pub subject: String,
    pub subject_raw: Vec<u8>,
    pub issuer_raw: Vec<u8>,
    pub common_names: Vec<Option<String>>,
    pub issuer_common_names: Vec<Option<String>>,
}

/// What [`CertificateNames`] hold.
#[verifier::ext_equal]
pub ghost struct NamesView {
    pub subject: Seq<char>,
    pub subject_raw: Seq<u8>,
    pub issuer_raw: Seq<u8>,
    pub common_names: Seq<Option<Seq<char>>>,
    pub issuer_common_names: Seq<Option<Seq<char>>>,
}

/// The name that stands first, where it is readable.
pub open spec fn first_name(names: Seq<Option<Seq<char>>>) -> Option<Seq<char>> {
    if names.len() > 0 {
        names[0]
    } else {
        None
    }
}

impl NamesView {
    /// The subject's first common name, where it is readable.
    pub open spec fn common_name(self) -> Option<Seq<char>> {
        first_name(self.common_names)
    }

    /// The issuer's first common name, where it is readable.
    pub open spec fn issuer_common_name(self) -> Option<Seq<char>> {
        first_name(self.issuer_common_names)
    }
}

impl View for CertificateNames {
    type V = NamesView;

    open spec fn view(&self) -> NamesView {
        NamesView {
            subject: self.subject@,
            subject_raw: self.subject_raw@,
            issuer_raw: self.issuer_raw@,
            common_names: self.common_names.deep_view(),
            issuer_common_names: self.issuer_common_names.deep_view(),
        }
    }
}

/// The name that stands first, where it is readable.
fn pick_first(names: &Vec<Option<String>>) -> (name: Option<&str>)
    ensures
        name.deep_view() == first_name(names.deep_view()),
{
    if names.len() == 0 {
        return None;
    }
    match &names[0] {
        Some(name) => Some(name.as_str()),
        None => None,
    }
}

impl CertificateNames {
    /// The subject's first common name, where it is readable.
    pub fn common_name(&self) -> (name: Option<&str>)
        ensures
            name.deep_view() == self@.common_name(),
    {
        pick_first(&self.common_names)
    }

    /// The issuer's first common name, where it is readable.
    pub fn issuer_common_name(&self) -> (name: Option<&str>)
        ensures
            name.deep_view() == self@.issuer_common_name(),
    {
        pick_first(&self.issuer_common_names)
    }
}

/// The validity, key, serial and signature of a certificate. Times are Unix seconds.
pub struct CertificateBody {
    pub not_before: i64,
    pub not_after: i64,
    pub public_key: Vec<u8>,
    pub serial: Vec<u8>,
    pub serial_text: String,
    pub signed_bytes: Vec<u8>,
    pub signature: Vec<u8>,
}

/// What a [`CertificateBody`] holds.
#[verifier::ext_equal]
pub ghost struct BodyView {
    pub not_before: i64,
    pub not_after: i64,
    pub public_key: Seq<u8>,
    pub serial: Seq<u8>,
    pub serial_text: Seq<char>,
    pub signed_bytes: Seq<u8>,
    pub signature: Seq<u8>,
}

impl View for CertificateBody {
    type V = BodyView;

    open spec fn view(&self) -> BodyView {
        BodyView {
            not_before: self.not_before,
            not_after: self.not_after,
            public_key: self.public_key@,
            serial: self.serial@,
            serial_text: self.serial_text@,
            signed_bytes: self.signed_bytes@,
            signature: self.signature@,
        }
    }
}

/// The algorithms that a certificate names: whether its two signature algorithm fields are the
/// same, the outer one, and those of its key.
pub struct CertificateAlgorithms {
    pub agree: bool,
    pub signature: ObjectId,
    pub key: ObjectId,
    pub curve: Option<ObjectId>,
}

/// What [`CertificateAlgorithms`] hold.
#[verifier::ext_equal]
pub ghost struct AlgorithmsView {
    pub agree: bool,
    pub signature: ObjectIdView,
    pub key: ObjectIdView,
    pub curve: Option<ObjectIdView>,
}

impl View for CertificateAlgorithms {
    type V = AlgorithmsView;

    open spec fn view(&self) -> AlgorithmsView {
        AlgorithmsView {
            agree: self.agree,
            signature: self.signature@,
            key: self.key@,
            curve: match self.curve {
                Some(curve) => Some(curve@),
                None => None,
            },
        }
    }
}

/// The extensions of a certificate: the `cA` flag of basicConstraints and the keyCertSign bit of
/// keyUsage, each absent, present or unreadable, and every extension by its identifier's text.
pub struct CertificateExtensions {
    pub ca: Result<Option<bool>, String>,
    pub key_cert_sign: Result<Option<bool>, String>,
    pub listed: Vec<(String, Vec<u8>)>,
}

/// What [`CertificateExtensions`] hold.
#[verifier::ext_equal]
pub ghost struct ExtensionsView {
    pub ca: Result<Option<bool>, Seq<char>>,
    pub key_cert_sign: Result<Option<bool>, Seq<char>>,
    pub listed: Seq<(Seq<char>, Seq<u8>)>,
}

/// A flag that may be unreadable, with the reason by its characters.
pub open spec fn readable_flag(flag: Result<Option<bool>, String>) -> Result<
    Option<bool>,
    Seq<char>,
> {
    match flag {
        Ok(value) => Ok(value),
        Err(e) => Err(e@),
    }
}

/// Labelled byte strings by their contents.
pub open spec fn labelled(items: Seq<(String, Vec<u8>)>) -> Seq<(Seq<char>, Seq<u8>)> {
    items.map_values(|item: (String, Vec<u8>)| (item.0@, item.1@))
}

impl View for CertificateExtensions {
    type V = ExtensionsView;

    open spec fn view(&self) -> ExtensionsView {
        ExtensionsView {
            ca: readable_flag(self.ca),
            key_cert_sign: readable_flag(self.key_cert_sign),
            listed: labelled(self.listed@),
        }
    }
}

/// The parts of an X.509 certificate that the verifier reads.
pub struct Certificate {
    pub names: CertificateNames,
    pub body: CertificateBody,
    pub algorithms: CertificateAlgorithms,
    pub extensions: CertificateExtensions,
}

/// What a [`Certificate`] holds.
#[verifier::ext_equal]
pub ghost struct CertificateView {
    pub names: NamesView,
    pub body: BodyView,
    pub algorithms: AlgorithmsView,
    pub extensions: ExtensionsView,
}

impl View for Certificate {
    type V = CertificateView;

    open spec fn view(&self) -> CertificateView {
        CertificateView {
            names: self.names@,
            body: self.body@,
            algorithms: self.algorithms@,
            extensions: self.extensions@,
        }
    }
}

/// A decoded value or the text of the error, by their contents.
pub open spec fn decoded<T: View>(result: Result<T, String>) -> Result<T::V, Seq<char>> {
    match result {
        Ok(value) => Ok(value@),
        Err(e) => Err(e@),
    }
}

/// The certificate that `X509Certificate::from_der` decodes from the front of `der`, by the parts
/// that the verifier reads; or why it does not decode.
pub uninterp spec fn certificate(der: Seq<u8>) -> Result<CertificateView, Seq<char>>;

/// A part of a certificate, where it decodes.
pub open spec fn part<V>(
    whole: Result<CertificateView, Seq<char>>,
    of: spec_fn(CertificateView) -> V,
) -> Result<V, Seq<char>> {
    match whole {
        Ok(cert) => Ok(of(cert)),
        Err(e) => Err(e),
    }
}

/// `X509Certificate::from_der`, then the display and raw forms of `subject` and `issuer`, and what
/// `iter_common_name` yields of each in order, with `as_str` of every one. All of it is determined
/// by the input.
#[verifier::external_body]
fn read_names(der: &[u8]) -> (read: Result<CertificateNames, String>)
    ensures
        decoded(read) == part(certificate(der@), |c: CertificateView| c.names),
{
    let (_, c) = X509Certificate::from_der(der).map_err(|e| e.to_string())?;
    let common_names = |name: &X509Name| -> Vec<Option<String>> {
        name.iter_common_name().map(|cn| cn.as_str().ok().map(str::to_string)).collect()
    };
    Ok(CertificateNames {
        subject: c.subject().to_string(),
        subject_raw: c.subject().as_raw().to_vec(),
        issuer_raw: c.issuer().as_raw().to_vec(),
        common_names: common_names(c.subject()),
        issuer_common_names: common_names(c.issuer()),
    })
}

/// `X509Certificate::from_der`, then the validity bounds, the subject public key, the serial, the
/// signed part and the signature. All of it is determined by the input.
#[verifier::external_body]
fn read_body(der: &[u8]) -> (read: Result<CertificateBody, String>)
    ensures
        decoded(read) == part(certificate(der@), |c: CertificateView| c.body),
{
    let (_, c) = X509Certificate::from_der(der).map_err(|e| e.to_string())?;
    Ok(CertificateBody {
        not_before: c.validity().not_before.timestamp(),
        not_after: c.validity().not_after.timestamp(),
        public_key: c.public_key().subject_public_key.data.to_vec(),
        serial: c.raw_serial().to_vec(),
        serial_text: c.raw_serial_as_string(),
        signed_bytes: c.tbs_certificate.as_ref().to_vec(),
        signature: c.signature_value.data.to_vec(),
    })
}

/// `X509Certificate::from_der`, then its algorithm identifiers: whether the outer one equals the
/// signed one, by the comparison of `AlgorithmIdentifier`, and the identifiers of the signature
/// algorithm, the key type and the curve. All of it is determined by the input.
#[verifier::external_body]
fn read_algorithms(der: &[u8]) -> (read: Result<CertificateAlgorithms, String>)
    ensures
        decoded(read) == part(certificate(der@), |c: CertificateView| c.algorithms),
{
    let (_, c) = X509Certificate::from_der(der).map_err(|e| e.to_string())?;
    let (signature, key) = (&c.signature_algorithm.algorithm, &c.public_key().algorithm);
    let curve = key.parameters.as_ref().and_then(|p| p.as_oid().ok());
    Ok(CertificateAlgorithms {
        agree: c.signature_algorithm == c.tbs_certificate.signature,
        signature: ObjectId { bytes: signature.as_bytes().to_vec(), text: signature.to_string() },
        key: ObjectId { bytes: key.algorithm.as_bytes().to_vec(), text: key.algorithm.to_string() },
        curve: curve.map(|c| ObjectId { bytes: c.as_bytes().to_vec(), text: c.to_string() }),
    })
}

/// `X509Certificate::from_der`, then `basic_constraints`, `key_usage` and `extensions`. All of it
/// is determined by the input.
#[verifier::external_body]
fn read_extensions(der: &[u8]) -> (read: Result<CertificateExtensions, String>)
    ensures
        decoded(read) == part(certificate(der@), |c: CertificateView| c.extensions),
{
    let (_, c) = X509Certificate::from_der(der).map_err(|e| e.to_string())?;
    let (constraints, usage) = (c.basic_constraints(), c.key_usage());
    Ok(CertificateExtensions {
        ca: constraints.map(|found| found.map(|b| b.value.ca)).map_err(|e| e.to_string()),
        key_cert_sign: usage
            .map(|found| found.map(|u| u.value.key_cert_sign()))
            .map_err(|e| e.to_string()),
        listed: c.extensions().iter().map(|e| (e.oid.to_id_string(), e.value.to_vec())).collect(),
    })
}

impl Certificate {
    /// Decodes the certificate at the front of `der`.
    pub fn from_der(der: &[u8]) -> (read: Result<Certificate, String>)
        ensures
            decoded(read) == certificate(der@),
    {
        let names = match read_names(der) {
            Err(e) => return Err(e),
            Ok(names) => names,
        };
        let body = match read_body(der) {
            Err(e) => return Err(e),
            Ok(body) => body,
        };
        let algorithms = match read_algorithms(der) {
            Err(e) => return Err(e),
            Ok(algorithms) => algorithms,
        };
        let extensions = match read_extensions(der) {
            Err(e) => return Err(e),
            Ok(extensions) => extensions,
        };
        Ok(Certificate { names, body, algorithms, extensions })
    }
}

/// The parts of a certificate revocation list that the verifier reads. Times are Unix seconds,
/// serials are big-endian numbers.
pub struct RevocationList {
    pub algorithms_agree: bool,
    pub algorithm: ObjectId,
    pub issuer: String,
    pub issuer_raw: Vec<u8>,
    pub this_update: i64,
    pub next_update: Option<i64>,
    pub signed_bytes: Vec<u8>,
    pub signature: Vec<u8>,
    pub revoked: Vec<Vec<u8>>,
}

/// What a [`RevocationList`] holds.
#[verifier::ext_equal]
pub ghost struct RevocationListView {
    pub algorithms_agree: bool,
    pub algorithm: ObjectIdView,
    pub issuer: Seq<char>,
    pub issuer_raw: Seq<u8>,
    pub this_update: i64,
    pub next_update: Option<i64>,
    pub signed_bytes: Seq<u8>,
    pub signature: Seq<u8>,
    pub revoked: Seq<Seq<u8>>,
}

impl View for RevocationList {
    type V = RevocationListView;

    open spec fn view(&self) -> RevocationListView {
        RevocationListView {
            algorithms_agree: self.algorithms_agree,
            algorithm: self.algorithm@,
            issuer: self.issuer@,
            issuer_raw: self.issuer_raw@,
            this_update: self.this_update,
            next_update: self.next_update,
            signed_bytes: self.signed_bytes@,
            signature: self.signature@,
            revoked: self.revoked@.map_values(|serial: Vec<u8>| serial@),
        }
    }
}

/// The revocation list that `der` encodes, or why it does not decode.
pub uninterp spec fn revocation_list(der: Seq<u8>) -> Result<RevocationListView, Seq<char>>;

impl RevocationList {
    /// `CertificateRevocationList::from_der`, then its algorithm identifiers, issuer, update times,
    /// signed part, signature and revoked serials in order. All of it is determined by the input.
    #[verifier::external_body]
    pub(crate) fn from_der(der: &[u8]) -> (read: Result<RevocationList, String>)
        ensures
            decoded(read) == revocation_list(der@),
    {
        let (_, c) = CertificateRevocationList::from_der(der).map_err(|e| e.to_string())?;
        let oid = &c.signature_algorithm.algorithm;
        Ok(RevocationList {
            algorithms_agree: c.signature_algorithm == c.tbs_cert_list.signature,
            algorithm: ObjectId { bytes: oid.as_bytes().to_vec(), text: oid.to_string() },
            issuer: c.issuer().to_string(),
            issuer_raw: c.issuer().as_raw().to_vec(),
            this_update: c.last_update().timestamp(),
            next_update: c.next_update().map(|t| t.timestamp()),
            signed_bytes: c.tbs_cert_list.as_ref().to_vec(),
            signature: c.signature_value.data.to_vec(),
            revoked: c.iter_revoked_certificates().map(|r| r.serial().to_bytes_be()).collect(),
        })
    }
}

/// The PEM blocks in `data` in order, each with its tag and contents, or why they do not decode.
pub uninterp spec fn pem_blocks(data: Seq<u8>) -> Result<Seq<(Seq<char>, Seq<u8>)>, Seq<char>>;

/// Decoded blocks or the text of the error, by their contents.
pub open spec fn decoded_blocks(result: Result<Vec<(String, Vec<u8>)>, String>) -> Result<
    Seq<(Seq<char>, Seq<u8>)>,
    Seq<char>,
> {
    match result {
        Ok(blocks) => Ok(labelled(blocks@)),
        Err(e) => Err(e@),
    }
}

/// `pem::parse_many`, with the tag and contents of each block. Its result is determined by the
/// input.
#[verifier::external_body]
pub(crate) fn parse_pem(data: &[u8]) -> (blocks: Result<Vec<(String, Vec<u8>)>, String>)
    ensures
        decoded_blocks(blocks) == pem_blocks(data@),
{
    let blocks = pem::parse_many(data).map_err(|e| e.to_string())?;
    Ok(blocks.into_iter().map(|b| (b.tag().to_string(), b.into_contents())).collect())
}

/// What an object in an entry of a DER tree holds itself: its identifier's text when it is an
/// object identifier, its content when that is a byte string.
pub struct DerValue {
    pub oid: Option<String>,
    pub bytes: Option<Vec<u8>>,
}

/// What a [`DerValue`] holds.
#[verifier::ext_equal]
pub ghost struct DerValueView {
    pub oid: Option<Seq<char>>,
    pub bytes: Option<Seq<u8>>,
}

impl DeepView for DerValue {
    type V = DerValueView;

    open spec fn deep_view(&self) -> DerValueView {
        DerValueView { oid: self.oid.deep_view(), bytes: self.bytes.deep_view() }
    }
}

/// An object in a row of a DER tree: its identifier's text when it is an object identifier, its
/// value when it is a small integer.
pub struct DerCell {
    pub oid: Option<String>,
    pub number: Option<u32>,
}

/// What a [`DerCell`] holds.
#[verifier::ext_equal]
pub ghost struct DerCellView {
    pub oid: Option<Seq<char>>,
    pub number: Option<u32>,
}

impl DeepView for DerCell {
    type V = DerCellView;

    open spec fn deep_view(&self) -> DerCellView {
        DerCellView { oid: self.oid.deep_view(), number: self.number }
    }
}

/// The objects of an entry, when it is a sequence.
pub type DerValues = Option<Vec<DerValue>>;

/// The rows of an object, when it is a sequence, with the cells of each row that is a sequence too.
pub type DerRows = Option<Vec<Option<Vec<DerCell>>>>;

/// An object in an entry of a DER tree: its identifier's text when it is an object identifier, its
/// content when that is a byte string, its rows when it is a sequence.
pub struct DerObject {
    pub oid: Option<String>,
    pub bytes: Option<Vec<u8>>,
    pub rows: DerRows,
}

/// What a [`DerObject`] holds.
#[verifier::ext_equal]
pub ghost struct DerObjectView {
    pub oid: Option<Seq<char>>,
    pub bytes: Option<Seq<u8>>,
    pub rows: Option<Seq<Option<Seq<DerCellView>>>>,
}

impl DeepView for DerObject {
    type V = DerObjectView;

    open spec fn deep_view(&self) -> DerObjectView {
        DerObjectView {
            oid: self.oid.deep_view(),
            bytes: self.bytes.deep_view(),
            rows: self.rows.deep_view(),
        }
    }
}

/// Why a DER tree cannot be read.
pub enum DerFault {
    /// The bytes are not DER.
    Malformed(String),
    /// The outermost object is not a sequence.
    NotSequence(String),
}

/// What a [`DerFault`] says.
pub ghost enum DerFaultView {
    Malformed(Seq<char>),
    NotSequence(Seq<char>),
}

impl View for DerFault {
    type V = DerFaultView;

    open spec fn view(&self) -> DerFaultView {
        match self {
            DerFault::Malformed(e) => DerFaultView::Malformed(e@),
            DerFault::NotSequence(e) => DerFaultView::NotSequence(e@),
        }
    }
}

/// The sequence that `parse_der` decodes from the front of `der`, entry by entry, with the objects
/// of each entry that is a sequence too, and the rows and cells of those; or why there is none.
pub uninterp spec fn der_tree(der: Seq<u8>) -> Result<
    Seq<Option<Seq<DerObjectView>>>,
    DerFaultView,
>;

/// The identifiers and contents of the objects of an entry.
pub open spec fn values_in(entry: Option<Seq<DerObjectView>>) -> Option<Seq<DerValueView>> {
    match entry {
        Some(objects) => Some(
            objects.map_values(
                |object: DerObjectView| DerValueView { oid: object.oid, bytes: object.bytes },
            ),
        ),
        None => None,
    }
}

/// The rows of the objects of an entry.
pub open spec fn rows_in(entry: Option<Seq<DerObjectView>>) -> Option<
    Seq<Option<Seq<Option<Seq<DerCellView>>>>>,
> {
    match entry {
        Some(objects) => Some(objects.map_values(|object: DerObjectView| object.rows)),
        None => None,
    }
}

/// `der_parser::der::parse_der`, then `as_sequence` of the outermost object and of each entry in
/// it, then `as_oid` and `as_slice` of each object in an entry. All of it is determined by the
/// input.
#[verifier::external_body]
fn read_der_values(der: &[u8]) -> (read: Result<Vec<DerValues>, DerFault>)
    ensures
        match (read, der_tree(der@)) {
            (Ok(entries), Ok(tree)) => entries.deep_view() == tree.map_values(
                |entry: Option<Seq<DerObjectView>>| values_in(entry),
            ),
            (Err(fault), Err(why)) => fault@ == why,
            _ => false,
        },
{
    let (_, top) = parse_der(der).map_err(|e| DerFault::Malformed(e.to_string()))?;
    let entries = top.as_sequence().map_err(|e| DerFault::NotSequence(e.to_string()))?;
    Ok(entries.iter().map(|entry| entry.as_sequence().ok().map(|objects| {
        objects.iter().map(|o| DerValue {
            oid: o.as_oid().ok().map(|oid| oid.to_id_string()),
            bytes: o.as_slice().ok().map(|b| b.to_vec()),
        }).collect()
    })).collect())
}

/// `der_parser::der::parse_der`, then `as_sequence` of the outermost object and, level by level, of
/// the entries in it, the objects in an entry and the rows in an object, then `as_oid` and `as_u32`
/// of each cell in a row; nothing where the input does not decode to a sequence. All of it is
/// determined by the input.
#[verifier::external_body]
fn read_der_rows(der: &[u8]) -> (read: Option<Vec<Option<Vec<DerRows>>>>)
    ensures
        match (read, der_tree(der@)) {
            (Some(entries), Ok(tree)) => entries.deep_view() == tree.map_values(
                |entry: Option<Seq<DerObjectView>>| rows_in(entry),
            ),
            (None, Err(_)) => true,
            _ => false,
        },
{
    let (_, top) = parse_der(der).ok()?;
    let entries = top.as_sequence().ok()?;
    Some(entries.iter().map(|entry| entry.as_sequence().ok().map(|objects| {
        objects.iter().map(|o| o.as_sequence().ok().map(|rows| {
            rows.iter().map(|row| row.as_sequence().ok().map(|cells| {
                cells.iter().map(|c| DerCell {
                    oid: c.as_oid().ok().map(|oid| oid.to_id_string()),
                    number: c.as_u32().ok(),
                }).collect()
            })).collect()
        })).collect()
    })).collect())
}

/// The objects of an entry, put together from what they hold themselves and from their rows.
fn join_objects(
    mut values: Vec<DerValue>,
    mut rows: Vec<DerRows>,
    Ghost(objects): Ghost<Seq<DerObjectView>>,
) -> (joined: Vec<DerObject>)
    requires
        Some(values.deep_view()) == values_in(Some(objects)),
        Some(rows.deep_view()) == rows_in(Some(objects)),
    ensures
        joined.deep_view() == objects,
{
    let mut joined: Vec<DerObject> = Vec::new();
    let mut i: usize = 0;
    assert(values@.len() == values.deep_view().len() == objects.len());
    assert(rows@.len() == rows.deep_view().len() == objects.len());
    assert forall|j: int| 0 <= j < objects.len() implies ({
        &&& #[trigger] values@[j].oid.deep_view() == objects[j].oid
        &&& values@[j].bytes.deep_view() == objects[j].bytes
        &&& rows@[j].deep_view() == objects[j].rows
    }) by {
        assert(values.deep_view()[j] == values@[j].deep_view());
        assert(rows.deep_view()[j] == rows@[j].deep_view());
    }
    while i < values.len()
        invariant
            i <= values@.len(),
            values@.len() == rows@.len() == objects.len(),
            joined@.len() == i,
            forall|j: int| 0 <= j < i ==> #[trigger] joined@[j].deep_view() == objects[j],
            forall|j: int|
                i <= j < objects.len() ==> ({
                    &&& #[trigger] values@[j].oid.deep_view() == objects[j].oid
                    &&& values@[j].bytes.deep_view() == objects[j].bytes
                    &&& rows@[j].deep_view() == objects[j].rows
                }),
        decreases values@.len() - i,
    {
        joined.push(
            DerObject {
                oid: values[i].oid.take(),
                bytes: values[i].bytes.take(),
                rows: rows[i].take(),
            },
        );
        i += 1;
    }
    joined
}

/// Decodes the DER sequence at the front of `der`, entry by entry.
pub(crate) fn read_der_tree(der: &[u8]) -> (read: Result<Vec<Option<Vec<DerObject>>>, DerFault>)
    ensures
        match (read, der_tree(der@)) {
            (Ok(entries), Ok(tree)) => entries.deep_view() == tree,
            (Err(fault), Err(why)) => fault@ == why,
            _ => false,
        },
{
    let mut values = read_der_values(der)?;
    let mut rows = read_der_rows(der).unwrap();
    let ghost tree = der_tree(der@)->Ok_0;
    let mut entries: Vec<Option<Vec<DerObject>>> = Vec::new();
    let mut i: usize = 0;
    assert(values@.len() == values.deep_view().len() == tree.len());
    assert(rows@.len() == rows.deep_view().len() == tree.len());
    assert forall|j: int| 0 <= j < tree.len() implies ({
        &&& #[trigger] values@[j].deep_view() == values_in(tree[j])
        &&& rows@[j].deep_view() == rows_in(tree[j])
    }) by {
        assert(values.deep_view()[j] == values@[j].deep_view());
        assert(rows.deep_view()[j] == rows@[j].deep_view());
    }
    while i < values.len()
        invariant
            i <= values@.len(),
            values@.len() == rows@.len() == tree.len(),
            entries@.len() == i,
            forall|j: int| 0 <= j < i ==> #[trigger] entries@[j].deep_view() == tree[j],
            forall|j: int|
                i <= j < tree.len() ==> ({
                    &&& #[trigger] values@[j].deep_view() == values_in(tree[j])
                    &&& rows@[j].deep_view() == rows_in(tree[j])
                }),
        decreases values@.len() - i,
    {
        assert(values@[i as int].deep_view() == values_in(tree[i as int]));
        let objects = match (values[i].take(), rows[i].take()) {
            (Some(values), Some(rows)) => Some(
                join_objects(values, rows, Ghost(tree[i as int]->0)),
            ),
            _ => None,
        };
        entries.push(objects);
        i += 1;
    }
    Ok(entries)
}

/// What a certificate is taken to hold is what its fields hold.
pub proof fn certificates_show_their_fields(cert: Certificate, i: int)
    ensures
        cert@.names.subject == cert.names.subject@,
        cert@.names.subject_raw == cert.names.subject_raw@,
        cert@.names.issuer_raw == cert.names.issuer_raw@,
        cert@.body.not_before == cert.body.not_before,
        cert@.body.not_after == cert.body.not_after,
        cert@.body.public_key == cert.body.public_key@,
        cert@.body.serial == cert.body.serial@,
        cert@.body.serial_text == cert.body.serial_text@,
        cert@.body.signed_bytes == cert.body.signed_bytes@,
        cert@.body.signature == cert.body.signature@,
        cert@.algorithms.agree == cert.algorithms.agree,
        cert@.algorithms.signature.bytes == cert.algorithms.signature.bytes@,
        cert@.algorithms.key.bytes == cert.algorithms.key.bytes@,
        cert.algorithms.curve matches Some(id) ==> (cert@.algorithms.curve matches Some(shown)
            && shown.bytes == id.bytes@),
        cert.algorithms.curve is None ==> cert@.algorithms.curve is None,
        cert.extensions.ca matches Ok(flag) ==> cert@.extensions.ca == Ok::<
            Option<bool>,
            Seq<char>,
        >(flag),
        cert.extensions.ca is Err ==> cert@.extensions.ca is Err,
        cert.extensions.key_cert_sign matches Ok(flag) ==> cert@.extensions.key_cert_sign == Ok::<
            Option<bool>,
            Seq<char>,
        >(flag),
        cert.extensions.key_cert_sign is Err ==> cert@.extensions.key_cert_sign is Err,
        cert@.extensions.listed.len() == cert.extensions.listed@.len(),
        0 <= i < cert.extensions.listed@.len() ==> cert@.extensions.listed[i].0
            == cert.extensions.listed@[i].0@ && cert@.extensions.listed[i].1
            == cert.extensions.listed@[i].1@,
{
}

/// A certificate goes by the first of its common names; where that is unreadable or there is none,
/// by no name.
pub proof fn the_first_common_name_counts(names: NamesView)
    ensures
        names.common_names.len() > 0 ==> names.common_name() == names.common_names[0],
        names.common_names.len() == 0 ==> names.common_name() is None,
        names.issuer_common_names.len() > 0 ==> names.issuer_common_name()
            == names.issuer_common_names[0],
        names.issuer_common_names.len() == 0 ==> names.issuer_common_name() is None,
{
}

/// What a revocation list is taken to hold is what its fields hold, serial by serial.
pub proof fn revocation_lists_show_their_fields(list: RevocationList, k: int)
    ensures
        list@.algorithms_agree == list.algorithms_agree,
        list@.algorithm.bytes == list.algorithm.bytes@,
        list@.issuer == list.issuer@,
        list@.issuer_raw == list.issuer_raw@,
        list@.this_update == list.this_update,
        list@.next_update == list.next_update,
        list@.signed_bytes == list.signed_bytes@,
        list@.signature == list.signature@,
        list@.revoked.len() == list.revoked@.len(),
        0 <= k < list.revoked@.len() ==> list@.revoked[k] == list.revoked@[k]@,
{
}

} // verus!
