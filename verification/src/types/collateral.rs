//! The collateral that a quote is verified against, and the envelope of its signed documents.

use vstd::prelude::*;
use vstd::string::StringExecFns;

use super::qe_identity::{QeIdentity, QeIdentityView};
use super::tcb_info::{TcbInfo, TcbInfoView};
use crate::text::same_text;

verus! {

#[derive(Debug, Clone)]
pub struct SgxCollateral {
    pub version: u32,
    pub root_ca_crl: String,
    pub pck_crl: String,
    pub tcb_info_issuer_chain: String,
    pub pck_crl_issuer_chain: String,
    pub qe_identity_issuer_chain: String,
    pub tcb_info: SignedTcbInfo,
    pub qe_identity: SignedQeIdentity,
}

pub type SignedTcbInfo = Signed<TcbInfo>;

pub type SignedQeIdentity = Signed<QeIdentity>;

/// A collateral document paired with the exact JSON bytes its signature covers.
/// The signature is verified over `body_json` verbatim, so the raw text is
/// retained alongside the parsed `body`.
#[derive(Debug, Clone)]
pub struct Signed<T> {
    pub body_json: String,
    pub body: T,
    pub signature_hex: String,
}

/// What a [`Signed`] document holds.
#[verifier::ext_equal]
pub ghost struct SignedView<V> {
    pub body_json: Seq<char>,
    pub body: V,
    pub signature_hex: Seq<char>,
}

impl<T: View> View for Signed<T> {
    type V = SignedView<T::V>;

    open spec fn view(&self) -> SignedView<T::V> {
        SignedView {
            body_json: self.body_json@,
            body: self.body@,
            signature_hex: self.signature_hex@,
        }
    }
}

/// What an [`SgxCollateral`] holds.
#[verifier::ext_equal]
pub ghost struct CollateralView {
    pub version: u32,
    pub root_ca_crl: Seq<char>,
    pub pck_crl: Seq<char>,
    pub tcb_info_issuer_chain: Seq<char>,
    pub pck_crl_issuer_chain: Seq<char>,
    pub qe_identity_issuer_chain: Seq<char>,
    pub tcb_info: SignedView<TcbInfoView>,
    pub qe_identity: SignedView<QeIdentityView>,
}

impl View for SgxCollateral {
    type V = CollateralView;

    open spec fn view(&self) -> CollateralView {
        CollateralView {
            version: self.version,
            root_ca_crl: self.root_ca_crl@,
            pck_crl: self.pck_crl@,
            tcb_info_issuer_chain: self.tcb_info_issuer_chain@,
            pck_crl_issuer_chain: self.pck_crl_issuer_chain@,
            qe_identity_issuer_chain: self.qe_identity_issuer_chain@,
            tcb_info: self.tcb_info@,
            qe_identity: self.qe_identity@,
        }
    }
}

/// A body type that appears inside a `{ <field>: {...}, "signature": "..." }`
/// envelope, tagging the JSON key that carries it.
pub trait SignedBody {
    const WIRE_FIELD: &'static str;
}

impl SignedBody for TcbInfo {
    const WIRE_FIELD: &'static str = "tcbInfo";
}

impl SignedBody for QeIdentity {
    const WIRE_FIELD: &'static str = "enclaveIdentity";
}

/// What a signed document is called where another value was found.
pub fn expected_document<T: SignedBody>() -> (text: String)
    ensures
        text@ == "a signed "@ + T::WIRE_FIELD@ + " document"@,
{
    "a signed ".to_owned().concat(T::WIRE_FIELD).concat(" document")
}

/// What a key of a signed document's envelope carries.
#[derive(Debug, Clone, Copy, PartialEq, Eq, Structural)]
pub enum EnvelopeField {
    /// The body, whose text is kept as it stands.
    Body,
    /// The signature over the body, in hex.
    Signature,
    /// Something that is read and dropped.
    Ignored,
}

/// Why an envelope is refused. Both name the field.
#[derive(Debug, Clone, Copy)]
pub enum EnvelopeFault {
    Duplicate(&'static str),
    Missing(&'static str),
}

/// What an [`EnvelopeFault`] says.
pub ghost enum EnvelopeFaultView {
    Duplicate(Seq<char>),
    Missing(Seq<char>),
}

impl View for EnvelopeFault {
    type V = EnvelopeFaultView;

    open spec fn view(&self) -> EnvelopeFaultView {
        match self {
            EnvelopeFault::Duplicate(field) => EnvelopeFaultView::Duplicate(field@),
            EnvelopeFault::Missing(field) => EnvelopeFaultView::Missing(field@),
        }
    }
}

/// An envelope whose keys are being read: the body's text and the signature seen so far.
pub struct Envelope {
    pub body_json: Option<String>,
    pub signature_hex: Option<String>,
}

/// The field that the next key of an envelope carries, or its second occurrence.
pub open spec fn next_field(
    has_body: bool,
    has_signature: bool,
    wire_field: Seq<char>,
    key: Seq<char>,
) -> Result<EnvelopeField, EnvelopeFaultView> {
    if key == wire_field {
        if has_body {
            Err(EnvelopeFaultView::Duplicate(wire_field))
        } else {
            Ok(EnvelopeField::Body)
        }
    } else if key == "signature"@ {
        if has_signature {
            Err(EnvelopeFaultView::Duplicate("signature"@))
        } else {
            Ok(EnvelopeField::Signature)
        }
    } else {
        Ok(EnvelopeField::Ignored)
    }
}

impl Envelope {
    pub fn new() -> (envelope: Self)
        ensures
            envelope.body_json is None,
            envelope.signature_hex is None,
    {
        Envelope { body_json: None, signature_hex: None }
    }

    /// What the next key carries. The body and the signature may each come once, in either order;
    /// any other key is ignored.
    pub fn field<T: SignedBody>(&self, key: &str) -> (field: Result<EnvelopeField, EnvelopeFault>)
        ensures
            ({
                let next = next_field(
                    self.body_json is Some,
                    self.signature_hex is Some,
                    T::WIRE_FIELD@,
                    key@,
                );
                match field {
                    Ok(f) => next == Ok::<EnvelopeField, EnvelopeFaultView>(f),
                    Err(e) => next == Err::<EnvelopeField, EnvelopeFaultView>(e@),
                }
            }),
    {
        if same_text(key, T::WIRE_FIELD) {
            if self.body_json.is_some() {
                return Err(EnvelopeFault::Duplicate(T::WIRE_FIELD));
            }
            Ok(EnvelopeField::Body)
        } else if same_text(key, "signature") {
            if self.signature_hex.is_some() {
                return Err(EnvelopeFault::Duplicate("signature"));
            }
            Ok(EnvelopeField::Signature)
        } else {
            Ok(EnvelopeField::Ignored)
        }
    }

    /// The body's text and the signature, once both came. A missing body is named first.
    pub fn finish<T: SignedBody>(self) -> (parts: Result<(String, String), EnvelopeFault>)
        ensures
            match (self.body_json, self.signature_hex) {
                (Some(body_json), Some(signature_hex)) => parts == Ok::<
                    (String, String),
                    EnvelopeFault,
                >((body_json, signature_hex)),
                (None, _) => parts matches Err(e) && e@ == EnvelopeFaultView::Missing(
                    T::WIRE_FIELD@,
                ),
                (_, None) => parts matches Err(e) && e@ == EnvelopeFaultView::Missing(
                    "signature"@,
                ),
            },
    {
        match self.body_json {
            None => Err(EnvelopeFault::Missing(T::WIRE_FIELD)),
            Some(body_json) => match self.signature_hex {
                None => Err(EnvelopeFault::Missing("signature")),
                Some(signature_hex) => Ok((body_json, signature_hex)),
            },
        }
    }
}

/// Body and signature may come in either order: neither stands in the other's way.
pub proof fn body_and_signature_come_in_either_order(wire_field: Seq<char>)
    requires
        wire_field != "signature"@,
    ensures
        next_field(false, false, wire_field, wire_field) == Ok::<EnvelopeField, EnvelopeFaultView>(
            EnvelopeField::Body,
        ),
        next_field(true, false, wire_field, "signature"@) == Ok::<
            EnvelopeField,
            EnvelopeFaultView,
        >(EnvelopeField::Signature),
        next_field(false, false, wire_field, "signature"@) == Ok::<
            EnvelopeField,
            EnvelopeFaultView,
        >(EnvelopeField::Signature),
        next_field(false, true, wire_field, wire_field) == Ok::<EnvelopeField, EnvelopeFaultView>(
            EnvelopeField::Body,
        ),
{
}

/// A key of an envelope is the body's when it is the wire field, the signature's when it is
/// "signature", and otherwise ignored; the second of either is a duplicate that is named.
pub proof fn keys_carry_what_they_name(
    has_body: bool,
    has_signature: bool,
    wire_field: Seq<char>,
    key: Seq<char>,
)
    requires
        wire_field != "signature"@,
    ensures
        ({
            let next = next_field(has_body, has_signature, wire_field, key);
            &&& next == Ok::<EnvelopeField, EnvelopeFaultView>(EnvelopeField::Body) <==> key
                == wire_field && !has_body
            &&& next == Ok::<EnvelopeField, EnvelopeFaultView>(EnvelopeField::Signature) <==> key
                == "signature"@ && !has_signature
            &&& next == Ok::<EnvelopeField, EnvelopeFaultView>(EnvelopeField::Ignored) <==> key
                != wire_field && key != "signature"@
            &&& next matches Err(fault) ==> fault == EnvelopeFaultView::Duplicate(key)
        }),
{
}

/// What collateral is taken to hold is what its fields hold.
pub proof fn collateral_shows_its_fields(collateral: SgxCollateral)
    ensures
        collateral@.version == collateral.version,
        collateral@.root_ca_crl == collateral.root_ca_crl@,
        collateral@.pck_crl == collateral.pck_crl@,
        collateral@.tcb_info_issuer_chain == collateral.tcb_info_issuer_chain@,
        collateral@.pck_crl_issuer_chain == collateral.pck_crl_issuer_chain@,
        collateral@.qe_identity_issuer_chain == collateral.qe_identity_issuer_chain@,
        collateral@.tcb_info.body_json == collateral.tcb_info.body_json@,
        collateral@.tcb_info.signature_hex == collateral.tcb_info.signature_hex@,
        collateral@.tcb_info.body == collateral.tcb_info.body@,
        collateral@.qe_identity.body_json == collateral.qe_identity.body_json@,
        collateral@.qe_identity.signature_hex == collateral.qe_identity.signature_hex@,
        collateral@.qe_identity.body == collateral.qe_identity.body@,
{
}

} // verus!
