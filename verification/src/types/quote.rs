//! The DCAP v3 quote: its layout, its parser, and peeks at single fields.

use vstd::prelude::*;
use vstd::slice::{slice_subrange, slice_to_vec};
use vstd::string::StringExecFns;

use super::report::{self, ReportFields, SgxReportBody};
use super::ByteReader;
use crate::error::{self, ErrorCategory, Rejection, VerifyError};
use crate::text::{self, decimal_u64};
use crate::types;

verus! {

pub const QUOTE_SIGNED_LEN: usize = 432;

pub const QUOTE_VERSION_3: u16 = 3;

pub const ATT_KEY_TYPE_ECDSA_P256: u16 = 2;

pub const CERT_DATA_TYPE_PCK_CHAIN: u16 = 5;

/// `<[T]>::first_chunk`: the first `N` items by reference, or nothing when there are fewer.
pub assume_specification<Elem, const N: usize>[ <[Elem]>::first_chunk::<N> ](slice: &[Elem]) -> (
chunk: Option<&[Elem; N]>)
    ensures
        chunk is Some <==> N <= slice@.len(),
        chunk matches Some(items) ==> items@ == slice@.subrange(0, N as int),
;

#[derive(Debug, Clone, PartialEq, Eq)]
pub struct SgxQuoteHeader {
    pub version: u16,
    pub att_key_type: u16,
    pub reserved: u32,
    pub qe_svn: u16,
    pub pce_svn: u16,
    pub qe_vendor_id: [u8; 16],
    pub user_data: [u8; 20],
}

/// What the fields of a quote header hold.
#[verifier::ext_equal]
pub ghost struct HeaderFields {
    pub version: nat,
    pub att_key_type: nat,
    pub reserved: nat,
    pub qe_svn: nat,
    pub pce_svn: nat,
    pub qe_vendor_id: Seq<u8>,
    pub user_data: Seq<u8>,
}

impl View for SgxQuoteHeader {
    type V = HeaderFields;

    open spec fn view(&self) -> HeaderFields {
        HeaderFields {
            version: self.version as nat,
            att_key_type: self.att_key_type as nat,
            reserved: self.reserved as nat,
            qe_svn: self.qe_svn as nat,
            pce_svn: self.pce_svn as nat,
            qe_vendor_id: self.qe_vendor_id@,
            user_data: self.user_data@,
        }
    }
}

#[derive(Debug, Clone, PartialEq, Eq)]
pub struct SgxEcdsaSignature {
    pub isv_signature: [u8; 64],
    pub attestation_pub_key: [u8; 64],
    pub qe_report: SgxReportBody,
    pub qe_report_raw: [u8; 384],
    pub qe_report_signature: [u8; 64],
    pub qe_auth_data: Vec<u8>,
    pub cert_data_type: u16,
    pub cert_data: Vec<u8>,
}

/// What the fields of a signature section hold.
#[verifier::ext_equal]
pub ghost struct SignatureFields {
    pub isv_signature: Seq<u8>,
    pub attestation_pub_key: Seq<u8>,
    pub qe_report: ReportFields,
    pub qe_report_raw: Seq<u8>,
    pub qe_report_signature: Seq<u8>,
    pub qe_auth_data: Seq<u8>,
    pub cert_data_type: nat,
    pub cert_data: Seq<u8>,
}

impl View for SgxEcdsaSignature {
    type V = SignatureFields;

    open spec fn view(&self) -> SignatureFields {
        SignatureFields {
            isv_signature: self.isv_signature@,
            attestation_pub_key: self.attestation_pub_key@,
            qe_report: self.qe_report@,
            qe_report_raw: self.qe_report_raw@,
            qe_report_signature: self.qe_report_signature@,
            qe_auth_data: self.qe_auth_data@,
            cert_data_type: self.cert_data_type as nat,
            cert_data: self.cert_data@,
        }
    }
}

#[derive(Debug, Clone, PartialEq, Eq)]
pub struct SgxQuote {
    pub header: SgxQuoteHeader,
    pub report_body: SgxReportBody,
    pub signature: SgxEcdsaSignature,
    pub(crate) signed_bytes: Vec<u8>,
}

/// What the parts of a quote hold.
#[verifier::ext_equal]
pub ghost struct QuoteFields {
    pub header: HeaderFields,
    pub report_body: ReportFields,
    pub signature: SignatureFields,
    pub signed_bytes: Seq<u8>,
}

impl View for SgxQuote {
    type V = QuoteFields;

    open(crate) spec fn view(&self) -> QuoteFields {
        QuoteFields {
            header: self.header@,
            report_body: self.report_body@,
            signature: self.signature@,
            signed_bytes: self.signed_bytes@,
        }
    }
}

/// The little-endian number of `size` bytes that stands at `at`.
pub open spec fn number_at(data: Seq<u8>, at: int, size: int) -> nat {
    types::little_endian(data.subrange(at, at + size))
}

/// The rejection of input that ends inside the field of `size` bytes at `at`.
pub open spec fn cut_short(data: Seq<u8>, at: int, size: int, what: Seq<char>) -> Rejection {
    types::short_field(what, size, data.len() - at)
}

/// Where the certification data type stands in a signature section: behind the two signatures,
/// the key, the QE report and the authentication data.
pub open spec fn cert_type_offset(section: Seq<u8>) -> int {
    578 + number_at(section, 576, 2) as int
}

/// What is wrong with a signature section, going by its first fault from the front.
pub open spec fn section_fault(section: Seq<u8>) -> Option<Rejection> {
    let auth_len = number_at(section, 576, 2) as int;
    let after_auth = cert_type_offset(section);
    let cert_type = number_at(section, after_auth, 2);
    let cert_len = number_at(section, after_auth + 2, 4) as int;
    if section.len() < 64 {
        Some(cut_short(section, 0, 64, "quote body signature"@))
    } else if section.len() < 128 {
        Some(cut_short(section, 64, 64, "attestation public key"@))
    } else if section.len() < 512 {
        Some(cut_short(section, 128, 384, "QE report"@))
    } else if section.len() < 576 {
        Some(cut_short(section, 512, 64, "QE report signature"@))
    } else if section.len() < 578 {
        Some(cut_short(section, 576, 2, "QE authentication data length"@))
    } else if section.len() < after_auth {
        Some(cut_short(section, 578, auth_len, "QE authentication data"@))
    } else if section.len() < after_auth + 2 {
        Some(cut_short(section, after_auth, 2, "certification data type"@))
    } else if cert_type != CERT_DATA_TYPE_PCK_CHAIN {
        Some(
            error::rejection(
                ErrorCategory::QuoteParse,
                "certification data type "@ + text::decimal(cert_type as int)
                    + " is not supported; expected an embedded PCK chain (type "@ + text::decimal(
                    CERT_DATA_TYPE_PCK_CHAIN as int,
                ) + ")"@,
            ),
        )
    } else if section.len() < after_auth + 6 {
        Some(cut_short(section, after_auth + 2, 4, "certification data length"@))
    } else if section.len() < after_auth + 6 + cert_len {
        Some(cut_short(section, after_auth + 6, cert_len, "certification data"@))
    } else if section.len() > after_auth + 6 + cert_len {
        Some(
            error::rejection(
                ErrorCategory::QuoteParse,
                "signature section declares "@ + text::decimal(
                    section.len() - (after_auth + 6 + cert_len),
                ) + " unconsumed bytes after the certification data"@,
            ),
        )
    } else {
        None
    }
}

/// The fields of a signature section without fault.
pub open spec fn section_fields(section: Seq<u8>) -> SignatureFields {
    let after_auth = cert_type_offset(section);
    SignatureFields {
        isv_signature: section.subrange(0, 64),
        attestation_pub_key: section.subrange(64, 128),
        qe_report: report::report_fields(section.subrange(128, 512)),
        qe_report_raw: section.subrange(128, 512),
        qe_report_signature: section.subrange(512, 576),
        qe_auth_data: section.subrange(578, after_auth),
        cert_data_type: number_at(section, after_auth, 2),
        cert_data: section.subrange(after_auth + 6, section.len() as int),
    }
}

/// How many bytes the quote at the front of `input` takes up: the signed part, the length of the
/// signature section, and the section itself.
pub open spec fn quote_len(input: Seq<u8>) -> int {
    436 + number_at(input, 432, 4) as int
}

/// What is wrong with the quote at the front of `input`, going by its first fault from the front.
pub open spec fn quote_fault(input: Seq<u8>) -> Option<Rejection> {
    let version = number_at(input, 0, 2);
    let key_type = number_at(input, 2, 2);
    if input.len() < 2 {
        Some(cut_short(input, 0, 2, "quote version"@))
    } else if version != QUOTE_VERSION_3 {
        Some(
            error::rejection(
                ErrorCategory::QuoteParse,
                "only quote structure version "@ + text::decimal(QUOTE_VERSION_3 as int)
                    + " is supported, header says "@ + text::decimal(version as int),
            ),
        )
    } else if input.len() < 4 {
        Some(cut_short(input, 2, 2, "attestation key type"@))
    } else if key_type != ATT_KEY_TYPE_ECDSA_P256 {
        Some(
            error::rejection(
                ErrorCategory::QuoteParse,
                "only ECDSA-P256 attestation keys (type "@ + text::decimal(
                    ATT_KEY_TYPE_ECDSA_P256 as int,
                ) + ") are supported, header says "@ + text::decimal(key_type as int),
            ),
        )
    } else if input.len() < 8 {
        Some(cut_short(input, 4, 4, "header reserved field"@))
    } else if input.len() < 10 {
        Some(cut_short(input, 8, 2, "QE SVN"@))
    } else if input.len() < 12 {
        Some(cut_short(input, 10, 2, "PCE SVN"@))
    } else if input.len() < 28 {
        Some(cut_short(input, 12, 16, "QE vendor id"@))
    } else if input.len() < 48 {
        Some(cut_short(input, 28, 20, "header user data"@))
    } else if input.len() < 432 {
        Some(cut_short(input, 48, 384, "report body"@))
    } else if input.len() < 436 {
        Some(cut_short(input, 432, 4, "signature section length"@))
    } else if input.len() < quote_len(input) {
        Some(cut_short(input, 436, number_at(input, 432, 4) as int, "signature section"@))
    } else {
        section_fault(input.subrange(436, quote_len(input)))
    }
}

/// The fields of the quote at the front of `input`, when it has no fault.
pub open spec fn quote_fields(input: Seq<u8>) -> QuoteFields {
    QuoteFields {
        header: HeaderFields {
            version: number_at(input, 0, 2),
            att_key_type: number_at(input, 2, 2),
            reserved: number_at(input, 4, 4),
            qe_svn: number_at(input, 8, 2),
            pce_svn: number_at(input, 10, 2),
            qe_vendor_id: input.subrange(12, 28),
            user_data: input.subrange(28, 48),
        },
        report_body: report::report_fields(input.subrange(48, 432)),
        signature: section_fields(input.subrange(436, quote_len(input))),
        signed_bytes: input.subrange(0, QUOTE_SIGNED_LEN as int),
    }
}

impl SgxQuote {
    /// Parse a DCAP v3 quote, advancing `bytes` past the consumed input on success.
    /// On failure returns a [`crate::error::VerifyError`], whose
    /// [`VerifyError::category`] classifies the failure.
    pub fn read(bytes: &mut &[u8]) -> (parsed: Result<Self, VerifyError>)
        ensures
            parsed is Ok <==> quote_fault((*old(bytes))@) is None,
            parsed matches Ok(quote) ==> {
                &&& quote@ == quote_fields((*old(bytes))@)
                &&& (*final(bytes))@ == (*old(bytes))@.skip(quote_len((*old(bytes))@))
            },
            parsed matches Err(e) ==> {
                &&& quote_fault((*old(bytes))@) == Some(e@)
                &&& *final(bytes) == *old(bytes)
            },
    {
        broadcast use types::lemma_read_after, types::lemma_rest_after;

        let input = *bytes;
        let mut r = ByteReader::new(input);

        let version: u16 = r.u16_le("quote version")?;
        if version != QUOTE_VERSION_3 {
            return Err(
                VerifyError::new(
                    ErrorCategory::QuoteParse,
                    "only quote structure version ".to_owned().concat(
                        decimal_u64(QUOTE_VERSION_3 as u64).as_str(),
                    ).concat(" is supported, header says ").concat(
                        decimal_u64(version as u64).as_str(),
                    ),
                ),
            );
        }
        let att_key_type: u16 = r.u16_le("attestation key type")?;
        if att_key_type != ATT_KEY_TYPE_ECDSA_P256 {
            return Err(
                VerifyError::new(
                    ErrorCategory::QuoteParse,
                    "only ECDSA-P256 attestation keys (type ".to_owned().concat(
                        decimal_u64(ATT_KEY_TYPE_ECDSA_P256 as u64).as_str(),
                    ).concat(") are supported, header says ").concat(
                        decimal_u64(att_key_type as u64).as_str(),
                    ),
                ),
            );
        }
        let reserved: u32 = r.u32_le("header reserved field")?;
        let qe_svn: u16 = r.u16_le("QE SVN")?;
        let pce_svn: u16 = r.u16_le("PCE SVN")?;
        let qe_vendor_id = r.array::<16>("QE vendor id")?;
        let user_data = r.array::<20>("header user data")?;
        let header = SgxQuoteHeader {
            version,
            att_key_type,
            reserved,
            qe_svn,
            pce_svn,
            qe_vendor_id,
            user_data,
        };

        let report_body = SgxReportBody::parse(r.take(384, "report body")?)?;
        let signed_bytes = slice_to_vec(slice_subrange(input, 0, QUOTE_SIGNED_LEN));

        let sig_len: usize = r.u32_le("signature section length")? as usize;
        let sig_raw = r.take(sig_len, "signature section")?;
        let signature = Self::read_signature(sig_raw)?;

        *bytes = r.rest();
        Ok(SgxQuote { header, report_body, signature, signed_bytes })
    }

    /// Parse the signature section of a quote, which must be used up to its last byte.
    fn read_signature(raw: &[u8]) -> (parsed: Result<SgxEcdsaSignature, VerifyError>)
        ensures
            parsed is Ok <==> section_fault(raw@) is None,
            parsed matches Ok(signature) ==> signature@ == section_fields(raw@),
            parsed matches Err(e) ==> section_fault(raw@) == Some(e@),
    {
        broadcast use types::lemma_read_after, types::lemma_rest_after;

        let mut r = ByteReader::new(raw);
        let isv_signature = r.array::<64>("quote body signature")?;
        let attestation_pub_key = r.array::<64>("attestation public key")?;
        let qe_report_raw = r.array::<384>("QE report")?;
        let qe_report = SgxReportBody::parse(qe_report_raw.as_slice())?;
        let qe_report_signature = r.array::<64>("QE report signature")?;
        let auth_len: usize = r.u16_le("QE authentication data length")? as usize;
        let qe_auth_data = slice_to_vec(r.take(auth_len, "QE authentication data")?);
        let cert_data_type: u16 = r.u16_le("certification data type")?;
        if cert_data_type != CERT_DATA_TYPE_PCK_CHAIN {
            return Err(
                VerifyError::new(
                    ErrorCategory::QuoteParse,
                    "certification data type ".to_owned().concat(
                        decimal_u64(cert_data_type as u64).as_str(),
                    ).concat(" is not supported; expected an embedded PCK chain (type ").concat(
                        decimal_u64(CERT_DATA_TYPE_PCK_CHAIN as u64).as_str(),
                    ).concat(")"),
                ),
            );
        }
        let cert_len: usize = r.u32_le("certification data length")? as usize;
        let cert_data = slice_to_vec(r.take(cert_len, "certification data")?);
        if r.rest().len() != 0 {
            return Err(
                VerifyError::new(
                    ErrorCategory::QuoteParse,
                    "signature section declares ".to_owned().concat(
                        decimal_u64(r.rest().len() as u64).as_str(),
                    ).concat(" unconsumed bytes after the certification data"),
                ),
            );
        }
        Ok(
            SgxEcdsaSignature {
                isv_signature,
                attestation_pub_key,
                qe_report,
                qe_report_raw,
                qe_report_signature,
                qe_auth_data,
                cert_data_type,
                cert_data,
            },
        )
    }

    /// The bytes that the quote's signature covers.
    pub fn signed_bytes(&self) -> (bytes: &[u8])
        ensures
            bytes@ == self@.signed_bytes,
    {
        self.signed_bytes.as_slice()
    }
}

/// Where MRENCLAVE stands in a quote: 64 bytes into the report body, behind the 48-byte header.
pub const PEEK_MRENCLAVE_OFFSET: usize = 112;

/// Where the report data stands in a quote: 320 bytes into the report body.
pub const PEEK_REPORT_DATA_OFFSET: usize = 368;

/// Borrow the MRENCLAVE field out of raw v3 quote bytes without a full parse.
/// For pre-verification peeking only — proves nothing about authenticity.
pub fn peek_mrenclave(quote: &[u8]) -> (field: Option<&[u8; 32]>)
    ensures
        field is Some <==> quote@.len() >= 144,
        field matches Some(mrenclave) ==> mrenclave@ == quote@.subrange(112, 144),
{
    if quote.len() < PEEK_MRENCLAVE_OFFSET + 32 {
        return None;
    }
    slice_subrange(quote, PEEK_MRENCLAVE_OFFSET, PEEK_MRENCLAVE_OFFSET + 32).first_chunk::<32>()
}

/// Borrow the 64-byte report_data field out of raw v3 quote bytes without a
/// full parse. For pre-verification peeking only — proves nothing about
/// authenticity.
pub fn peek_report_data(quote: &[u8]) -> (field: Option<&[u8; 64]>)
    ensures
        field is Some <==> quote@.len() >= 432,
        field matches Some(data) ==> data@ == quote@.subrange(368, 432),
{
    if quote.len() < PEEK_REPORT_DATA_OFFSET + 64 {
        return None;
    }
    slice_subrange(quote, PEEK_REPORT_DATA_OFFSET, PEEK_REPORT_DATA_OFFSET + 64).first_chunk::<
        64,
    >()
}

/// Whatever is wrong with a quote is a parse failure.
pub proof fn quote_faults_are_parse_failures(input: Seq<u8>)
    ensures
        quote_fault(input) matches Some(fault) ==> fault.category == ErrorCategory::QuoteParse,
{
}

/// A quote ends where its signature section ends: bytes behind it change nothing, and are what is
/// left over.
pub proof fn trailing_bytes_are_left_over(quote: Seq<u8>, tail: Seq<u8>)
    requires
        quote_fault(quote) is None,
        quote.len() == quote_len(quote),
    ensures
        quote_fault(quote + tail) is None,
        quote_fields(quote + tail) == quote_fields(quote),
        quote_len(quote + tail) == quote.len(),
        (quote + tail).skip(quote_len(quote + tail)) == tail,
{
    let longer = quote + tail;
    lemma_same_front(quote, longer);
    assert(longer.skip(quote.len() as int) =~= tail);
}

proof fn lemma_same_front(quote: Seq<u8>, longer: Seq<u8>)
    requires
        quote_fault(quote) is None,
        quote_len(quote) <= longer.len(),
        forall|i: int| 0 <= i < quote_len(quote) ==> longer[i] == quote[i],
    ensures
        quote_fault(longer) is None,
        quote_fields(longer) == quote_fields(quote),
        quote_len(longer) == quote_len(quote),
{
    let end = quote_len(quote);
    assert(end >= 436);
    assert(longer.subrange(432, 436) =~= quote.subrange(432, 436));
    assert(longer.subrange(0, 2) =~= quote.subrange(0, 2));
    assert(longer.subrange(2, 4) =~= quote.subrange(2, 4));
    assert(longer.subrange(4, 8) =~= quote.subrange(4, 8));
    assert(longer.subrange(8, 10) =~= quote.subrange(8, 10));
    assert(longer.subrange(10, 12) =~= quote.subrange(10, 12));
    assert(longer.subrange(12, 28) =~= quote.subrange(12, 28));
    assert(longer.subrange(28, 48) =~= quote.subrange(28, 48));
    assert(longer.subrange(48, 432) =~= quote.subrange(48, 432));
    assert(longer.subrange(0, 432) =~= quote.subrange(0, 432));
    assert(longer.subrange(436, end) =~= quote.subrange(436, end));
}

/// A quote cut off anywhere is no quote.
pub proof fn truncated_quotes_are_rejected(quote: Seq<u8>, n: int)
    requires
        quote_fault(quote) is None,
        0 <= n < quote_len(quote),
    ensures
        quote_fault(quote.subrange(0, n)) matches Some(fault) && fault.category
            == ErrorCategory::QuoteParse,
{
    let cut = quote.subrange(0, n);
    if n >= 436 {
        assert(cut.subrange(432, 436) =~= quote.subrange(432, 436));
        assert(quote_len(cut) == quote_len(quote));
    }
}

/// The peeked fields of a quote are those of its parsed report body.
pub proof fn peeks_agree_with_the_parser(quote: Seq<u8>)
    requires
        quote_fault(quote) is None,
    ensures
        quote.len() >= 432,
        quote.subrange(112, 144) == quote_fields(quote).report_body.mrenclave,
        quote.subrange(368, 432) == quote_fields(quote).report_body.sgx_report_data_bytes,
{
    assert(quote.subrange(48, 432).subrange(64, 96) =~= quote.subrange(112, 144));
    assert(quote.subrange(48, 432).subrange(320, 384) =~= quote.subrange(368, 432));
}

/// The signed bytes fix the header and the report body: two quotes with the same signed bytes
/// agree in every field of both.
pub proof fn signed_bytes_fix_header_and_body(a: Seq<u8>, b: Seq<u8>)
    requires
        quote_fault(a) is None,
        quote_fault(b) is None,
        quote_fields(a).signed_bytes == quote_fields(b).signed_bytes,
    ensures
        quote_fields(a).header == quote_fields(b).header,
        quote_fields(a).report_body == quote_fields(b).report_body,
{
    assert forall|i: int| 0 <= i < 432 implies a[i] == b[i] by {
        assert(a.subrange(0, 432)[i] == b.subrange(0, 432)[i]);
    }
    assert(a.subrange(0, 2) =~= b.subrange(0, 2));
    assert(a.subrange(2, 4) =~= b.subrange(2, 4));
    assert(a.subrange(4, 8) =~= b.subrange(4, 8));
    assert(a.subrange(8, 10) =~= b.subrange(8, 10));
    assert(a.subrange(10, 12) =~= b.subrange(10, 12));
    assert(a.subrange(12, 28) =~= b.subrange(12, 28));
    assert(a.subrange(28, 48) =~= b.subrange(28, 48));
    assert(a.subrange(48, 432) =~= b.subrange(48, 432));
}

/// The header, the report body and the signed part of a quote stand at their offsets.
pub proof fn the_signed_part_is_laid_out_as_declared(input: Seq<u8>)
    requires
        input.len() >= 436,
    ensures
        ({
            let quote = quote_fields(input);
            let body = quote.report_body;
            &&& quote.header.version == input[0] + 256 * input[1]
            &&& quote.header.att_key_type == input[2] + 256 * input[3]
            &&& quote.header.reserved == input[4] + 0x100 * input[5] + 0x1_0000 * input[6]
                + 0x100_0000 * input[7]
            &&& quote.header.qe_svn == input[8] + 256 * input[9]
            &&& quote.header.pce_svn == input[10] + 256 * input[11]
            &&& quote.header.qe_vendor_id.len() == 16 && forall|i: int|
                0 <= i < 16 ==> #[trigger] quote.header.qe_vendor_id[i] == input[12 + i]
            &&& quote.header.user_data.len() == 20 && forall|i: int|
                0 <= i < 20 ==> #[trigger] quote.header.user_data[i] == input[28 + i]
            &&& forall|i: int| 0 <= i < 16 ==> #[trigger] body.cpu_svn[i] == input[48 + i]
            &&& forall|i: int| 0 <= i < 4 ==> #[trigger] body.misc_select[i] == input[64 + i]
            &&& forall|i: int| 0 <= i < 16 ==> #[trigger] body.attributes[i] == input[96 + i]
            &&& forall|i: int| 0 <= i < 32 ==> #[trigger] body.mrenclave[i] == input[112 + i]
            &&& forall|i: int| 0 <= i < 32 ==> #[trigger] body.mrsigner[i] == input[176 + i]
            &&& body.isv_prod_id == input[304] + 256 * input[305]
            &&& body.isv_svn == input[306] + 256 * input[307]
            &&& forall|i: int|
                0 <= i < 64 ==> #[trigger] body.sgx_report_data_bytes[i] == input[368 + i]
            &&& quote.signed_bytes.len() == 432 && forall|i: int|
                0 <= i < 432 ==> #[trigger] quote.signed_bytes[i] == input[i]
            &&& quote_len(input) == 436 + input[432] + 0x100 * input[433] + 0x1_0000 * input[434]
                + 0x100_0000 * input[435]
        }),
{
    types::numbers_start_with_their_least_byte(input.subrange(0, 2));
    types::numbers_start_with_their_least_byte(input.subrange(2, 4));
    types::numbers_start_with_their_least_byte(input.subrange(4, 8));
    types::numbers_start_with_their_least_byte(input.subrange(8, 10));
    types::numbers_start_with_their_least_byte(input.subrange(10, 12));
    types::numbers_start_with_their_least_byte(input.subrange(432, 436));
    report::report_fields_stand_at_their_offsets(input.subrange(48, 432));
}

/// The parts of a quote's signature section stand one behind the other: the quote's signature, the
/// attestation key, the QE report, its signature, the authentication data behind their length, then
/// the type, the length and the contents of the certification data, up to the end.
pub proof fn the_signature_section_is_laid_out_as_declared(section: Seq<u8>)
    requires
        section_fault(section) is None,
    ensures
        ({
            let fields = section_fields(section);
            let auth = section[576] + 256 * section[577];
            let body = fields.qe_report;
            &&& fields.isv_signature == section.subrange(0, 64)
            &&& fields.attestation_pub_key == section.subrange(64, 128)
            &&& fields.qe_report_raw == section.subrange(128, 512)
            &&& fields.qe_report_signature == section.subrange(512, 576)
            &&& fields.qe_auth_data == section.subrange(578, 578 + auth)
            &&& fields.cert_data_type == 5
            &&& fields.cert_data == section.subrange(584 + auth, section.len() as int)
            &&& forall|i: int| 0 <= i < 16 ==> #[trigger] body.cpu_svn[i] == section[128 + i]
            &&& forall|i: int| 0 <= i < 4 ==> #[trigger] body.misc_select[i] == section[144 + i]
            &&& forall|i: int| 0 <= i < 16 ==> #[trigger] body.attributes[i] == section[176 + i]
            &&& forall|i: int| 0 <= i < 32 ==> #[trigger] body.mrsigner[i] == section[256 + i]
            &&& body.isv_prod_id == section[384] + 256 * section[385]
            &&& body.isv_svn == section[386] + 256 * section[387]
            &&& forall|i: int|
                0 <= i < 64 ==> #[trigger] body.sgx_report_data_bytes[i] == section[448 + i]
        }),
{
    types::numbers_start_with_their_least_byte(section.subrange(576, 578));
    report::report_fields_stand_at_their_offsets(section.subrange(128, 512));
}

/// A signature section is accepted exactly when its declared lengths add up to its own and its
/// certification data are an embedded chain.
pub proof fn a_section_must_add_up(section: Seq<u8>)
    ensures
        section_fault(section) is None <==> section.len() >= 584 && ({
            let auth = section[576] + 256 * section[577];
            &&& section.len() >= 584 + auth
            &&& section[578 + auth] == 5 && section[579 + auth] == 0
            &&& section.len() == 584 + auth + section[580 + auth] + 0x100 * section[581 + auth]
                + 0x1_0000 * section[582 + auth] + 0x100_0000 * section[583 + auth]
        }),
{
    if section.len() >= 578 {
        types::numbers_start_with_their_least_byte(section.subrange(576, 578));
        let at = cert_type_offset(section);
        if section.len() >= at + 2 {
            types::numbers_start_with_their_least_byte(section.subrange(at, at + 2));
        }
        if section.len() >= at + 6 {
            types::numbers_start_with_their_least_byte(section.subrange(at + 2, at + 6));
        }
    }
}

/// A quote is parsed exactly when it is of version 3 with an ECDSA P-256 key, its signature section
/// is there in full, and that section adds up; what is parsed is what stands there.
pub proof fn a_quote_is_parsed_when_it_is_complete(input: Seq<u8>)
    ensures
        quote_fault(input) is None <==> input.len() >= 436 && input[0] == 3 && input[1] == 0
            && input[2] == 2 && input[3] == 0 && ({
            let size = input[432] + 0x100 * input[433] + 0x1_0000 * input[434] + 0x100_0000
                * input[435];
            &&& input.len() >= 436 + size
            &&& section_fault(input.subrange(436, 436 + size)) is None
        }),
        quote_fault(input) is None ==> ({
            let size = input[432] + 0x100 * input[433] + 0x1_0000 * input[434] + 0x100_0000
                * input[435];
            quote_fields(input).signature == section_fields(input.subrange(436, 436 + size))
        }),
{
    if input.len() >= 2 {
        types::numbers_start_with_their_least_byte(input.subrange(0, 2));
    }
    if input.len() >= 4 {
        types::numbers_start_with_their_least_byte(input.subrange(2, 4));
    }
    if input.len() >= 436 {
        types::numbers_start_with_their_least_byte(input.subrange(432, 436));
    }
}

/// What a header and a signature section are taken to hold is what their fields hold.
pub proof fn headers_and_signatures_show_their_fields(
    header: SgxQuoteHeader,
    signature: SgxEcdsaSignature,
)
    ensures
        header@.version == header.version,
        header@.att_key_type == header.att_key_type,
        header@.reserved == header.reserved,
        header@.qe_svn == header.qe_svn,
        header@.pce_svn == header.pce_svn,
        header@.qe_vendor_id == header.qe_vendor_id@,
        header@.user_data == header.user_data@,
        signature@.isv_signature == signature.isv_signature@,
        signature@.attestation_pub_key == signature.attestation_pub_key@,
        signature@.qe_report == signature.qe_report@,
        signature@.qe_report_raw == signature.qe_report_raw@,
        signature@.qe_report_signature == signature.qe_report_signature@,
        signature@.qe_auth_data == signature.qe_auth_data@,
        signature@.cert_data_type == signature.cert_data_type,
        signature@.cert_data == signature.cert_data@,
{
}

/// What a quote is taken to hold is what its parts hold.
pub(crate) proof fn quotes_show_their_parts(quote: SgxQuote)
    ensures
        quote@.header == quote.header@,
        quote@.report_body == quote.report_body@,
        quote@.signature == quote.signature@,
        quote@.signed_bytes == quote.signed_bytes@,
{
}

} // verus!
