//! The SGX report body: an enclave's identity and the data it commits to.

use vstd::prelude::*;
use vstd::string::StringExecFns;

use super::ByteReader;
use crate::error::{self, ErrorCategory, Rejection, VerifyError};
use crate::text::{self, decimal_u64};
use crate::types;

verus! {

pub type MREnclave = [u8; 32];

pub const REPORT_BODY_LEN: usize = 384;

/// The bit of the attribute flags that marks a debug enclave.
pub const ATTRIBUTE_FLAG_DEBUG: u64 = 2;

/// What the fields of a report body hold.
#[verifier::ext_equal]
pub ghost struct ReportFields {
    pub cpu_svn: Seq<u8>,
    pub misc_select: Seq<u8>,
    pub isv_ext_prod_id: Seq<u8>,
    pub attributes: Seq<u8>,
    pub mrenclave: Seq<u8>,
    pub mrsigner: Seq<u8>,
    pub config_id: Seq<u8>,
    pub isv_prod_id: nat,
    pub isv_svn: nat,
    pub config_svn: nat,
    pub isv_family_id: Seq<u8>,
    pub sgx_report_data_bytes: Seq<u8>,
}

/// The fields of the report body that stands in `raw`, each at its fixed offset.
pub open spec fn report_fields(raw: Seq<u8>) -> ReportFields {
    ReportFields {
        cpu_svn: raw.subrange(0, 16),
        misc_select: raw.subrange(16, 20),
        isv_ext_prod_id: raw.subrange(32, 48),
        attributes: raw.subrange(48, 64),
        mrenclave: raw.subrange(64, 96),
        mrsigner: raw.subrange(128, 160),
        config_id: raw.subrange(192, 256),
        isv_prod_id: types::little_endian(raw.subrange(256, 258)),
        isv_svn: types::little_endian(raw.subrange(258, 260)),
        config_svn: types::little_endian(raw.subrange(260, 262)),
        isv_family_id: raw.subrange(304, 320),
        sgx_report_data_bytes: raw.subrange(320, 384),
    }
}

/// The rejection of a report body of `len` bytes.
pub open spec fn wrong_length(len: int) -> Rejection {
    error::rejection(
        ErrorCategory::QuoteParse,
        "report body must be "@ + text::decimal(REPORT_BODY_LEN as int) + " bytes, got "@
            + text::decimal(len),
    )
}

#[derive(Debug, Clone, PartialEq, Eq)]
pub struct SgxReportBody {
    pub cpu_svn: [u8; 16],
    pub misc_select: [u8; 4],
    pub isv_ext_prod_id: [u8; 16],
    pub attributes: [u8; 16],
    pub mrenclave: MREnclave,
    pub mrsigner: [u8; 32],
    pub config_id: [u8; 64],
    pub isv_prod_id: u16,
    pub isv_svn: u16,
    pub config_svn: u16,
    pub isv_family_id: [u8; 16],
    pub sgx_report_data_bytes: [u8; 64],
}

impl View for SgxReportBody {
    type V = ReportFields;

    open spec fn view(&self) -> ReportFields {
        ReportFields {
            cpu_svn: self.cpu_svn@,
            misc_select: self.misc_select@,
            isv_ext_prod_id: self.isv_ext_prod_id@,
            attributes: self.attributes@,
            mrenclave: self.mrenclave@,
            mrsigner: self.mrsigner@,
            config_id: self.config_id@,
            isv_prod_id: self.isv_prod_id as nat,
            isv_svn: self.isv_svn as nat,
            config_svn: self.config_svn as nat,
            isv_family_id: self.isv_family_id@,
            sgx_report_data_bytes: self.sgx_report_data_bytes@,
        }
    }
}

impl SgxReportBody {
    /// Reads the fields of a report body out of exactly [`REPORT_BODY_LEN`] bytes.
    pub fn parse(raw: &[u8]) -> (parsed: Result<Self, VerifyError>)
        ensures
            parsed is Ok <==> raw@.len() == REPORT_BODY_LEN,
            parsed matches Ok(body) ==> body@ == report_fields(raw@),
            parsed matches Err(e) ==> e@ == wrong_length(raw@.len() as int),
    {
        if raw.len() != REPORT_BODY_LEN {
            return Err(
                VerifyError::new(
                    ErrorCategory::QuoteParse,
                    "report body must be ".to_owned().concat(
                        decimal_u64(REPORT_BODY_LEN as u64).as_str(),
                    ).concat(" bytes, got ").concat(decimal_u64(raw.len() as u64).as_str()),
                ),
            );
        }
        broadcast use types::lemma_read_after, types::lemma_rest_after;

        let mut r = ByteReader::new(raw);
        let cpu_svn = r.array::<16>("cpu_svn")?;
        let misc_select = r.array::<4>("misc_select")?;
        r.take(12, "report reserved1")?;
        let isv_ext_prod_id = r.array::<16>("isv_ext_prod_id")?;
        let attributes = r.array::<16>("attributes")?;
        let mrenclave = r.array::<32>("mrenclave")?;
        r.take(32, "report reserved2")?;
        let mrsigner = r.array::<32>("mrsigner")?;
        r.take(32, "report reserved3")?;
        let config_id = r.array::<64>("config_id")?;
        let isv_prod_id: u16 = r.u16_le("isv_prod_id")?;
        let isv_svn: u16 = r.u16_le("isv_svn")?;
        let config_svn: u16 = r.u16_le("config_svn")?;
        r.take(42, "report reserved4")?;
        let isv_family_id = r.array::<16>("isv_family_id")?;
        let sgx_report_data_bytes = r.array::<64>("report_data")?;
        let body = SgxReportBody {
            cpu_svn,
            misc_select,
            isv_ext_prod_id,
            attributes,
            mrenclave,
            mrsigner,
            config_id,
            isv_prod_id,
            isv_svn,
            config_svn,
            isv_family_id,
            sgx_report_data_bytes,
        };
        Ok(body)
    }

    /// The attribute flags: the first eight attribute bytes as a little-endian number.
    pub fn attribute_flags(&self) -> (flags: u64)
        ensures
            flags == types::little_endian(self.attributes@.subrange(0, 8)),
    {
        let a = &self.attributes;
        proof {
            reveal_with_fuel(types::little_endian, 9);
        }
        a[0] as u64 + 0x100 * (a[1] as u64) + 0x1_0000 * (a[2] as u64) + 0x100_0000 * (a[3] as u64)
            + 0x1_0000_0000 * (a[4] as u64) + 0x100_0000_0000 * (a[5] as u64) + 0x1_0000_0000_0000
            * (a[6] as u64) + 0x100_0000_0000_0000 * (a[7] as u64)
    }

    /// Whether the report belongs to a debug enclave.
    pub fn is_debug(&self) -> (debug: bool)
        ensures
            debug == debug_flag(self.attributes@),
    {
        let flags: u64 = self.attribute_flags();
        flags & ATTRIBUTE_FLAG_DEBUG != 0
    }
}

/// Whether the DEBUG bit is set in the flags that `attributes` begin with.
pub open spec fn debug_flag(attributes: Seq<u8>) -> bool {
    (types::little_endian(attributes.subrange(0, 8)) as u64) & ATTRIBUTE_FLAG_DEBUG != 0
}

/// The DEBUG flag is the second bit of the first attribute byte.
pub proof fn debug_is_the_second_bit_of_the_first_byte(attributes: Seq<u8>)
    requires
        attributes.len() == 16,
    ensures
        debug_flag(attributes) == (attributes[0] & 2 != 0),
{
    let flags = attributes.subrange(0, 8);
    reveal_with_fuel(types::little_endian, 9);
    let rest = types::little_endian(flags.drop_first());
    assert(types::little_endian(flags) == flags[0] + 256 * rest);
    assert(rest < 0x100_0000_0000_0000) by {
        lemma_little_endian_bound(flags.drop_first());
    }
    let low = flags[0];
    let high = rest as u64;
    assert(((low as u64 + 256 * high) as u64) & 2 == (low & 2) as u64) by (bit_vector)
        requires
            high < 0x100_0000_0000_0000u64,
    ;
}

proof fn lemma_little_endian_bound(bytes: Seq<u8>)
    requires
        bytes.len() == 7,
    ensures
        types::little_endian(bytes) < 0x100_0000_0000_0000,
{
    reveal_with_fuel(types::little_endian, 8);
}

/// Every field of a report body stands at its offset in the 384 bytes: the byte strings as they
/// are, the numbers least significant byte first.
pub proof fn report_fields_stand_at_their_offsets(raw: Seq<u8>)
    requires
        raw.len() == 384,
    ensures
        ({
            let fields = report_fields(raw);
            &&& fields.cpu_svn.len() == 16 && forall|i: int|
                0 <= i < 16 ==> #[trigger] fields.cpu_svn[i] == raw[i]
            &&& fields.misc_select.len() == 4 && forall|i: int|
                0 <= i < 4 ==> #[trigger] fields.misc_select[i] == raw[16 + i]
            &&& fields.isv_ext_prod_id.len() == 16 && forall|i: int|
                0 <= i < 16 ==> #[trigger] fields.isv_ext_prod_id[i] == raw[32 + i]
            &&& fields.attributes.len() == 16 && forall|i: int|
                0 <= i < 16 ==> #[trigger] fields.attributes[i] == raw[48 + i]
            &&& fields.mrenclave.len() == 32 && forall|i: int|
                0 <= i < 32 ==> #[trigger] fields.mrenclave[i] == raw[64 + i]
            &&& fields.mrsigner.len() == 32 && forall|i: int|
                0 <= i < 32 ==> #[trigger] fields.mrsigner[i] == raw[128 + i]
            &&& fields.config_id.len() == 64 && forall|i: int|
                0 <= i < 64 ==> #[trigger] fields.config_id[i] == raw[192 + i]
            &&& fields.isv_prod_id == raw[256] + 256 * raw[257]
            &&& fields.isv_svn == raw[258] + 256 * raw[259]
            &&& fields.config_svn == raw[260] + 256 * raw[261]
            &&& fields.isv_family_id.len() == 16 && forall|i: int|
                0 <= i < 16 ==> #[trigger] fields.isv_family_id[i] == raw[304 + i]
            &&& fields.sgx_report_data_bytes.len() == 64 && forall|i: int|
                0 <= i < 64 ==> #[trigger] fields.sgx_report_data_bytes[i] == raw[320 + i]
        }),
{
    types::numbers_start_with_their_least_byte(raw.subrange(256, 258));
    types::numbers_start_with_their_least_byte(raw.subrange(258, 260));
    types::numbers_start_with_their_least_byte(raw.subrange(260, 262));
}

/// What a report body is taken to hold is what its fields hold.
pub proof fn report_bodies_show_their_fields(body: SgxReportBody)
    ensures
        body@.cpu_svn == body.cpu_svn@,
        body@.misc_select == body.misc_select@,
        body@.isv_ext_prod_id == body.isv_ext_prod_id@,
        body@.attributes == body.attributes@,
        body@.mrenclave == body.mrenclave@,
        body@.mrsigner == body.mrsigner@,
        body@.config_id == body.config_id@,
        body@.isv_prod_id == body.isv_prod_id,
        body@.isv_svn == body.isv_svn,
        body@.config_svn == body.config_svn,
        body@.isv_family_id == body.isv_family_id@,
        body@.sgx_report_data_bytes == body.sgx_report_data_bytes@,
{
}

/// A byte of a report body that lies in a field decides that field: bodies that differ anywhere but
/// in the reserved bytes differ in some field.
pub proof fn fields_fix_all_but_the_reserved_bytes(a: Seq<u8>, b: Seq<u8>, i: int)
    requires
        a.len() == 384,
        b.len() == 384,
        report_fields(a) == report_fields(b),
        0 <= i < 384,
        !(20 <= i < 32),
        !(96 <= i < 128),
        !(160 <= i < 192),
        !(262 <= i < 304),
    ensures
        a[i] == b[i],
{
    report_fields_stand_at_their_offsets(a);
    report_fields_stand_at_their_offsets(b);
    let f = report_fields(a);
    if i < 16 {
        assert(f.cpu_svn[i] == a[i] && f.cpu_svn[i] == b[i]);
    } else if i < 20 {
        assert(f.misc_select[i - 16] == a[i] && f.misc_select[i - 16] == b[i]);
    } else if i < 48 {
        assert(f.isv_ext_prod_id[i - 32] == a[i] && f.isv_ext_prod_id[i - 32] == b[i]);
    } else if i < 64 {
        assert(f.attributes[i - 48] == a[i] && f.attributes[i - 48] == b[i]);
    } else if i < 96 {
        assert(f.mrenclave[i - 64] == a[i] && f.mrenclave[i - 64] == b[i]);
    } else if i < 160 {
        assert(f.mrsigner[i - 128] == a[i] && f.mrsigner[i - 128] == b[i]);
    } else if i < 256 {
        assert(f.config_id[i - 192] == a[i] && f.config_id[i - 192] == b[i]);
    } else if i < 262 {
    } else if i < 320 {
        assert(f.isv_family_id[i - 304] == a[i] && f.isv_family_id[i - 304] == b[i]);
    } else {
        assert(f.sgx_report_data_bytes[i - 320] == a[i] && f.sgx_report_data_bytes[i - 320]
            == b[i]);
    }
}

} // verus!
