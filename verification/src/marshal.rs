//! Handing collateral to Intel's QVL: the buffers that it takes, and which form of them it is
//! calibrated to.

use vstd::prelude::*;
use vstd::slice::slice_to_vec;
use vstd::string::StringExecFns;

use crate::pipeline::{QvlResult, QvlResultView};
use crate::text::{self, decimal_u64, pad_right, same_text};

verus! {

/// The form in which revocation lists are handed over.
#[derive(Debug, Clone, Copy, PartialEq, Eq, Structural)]
pub enum CrlForm {
    Pem,
    Der,
}

impl CrlForm {
    /// How the form is named in a report.
    pub open spec fn name(self) -> Seq<char> {
        match self {
            CrlForm::Pem => "pem"@,
            CrlForm::Der => "der"@,
        }
    }

    pub fn label(self) -> (label: &'static str)
        ensures
            label@ == self.name(),
    {
        match self {
            CrlForm::Pem => "pem",
            CrlForm::Der => "der",
        }
    }
}

/// How collateral is handed over: the version and TEE type that are declared, and the form of the
/// revocation lists.
#[derive(Debug, Clone, Copy, PartialEq, Eq, Structural)]
pub struct MarshalConfig {
    pub major: u16,
    pub minor: u16,
    pub tee_type: u32,
    pub crl_form: CrlForm,
}

impl MarshalConfig {
    /// How the configuration is named in a report.
    pub open spec fn name(self) -> Seq<char> {
        "version="@ + text::decimal(self.major as int) + "."@ + text::decimal(self.minor as int)
            + " tee_type="@ + text::decimal(self.tee_type as int) + " crl="@
            + self.crl_form.name()
    }

    pub fn label(&self) -> (label: String)
        ensures
            label@ == self.name(),
    {
        "version=".to_owned().concat(decimal_u64(self.major as u64).as_str()).concat(".").concat(
            decimal_u64(self.minor as u64).as_str(),
        ).concat(" tee_type=").concat(decimal_u64(self.tee_type as u64).as_str()).concat(
            " crl=",
        ).concat(self.crl_form.label())
    }
}

/// The configuration that comparisons run under: with it QVL finds a genuine production quote in
/// need of configuration and hardening, on collateral that is not expired.
pub fn default_marshal() -> (cfg: MarshalConfig)
    ensures
        cfg == cell(3, 1, CrlForm::Pem),
{
    MarshalConfig { major: 3, minor: 1, tee_type: 0, crl_form: CrlForm::Pem }
}

/// Collateral with its signed documents kept as raw JSON text, so that QVL sees the exact signed
/// bytes; re-serializing could reorder or reformat them.
#[derive(Debug, Clone)]
pub struct RawCollateral {
    pub version: u32,
    pub root_ca_crl: String,
    pub pck_crl: String,
    pub tcb_info_issuer_chain: String,
    pub pck_crl_issuer_chain: String,
    pub qe_identity_issuer_chain: String,
    pub tcb_info: String,
    pub qe_identity: String,
}

/// The buffers that QVL takes.
#[derive(Debug, Clone)]
pub struct QuoteCollateral {
    pub major_version: u16,
    pub minor_version: u16,
    pub tee_type: u32,
    pub pck_crl_issuer_chain: Vec<u8>,
    pub root_ca_crl: Vec<u8>,
    pub pck_crl: Vec<u8>,
    pub tcb_info_issuer_chain: Vec<u8>,
    pub tcb_info: Vec<u8>,
    pub qe_identity_issuer_chain: Vec<u8>,
    pub qe_identity: Vec<u8>,
}

/// What [`QuoteCollateral`] holds.
#[verifier::ext_equal]
pub ghost struct QuoteCollateralView {
    pub major_version: u16,
    pub minor_version: u16,
    pub tee_type: u32,
    pub pck_crl_issuer_chain: Seq<u8>,
    pub root_ca_crl: Seq<u8>,
    pub pck_crl: Seq<u8>,
    pub tcb_info_issuer_chain: Seq<u8>,
    pub tcb_info: Seq<u8>,
    pub qe_identity_issuer_chain: Seq<u8>,
    pub qe_identity: Seq<u8>,
}

impl View for QuoteCollateral {
    type V = QuoteCollateralView;

    open spec fn view(&self) -> QuoteCollateralView {
        QuoteCollateralView {
            major_version: self.major_version,
            minor_version: self.minor_version,
            tee_type: self.tee_type,
            pck_crl_issuer_chain: self.pck_crl_issuer_chain@,
            root_ca_crl: self.root_ca_crl@,
            pck_crl: self.pck_crl@,
            tcb_info_issuer_chain: self.tcb_info_issuer_chain@,
            tcb_info: self.tcb_info@,
            qe_identity_issuer_chain: self.qe_identity_issuer_chain@,
            qe_identity: self.qe_identity@,
        }
    }
}

/// Bytes with a NUL behind them.
pub open spec fn terminated(bytes: Seq<u8>) -> Seq<u8> {
    bytes.push(0u8)
}

/// The buffer of a text: its bytes with a NUL behind them.
pub open spec fn text_buffer(text: Seq<char>) -> Seq<u8> {
    terminated(vstd::utf8::encode_utf8(text))
}

/// Intel's QPL hands the QVL NUL-terminated buffers whose sizes include the NUL.
pub fn blob(bytes: &[u8]) -> (buffer: Vec<u8>)
    ensures
        buffer@ == terminated(bytes@),
{
    let mut buffer = slice_to_vec(bytes);
    buffer.push(0);
    buffer
}

/// The contents of the first PEM block in `data`, or why there is none.
pub uninterp spec fn first_pem_block(data: Seq<u8>) -> Result<Seq<u8>, Seq<char>>;

/// `pem::parse`, with the contents of the block that it finds. Its result is determined by the
/// input.
#[verifier::external_body]
fn parse_first_pem(data: &[u8]) -> (block: Result<Vec<u8>, String>)
    ensures
        match block {
            Ok(contents) => first_pem_block(data@) == Ok::<Seq<u8>, Seq<char>>(contents@),
            Err(e) => first_pem_block(data@) == Err::<Seq<u8>, Seq<char>>(e@),
        },
{
    pem::parse(data).map(|block| block.into_contents()).map_err(|e| e.to_string())
}

/// The buffer of a revocation list in PEM: its text, or its DER, which gets no NUL.
pub open spec fn crl_buffer(pem_text: Seq<char>, form: CrlForm) -> Result<Seq<u8>, Seq<char>> {
    match form {
        CrlForm::Pem => Ok(text_buffer(pem_text)),
        CrlForm::Der => match first_pem_block(vstd::utf8::encode_utf8(pem_text)) {
            Ok(der) => Ok(der),
            Err(e) => Err("CRL PEM decode: "@ + e),
        },
    }
}

/// The outcome of filling a buffer, by its contents.
pub open spec fn filled(buffer: Result<Vec<u8>, String>) -> Result<Seq<u8>, Seq<char>> {
    match buffer {
        Ok(bytes) => Ok(bytes@),
        Err(e) => Err(e@),
    }
}

/// The buffer of a revocation list in the given form.
pub fn crl_blob(pem_text: &str, form: CrlForm) -> (buffer: Result<Vec<u8>, String>)
    ensures
        filled(buffer) == crl_buffer(pem_text@, form),
{
    match form {
        CrlForm::Pem => Ok(blob(pem_text.as_bytes())),
        CrlForm::Der => match parse_first_pem(pem_text.as_bytes()) {
            Ok(der) => Ok(der),
            Err(e) => Err("CRL PEM decode: ".to_owned().concat(e.as_str())),
        },
    }
}

/// The buffers for collateral under a configuration, or why a revocation list cannot be handed
/// over. The root CA's is looked at first.
pub open spec fn quote_collateral(raw: RawCollateral, cfg: MarshalConfig) -> Result<
    QuoteCollateralView,
    Seq<char>,
> {
    match crl_buffer(raw.root_ca_crl@, cfg.crl_form) {
        Err(e) => Err(e),
        Ok(root_ca_crl) => match crl_buffer(raw.pck_crl@, cfg.crl_form) {
            Err(e) => Err(e),
            Ok(pck_crl) => Ok(
                QuoteCollateralView {
                    major_version: cfg.major,
                    minor_version: cfg.minor,
                    tee_type: cfg.tee_type,
                    pck_crl_issuer_chain: text_buffer(raw.pck_crl_issuer_chain@),
                    root_ca_crl,
                    pck_crl,
                    tcb_info_issuer_chain: text_buffer(raw.tcb_info_issuer_chain@),
                    tcb_info: text_buffer(raw.tcb_info@),
                    qe_identity_issuer_chain: text_buffer(raw.qe_identity_issuer_chain@),
                    qe_identity: text_buffer(raw.qe_identity@),
                },
            ),
        },
    }
}

/// Fills the buffers that QVL takes.
pub fn build_quote_collateral(raw: &RawCollateral, cfg: MarshalConfig) -> (built: Result<
    QuoteCollateral,
    String,
>)
    ensures
        match built {
            Ok(c) => quote_collateral(*raw, cfg) == Ok::<QuoteCollateralView, Seq<char>>(c@),
            Err(e) => quote_collateral(*raw, cfg) == Err::<QuoteCollateralView, Seq<char>>(e@),
        },
{
    Ok(
        QuoteCollateral {
            major_version: cfg.major,
            minor_version: cfg.minor,
            tee_type: cfg.tee_type,
            pck_crl_issuer_chain: blob(raw.pck_crl_issuer_chain.as_str().as_bytes()),
            root_ca_crl: crl_blob(raw.root_ca_crl.as_str(), cfg.crl_form)?,
            pck_crl: crl_blob(raw.pck_crl.as_str(), cfg.crl_form)?,
            tcb_info_issuer_chain: blob(raw.tcb_info_issuer_chain.as_str().as_bytes()),
            tcb_info: blob(raw.tcb_info.as_str().as_bytes()),
            qe_identity_issuer_chain: blob(raw.qe_identity_issuer_chain.as_str().as_bytes()),
            qe_identity: blob(raw.qe_identity.as_str().as_bytes()),
        },
    )
}

/// The configurations that a calibration tries, in order: each version with both forms.
pub open spec fn calibration_cells() -> Seq<MarshalConfig> {
    seq![
        cell(1, 0, CrlForm::Pem),
        cell(1, 0, CrlForm::Der),
        cell(3, 0, CrlForm::Pem),
        cell(3, 0, CrlForm::Der),
        cell(3, 1, CrlForm::Pem),
        cell(3, 1, CrlForm::Der),
        cell(4, 0, CrlForm::Pem),
        cell(4, 0, CrlForm::Der),
    ]
}

/// A configuration for SGX.
pub open spec fn cell(major: u16, minor: u16, crl_form: CrlForm) -> MarshalConfig {
    MarshalConfig { major, minor, tee_type: 0, crl_form }
}

/// The configurations that a calibration tries.
pub fn calibration_grid() -> (cells: Vec<MarshalConfig>)
    ensures
        cells@ == calibration_cells(),
{
    let versions: [(u16, u16); 4] = [(1, 0), (3, 0), (3, 1), (4, 0)];
    let mut cells: Vec<MarshalConfig> = Vec::new();
    let mut i: usize = 0;
    while i < 4
        invariant
            i <= 4,
            versions@ == seq![(1u16, 0u16), (3u16, 0u16), (3u16, 1u16), (4u16, 0u16)],
            cells@ == calibration_cells().subrange(0, 2 * i as int),
        decreases 4 - i,
    {
        let (major, minor) = versions[i];
        cells.push(MarshalConfig { major, minor, tee_type: 0, crl_form: CrlForm::Pem });
        cells.push(MarshalConfig { major, minor, tee_type: 0, crl_form: CrlForm::Der });
        i += 1;
    }
    assert(calibration_cells().subrange(0, 8) == calibration_cells());
    cells
}

/// Whether a verdict of QVL passes a calibration cell.
pub open spec fn passes_calibration(result: QvlResultView) -> bool {
    result is ConfigAndSwHardeningNeeded
}

/// Whether a verdict of QVL passes a calibration cell: the one that a genuine production quote is
/// known to get.
pub fn cell_passes(result: &QvlResult) -> (passes: bool)
    ensures
        passes == passes_calibration(result@),
{
    matches!(result, QvlResult::ConfigAndSwHardeningNeeded)
}

/// The first configuration that goes by a name.
pub open spec fn first_named(passing: Seq<MarshalConfig>, name: Seq<char>) -> Option<MarshalConfig>
    decreases passing.len(),
{
    if passing.len() == 0 {
        None
    } else if passing[0].name() == name {
        Some(passing[0])
    } else {
        first_named(passing.skip(1), name)
    }
}

/// The configuration that a calibration settles on: the default when it passed, else the first
/// that passed.
pub open spec fn calibrated(passing: Seq<MarshalConfig>) -> Option<MarshalConfig> {
    match first_named(passing, cell(3, 1, CrlForm::Pem).name()) {
        Some(cfg) => Some(cfg),
        None => if passing.len() > 0 {
            Some(passing[0])
        } else {
            None
        },
    }
}

/// The configuration that a calibration settles on. The default is preferred when it passes, so
/// that what is chosen and what is built in agree.
pub fn choose_config(passing: &Vec<MarshalConfig>) -> (chosen: Option<MarshalConfig>)
    ensures
        chosen == calibrated(passing@),
{
    let wanted = default_marshal().label();
    let mut i: usize = 0;
    assert(passing@.skip(0) == passing@);
    while i < passing.len()
        invariant
            i <= passing.len(),
            wanted@ == cell(3, 1, CrlForm::Pem).name(),
            first_named(passing@, wanted@) == first_named(passing@.skip(i as int), wanted@),
        decreases passing.len() - i,
    {
        assert(passing@.skip(i as int).skip(1) == passing@.skip(i + 1));
        if same_text(passing[i].label().as_str(), wanted.as_str()) {
            return Some(passing[i]);
        }
        i += 1;
    }
    if passing.len() > 0 {
        Some(passing[0])
    } else {
        None
    }
}

/// One line of a calibration's report: the version, the form and the TEE type in columns, then
/// the outcome.
pub fn calibration_row(cfg: MarshalConfig, outcome: &str) -> (row: String)
    ensures
        row@ == text::padded_right(
            text::decimal(cfg.major as int) + "."@ + text::decimal(cfg.minor as int),
            10,
        ) + " "@ + text::padded_right(cfg.crl_form.name(), 6) + " "@ + text::padded_right(
            text::decimal(cfg.tee_type as int),
            10,
        ) + " "@ + outcome@,
{
    let version = decimal_u64(cfg.major as u64).concat(".").concat(
        decimal_u64(cfg.minor as u64).as_str(),
    );
    pad_right(version.as_str(), 10).concat(" ").concat(
        pad_right(cfg.crl_form.label(), 6).as_str(),
    ).concat(" ").concat(pad_right(decimal_u64(cfg.tee_type as u64).as_str(), 10).as_str()).concat(
        " ",
    ).concat(outcome)
}

/// What is handed over of every text is the text itself: nothing but the closing NUL is added, so
/// the signed documents reach QVL as they stand.
pub proof fn buffers_hold_the_texts_as_they_stand(raw: RawCollateral, cfg: MarshalConfig)
    ensures
        quote_collateral(raw, cfg) matches Ok(built) ==> {
            &&& built.tcb_info.drop_last() == vstd::utf8::encode_utf8(raw.tcb_info@)
            &&& built.qe_identity.drop_last() == vstd::utf8::encode_utf8(raw.qe_identity@)
            &&& built.tcb_info.last() == 0 && built.qe_identity.last() == 0
        },
        cfg.crl_form == CrlForm::Pem ==> quote_collateral(raw, cfg) is Ok,
{
    assert(text_buffer(raw.tcb_info@).drop_last() =~= vstd::utf8::encode_utf8(raw.tcb_info@));
    assert(text_buffer(raw.qe_identity@).drop_last() =~= vstd::utf8::encode_utf8(
        raw.qe_identity@,
    ));
}

/// Every buffer is filled from the text of the same name, with a NUL behind it, and the version and
/// TEE type are the configuration's. Revocation lists in PEM are handed over as texts too; in DER
/// they are the contents of their first block, without a NUL.
pub proof fn buffers_are_filled_from_the_texts_of_the_same_name(
    raw: RawCollateral,
    cfg: MarshalConfig,
)
    ensures
        quote_collateral(raw, cfg) matches Ok(built) ==> {
            &&& built.major_version == cfg.major && built.minor_version == cfg.minor
            &&& built.tee_type == cfg.tee_type
            &&& built.pck_crl_issuer_chain == vstd::utf8::encode_utf8(
                raw.pck_crl_issuer_chain@,
            ).push(0u8)
            &&& built.tcb_info_issuer_chain == vstd::utf8::encode_utf8(
                raw.tcb_info_issuer_chain@,
            ).push(0u8)
            &&& built.tcb_info == vstd::utf8::encode_utf8(raw.tcb_info@).push(0u8)
            &&& built.qe_identity_issuer_chain == vstd::utf8::encode_utf8(
                raw.qe_identity_issuer_chain@,
            ).push(0u8)
            &&& built.qe_identity == vstd::utf8::encode_utf8(raw.qe_identity@).push(0u8)
            &&& cfg.crl_form == CrlForm::Pem ==> built.root_ca_crl == vstd::utf8::encode_utf8(
                raw.root_ca_crl@,
            ).push(0u8) && built.pck_crl == vstd::utf8::encode_utf8(raw.pck_crl@).push(0u8)
            &&& cfg.crl_form == CrlForm::Der ==> first_pem_block(
                vstd::utf8::encode_utf8(raw.root_ca_crl@),
            ) == Ok::<Seq<u8>, Seq<char>>(built.root_ca_crl) && first_pem_block(
                vstd::utf8::encode_utf8(raw.pck_crl@),
            ) == Ok::<Seq<u8>, Seq<char>>(built.pck_crl)
        },
        quote_collateral(raw, cfg) is Err <==> cfg.crl_form == CrlForm::Der && (first_pem_block(
            vstd::utf8::encode_utf8(raw.root_ca_crl@),
        ) is Err || first_pem_block(vstd::utf8::encode_utf8(raw.pck_crl@)) is Err),
{
}

/// What buffers are taken to hold is what their fields hold.
pub proof fn buffers_show_their_fields(built: QuoteCollateral)
    ensures
        built@.major_version == built.major_version,
        built@.minor_version == built.minor_version,
        built@.tee_type == built.tee_type,
        built@.pck_crl_issuer_chain == built.pck_crl_issuer_chain@,
        built@.root_ca_crl == built.root_ca_crl@,
        built@.pck_crl == built.pck_crl@,
        built@.tcb_info_issuer_chain == built.tcb_info_issuer_chain@,
        built@.tcb_info == built.tcb_info@,
        built@.qe_identity_issuer_chain == built.qe_identity_issuer_chain@,
        built@.qe_identity == built.qe_identity@,
{
}

/// A calibration tries the versions 1.0, 3.0, 3.1 and 4.0 for SGX, each with both forms, once each
/// and in this order.
pub proof fn a_calibration_tries_every_version_in_both_forms(cfg: MarshalConfig)
    ensures
        calibration_cells().len() == 8,
        calibration_cells().no_duplicates(),
        calibration_cells().contains(cfg) <==> cfg.tee_type == 0 && {
            ||| cfg.major == 1 && cfg.minor == 0
            ||| cfg.major == 3 && cfg.minor == 0
            ||| cfg.major == 3 && cfg.minor == 1
            ||| cfg.major == 4 && cfg.minor == 0
        },
        forall|i: int, j: int|
            #![trigger calibration_cells()[i], calibration_cells()[j]]
            0 <= i < j < 8 ==> {
                let (a, b) = (calibration_cells()[i], calibration_cells()[j]);
                a.major < b.major || (a.major == b.major && (a.minor < b.minor || (a.minor
                    == b.minor && a.crl_form == CrlForm::Pem && b.crl_form == CrlForm::Der)))
            },
{
    let cells = calibration_cells();
    assert(cells[0] == cell(1, 0, CrlForm::Pem) && cells[1] == cell(1, 0, CrlForm::Der));
    assert(cells[2] == cell(3, 0, CrlForm::Pem) && cells[3] == cell(3, 0, CrlForm::Der));
    assert(cells[4] == cell(3, 1, CrlForm::Pem) && cells[5] == cell(3, 1, CrlForm::Der));
    assert(cells[6] == cell(4, 0, CrlForm::Pem) && cells[7] == cell(4, 0, CrlForm::Der));
    if cells.contains(cfg) {
        let i = choose|i: int| 0 <= i < cells.len() && cells[i] == cfg;
    }
}

/// Only the verdict that configuration and hardening are needed passes a cell.
pub proof fn one_verdict_passes_a_cell(result: QvlResultView)
    ensures
        passes_calibration(result) <==> result == QvlResultView::ConfigAndSwHardeningNeeded,
{
}

proof fn lemma_first_named(passing: Seq<MarshalConfig>, name: Seq<char>)
    ensures
        first_named(passing, name) is None <==> forall|i: int|
            0 <= i < passing.len() ==> (#[trigger] passing[i]).name() != name,
        first_named(passing, name) matches Some(cfg) ==> passing.contains(cfg) && cfg.name()
            == name,
    decreases passing.len(),
{
    if passing.len() > 0 {
        if passing[0].name() == name {
            assert(passing.contains(passing[0]));
        } else {
            let rest = passing.skip(1);
            lemma_first_named(rest, name);
            assert(forall|i: int| 0 <= i < rest.len() ==> #[trigger] rest[i] == passing[i + 1]);
            assert forall|i: int| 1 <= i < passing.len() implies #[trigger] passing[i] == rest[i
                - 1] by {}
            if let Some(cfg) = first_named(rest, name) {
                let i = choose|i: int| 0 <= i < rest.len() && rest[i] == cfg;
                assert(passing[i + 1] == cfg);
            }
        }
    }
}

/// A number in front of another character than a digit is told apart from any other number there.
proof fn lemma_number_then(a: int, b: int, p: Seq<char>, q: Seq<char>)
    requires
        0 <= a,
        0 <= b,
        p.len() > 0 && !('0' <= p[0] <= '9'),
        q.len() > 0 && !('0' <= q[0] <= '9'),
        text::decimal(a) + p == text::decimal(b) + q,
    ensures
        a == b,
        p == q,
{
    let (x, y) = (text::decimal(a), text::decimal(b));
    text::decimal_numbers_read_back(a);
    text::decimal_numbers_read_back(b);
    let whole = x + p;
    assert(whole == y + q);
    if x.len() < y.len() {
        assert(whole[x.len() as int] == p[0]);
        assert((y + q)[x.len() as int] == y[x.len() as int]);
        assert('0' <= y[x.len() as int] <= '9');
    } else if y.len() < x.len() {
        assert((y + q)[y.len() as int] == q[0]);
        assert(whole[y.len() as int] == x[y.len() as int]);
        assert('0' <= x[y.len() as int] <= '9');
    }
    assert(x =~= whole.subrange(0, x.len() as int));
    assert(y =~= (y + q).subrange(0, y.len() as int));
    text::decimal_numbers_are_told_apart(a, b);
    assert(p =~= whole.skip(x.len() as int));
    assert(q =~= (y + q).skip(y.len() as int));
}

/// The same behind a text that both begin with.
proof fn lemma_text_number_then(head: Seq<char>, a: int, b: int, p: Seq<char>, q: Seq<char>)
    requires
        0 <= a,
        0 <= b,
        p.len() > 0 && !('0' <= p[0] <= '9'),
        q.len() > 0 && !('0' <= q[0] <= '9'),
        head + (text::decimal(a) + p) == head + (text::decimal(b) + q),
    ensures
        a == b,
        p == q,
{
    let (x, y) = (text::decimal(a) + p, text::decimal(b) + q);
    assert(x =~= (head + x).skip(head.len() as int));
    assert(y =~= (head + y).skip(head.len() as int));
    lemma_number_then(a, b, p, q);
}

/// The parts of a configuration's name, bracketed from the right.
proof fn lemma_name_from_the_right(cfg: MarshalConfig)
    ensures
        cfg.name() == "version="@ + (text::decimal(cfg.major as int) + ("."@ + (text::decimal(
            cfg.minor as int,
        ) + (" tee_type="@ + (text::decimal(cfg.tee_type as int) + (" crl="@
            + cfg.crl_form.name())))))),
{
    let form = cfg.crl_form.name();
    let (x, y, z) = (
        text::decimal(cfg.major as int),
        text::decimal(cfg.minor as int),
        text::decimal(cfg.tee_type as int),
    );
    let (v, d, t, c) = ("version="@, "."@, " tee_type="@, " crl="@);
    lemma_regroup(v + x + d + y + t, z, c, form);
    lemma_regroup(v + x + d, y, t, z + (c + form));
    lemma_regroup(v, x, d, y + (t + (z + (c + form))));
}

proof fn lemma_regroup(a: Seq<char>, b: Seq<char>, c: Seq<char>, d: Seq<char>)
    ensures
        a + b + c + d == a + (b + (c + d)),
{
    assert(a + b + c + d =~= a + (b + (c + d)));
}

/// The name of a configuration tells it apart from any other.
pub proof fn configurations_are_told_apart_by_name(a: MarshalConfig, b: MarshalConfig)
    requires
        a.name() == b.name(),
    ensures
        a == b,
{
    lemma_name_from_the_right(a);
    lemma_name_from_the_right(b);
    let ra = " crl="@ + a.crl_form.name();
    let rb = " crl="@ + b.crl_form.name();
    let ta = " tee_type="@ + (text::decimal(a.tee_type as int) + ra);
    let tb = " tee_type="@ + (text::decimal(b.tee_type as int) + rb);
    let ma = "."@ + (text::decimal(a.minor as int) + ta);
    let mb = "."@ + (text::decimal(b.minor as int) + tb);
    assert(ma.len() > 0 && mb.len() > 0 && ma[0] == '.' && mb[0] == '.') by {
        reveal_strlit(".");
    }
    lemma_text_number_then("version="@, a.major as int, b.major as int, ma, mb);
    assert(ta.len() > 0 && tb.len() > 0 && ta[0] == ' ' && tb[0] == ' ') by {
        reveal_strlit(" tee_type=");
    }
    lemma_text_number_then("."@, a.minor as int, b.minor as int, ta, tb);
    assert(ra.len() > 0 && rb.len() > 0 && ra[0] == ' ' && rb[0] == ' ') by {
        reveal_strlit(" crl=");
    }
    lemma_text_number_then(" tee_type="@, a.tee_type as int, b.tee_type as int, ra, rb);
    let head = " crl="@;
    assert(a.crl_form.name() =~= ra.skip(head.len() as int));
    assert(b.crl_form.name() =~= rb.skip(head.len() as int));
    assert("pem"@ != "der"@) by {
        reveal_strlit("pem");
        reveal_strlit("der");
        assert("pem"@[0] == 'p' && "der"@[0] == 'd');
    }
}

/// A calibration settles on version 3.1 with lists in PEM whenever that passed, otherwise on the
/// first that passed, and on nothing when none did.
pub proof fn a_calibration_prefers_the_default(passing: Seq<MarshalConfig>)
    ensures
        ({
            let default = MarshalConfig {
                major: 3,
                minor: 1,
                tee_type: 0,
                crl_form: CrlForm::Pem,
            };
            &&& passing.contains(default) ==> calibrated(passing) == Some(default)
            &&& !passing.contains(default) && passing.len() > 0 ==> calibrated(passing) == Some(
                passing[0],
            )
            &&& passing.len() == 0 ==> calibrated(passing) is None
        }),
{
    let default = cell(3, 1, CrlForm::Pem);
    let name = default.name();
    lemma_first_named(passing, name);
    if let Some(cfg) = first_named(passing, name) {
        configurations_are_told_apart_by_name(cfg, default);
    } else if passing.contains(default) {
        let i = choose|i: int| 0 <= i < passing.len() && passing[i] == default;
        assert(passing[i].name() == name);
    }
}

} // verus!
