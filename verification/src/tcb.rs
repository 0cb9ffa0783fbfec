//! TCB evaluation: the platform's level in the TCB info, and the QE against its identity.

use vstd::prelude::*;
use vstd::string::StringExecFns;

use crate::crypto::{self, hex_decode, hex_encode};
use crate::error::{self, ErrorCategory, Rejection, VerifyError};
use crate::platform::{PckPlatformTcb, PlatformView};
use crate::standing::{StandingView, TcbStanding};
use crate::text::{self, decimal_list, decimal_u64, same_bytes, same_text};
use crate::types::qe_identity::{QeIdentity, QeIdentityView, QeTcbLevel, QeTcbLevelView};
use crate::types::report::{ReportFields, SgxReportBody};
use crate::types::tcb_info::{TcbInfo, TcbInfoView, TcbLevel, TcbLevelView};

verus! {

/// The bytes of a hex field of `size` bytes, or why it cannot be read.
pub open spec fn hex_field(what: Seq<char>, value: Seq<char>, size: int) -> Result<
    Seq<u8>,
    Rejection,
> {
    if !crypto::is_hex(value) {
        Err(
            error::rejection(
                ErrorCategory::CollateralParse,
                what + " is not valid hex ('"@ + value + "'): "@ + crypto::hex_fault(value),
            ),
        )
    } else if value.len() != 2 * size {
        Err(
            error::rejection(
                ErrorCategory::CollateralParse,
                what + " must be "@ + text::decimal(size) + " bytes, got "@ + text::decimal(
                    value.len() as int / 2,
                ) + " ('"@ + value + "')"@,
            ),
        )
    } else {
        Ok(crypto::unhex(value))
    }
}

/// Reads a hex field of exactly `N` bytes.
pub fn decode_hex_field<const N: usize>(what: &str, value: &str) -> (field: Result<
    [u8; N],
    VerifyError,
>)
    ensures
        error::outcome(field) == hex_field(what@, value@, N as int),
{
    let bytes = match hex_decode(value) {
        Err(e) => {
            return Err(
                VerifyError::new(
                    ErrorCategory::CollateralParse,
                    what.to_owned().concat(" is not valid hex ('").concat(value).concat(
                        "'): ",
                    ).concat(e.as_str()),
                ),
            );
        },
        Ok(bytes) => bytes,
    };
    if bytes.len() != N {
        return Err(
            VerifyError::new(
                ErrorCategory::CollateralParse,
                what.to_owned().concat(" must be ").concat(decimal_u64(N as u64).as_str()).concat(
                    " bytes, got ",
                ).concat(decimal_u64(bytes.len() as u64).as_str()).concat(" ('").concat(
                    value,
                ).concat("')"),
            ),
        );
    }
    let mut out = [0u8;N];
    let mut i: usize = 0;
    while i < N
        invariant
            i <= N,
            bytes@.len() == N,
            forall|j: int| 0 <= j < i ==> out@[j] == bytes@[j],
        decreases N - i,
    {
        out[i] = bytes[i];
        i += 1;
    }
    assert(out@ =~= bytes@);
    Ok(out)
}

/// Whether a platform meets a TCB level: sixteen components, none above the platform's, and a PCE
/// SVN not above the platform's.
pub open spec fn satisfied(level: TcbLevelView, platform: PlatformView) -> bool {
    &&& level.component_svns.len() == 16
    &&& forall|i: int|
        0 <= i < 16 ==> platform.comp_svns[i] >= #[trigger] level.component_svns[i]
    &&& platform.pcesvn >= level.pcesvn
}

pub fn level_satisfied(level: &TcbLevel, pck: &PckPlatformTcb) -> (met: bool)
    ensures
        met == satisfied(level@, pck@),
{
    let components = &level.tcb.sgxtcbcomponents;
    if components.len() != 16 {
        return false;
    }
    let mut i: usize = 0;
    while i < 16
        invariant
            i <= 16,
            components == level.tcb.sgxtcbcomponents,
            components.len() == 16,
            forall|j: int|
                0 <= j < i ==> pck@.comp_svns[j] >= #[trigger] level@.component_svns[j],
        decreases 16 - i,
    {
        assert(level@.component_svns[i as int] == components@[i as int].svn);
        if pck.comp_svns[i] < components[i].svn {
            assert(pck@.comp_svns[i as int] < level@.component_svns[i as int]);
            return false;
        }
        i += 1;
    }
    pck.pcesvn >= level.tcb.pcesvn
}

/// Whether the level at `i` is the first, in document order, that a platform meets.
pub open spec fn first_satisfied(
    levels: Seq<TcbLevelView>,
    platform: PlatformView,
    i: int,
) -> bool {
    &&& 0 <= i < levels.len()
    &&& satisfied(levels[i], platform)
    &&& forall|j: int| 0 <= j < i ==> !satisfied(#[trigger] levels[j], platform)
}

/// The first level, in document order, that a platform meets.
pub open spec fn selected_level(levels: Seq<TcbLevelView>, platform: PlatformView) -> Option<
    TcbLevelView,
> {
    if exists|i: int| first_satisfied(levels, platform, i) {
        Some(levels[choose|i: int| first_satisfied(levels, platform, i)])
    } else {
        None
    }
}

/// A rejection of the platform's TCB.
pub open spec fn unsupported(detail: Seq<char>) -> Rejection {
    error::rejection(ErrorCategory::TcbLevelUnsupported, detail)
}

/// The standing that a level's status stands for, if it is an accepted one.
pub open spec fn level_standing(level: TcbLevelView) -> Result<StandingView, Rejection> {
    if level.tcb_status == "UpToDate"@ {
        Ok(StandingView::UpToDate)
    } else if level.tcb_status == "SWHardeningNeeded"@ {
        Ok(StandingView::SWHardeningNeeded { advisory_ids: level.advisory_ids })
    } else if level.tcb_status == "ConfigurationAndSWHardeningNeeded"@ {
        Ok(StandingView::ConfigurationAndSWHardeningNeeded { advisory_ids: level.advisory_ids })
    } else {
        Err(
            unsupported(
                "the platform's TCB level carries status '"@ + level.tcb_status
                    + "', which is not accepted"@,
            ),
        )
    }
}

/// The standing of a platform under a TCB info: the document must describe the platform's family
/// and PCE, and then the first level that the platform meets decides.
pub open spec fn standing_outcome(info: TcbInfoView, platform: PlatformView) -> Result<
    StandingView,
    Rejection,
> {
    match hex_field("TCB info fmspc"@, info.fmspc, 6) {
        Err(fault) => Err(fault),
        Ok(fmspc) => if fmspc != platform.fmspc {
            Err(
                unsupported(
                    "TCB info describes platform family "@ + info.fmspc
                        + ", the quote's PCK certificate belongs to "@ + crypto::hex_text(
                        platform.fmspc,
                    ),
                ),
            )
        } else {
            match hex_field("TCB info pceId"@, info.pce_id, 2) {
                Err(fault) => Err(fault),
                Ok(pce_id) => if pce_id != platform.pce_id {
                    Err(
                        unsupported(
                            "TCB info describes PCE "@ + info.pce_id
                                + ", the quote's PCK certificate belongs to PCE "@
                                + crypto::hex_text(platform.pce_id),
                        ),
                    )
                } else {
                    match selected_level(info.tcb_levels, platform) {
                        Some(level) => level_standing(level),
                        None => Err(
                            unsupported(
                                "platform TCB (components "@ + ("["@ + text::decimals(
                                    platform.comp_svns,
                                ) + "]"@) + ", pcesvn "@ + text::decimal(platform.pcesvn as int)
                                    + ") meets none of the "@ + text::decimal(
                                    info.tcb_levels.len() as int,
                                ) + " levels in the TCB info"@,
                            ),
                        ),
                    }
                },
            }
        },
    }
}

proof fn lemma_first_satisfied_selected(
    levels: Seq<TcbLevelView>,
    platform: PlatformView,
    i: int,
)
    requires
        first_satisfied(levels, platform, i),
    ensures
        selected_level(levels, platform) == Some(levels[i]),
{
    let k = choose|k: int| first_satisfied(levels, platform, k);
    assert(k == i) by {
        if k < i {
            assert(!satisfied(levels[k], platform));
        } else if i < k {
            assert(!satisfied(levels[i], platform));
        }
    }
}

/// The first level, in document order, that a platform meets. Intel emits the array
/// most-recent-first; levels are not always totally ordered, so the order of the document decides
/// and nothing else.
pub fn select_level<'a>(levels: &'a Vec<TcbLevel>, pck: &PckPlatformTcb) -> (selected: Option<
    &'a TcbLevel,
>)
    ensures
        ({
            let all = levels@.map_values(|level: TcbLevel| level@);
            match selected {
                Some(level) => selected_level(all, pck@) == Some(level@),
                None => selected_level(all, pck@) is None,
            }
        }),
{
    let ghost all = levels@.map_values(|level: TcbLevel| level@);
    let mut i: usize = 0;
    while i < levels.len()
        invariant
            i <= levels.len(),
            all == levels@.map_values(|level: TcbLevel| level@),
            forall|j: int| 0 <= j < i ==> !satisfied(#[trigger] all[j], pck@),
        decreases levels.len() - i,
    {
        assert(all[i as int] == levels@[i as int]@);
        if level_satisfied(&levels[i], pck) {
            proof {
                assert(first_satisfied(all, pck@, i as int));
                lemma_first_satisfied_selected(all, pck@, i as int);
            }
            return Some(&levels[i]);
        }
        i += 1;
    }
    assert(forall|k: int| !first_satisfied(all, pck@, k));
    None
}

/// The standing that a level's status stands for, if it is an accepted one.
pub fn standing_of_level(level: &TcbLevel) -> (standing: Result<TcbStanding, VerifyError>)
    ensures
        error::outcome(standing) == level_standing(level@),
{
    let status = level.tcb_status.as_str();
    if same_text(status, "UpToDate") {
        Ok(TcbStanding::UpToDate)
    } else if same_text(status, "SWHardeningNeeded") {
        let advisory_ids = level.advisory_ids.clone();
        assert(text::texts(advisory_ids@) =~= level@.advisory_ids);
        Ok(TcbStanding::SWHardeningNeeded { advisory_ids })
    } else if same_text(status, "ConfigurationAndSWHardeningNeeded") {
        // Accepted, but surfaced as its own distinct status (not collapsed into
        // SWHardeningNeeded) so a caller can choose to reject/alert on it.
        let advisory_ids = level.advisory_ids.clone();
        assert(text::texts(advisory_ids@) =~= level@.advisory_ids);
        Ok(TcbStanding::ConfigurationAndSWHardeningNeeded { advisory_ids })
    } else {
        Err(
            VerifyError::new(
                ErrorCategory::TcbLevelUnsupported,
                "the platform's TCB level carries status '".to_owned().concat(status).concat(
                    "', which is not accepted",
                ),
            ),
        )
    }
}

/// The platform's standing under a TCB info document.
pub fn platform_standing(info: &TcbInfo, pck: &PckPlatformTcb) -> (standing: Result<
    TcbStanding,
    VerifyError,
>)
    ensures
        error::outcome(standing) == standing_outcome(info@, pck@),
{
    let fmspc = decode_hex_field::<6>("TCB info fmspc", info.fmspc.as_str())?;
    if !same_bytes(fmspc.as_slice(), pck.fmspc.as_slice()) {
        return Err(
            VerifyError::new(
                ErrorCategory::TcbLevelUnsupported,
                "TCB info describes platform family ".to_owned().concat(
                    info.fmspc.as_str(),
                ).concat(", the quote's PCK certificate belongs to ").concat(
                    hex_encode(pck.fmspc.as_slice()).as_str(),
                ),
            ),
        );
    }
    let pce_id = decode_hex_field::<2>("TCB info pceId", info.pce_id.as_str())?;
    if !same_bytes(pce_id.as_slice(), pck.pce_id.as_slice()) {
        return Err(
            VerifyError::new(
                ErrorCategory::TcbLevelUnsupported,
                "TCB info describes PCE ".to_owned().concat(info.pce_id.as_str()).concat(
                    ", the quote's PCK certificate belongs to PCE ",
                ).concat(hex_encode(pck.pce_id.as_slice()).as_str()),
            ),
        );
    }
    match select_level(&info.tcb_levels, pck) {
        Some(level) => standing_of_level(level),
        None => Err(
            VerifyError::new(
                ErrorCategory::TcbLevelUnsupported,
                "platform TCB (components ".to_owned().concat(
                    decimal_list(pck.comp_svns.as_slice()).as_str(),
                ).concat(", pcesvn ").concat(decimal_u64(pck.pcesvn as u64).as_str()).concat(
                    ") meets none of the ",
                ).concat(decimal_u64(info.tcb_levels.len() as u64).as_str()).concat(
                    " levels in the TCB info",
                ),
            ),
        ),
    }
}

/// Whether two byte strings agree in every bit that `mask` selects.
pub open spec fn agree_under(actual: Seq<u8>, expected: Seq<u8>, mask: Seq<u8>) -> bool {
    forall|i: int|
        0 <= i < mask.len() ==> (#[trigger] actual[i] & mask[i]) == (expected[i] & mask[i])
}

pub fn masked_eq<const N: usize>(actual: &[u8; N], expected: &[u8; N], mask: &[u8; N]) -> (agree:
    bool)
    ensures
        agree == agree_under(actual@, expected@, mask@),
{
    let mut i: usize = 0;
    while i < N
        invariant
            i <= N,
            forall|j: int|
                0 <= j < i ==> (#[trigger] actual@[j] & mask@[j]) == (expected@[j] & mask@[j]),
        decreases N - i,
    {
        if actual[i] & mask[i] != expected[i] & mask[i] {
            assert((actual@[i as int] & mask@[i as int]) != (expected@[i as int]
                & mask@[i as int]));
            return false;
        }
        i += 1;
    }
    true
}

/// A rejection of the QE.
pub open spec fn qe_mismatch(detail: Seq<char>) -> Rejection {
    error::rejection(ErrorCategory::QeIdentityMismatch, detail)
}

/// Whether the level at `i` is the one a QE at `isv_svn` sits at: the highest that it reaches, and
/// of equal ones the last.
pub open spec fn qe_level_at(levels: Seq<QeTcbLevelView>, isv_svn: nat, i: int) -> bool {
    &&& 0 <= i < levels.len()
    &&& levels[i].isvsvn <= isv_svn
    &&& forall|j: int|
        0 <= j < levels.len() && (#[trigger] levels[j]).isvsvn <= isv_svn ==> levels[j].isvsvn
            < levels[i].isvsvn || (levels[j].isvsvn == levels[i].isvsvn && j <= i)
}

/// The level a QE at `isv_svn` sits at.
pub open spec fn qe_level(levels: Seq<QeTcbLevelView>, isv_svn: nat) -> Option<QeTcbLevelView> {
    if exists|i: int| qe_level_at(levels, isv_svn, i) {
        Some(levels[choose|i: int| qe_level_at(levels, isv_svn, i)])
    } else {
        None
    }
}

/// What is wrong with the level that a QE sits at: it must be there, and be up to date.
pub open spec fn qe_level_fault(levels: Seq<QeTcbLevelView>, isv_svn: nat) -> Option<Rejection> {
    match qe_level(levels, isv_svn) {
        None => Some(
            qe_mismatch(
                "QE isvsvn "@ + text::decimal(isv_svn as int)
                    + " is below every TCB level in the identity document"@,
            ),
        ),
        Some(level) => if level.tcb_status == "UpToDate"@ {
            None
        } else {
            Some(
                qe_mismatch(
                    "QE at isvsvn "@ + text::decimal(isv_svn as int) + " sits at TCB status '"@
                        + level.tcb_status + "' (level isvsvn "@ + text::decimal(
                        level.isvsvn as int,
                    ) + "), which is not current"@,
                ),
            )
        },
    }
}

/// What is wrong with the masked fields of a QE report, and then with its level.
pub open spec fn qe_masked_fault(identity: QeIdentityView, report: ReportFields) -> Option<
    Rejection,
> {
    match (
        hex_field("QE identity miscselect"@, identity.miscselect, 4),
        hex_field("QE identity miscselectMask"@, identity.miscselect_mask, 4),
    ) {
        (Err(fault), _) => Some(fault),
        (_, Err(fault)) => Some(fault),
        (Ok(miscselect), Ok(miscselect_mask)) => if !agree_under(
            report.misc_select,
            miscselect,
            miscselect_mask,
        ) {
            Some(
                qe_mismatch(
                    "QE report miscselect "@ + crypto::hex_text(report.misc_select)
                        + " does not match identity value "@ + identity.miscselect
                        + " under mask "@ + identity.miscselect_mask,
                ),
            )
        } else {
            match (
                hex_field("QE identity attributes"@, identity.attributes, 16),
                hex_field("QE identity attributesMask"@, identity.attributes_mask, 16),
            ) {
                (Err(fault), _) => Some(fault),
                (_, Err(fault)) => Some(fault),
                (Ok(attributes), Ok(attributes_mask)) => if !agree_under(
                    report.attributes,
                    attributes,
                    attributes_mask,
                ) {
                    Some(
                        qe_mismatch(
                            "QE report attributes "@ + crypto::hex_text(report.attributes)
                                + " do not match identity value "@ + identity.attributes
                                + " under mask "@ + identity.attributes_mask,
                        ),
                    )
                } else {
                    qe_level_fault(identity.tcb_levels, report.isv_svn)
                },
            }
        },
    }
}

/// What is wrong with a QE report under a QE identity: the document's subject, the signer, the
/// product, the masked fields, then the level.
pub open spec fn qe_identity_fault(identity: QeIdentityView, report: ReportFields) -> Option<
    Rejection,
> {
    if identity.id != "QE"@ {
        Some(
            qe_mismatch(
                "identity document describes enclave '"@ + identity.id
                    + "', expected the SGX QE"@,
            ),
        )
    } else {
        match hex_field("QE identity mrsigner"@, identity.mrsigner, 32) {
            Err(fault) => Some(fault),
            Ok(mrsigner) => if mrsigner != report.mrsigner {
                Some(
                    qe_mismatch(
                        "QE report is signed by "@ + crypto::hex_text(report.mrsigner)
                            + ", identity requires "@ + identity.mrsigner,
                    ),
                )
            } else if identity.isvprodid != report.isv_prod_id {
                Some(
                    qe_mismatch(
                        "QE report carries product id "@ + text::decimal(
                            report.isv_prod_id as int,
                        ) + ", identity requires "@ + text::decimal(identity.isvprodid as int),
                    ),
                )
            } else {
                qe_masked_fault(identity, report)
            },
        }
    }
}

proof fn lemma_qe_level_at_selected(levels: Seq<QeTcbLevelView>, isv_svn: nat, i: int)
    requires
        qe_level_at(levels, isv_svn, i),
    ensures
        qe_level(levels, isv_svn) == Some(levels[i]),
{
    let k = choose|k: int| qe_level_at(levels, isv_svn, k);
    assert(qe_level_at(levels, isv_svn, k));
    assert(levels[k].isvsvn <= isv_svn && levels[i].isvsvn <= isv_svn);
    assert(k == i);
}

/// Requires the level that a QE at `isv_svn` sits at to be up to date.
pub fn check_qe_level(levels: &Vec<QeTcbLevel>, isv_svn: u16) -> (checked: Result<
    (),
    VerifyError,
>)
    ensures
        error::verdict(checked) == qe_level_fault(
            levels@.map_values(|level: QeTcbLevel| level@),
            isv_svn as nat,
        ),
{
    let ghost all = levels@.map_values(|level: QeTcbLevel| level@);
    let ghost svn = isv_svn as nat;
    let mut best: Option<usize> = None;
    let mut i: usize = 0;
    while i < levels.len()
        invariant
            i <= levels.len(),
            svn == isv_svn,
            all == levels@.map_values(|level: QeTcbLevel| level@),
            match best {
                None => forall|j: int| 0 <= j < i ==> (#[trigger] all[j]).isvsvn > svn,
                Some(b) => {
                    &&& b < i
                    &&& all[b as int].isvsvn <= svn
                    &&& forall|j: int|
                        0 <= j < i && (#[trigger] all[j]).isvsvn <= svn ==> all[j].isvsvn
                            < all[b as int].isvsvn || (all[j].isvsvn == all[b as int].isvsvn && j
                            <= b)
                },
            },
        decreases levels.len() - i,
    {
        assert(all[i as int] == levels@[i as int]@);
        if levels[i].tcb.isvsvn <= isv_svn {
            match best {
                None => {
                    best = Some(i);
                },
                Some(b) => {
                    assert(all[b as int] == levels@[b as int]@);
                    if levels[b].tcb.isvsvn <= levels[i].tcb.isvsvn {
                        best = Some(i);
                    }
                },
            }
        }
        i += 1;
    }
    match best {
        None => {
            assert(forall|k: int| !qe_level_at(all, svn, k));
            Err(
                VerifyError::new(
                    ErrorCategory::QeIdentityMismatch,
                    "QE isvsvn ".to_owned().concat(decimal_u64(isv_svn as u64).as_str()).concat(
                        " is below every TCB level in the identity document",
                    ),
                ),
            )
        },
        Some(b) => {
            proof {
                assert(qe_level_at(all, svn, b as int));
                lemma_qe_level_at_selected(all, svn, b as int);
                assert(all[b as int] == levels@[b as int]@);
            }
            let level = &levels[b];
            if same_text(level.tcb_status.as_str(), "UpToDate") {
                return Ok(());
            }
            Err(
                VerifyError::new(
                    ErrorCategory::QeIdentityMismatch,
                    "QE at isvsvn ".to_owned().concat(
                        decimal_u64(isv_svn as u64).as_str(),
                    ).concat(" sits at TCB status '").concat(level.tcb_status.as_str()).concat(
                        "' (level isvsvn ",
                    ).concat(decimal_u64(level.tcb.isvsvn as u64).as_str()).concat(
                        "), which is not current",
                    ),
                ),
            )
        },
    }
}

/// Holds the QE's report against the QE identity document.
pub fn check_qe_identity(identity: &QeIdentity, qe_report: &SgxReportBody) -> (checked: Result<
    (),
    VerifyError,
>)
    ensures
        error::verdict(checked) == qe_identity_fault(identity@, qe_report@),
{
    if !same_text(identity.id.as_str(), "QE") {
        return Err(
            VerifyError::new(
                ErrorCategory::QeIdentityMismatch,
                "identity document describes enclave '".to_owned().concat(
                    identity.id.as_str(),
                ).concat("', expected the SGX QE"),
            ),
        );
    }
    let mrsigner = decode_hex_field::<32>("QE identity mrsigner", identity.mrsigner.as_str())?;
    if !same_bytes(mrsigner.as_slice(), qe_report.mrsigner.as_slice()) {
        return Err(
            VerifyError::new(
                ErrorCategory::QeIdentityMismatch,
                "QE report is signed by ".to_owned().concat(
                    hex_encode(qe_report.mrsigner.as_slice()).as_str(),
                ).concat(", identity requires ").concat(identity.mrsigner.as_str()),
            ),
        );
    }
    if identity.isvprodid != qe_report.isv_prod_id {
        return Err(
            VerifyError::new(
                ErrorCategory::QeIdentityMismatch,
                "QE report carries product id ".to_owned().concat(
                    decimal_u64(qe_report.isv_prod_id as u64).as_str(),
                ).concat(", identity requires ").concat(
                    decimal_u64(identity.isvprodid as u64).as_str(),
                ),
            ),
        );
    }
    let miscselect = decode_hex_field::<4>(
        "QE identity miscselect",
        identity.miscselect.as_str(),
    )?;
    let miscselect_mask = decode_hex_field::<4>(
        "QE identity miscselectMask",
        identity.miscselect_mask.as_str(),
    )?;
    if !masked_eq::<4>(&qe_report.misc_select, &miscselect, &miscselect_mask) {
        return Err(
            VerifyError::new(
                ErrorCategory::QeIdentityMismatch,
                "QE report miscselect ".to_owned().concat(
                    hex_encode(qe_report.misc_select.as_slice()).as_str(),
                ).concat(" does not match identity value ").concat(
                    identity.miscselect.as_str(),
                ).concat(" under mask ").concat(identity.miscselect_mask.as_str()),
            ),
        );
    }
    let attributes = decode_hex_field::<16>(
        "QE identity attributes",
        identity.attributes.as_str(),
    )?;
    let attributes_mask = decode_hex_field::<16>(
        "QE identity attributesMask",
        identity.attributes_mask.as_str(),
    )?;
    if !masked_eq::<16>(&qe_report.attributes, &attributes, &attributes_mask) {
        return Err(
            VerifyError::new(
                ErrorCategory::QeIdentityMismatch,
                "QE report attributes ".to_owned().concat(
                    hex_encode(qe_report.attributes.as_slice()).as_str(),
                ).concat(" do not match identity value ").concat(
                    identity.attributes.as_str(),
                ).concat(" under mask ").concat(identity.attributes_mask.as_str()),
            ),
        );
    }
    check_qe_level(&identity.tcb_levels, qe_report.isv_svn)
}

/// Bits outside the mask do not matter: what differs only there compares alike.
pub proof fn bits_outside_the_mask_do_not_matter(
    actual: Seq<u8>,
    other: Seq<u8>,
    expected: Seq<u8>,
    mask: Seq<u8>,
)
    requires
        agree_under(actual, other, mask),
    ensures
        agree_under(actual, expected, mask) == agree_under(other, expected, mask),
{
    if agree_under(actual, expected, mask) {
        assert forall|i: int| 0 <= i < mask.len() implies (#[trigger] other[i] & mask[i]) == (
        expected[i] & mask[i]) by {
            assert((actual[i] & mask[i]) == (other[i] & mask[i]));
            assert((actual[i] & mask[i]) == (expected[i] & mask[i]));
        }
    }
    if agree_under(other, expected, mask) {
        assert forall|i: int| 0 <= i < mask.len() implies (#[trigger] actual[i] & mask[i]) == (
        expected[i] & mask[i]) by {
            assert((actual[i] & mask[i]) == (other[i] & mask[i]));
            assert((other[i] & mask[i]) == (expected[i] & mask[i]));
        }
    }
}

/// Under a mask of zeros everything compares alike.
pub proof fn a_zero_mask_selects_nothing(actual: Seq<u8>, expected: Seq<u8>, mask: Seq<u8>)
    requires
        forall|i: int| 0 <= i < mask.len() ==> #[trigger] mask[i] == 0,
    ensures
        agree_under(actual, expected, mask),
{
    assert forall|i: int| 0 <= i < mask.len() implies (#[trigger] actual[i] & mask[i]) == (
    expected[i] & mask[i]) by {
        let (a, e, m) = (actual[i], expected[i], mask[i]);
        assert(m == 0);
        assert((a & m) == (e & m)) by (bit_vector)
            requires
                m == 0,
        ;
    }
}

/// A level is selected exactly when the platform meets some level, and then it meets the selected
/// one and none before it.
pub proof fn a_level_is_selected_when_one_is_met(levels: Seq<TcbLevelView>, platform: PlatformView)
    ensures
        selected_level(levels, platform) is Some <==> exists|i: int|
            0 <= i < levels.len() && satisfied(#[trigger] levels[i], platform),
        selected_level(levels, platform) matches Some(level) ==> satisfied(level, platform)
            && exists|i: int| #[trigger] first_satisfied(levels, platform, i) && levels[i] == level,
    decreases levels.len(),
{
    if exists|i: int| 0 <= i < levels.len() && satisfied(#[trigger] levels[i], platform) {
        let i = choose|i: int| 0 <= i < levels.len() && satisfied(#[trigger] levels[i], platform);
        lemma_some_first(levels, platform, i);
    }
}

proof fn lemma_some_first(levels: Seq<TcbLevelView>, platform: PlatformView, i: int)
    requires
        0 <= i < levels.len(),
        satisfied(levels[i], platform),
    ensures
        exists|k: int| first_satisfied(levels, platform, k),
    decreases i,
{
    if exists|j: int| 0 <= j < i && satisfied(#[trigger] levels[j], platform) {
        let j = choose|j: int| 0 <= j < i && satisfied(#[trigger] levels[j], platform);
        lemma_some_first(levels, platform, j);
    } else {
        assert(first_satisfied(levels, platform, i));
    }
}

/// Position decides, not what comes later: levels behind the selected one never matter.
pub proof fn later_levels_do_not_matter(
    levels: Seq<TcbLevelView>,
    more: Seq<TcbLevelView>,
    platform: PlatformView,
)
    requires
        selected_level(levels, platform) is Some,
    ensures
        selected_level(levels + more, platform) == selected_level(levels, platform),
{
    let i = choose|i: int| first_satisfied(levels, platform, i);
    assert(first_satisfied(levels, platform, i));
    let all = levels + more;
    assert forall|j: int| 0 <= j < i implies !satisfied(#[trigger] all[j], platform) by {
        assert(all[j] == levels[j]);
    }
    assert(first_satisfied(all, platform, i));
    lemma_first_satisfied_selected(all, platform, i);
    lemma_first_satisfied_selected(levels, platform, i);
}

/// A QE sits at a level exactly when it reaches one, and then at the highest that it reaches.
pub proof fn a_qe_sits_at_the_highest_level_reached(levels: Seq<QeTcbLevelView>, isv_svn: nat)
    ensures
        qe_level(levels, isv_svn) is Some <==> exists|i: int|
            0 <= i < levels.len() && (#[trigger] levels[i]).isvsvn <= isv_svn,
        qe_level(levels, isv_svn) matches Some(level) ==> level.isvsvn <= isv_svn && forall|i: int|
            0 <= i < levels.len() && (#[trigger] levels[i]).isvsvn <= isv_svn ==> levels[i].isvsvn
                <= level.isvsvn,
{
    if exists|i: int| 0 <= i < levels.len() && (#[trigger] levels[i]).isvsvn <= isv_svn {
        lemma_some_qe_level(levels, isv_svn);
    }
}

proof fn lemma_some_qe_level(levels: Seq<QeTcbLevelView>, isv_svn: nat)
    requires
        exists|i: int| 0 <= i < levels.len() && (#[trigger] levels[i]).isvsvn <= isv_svn,
    ensures
        exists|k: int| qe_level_at(levels, isv_svn, k),
    decreases levels.len(),
{
    let last = levels.len() - 1;
    let front = levels.drop_last();
    if exists|i: int| 0 <= i < front.len() && (#[trigger] front[i]).isvsvn <= isv_svn {
        lemma_some_qe_level(front, isv_svn);
        let k = choose|k: int| qe_level_at(front, isv_svn, k);
        assert(qe_level_at(front, isv_svn, k));
        assert(forall|j: int| 0 <= j < front.len() ==> front[j] == #[trigger] levels[j]);
        if levels[last].isvsvn <= isv_svn && levels[k].isvsvn <= levels[last].isvsvn {
            assert(qe_level_at(levels, isv_svn, last));
        } else {
            assert(qe_level_at(levels, isv_svn, k));
        }
    } else {
        let i = choose|i: int| 0 <= i < levels.len() && (#[trigger] levels[i]).isvsvn <= isv_svn;
        assert(forall|j: int| 0 <= j < front.len() ==> front[j] == #[trigger] levels[j]);
        assert(i == last);
        assert(qe_level_at(levels, isv_svn, last));
    }
}

/// The order of a QE identity's levels does not matter, as long as no two share an SVN.
pub proof fn the_order_of_qe_levels_does_not_matter(
    levels: Seq<QeTcbLevelView>,
    other: Seq<QeTcbLevelView>,
    isv_svn: nat,
)
    requires
        forall|l: QeTcbLevelView| levels.contains(l) <==> other.contains(l),
        forall|i: int, j: int|
            0 <= i < levels.len() && 0 <= j < levels.len() && (#[trigger] levels[i]).isvsvn == (
            #[trigger] levels[j]).isvsvn ==> levels[i] == levels[j],
    ensures
        qe_level(levels, isv_svn) == qe_level(other, isv_svn),
{
    a_qe_sits_at_the_highest_level_reached(levels, isv_svn);
    a_qe_sits_at_the_highest_level_reached(other, isv_svn);
    if qe_level(levels, isv_svn) is Some {
        let k = choose|k: int| qe_level_at(levels, isv_svn, k);
        assert(levels.contains(levels[k]));
        let m = choose|m: int| 0 <= m < other.len() && other[m] == levels[k];
        assert(other[m].isvsvn <= isv_svn);
    }
    if qe_level(other, isv_svn) is Some {
        let k = choose|k: int| qe_level_at(other, isv_svn, k);
        assert(other.contains(other[k]));
        let m = choose|m: int| 0 <= m < levels.len() && levels[m] == other[k];
        assert(levels[m].isvsvn <= isv_svn);
        let n = choose|n: int| qe_level_at(levels, isv_svn, n);
        assert(qe_level_at(levels, isv_svn, n));
        assert(levels.contains(levels[n]));
        let q = choose|q: int| 0 <= q < other.len() && other[q] == levels[n];
        assert(other[q].isvsvn <= isv_svn);
        assert(levels[n].isvsvn == levels[m].isvsvn);
        assert(levels[n] == levels[m]);
    }
}

/// Three statuses are accepted, each as a standing of its own with the level's advisories; any
/// other is rejected.
pub proof fn three_statuses_are_accepted_and_told_apart(level: TcbLevelView)
    ensures
        level_standing(level) is Ok <==> {
            ||| level.tcb_status == "UpToDate"@
            ||| level.tcb_status == "SWHardeningNeeded"@
            ||| level.tcb_status == "ConfigurationAndSWHardeningNeeded"@
        },
        level_standing(level) matches Ok(standing) ==> match standing {
            StandingView::UpToDate => level.tcb_status == "UpToDate"@,
            StandingView::SWHardeningNeeded { advisory_ids } => level.tcb_status
                == "SWHardeningNeeded"@ && advisory_ids == level.advisory_ids,
            StandingView::ConfigurationAndSWHardeningNeeded { advisory_ids } => level.tcb_status
                == "ConfigurationAndSWHardeningNeeded"@ && advisory_ids == level.advisory_ids,
        },
        level_standing(level) matches Err(fault) ==> fault.category
            == ErrorCategory::TcbLevelUnsupported,
{
}

/// A level that asks for more than a platform has, in any one of its sixteen components or in the
/// PCE's SVN, is never the one selected; nor is a level without sixteen components.
pub proof fn a_level_above_the_platform_is_never_selected(
    levels: Seq<TcbLevelView>,
    platform: PlatformView,
    level: TcbLevelView,
    k: int,
)
    requires
        ({
            ||| 0 <= k < 16 && platform.comp_svns[k] < level.component_svns[k]
            ||| platform.pcesvn < level.pcesvn
            ||| level.component_svns.len() != 16
        }),
    ensures
        selected_level(levels, platform) != Some(level),
{
    a_level_is_selected_when_one_is_met(levels, platform);
}

/// The first level that asks for no more than a platform has, in all sixteen components and in the
/// PCE's SVN, is the one selected.
pub proof fn the_first_level_not_above_the_platform_is_selected(
    levels: Seq<TcbLevelView>,
    platform: PlatformView,
    i: int,
)
    requires
        0 <= i < levels.len(),
        levels[i].component_svns.len() == 16,
        forall|k: int| 0 <= k < 16 ==> #[trigger] levels[i].component_svns[k] <= platform.comp_svns[k],
        levels[i].pcesvn <= platform.pcesvn,
        forall|j: int|
            #![trigger levels[j]]
            0 <= j < i ==> {
                ||| levels[j].component_svns.len() != 16
                ||| platform.pcesvn < levels[j].pcesvn
                ||| exists|k: int|
                    0 <= k < 16 && platform.comp_svns[k] < #[trigger] levels[j].component_svns[k]
            },
    ensures
        selected_level(levels, platform) == Some(levels[i]),
{
    assert(satisfied(levels[i], platform));
    assert forall|j: int| 0 <= j < i implies !satisfied(#[trigger] levels[j], platform) by {}
    assert(first_satisfied(levels, platform, i));
    lemma_first_satisfied_selected(levels, platform, i);
}

/// A level that a platform falls short of in one component might as well not be there.
pub proof fn levels_not_reached_do_not_matter(
    levels: Seq<TcbLevelView>,
    platform: PlatformView,
    i: int,
    k: int,
)
    requires
        0 <= i < levels.len(),
        0 <= k < 16,
        platform.comp_svns[k] < levels[i].component_svns[k],
    ensures
        selected_level(levels.remove(i), platform) == selected_level(levels, platform),
{
    let fewer = levels.remove(i);
    assert(!satisfied(levels[i], platform));
    if selected_level(levels, platform) is Some {
        let f = choose|f: int| first_satisfied(levels, platform, f);
        assert(first_satisfied(levels, platform, f));
        let g = if f < i {
            f
        } else {
            f - 1
        };
        assert(fewer[g] == levels[f]);
        assert forall|j: int| 0 <= j < g implies !satisfied(#[trigger] fewer[j], platform) by {
            let was = if j < i {
                j
            } else {
                j + 1
            };
            assert(fewer[j] == levels[was]);
        }
        assert(first_satisfied(fewer, platform, g));
        lemma_first_satisfied_selected(fewer, platform, g);
        lemma_first_satisfied_selected(levels, platform, f);
    } else if selected_level(fewer, platform) is Some {
        let g = choose|g: int| first_satisfied(fewer, platform, g);
        let was = if g < i {
            g
        } else {
            g + 1
        };
        assert(fewer[g] == levels[was]);
        lemma_some_first(levels, platform, was);
    }
}

/// An accepted platform is of the family and PCE that the TCB info is for, and meets one of its
/// levels in every component and in the PCE's SVN; it meets none before that one, and its standing
/// is what that level's status says, with that level's advisories.
pub proof fn accepted_platforms_meet_the_level_of_their_standing(
    info: TcbInfo,
    pck: PckPlatformTcb,
) -> (i: int)
    requires
        standing_outcome(info@, pck@) is Ok,
    ensures
        crypto::is_hex(info.fmspc@) && crypto::unhex(info.fmspc@) == pck.fmspc@,
        crypto::is_hex(info.pce_id@) && crypto::unhex(info.pce_id@) == pck.pce_id@,
        0 <= i < info.tcb_levels@.len(),
        info.tcb_levels@[i].tcb.sgxtcbcomponents@.len() == 16,
        forall|k: int|
            0 <= k < 16 ==> (#[trigger] info.tcb_levels@[i].tcb.sgxtcbcomponents@[k]).svn
                <= pck.comp_svns@[k],
        info.tcb_levels@[i].tcb.pcesvn <= pck.pcesvn,
        forall|j: int|
            #![trigger info.tcb_levels@[j]]
            0 <= j < i && info.tcb_levels@[j].tcb.sgxtcbcomponents@.len() == 16
                && info.tcb_levels@[j].tcb.pcesvn <= pck.pcesvn ==> exists|k: int|
                0 <= k < 16 && pck.comp_svns@[k] < (
                #[trigger] info.tcb_levels@[j].tcb.sgxtcbcomponents@[k]).svn,
        ({
            let status = info.tcb_levels@[i].tcb_status@;
            match standing_outcome(info@, pck@)->Ok_0 {
                StandingView::UpToDate => status == "UpToDate"@,
                StandingView::SWHardeningNeeded { advisory_ids } => status
                    == "SWHardeningNeeded"@ && advisory_ids == text::texts(
                    info.tcb_levels@[i].advisory_ids@,
                ),
                StandingView::ConfigurationAndSWHardeningNeeded { advisory_ids } => status
                    == "ConfigurationAndSWHardeningNeeded"@ && advisory_ids == text::texts(
                    info.tcb_levels@[i].advisory_ids@,
                ),
            }
        }),
{
    let all = info@.tcb_levels;
    assert(selected_level(all, pck@) is Some);
    let i = choose|i: int| first_satisfied(all, pck@, i);
    assert(first_satisfied(all, pck@, i));
    lemma_first_satisfied_selected(all, pck@, i);
    assert(all[i] == info.tcb_levels@[i]@);
    assert forall|k: int| 0 <= k < 16 implies (
    #[trigger] info.tcb_levels@[i].tcb.sgxtcbcomponents@[k]).svn <= pck.comp_svns@[k] by {
        assert(all[i].component_svns[k] == info.tcb_levels@[i].tcb.sgxtcbcomponents@[k].svn);
    }
    assert forall|j: int|
        #![trigger info.tcb_levels@[j]]
        0 <= j < i && info.tcb_levels@[j].tcb.sgxtcbcomponents@.len() == 16
            && info.tcb_levels@[j].tcb.pcesvn <= pck.pcesvn implies exists|k: int|
        0 <= k < 16 && pck.comp_svns@[k] < (
        #[trigger] info.tcb_levels@[j].tcb.sgxtcbcomponents@[k]).svn by {
        assert(all[j] == info.tcb_levels@[j]@);
        assert(!satisfied(all[j], pck@));
        let k = choose|k: int|
            0 <= k < 16 && !(pck@.comp_svns[k] >= #[trigger] all[j].component_svns[k]);
        assert(all[j].component_svns[k] == info.tcb_levels@[j].tcb.sgxtcbcomponents@[k].svn);
    }
    i
}

/// A platform of the right family and PCE whose first level reached carries a status is accepted
/// with the standing of that status, and rejected when the status is none of the accepted three.
pub proof fn the_first_level_reached_decides_the_standing(
    info: TcbInfo,
    pck: PckPlatformTcb,
    i: int,
)
    requires
        crypto::is_hex(info.fmspc@) && crypto::unhex(info.fmspc@) == pck.fmspc@,
        crypto::is_hex(info.pce_id@) && crypto::unhex(info.pce_id@) == pck.pce_id@,
        0 <= i < info.tcb_levels@.len(),
        info.tcb_levels@[i].tcb.sgxtcbcomponents@.len() == 16,
        forall|k: int|
            0 <= k < 16 ==> (#[trigger] info.tcb_levels@[i].tcb.sgxtcbcomponents@[k]).svn
                <= pck.comp_svns@[k],
        info.tcb_levels@[i].tcb.pcesvn <= pck.pcesvn,
        forall|j: int|
            #![trigger info.tcb_levels@[j]]
            0 <= j < i ==> {
                ||| info.tcb_levels@[j].tcb.sgxtcbcomponents@.len() != 16
                ||| pck.pcesvn < info.tcb_levels@[j].tcb.pcesvn
                ||| exists|k: int|
                    0 <= k < 16 && pck.comp_svns@[k] < (
                    #[trigger] info.tcb_levels@[j].tcb.sgxtcbcomponents@[k]).svn
            },
    ensures
        ({
            let status = info.tcb_levels@[i].tcb_status@;
            let advisory_ids = text::texts(info.tcb_levels@[i].advisory_ids@);
            let outcome = standing_outcome(info@, pck@);
            &&& status == "UpToDate"@ ==> outcome == Ok::<StandingView, Rejection>(
                StandingView::UpToDate,
            )
            &&& status == "SWHardeningNeeded"@ ==> outcome == Ok::<StandingView, Rejection>(
                StandingView::SWHardeningNeeded { advisory_ids },
            )
            &&& status == "ConfigurationAndSWHardeningNeeded"@ ==> outcome == Ok::<
                StandingView,
                Rejection,
            >(StandingView::ConfigurationAndSWHardeningNeeded { advisory_ids })
            &&& status != "UpToDate"@ && status != "SWHardeningNeeded"@ && status
                != "ConfigurationAndSWHardeningNeeded"@ ==> (outcome matches Err(fault)
                && fault.category == ErrorCategory::TcbLevelUnsupported)
        }),
{
    let all = info@.tcb_levels;
    assert(all[i] == info.tcb_levels@[i]@);
    assert forall|k: int| 0 <= k < 16 implies #[trigger] all[i].component_svns[k]
        <= pck@.comp_svns[k] by {
        assert(info.tcb_levels@[i].tcb.sgxtcbcomponents@[k].svn <= pck.comp_svns@[k]);
    }
    assert forall|j: int| #![trigger all[j]] 0 <= j < i implies {
        ||| all[j].component_svns.len() != 16
        ||| pck@.pcesvn < all[j].pcesvn
        ||| exists|k: int| 0 <= k < 16 && pck@.comp_svns[k] < #[trigger] all[j].component_svns[k]
    } by {
        let level = info.tcb_levels@[j];
        assert(all[j] == level@);
        if level.tcb.sgxtcbcomponents@.len() == 16 && level.tcb.pcesvn <= pck.pcesvn {
            let k = choose|k: int|
                0 <= k < 16 && pck.comp_svns@[k] < (
                #[trigger] info.tcb_levels@[j].tcb.sgxtcbcomponents@[k]).svn;
            assert(all[j].component_svns[k] == level.tcb.sgxtcbcomponents@[k].svn);
        }
    }
    the_first_level_not_above_the_platform_is_selected(all, pck@, i);
    reveal_strlit("UpToDate");
    reveal_strlit("SWHardeningNeeded");
    reveal_strlit("ConfigurationAndSWHardeningNeeded");
    assert("UpToDate"@.len() == 8 && "SWHardeningNeeded"@.len() == 17);
    assert("ConfigurationAndSWHardeningNeeded"@.len() == 33);
}

/// A platform of another family or PCE than the TCB info's, or that reaches none of its levels, is
/// rejected for its TCB level; family or PCE texts that cannot be read are a parse failure.
pub proof fn other_platforms_are_rejected_for_their_level(info: TcbInfo, pck: PckPlatformTcb)
    ensures
        standing_outcome(info@, pck@) matches Err(fault) ==> fault.category == (if !crypto::is_hex(
            info.fmspc@,
        ) || info.fmspc@.len() != 12 || (crypto::unhex(info.fmspc@) == pck.fmspc@ && (
        !crypto::is_hex(info.pce_id@) || info.pce_id@.len() != 4)) {
            ErrorCategory::CollateralParse
        } else {
            ErrorCategory::TcbLevelUnsupported
        }),
        crypto::unhex(info.fmspc@) != pck.fmspc@ || crypto::unhex(info.pce_id@) != pck.pce_id@
            ==> standing_outcome(info@, pck@) is Err,
        (forall|j: int|
            #![trigger info.tcb_levels@[j]]
            0 <= j < info.tcb_levels@.len() ==> {
                ||| info.tcb_levels@[j].tcb.sgxtcbcomponents@.len() != 16
                ||| pck.pcesvn < info.tcb_levels@[j].tcb.pcesvn
                ||| exists|k: int|
                    0 <= k < 16 && pck.comp_svns@[k] < (
                    #[trigger] info.tcb_levels@[j].tcb.sgxtcbcomponents@[k]).svn
            }) ==> standing_outcome(info@, pck@) is Err,
{
    if standing_outcome(info@, pck@) is Ok {
        let i = accepted_platforms_meet_the_level_of_their_standing(info, pck);
        assert(0 <= i < info.tcb_levels@.len());
        let level = info.tcb_levels@[i];
    }
}

/// What compares alike under a mask agrees in exactly the bits that the mask selects.
pub proof fn the_mask_selects_bits(actual: Seq<u8>, expected: Seq<u8>, mask: Seq<u8>)
    ensures
        agree_under(actual, expected, mask) <==> forall|i: int, bit: u8|
            #![trigger actual[i], mask[i] >> bit]
            0 <= i < mask.len() && bit < 8 && (mask[i] >> bit) & 1 == 1 ==> (actual[i] >> bit) & 1
                == (expected[i] >> bit) & 1,
{
    if agree_under(actual, expected, mask) {
        assert forall|i: int, bit: u8|
            #![trigger actual[i], mask[i] >> bit]
            0 <= i < mask.len() && bit < 8 && (mask[i] >> bit) & 1 == 1 implies (actual[i] >> bit)
            & 1 == (expected[i] >> bit) & 1 by {
            let (a, e, m) = (actual[i], expected[i], mask[i]);
            assert((a & m) == (e & m));
            assert((a >> bit) & 1 == (e >> bit) & 1) by (bit_vector)
                requires
                    (a & m) == (e & m),
                    bit < 8,
                    (m >> bit) & 1 == 1,
            ;
        }
    }
    if forall|i: int, bit: u8|
        #![trigger actual[i], mask[i] >> bit]
        0 <= i < mask.len() && bit < 8 && (mask[i] >> bit) & 1 == 1 ==> (actual[i] >> bit) & 1 == (
        expected[i] >> bit) & 1 {
        assert forall|i: int| 0 <= i < mask.len() implies (#[trigger] actual[i] & mask[i]) == (
        expected[i] & mask[i]) by {
            let (a, e, m) = (actual[i], expected[i], mask[i]);
            assert((m >> 0u8) & 1 == 1 ==> (a >> 0u8) & 1 == (e >> 0u8) & 1);
            assert((m >> 1u8) & 1 == 1 ==> (a >> 1u8) & 1 == (e >> 1u8) & 1);
            assert((m >> 2u8) & 1 == 1 ==> (a >> 2u8) & 1 == (e >> 2u8) & 1);
            assert((m >> 3u8) & 1 == 1 ==> (a >> 3u8) & 1 == (e >> 3u8) & 1);
            assert((m >> 4u8) & 1 == 1 ==> (a >> 4u8) & 1 == (e >> 4u8) & 1);
            assert((m >> 5u8) & 1 == 1 ==> (a >> 5u8) & 1 == (e >> 5u8) & 1);
            assert((m >> 6u8) & 1 == 1 ==> (a >> 6u8) & 1 == (e >> 6u8) & 1);
            assert((m >> 7u8) & 1 == 1 ==> (a >> 7u8) & 1 == (e >> 7u8) & 1);
            assert((a & m) == (e & m)) by (bit_vector)
                requires
                    (m >> 0u8) & 1 == 1 ==> (a >> 0u8) & 1 == (e >> 0u8) & 1,
                    (m >> 1u8) & 1 == 1 ==> (a >> 1u8) & 1 == (e >> 1u8) & 1,
                    (m >> 2u8) & 1 == 1 ==> (a >> 2u8) & 1 == (e >> 2u8) & 1,
                    (m >> 3u8) & 1 == 1 ==> (a >> 3u8) & 1 == (e >> 3u8) & 1,
                    (m >> 4u8) & 1 == 1 ==> (a >> 4u8) & 1 == (e >> 4u8) & 1,
                    (m >> 5u8) & 1 == 1 ==> (a >> 5u8) & 1 == (e >> 5u8) & 1,
                    (m >> 6u8) & 1 == 1 ==> (a >> 6u8) & 1 == (e >> 6u8) & 1,
                    (m >> 7u8) & 1 == 1 ==> (a >> 7u8) & 1 == (e >> 7u8) & 1,
            ;
        }
    }
}

/// A QE passes for its level exactly when the highest level that it reaches, and of equal ones the
/// last, carries the status "UpToDate"; otherwise it is a mismatch.
pub proof fn only_an_up_to_date_highest_level_passes(levels: Seq<QeTcbLevelView>, isv_svn: nat)
    ensures
        qe_level_fault(levels, isv_svn) is None <==> exists|i: int|
            #![trigger levels[i]]
            {
                &&& 0 <= i < levels.len()
                &&& levels[i].isvsvn <= isv_svn
                &&& levels[i].tcb_status == "UpToDate"@
                &&& forall|j: int|
                    0 <= j < levels.len() && (#[trigger] levels[j]).isvsvn <= isv_svn
                        ==> levels[j].isvsvn < levels[i].isvsvn || (levels[j].isvsvn
                        == levels[i].isvsvn && j <= i)
            },
        qe_level_fault(levels, isv_svn) matches Some(fault) ==> fault.category
            == ErrorCategory::QeIdentityMismatch,
{
    if qe_level_fault(levels, isv_svn) is None {
        let i = choose|i: int| qe_level_at(levels, isv_svn, i);
        assert(qe_level_at(levels, isv_svn, i));
        lemma_qe_level_at_selected(levels, isv_svn, i);
        assert(levels[i].tcb_status == "UpToDate"@);
    }
    if exists|i: int|
        #![trigger levels[i]]
        {
            &&& 0 <= i < levels.len()
            &&& levels[i].isvsvn <= isv_svn
            &&& levels[i].tcb_status == "UpToDate"@
            &&& forall|j: int|
                0 <= j < levels.len() && (#[trigger] levels[j]).isvsvn <= isv_svn
                    ==> levels[j].isvsvn < levels[i].isvsvn || (levels[j].isvsvn
                    == levels[i].isvsvn && j <= i)
        } {
        let i = choose|i: int|
            #![trigger levels[i]]
            {
                &&& 0 <= i < levels.len()
                &&& levels[i].isvsvn <= isv_svn
                &&& levels[i].tcb_status == "UpToDate"@
                &&& forall|j: int|
                    0 <= j < levels.len() && (#[trigger] levels[j]).isvsvn <= isv_svn
                        ==> levels[j].isvsvn < levels[i].isvsvn || (levels[j].isvsvn
                        == levels[i].isvsvn && j <= i)
            };
        assert(qe_level_at(levels, isv_svn, i));
        lemma_qe_level_at_selected(levels, isv_svn, i);
    }
}

/// What a hex field holds is read two digits a byte, and only at its full length: a byte string of
/// the right size written in hex reads back, and any text that is read is hex of twice that length.
pub proof fn hex_fields_read_back(what: Seq<char>, value: Seq<char>, bytes: Seq<u8>, size: int)
    ensures
        hex_field(what, crypto::hex_text(bytes), bytes.len() as int) == Ok::<Seq<u8>, Rejection>(
            bytes,
        ),
        hex_field(what, value, size) matches Ok(read) ==> crypto::is_hex(value) && value.len() == 2
            * size && read.len() == size && read == crypto::unhex(value),
        crypto::is_hex(value) && value.len() == 2 * size ==> hex_field(what, value, size) is Ok,
        hex_field(what, value, size) matches Err(fault) ==> fault.category
            == ErrorCategory::CollateralParse,
{
    crypto::hex_text_reads_back(bytes);
}

/// A QE report passes under a QE identity exactly when the document is for the QE, the signer and
/// the product are the document's, `miscselect` and the attributes are the document's in every bit
/// that its masks select, and the highest level reached is up to date. A document that cannot be
/// read is a parse failure, anything else a mismatch.
pub proof fn a_qe_passes_when_every_field_matches(identity: QeIdentity, report: SgxReportBody)
    ensures
        ({
            let fault = qe_identity_fault(identity@, report@);
            let readable = {
                &&& crypto::is_hex(identity.mrsigner@) && identity.mrsigner@.len() == 64
                &&& crypto::is_hex(identity.miscselect@) && identity.miscselect@.len() == 8
                &&& crypto::is_hex(identity.miscselect_mask@) && identity.miscselect_mask@.len()
                    == 8
                &&& crypto::is_hex(identity.attributes@) && identity.attributes@.len() == 32
                &&& crypto::is_hex(identity.attributes_mask@) && identity.attributes_mask@.len()
                    == 32
            };
            let misc = crypto::unhex(identity.miscselect@);
            let misc_mask = crypto::unhex(identity.miscselect_mask@);
            let attributes = crypto::unhex(identity.attributes@);
            let attributes_mask = crypto::unhex(identity.attributes_mask@);
            let levels = identity.tcb_levels@;
            &&& fault is None <==> {
                &&& identity.id@ == "QE"@
                &&& readable
                &&& crypto::unhex(identity.mrsigner@) == report.mrsigner@
                &&& identity.isvprodid == report.isv_prod_id
                &&& forall|i: int|
                    #![trigger report.misc_select@[i]]
                    0 <= i < 4 ==> report.misc_select@[i] & misc_mask[i] == misc[i] & misc_mask[i]
                &&& forall|i: int|
                    #![trigger report.attributes@[i]]
                    0 <= i < 16 ==> report.attributes@[i] & attributes_mask[i] == attributes[i]
                        & attributes_mask[i]
                &&& exists|i: int|
                    #![trigger levels[i]]
                    {
                        &&& 0 <= i < levels.len()
                        &&& levels[i].tcb.isvsvn <= report.isv_svn
                        &&& levels[i].tcb_status@ == "UpToDate"@
                        &&& forall|j: int|
                            0 <= j < levels.len() && (#[trigger] levels[j]).tcb.isvsvn
                                <= report.isv_svn ==> levels[j].tcb.isvsvn < levels[i].tcb.isvsvn
                                || (levels[j].tcb.isvsvn == levels[i].tcb.isvsvn && j <= i)
                    }
            }
            &&& fault matches Some(f) ==> f.category == ErrorCategory::QeIdentityMismatch
                || f.category == ErrorCategory::CollateralParse
            &&& readable || identity.id@ != "QE"@ ==> (fault matches Some(f) ==> f.category
                == ErrorCategory::QeIdentityMismatch)
        }),
{
    let all = identity@.tcb_levels;
    let levels = identity.tcb_levels@;
    assert(all.len() == levels.len());
    assert forall|i: int| 0 <= i < levels.len() implies #[trigger] all[i] == levels[i]@ by {}
    only_an_up_to_date_highest_level_passes(all, report@.isv_svn);
    if qe_level_fault(all, report@.isv_svn) is None {
        let i = choose|i: int|
            #![trigger all[i]]
            {
                &&& 0 <= i < all.len()
                &&& all[i].isvsvn <= report@.isv_svn
                &&& all[i].tcb_status == "UpToDate"@
                &&& forall|j: int|
                    0 <= j < all.len() && (#[trigger] all[j]).isvsvn <= report@.isv_svn
                        ==> all[j].isvsvn < all[i].isvsvn || (all[j].isvsvn == all[i].isvsvn && j
                        <= i)
            };
        assert(all[i] == levels[i]@);
        assert forall|j: int|
            0 <= j < levels.len() && (#[trigger] levels[j]).tcb.isvsvn
                <= report.isv_svn implies levels[j].tcb.isvsvn < levels[i].tcb.isvsvn || (
        levels[j].tcb.isvsvn == levels[i].tcb.isvsvn && j <= i) by {
            assert(all[j] == levels[j]@);
        }
    }
    if exists|i: int|
        #![trigger levels[i]]
        {
            &&& 0 <= i < levels.len()
            &&& levels[i].tcb.isvsvn <= report.isv_svn
            &&& levels[i].tcb_status@ == "UpToDate"@
            &&& forall|j: int|
                0 <= j < levels.len() && (#[trigger] levels[j]).tcb.isvsvn <= report.isv_svn
                    ==> levels[j].tcb.isvsvn < levels[i].tcb.isvsvn || (levels[j].tcb.isvsvn
                    == levels[i].tcb.isvsvn && j <= i)
        } {
        let i = choose|i: int|
            #![trigger levels[i]]
            {
                &&& 0 <= i < levels.len()
                &&& levels[i].tcb.isvsvn <= report.isv_svn
                &&& levels[i].tcb_status@ == "UpToDate"@
                &&& forall|j: int|
                    0 <= j < levels.len() && (#[trigger] levels[j]).tcb.isvsvn <= report.isv_svn
                        ==> levels[j].tcb.isvsvn < levels[i].tcb.isvsvn || (levels[j].tcb.isvsvn
                        == levels[i].tcb.isvsvn && j <= i)
            };
        assert(all[i] == levels[i]@);
        assert(qe_level_at(all, report@.isv_svn, i));
        lemma_qe_level_at_selected(all, report@.isv_svn, i);
    }
}

} // verus!
