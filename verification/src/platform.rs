//! The platform TCB in the SGX extension of a PCK certificate.

use vstd::prelude::*;
use vstd::string::StringExecFns;

use crate::error::{self, ErrorCategory, Rejection, VerifyError};
use crate::pki::{self, CertChain, ChainKind, ChainView, ParsedChain};
use crate::text::{self, characters, same_text};
use crate::types::quote::SgxQuote;
use crate::x509::{
    self, read_der_tree, DerCell, DerCellView, DerFault, DerFaultView, DerObject, DerObjectView,
    DerRows,
};

verus! {

pub const SGX_PCK_EXTENSION_OID: &'static str = "1.2.840.113741.1.13.1";

/// What a PCK certificate says of its platform.
#[derive(Debug, Clone, PartialEq, Eq)]
pub struct PckPlatformTcb {
    pub fmspc: [u8; 6],
    pub pce_id: [u8; 2],
    pub comp_svns: [u32; 16],
    pub pcesvn: u32,
}

/// What a [`PckPlatformTcb`] holds.
#[verifier::ext_equal]
pub ghost struct PlatformView {
    pub fmspc: Seq<u8>,
    pub pce_id: Seq<u8>,
    pub comp_svns: Seq<u32>,
    pub pcesvn: u32,
}

impl View for PckPlatformTcb {
    type V = PlatformView;

    open spec fn view(&self) -> PlatformView {
        PlatformView {
            fmspc: self.fmspc@,
            pce_id: self.pce_id@,
            comp_svns: self.comp_svns@,
            pcesvn: self.pcesvn,
        }
    }
}

/// The fields of the SGX extension found so far.
pub struct SgxFields {
    pub fmspc: Option<[u8; 6]>,
    pub pce_id: Option<[u8; 2]>,
    pub comp_svns: [Option<u32>; 16],
    pub pcesvn: Option<u32>,
}

/// What [`SgxFields`] hold.
#[verifier::ext_equal]
pub ghost struct SgxFieldsView {
    pub fmspc: Option<Seq<u8>>,
    pub pce_id: Option<Seq<u8>>,
    pub comp_svns: Seq<Option<u32>>,
    pub pcesvn: Option<u32>,
}

impl View for SgxFields {
    type V = SgxFieldsView;

    open spec fn view(&self) -> SgxFieldsView {
        SgxFieldsView {
            fmspc: match self.fmspc {
                Some(bytes) => Some(bytes@),
                None => None,
            },
            pce_id: match self.pce_id {
                Some(bytes) => Some(bytes@),
                None => None,
            },
            comp_svns: self.comp_svns@,
            pcesvn: self.pcesvn,
        }
    }
}

/// A rejection of the SGX extension.
pub open spec fn bad(what: Seq<char>) -> Rejection {
    error::rejection(ErrorCategory::QuoteParse, "SGX platform extension: "@ + what)
}

fn bad_extension(what: &str) -> (error: VerifyError)
    ensures
        error@ == bad(what@),
{
    VerifyError::new(
        ErrorCategory::QuoteParse,
        "SGX platform extension: ".to_owned().concat(what),
    )
}

/// Whether `c` is a decimal digit.
pub open spec fn is_digit(c: char) -> bool {
    '0' <= c <= '9'
}

/// The number that decimal digits stand for.
pub open spec fn digits_value(digits: Seq<char>) -> nat
    decreases digits.len(),
{
    if digits.len() == 0 {
        0
    } else {
        10 * digits_value(digits.drop_last()) + (digits.last() as nat - '0' as nat) as nat
    }
}

/// Whether a text is made of decimal digits alone, one at least.
pub open spec fn all_digits(text: Seq<char>) -> bool {
    text.len() > 0 && forall|i: int| 0 <= i < text.len() ==> is_digit(#[trigger] text[i])
}

/// A text without the plus sign that it starts with.
pub open spec fn without_plus(text: Seq<char>) -> Seq<char> {
    if text.len() > 1 && text[0] == '+' {
        text.skip(1)
    } else {
        text
    }
}

/// The number that a text stands for: at least one decimal digit, with a plus sign in front or
/// without.
pub open spec fn unsigned_value(text: Seq<char>) -> Option<nat> {
    if all_digits(without_plus(text)) {
        Some(digits_value(without_plus(text)))
    } else {
        None
    }
}

/// What stands in front of the number of a TCB component in its identifier.
pub open spec fn component_prefix() -> Seq<char> {
    "1.2.840.113741.1.13.1.2."@
}

/// Which field of the platform's TCB an identifier names: components count from one to sixteen,
/// and seventeen is the PCE's SVN.
pub open spec fn component_index(oid: Seq<char>) -> Option<nat> {
    if component_prefix().is_prefix_of(oid) {
        unsigned_value(oid.skip(component_prefix().len() as int))
    } else {
        None
    }
}

/// `fields` with one entry of the TCB taken in. Entries that name no known field change nothing.
pub open spec fn with_component(
    fields: SgxFieldsView,
    oid: Seq<char>,
    number: Option<u32>,
) -> Result<SgxFieldsView, Rejection> {
    match component_index(oid) {
        Some(index) => if 1 <= index <= 16 {
            match number {
                Some(svn) => Ok(
                    SgxFieldsView {
                        comp_svns: fields.comp_svns.update(index - 1, Some(svn)),
                        ..fields
                    },
                ),
                None => Err(bad("a TCB component SVN is not a small integer"@)),
            }
        } else if index == 17 {
            match number {
                Some(svn) => Ok(SgxFieldsView { pcesvn: Some(svn), ..fields }),
                None => Err(bad("PCESVN is not a small integer"@)),
            }
        } else {
            Ok(fields)
        },
        None => Ok(fields),
    }
}

/// `fields` with the PCE identifier taken in.
pub open spec fn with_pce_id(fields: SgxFieldsView, bytes: Option<Seq<u8>>) -> Result<
    SgxFieldsView,
    Rejection,
> {
    match bytes {
        None => Err(bad("PCE-ID is not a byte string"@)),
        Some(b) => if b.len() == 2 {
            Ok(SgxFieldsView { pce_id: Some(b), ..fields })
        } else {
            Err(bad("PCE-ID is not 2 bytes"@))
        },
    }
}

/// `fields` with the platform family taken in.
pub open spec fn with_fmspc(fields: SgxFieldsView, bytes: Option<Seq<u8>>) -> Result<
    SgxFieldsView,
    Rejection,
> {
    match bytes {
        None => Err(bad("FMSPC is not a byte string"@)),
        Some(b) => if b.len() == 6 {
            Ok(SgxFieldsView { fmspc: Some(b), ..fields })
        } else {
            Err(bad("FMSPC is not 6 bytes"@))
        },
    }
}

/// The identifier and the value of a row: the first two cells, when there are two and the first is
/// an identifier. Anything else is passed over.
pub open spec fn labelled_cell(row: Option<Seq<DerCellView>>) -> Option<
    (Seq<char>, DerCellView),
> {
    match row {
        None => None,
        Some(cells) => if cells.len() >= 2 {
            match cells[0].oid {
                Some(oid) => Some((oid, cells[1])),
                None => None,
            }
        } else {
            None
        },
    }
}

/// The identifier and the value of an entry: the first two objects, when there are two and the
/// first is an identifier. Anything else is passed over.
pub open spec fn labelled_object(entry: Option<Seq<DerObjectView>>) -> Option<
    (Seq<char>, DerObjectView),
> {
    match entry {
        None => None,
        Some(objects) => if objects.len() >= 2 {
            match objects[0].oid {
                Some(oid) => Some((oid, objects[1])),
                None => None,
            }
        } else {
            None
        },
    }
}

/// `fields` with the rows of a TCB taken in, in order. Rows that carry no identifier change nothing.
pub open spec fn with_tcb(fields: SgxFieldsView, rows: Seq<Option<Seq<DerCellView>>>) -> Result<
    SgxFieldsView,
    Rejection,
>
    decreases rows.len(),
{
    if rows.len() == 0 {
        Ok(fields)
    } else {
        match with_tcb(fields, rows.drop_last()) {
            Err(fault) => Err(fault),
            Ok(before) => match labelled_cell(rows.last()) {
                None => Ok(before),
                Some((oid, value)) => with_component(before, oid, value.number),
            },
        }
    }
}

/// `fields` with an entry taken in. Entries under unknown identifiers change nothing.
pub open spec fn with_entry(fields: SgxFieldsView, entry: Option<Seq<DerObjectView>>) -> Result<
    SgxFieldsView,
    Rejection,
> {
    match labelled_object(entry) {
        None => Ok(fields),
        Some((oid, object)) => if oid == "1.2.840.113741.1.13.1.3"@ {
            with_pce_id(fields, object.bytes)
        } else if oid == "1.2.840.113741.1.13.1.4"@ {
            with_fmspc(fields, object.bytes)
        } else if oid == "1.2.840.113741.1.13.1.2"@ {
            match object.rows {
                None => Err(bad("TCB field is not a sequence"@)),
                Some(rows) => with_tcb(fields, rows),
            }
        } else {
            Ok(fields)
        },
    }
}

/// No field found yet.
pub open spec fn no_fields() -> SgxFieldsView {
    SgxFieldsView {
        fmspc: None,
        pce_id: None,
        comp_svns: Seq::new(16, |i: int| None),
        pcesvn: None,
    }
}

/// What entries say, taken in one after the other.
pub open spec fn fields_of(entries: Seq<Option<Seq<DerObjectView>>>) -> Result<
    SgxFieldsView,
    Rejection,
>
    decreases entries.len(),
{
    if entries.len() == 0 {
        Ok(no_fields())
    } else {
        match fields_of(entries.drop_last()) {
            Err(fault) => Err(fault),
            Ok(before) => with_entry(before, entries.last()),
        }
    }
}

/// The platform that complete fields describe, or which field is missing.
pub open spec fn completed(fields: SgxFieldsView) -> Result<PlatformView, Rejection> {
    match (fields.fmspc, fields.pce_id, fields.pcesvn) {
        (None, _, _) => Err(bad("FMSPC missing"@)),
        (_, None, _) => Err(bad("PCE-ID missing"@)),
        (_, _, None) => Err(bad("PCESVN missing"@)),
        (Some(fmspc), Some(pce_id), Some(pcesvn)) => if forall|i: int|
            0 <= i < 16 ==> #[trigger] fields.comp_svns[i] is Some {
            Ok(
                PlatformView {
                    fmspc,
                    pce_id,
                    comp_svns: Seq::new(16, |i: int| fields.comp_svns[i]->0),
                    pcesvn,
                },
            )
        } else {
            Err(bad("a TCB component SVN is missing"@))
        },
    }
}

/// The platform that the SGX extension in `der` describes, or what is wrong with it.
pub open spec fn extension_outcome(der: Seq<u8>) -> Result<PlatformView, Rejection> {
    match x509::der_tree(der) {
        Err(DerFaultView::Malformed(e)) => Err(
            error::rejection(
                ErrorCategory::QuoteParse,
                "SGX platform extension is not parseable DER: "@ + e,
            ),
        ),
        Err(DerFaultView::NotSequence(e)) => Err(
            error::rejection(
                ErrorCategory::QuoteParse,
                "SGX platform extension is not a sequence: "@ + e,
            ),
        ),
        Ok(entries) => entries_outcome(entries),
    }
}

/// The value of the first extension listed under the SGX identifier.
pub open spec fn sgx_extension(listed: Seq<(Seq<char>, Seq<u8>)>) -> Option<Seq<u8>>
    decreases listed.len(),
{
    if listed.len() == 0 {
        None
    } else if listed[0].0 == SGX_PCK_EXTENSION_OID@ {
        Some(listed[0].1)
    } else {
        sgx_extension(listed.skip(1))
    }
}

/// The platform that a chain's leaf describes, or what is wrong with its SGX extension.
pub open spec fn platform_outcome(chain: ChainView) -> Result<PlatformView, Rejection> {
    match sgx_extension(chain.certs.first().extensions.listed) {
        None => Err(
            error::rejection(
                ErrorCategory::QuoteParse,
                "PCK leaf certificate lacks the SGX platform extension"@,
            ),
        ),
        Some(der) => extension_outcome(der),
    }
}

/// Whether every character is a decimal digit, and the number when it is at most 17. Larger
/// numbers come out as 18.
fn small_number(digits: &Vec<char>, start: usize) -> (value: Option<u32>)
    requires
        start < digits@.len(),
    ensures
        ({
            let rest = digits@.skip(start as int);
            if all_digits(rest) {
                value == Some(
                    if digits_value(rest) <= 17 {
                        digits_value(rest) as u32
                    } else {
                        18u32
                    },
                )
            } else {
                value is None
            }
        }),
{
    let ghost rest = digits@.skip(start as int);
    let mut value: u32 = 0;
    let mut i: usize = start;
    assert(rest.subrange(0, 0) == Seq::<char>::empty());
    while i < digits.len()
        invariant
            start <= i <= digits.len(),
            rest == digits@.skip(start as int),
            forall|j: int| 0 <= j < i - start ==> is_digit(#[trigger] rest[j]),
            value == if digits_value(rest.subrange(0, i - start)) <= 17 {
                digits_value(rest.subrange(0, i - start)) as int
            } else {
                18int
            },
        decreases digits.len() - i,
    {
        let c = digits[i];
        assert(c == rest[i - start]);
        if !('0' <= c && c <= '9') {
            assert(!is_digit(rest[i - start]));
            return None;
        }
        let d: u32 = c as u32 - '0' as u32;
        assert(rest.subrange(0, i + 1 - start).drop_last() == rest.subrange(0, i - start));
        let next: u32 = 10 * value + d;
        value = if next <= 17 { next } else { 18 };
        i += 1;
    }
    assert(rest.subrange(0, i - start) == rest);
    Some(value)
}

/// Which field of the platform's TCB an identifier names, if any.
pub fn find_component(oid: &str) -> (index: Option<u32>)
    ensures
        index == match component_index(oid@) {
            Some(n) => if 1 <= n <= 17 {
                Some(n as u32)
            } else {
                None::<u32>
            },
            None => None,
        },
{
    let chars = characters(oid);
    let prefix = characters("1.2.840.113741.1.13.1.2.");
    if chars.len() < prefix.len() {
        return None;
    }
    let mut i: usize = 0;
    while i < prefix.len()
        invariant
            i <= prefix.len() <= chars.len(),
            chars@ == oid@,
            prefix@ == component_prefix(),
            forall|j: int| 0 <= j < i ==> chars@[j] == prefix@[j],
        decreases prefix.len() - i,
    {
        if chars[i] != prefix[i] {
            assert(!component_prefix().is_prefix_of(oid@));
            return None;
        }
        i += 1;
    }
    assert(component_prefix().is_prefix_of(oid@)) by {
        assert(component_prefix() =~= oid@.subrange(0, component_prefix().len() as int));
    }
    let ghost tail = oid@.skip(component_prefix().len() as int);
    let mut start: usize = prefix.len();
    if start == chars.len() {
        return None;
    }
    if chars.len() - start > 1 && chars[start] == '+' {
        start += 1;
    }
    assert(tail[0] == oid@[prefix@.len() as int]);
    assert(without_plus(tail) =~= chars@.skip(start as int));
    match small_number(&chars, start) {
        None => None,
        Some(n) => if 1 <= n && n <= 17 {
            Some(n)
        } else {
            None
        },
    }
}

impl SgxFields {
    pub fn new() -> (fields: Self)
        ensures
            fields@ == no_fields(),
    {
        let fields = SgxFields { fmspc: None, pce_id: None, comp_svns: [None; 16], pcesvn: None };
        assert(fields@.comp_svns =~= no_fields().comp_svns);
        fields
    }

    /// Takes in the PCE identifier.
    pub fn take_pce_id(&mut self, bytes: Option<&[u8]>) -> (taken: Result<(), VerifyError>)
        ensures
            ({
                let content = match bytes {
                    Some(b) => Some(b@),
                    None => None,
                };
                match with_pce_id(old(self)@, content) {
                    Ok(fields) => taken is Ok && final(self)@ == fields,
                    Err(fault) => error::verdict(taken) == Some(fault) && final(self)@
                        == old(self)@,
                }
            }),
    {
        let b = match bytes {
            None => return Err(bad_extension("PCE-ID is not a byte string")),
            Some(b) => b,
        };
        if b.len() != 2 {
            return Err(bad_extension("PCE-ID is not 2 bytes"));
        }
        let id: [u8; 2] = [b[0], b[1]];
        assert(id@ =~= b@);
        self.pce_id = Some(id);
        Ok(())
    }

    /// Takes in the platform family.
    pub fn take_fmspc(&mut self, bytes: Option<&[u8]>) -> (taken: Result<(), VerifyError>)
        ensures
            ({
                let content = match bytes {
                    Some(b) => Some(b@),
                    None => None,
                };
                match with_fmspc(old(self)@, content) {
                    Ok(fields) => taken is Ok && final(self)@ == fields,
                    Err(fault) => error::verdict(taken) == Some(fault) && final(self)@
                        == old(self)@,
                }
            }),
    {
        let b = match bytes {
            None => return Err(bad_extension("FMSPC is not a byte string")),
            Some(b) => b,
        };
        if b.len() != 6 {
            return Err(bad_extension("FMSPC is not 6 bytes"));
        }
        let id: [u8; 6] = [b[0], b[1], b[2], b[3], b[4], b[5]];
        assert(id@ =~= b@);
        self.fmspc = Some(id);
        Ok(())
    }

    /// Takes in one entry of the TCB.
    pub fn take_component(&mut self, oid: &str, number: Option<u32>) -> (taken: Result<
        (),
        VerifyError,
    >)
        ensures
            match with_component(old(self)@, oid@, number) {
                Ok(fields) => taken is Ok && final(self)@ == fields,
                Err(fault) => error::verdict(taken) == Some(fault) && final(self)@ == old(self)@,
            },
    {
        match find_component(oid) {
            None => Ok(()),
            Some(index) => {
                if index <= 16 {
                    match number {
                        None => Err(bad_extension("a TCB component SVN is not a small integer")),
                        Some(svn) => {
                            self.comp_svns[index as usize - 1] = Some(svn);
                            Ok(())
                        },
                    }
                } else {
                    match number {
                        None => Err(bad_extension("PCESVN is not a small integer")),
                        Some(svn) => {
                            self.pcesvn = Some(svn);
                            Ok(())
                        },
                    }
                }
            },
        }
    }

    /// The platform that the fields describe, once all of them were found.
    pub fn complete(&self) -> (platform: Result<PckPlatformTcb, VerifyError>)
        ensures
            error::outcome(platform) == completed(self@),
    {
        let fmspc = match self.fmspc {
            None => return Err(bad_extension("FMSPC missing")),
            Some(fmspc) => fmspc,
        };
        let pce_id = match self.pce_id {
            None => return Err(bad_extension("PCE-ID missing")),
            Some(pce_id) => pce_id,
        };
        let pcesvn: u32 = match self.pcesvn {
            None => return Err(bad_extension("PCESVN missing")),
            Some(pcesvn) => pcesvn,
        };
        let mut svns: [u32; 16] = [0;16];
        let mut i: usize = 0;
        while i < 16
            invariant
                i <= 16,
                self@.fmspc is Some && self@.pce_id is Some && self@.pcesvn is Some,
                forall|j: int| 0 <= j < i ==> #[trigger] self@.comp_svns[j] == Some(svns@[j]),
            decreases 16 - i,
        {
            match self.comp_svns[i] {
                None => {
                    assert(self@.comp_svns[i as int] is None);
                    return Err(bad_extension("a TCB component SVN is missing"));
                },
                Some(svn) => {
                    svns[i] = svn;
                },
            }
            i += 1;
        }
        let platform = PckPlatformTcb { fmspc, pce_id, comp_svns: svns, pcesvn };
        assert(platform@.comp_svns =~= Seq::new(16, |i: int| self@.comp_svns[i]->0));
        Ok(platform)
    }
}

proof fn lemma_tcb_fault_stays(
    fields: SgxFieldsView,
    rows: Seq<Option<Seq<DerCellView>>>,
    m: int,
)
    requires
        0 <= m <= rows.len(),
        with_tcb(fields, rows.take(m)) is Err,
    ensures
        with_tcb(fields, rows) == with_tcb(fields, rows.take(m)),
    decreases rows.len(),
{
    if m < rows.len() {
        assert(rows.drop_last().take(m) == rows.take(m));
        lemma_tcb_fault_stays(fields, rows.drop_last(), m);
    } else {
        assert(rows.take(m) == rows);
    }
}

proof fn lemma_field_fault_stays(entries: Seq<Option<Seq<DerObjectView>>>, m: int)
    requires
        0 <= m <= entries.len(),
        fields_of(entries.take(m)) is Err,
    ensures
        fields_of(entries) == fields_of(entries.take(m)),
    decreases entries.len(),
{
    if m < entries.len() {
        assert(entries.drop_last().take(m) == entries.take(m));
        lemma_field_fault_stays(entries.drop_last(), m);
    } else {
        assert(entries.take(m) == entries);
    }
}

/// The identifier and the value of a row, when there are both.
fn split_row(row: &Option<Vec<DerCell>>) -> (found: Option<(&str, &DerCell)>)
    ensures
        found.deep_view() == labelled_cell(row.deep_view()),
{
    match row {
        None => None,
        Some(cells) => {
            if cells.len() < 2 {
                return None;
            }
            match &cells[0].oid {
                None => None,
                Some(oid) => Some((oid.as_str(), &cells[1])),
            }
        },
    }
}

/// The identifier and the value of an entry, when there are both.
fn split_entry(entry: &Option<Vec<DerObject>>) -> (found: Option<(&str, &DerObject)>)
    ensures
        found.deep_view() == labelled_object(entry.deep_view()),
{
    match entry {
        None => None,
        Some(objects) => {
            if objects.len() < 2 {
                return None;
            }
            match &objects[0].oid {
                None => None,
                Some(oid) => Some((oid.as_str(), &objects[1])),
            }
        },
    }
}

impl SgxFields {
    /// Takes in the TCB whose rows are given, when it has rows.
    fn take_tcb(&mut self, rows: &DerRows) -> (taken: Result<(), VerifyError>)
        ensures
            match rows.deep_view() {
                None => error::verdict(taken) == Some(bad("TCB field is not a sequence"@)),
                Some(all) => match with_tcb(old(self)@, all) {
                    Ok(fields) => taken is Ok && final(self)@ == fields,
                    Err(fault) => error::verdict(taken) == Some(fault),
                },
            },
    {
        let ghost start = self@;
        let listed = match rows {
            None => return Err(bad_extension("TCB field is not a sequence")),
            Some(listed) => listed,
        };
        let ghost all = listed.deep_view();
        let mut i: usize = 0;
        assert(all.take(0) == Seq::<Option<Seq<DerCellView>>>::empty());
        while i < listed.len()
            invariant
                i <= listed.len(),
                start == old(self)@,
                all == listed.deep_view(),
                rows.deep_view() == Some(all),
                with_tcb(start, all.take(i as int)) == Ok::<SgxFieldsView, Rejection>(self@),
            decreases listed.len() - i,
        {
            assert(all.take(i + 1).drop_last() == all.take(i as int));
            assert(all.take(i + 1).last() == listed@[i as int].deep_view());
            if let Some((oid, value)) = split_row(&listed[i]) {
                if let Err(e) = self.take_component(oid, value.number) {
                    proof {
                        lemma_tcb_fault_stays(start, all, i + 1);
                    }
                    return Err(e);
                }
            }
            i += 1;
        }
        assert(all.take(i as int) == all);
        Ok(())
    }

    /// Takes in an entry.
    fn take_entry(&mut self, entry: &Option<Vec<DerObject>>) -> (taken: Result<(), VerifyError>)
        ensures
            match with_entry(old(self)@, entry.deep_view()) {
                Ok(fields) => taken is Ok && final(self)@ == fields,
                Err(fault) => error::verdict(taken) == Some(fault),
            },
    {
        let (oid, object) = match split_entry(entry) {
            None => return Ok(()),
            Some(found) => found,
        };
        let bytes = match &object.bytes {
            Some(b) => Some(b.as_slice()),
            None => None,
        };
        assert(object.bytes.deep_view() == match bytes {
            Some(b) => Some(b@),
            None => None,
        });
        if same_text(oid, "1.2.840.113741.1.13.1.3") {
            self.take_pce_id(bytes)
        } else if same_text(oid, "1.2.840.113741.1.13.1.4") {
            self.take_fmspc(bytes)
        } else if same_text(oid, "1.2.840.113741.1.13.1.2") {
            self.take_tcb(&object.rows)
        } else {
            Ok(())
        }
    }
}

/// The platform that the entries of an SGX extension describe, or what is wrong with them.
pub open spec fn entries_outcome(entries: Seq<Option<Seq<DerObjectView>>>) -> Result<
    PlatformView,
    Rejection,
> {
    match fields_of(entries) {
        Err(fault) => Err(fault),
        Ok(fields) => completed(fields),
    }
}

/// The platform that the entries of an SGX extension describe.
pub fn platform_in(entries: &Vec<Option<Vec<DerObject>>>) -> (platform: Result<
    PckPlatformTcb,
    VerifyError,
>)
    ensures
        error::outcome(platform) == entries_outcome(entries.deep_view()),
{
    let ghost all = entries.deep_view();
    let mut fields = SgxFields::new();
    let mut i: usize = 0;
    assert(all.take(0) == Seq::<Option<Seq<DerObjectView>>>::empty());
    while i < entries.len()
        invariant
            i <= entries.len(),
            all == entries.deep_view(),
            fields_of(all.take(i as int)) == Ok::<SgxFieldsView, Rejection>(fields@),
        decreases entries.len() - i,
    {
        assert(all.take(i + 1).drop_last() == all.take(i as int));
        assert(all.take(i + 1).last() == entries@[i as int].deep_view());
        if let Err(e) = fields.take_entry(&entries[i]) {
            proof {
                lemma_field_fault_stays(all, i + 1);
            }
            return Err(e);
        }
        i += 1;
    }
    assert(all.take(i as int) == all);
    fields.complete()
}

/// Reads the platform out of the content of an SGX extension.
pub fn parse_sgx_extension(der: &[u8]) -> (platform: Result<PckPlatformTcb, VerifyError>)
    ensures
        error::outcome(platform) == extension_outcome(der@),
{
    match read_der_tree(der) {
        Err(DerFault::Malformed(e)) => Err(
            VerifyError::new(
                ErrorCategory::QuoteParse,
                "SGX platform extension is not parseable DER: ".to_owned().concat(e.as_str()),
            ),
        ),
        Err(DerFault::NotSequence(e)) => Err(
            VerifyError::new(
                ErrorCategory::QuoteParse,
                "SGX platform extension is not a sequence: ".to_owned().concat(e.as_str()),
            ),
        ),
        Ok(entries) => platform_in(&entries),
    }
}

/// The platform TCB in the SGX extension of a chain's leaf.
pub fn extract_pck_platform_tcb(chain: &ParsedChain) -> (platform: Result<
    PckPlatformTcb,
    VerifyError,
>)
    requires
        chain.certs@.len() > 0,
    ensures
        error::outcome(platform) == platform_outcome(chain@),
{
    let leaf = &chain.certs[0];
    let listed = &leaf.extensions.listed;
    let ghost all = x509::labelled(listed@);
    assert(chain@.certs.first() == leaf@);
    let mut i: usize = 0;
    assert(all.skip(0) == all);
    while i < listed.len()
        invariant
            i <= listed.len(),
            all == x509::labelled(listed@),
            all == chain@.certs.first().extensions.listed,
            sgx_extension(all) == sgx_extension(all.skip(i as int)),
        decreases listed.len() - i,
    {
        assert(all.skip(i as int)[0] == (listed@[i as int].0@, listed@[i as int].1@));
        assert(all.skip(i as int).skip(1) == all.skip(i + 1));
        if same_text(listed[i].0.as_str(), SGX_PCK_EXTENSION_OID) {
            return parse_sgx_extension(listed[i].1.as_slice());
        }
        i += 1;
    }
    Err(
        VerifyError::new(
            ErrorCategory::QuoteParse,
            "PCK leaf certificate lacks the SGX platform extension".to_owned(),
        ),
    )
}

/// Which of Intel's two PCK CAs issued a PCK certificate.
#[derive(Debug, Clone, Copy, PartialEq, Eq, Hash, Structural)]
pub enum PckCa {
    Processor,
    Platform,
}

impl PckCa {
    /// The name of this CA in requests for its revocation list.
    pub open spec fn wire_name(self) -> Seq<char> {
        match self {
            PckCa::Processor => "processor"@,
            PckCa::Platform => "platform"@,
        }
    }

    /// The value of the `ca` parameter of the PCS v4 `pckcrl` request.
    pub fn as_str(self) -> (name: &'static str)
        ensures
            name@ == self.wire_name(),
    {
        match self {
            PckCa::Processor => "processor",
            PckCa::Platform => "platform",
        }
    }
}

/// The PCK CA that goes by a common name, or why there is none.
pub open spec fn ca_outcome(issuer: Option<Seq<char>>) -> Result<PckCa, Rejection> {
    match issuer {
        None => Err(
            error::rejection(
                ErrorCategory::QuoteParse,
                "PCK leaf certificate has no readable issuer common name"@,
            ),
        ),
        Some(cn) => if cn == "Intel SGX PCK Processor CA"@ {
            Ok(PckCa::Processor)
        } else if cn == "Intel SGX PCK Platform CA"@ {
            Ok(PckCa::Platform)
        } else {
            Err(
                error::rejection(
                    ErrorCategory::QuoteParse,
                    "PCK leaf certificate is issued by '"@ + cn
                        + "', which is neither of Intel's PCK CAs"@,
                ),
            )
        },
    }
}

/// The PCK CA that goes by a common name.
pub fn ca_by_name(issuer: Option<&str>) -> (ca: Result<PckCa, VerifyError>)
    ensures
        ({
            let name = match issuer {
                Some(cn) => Some(cn@),
                None => None,
            };
            match ca {
                Ok(found) => ca_outcome(name) == Ok::<PckCa, Rejection>(found),
                Err(e) => ca_outcome(name) == Err::<PckCa, Rejection>(e@),
            }
        }),
{
    match issuer {
        None => Err(
            VerifyError::new(
                ErrorCategory::QuoteParse,
                "PCK leaf certificate has no readable issuer common name".to_owned(),
            ),
        ),
        Some(cn) => {
            if same_text(cn, "Intel SGX PCK Processor CA") {
                Ok(PckCa::Processor)
            } else if same_text(cn, "Intel SGX PCK Platform CA") {
                Ok(PckCa::Platform)
            } else {
                Err(
                    VerifyError::new(
                        ErrorCategory::QuoteParse,
                        "PCK leaf certificate is issued by '".to_owned().concat(cn).concat(
                            "', which is neither of Intel's PCK CAs",
                        ),
                    ),
                )
            }
        },
    }
}

/// What selects the collateral of a quote: the platform family and the PCK CA that the leaf of its
/// PCK chain names, or why they cannot be read.
pub open spec fn params_outcome(cert_data: Seq<u8>) -> Result<(Seq<u8>, PckCa), Rejection> {
    match pki::chain_ders(ChainKind::QuotePck, cert_data) {
        Err(fault) => Err(fault),
        Ok(ders) => match pki::parsed_chain(ders) {
            Err(fault) => Err(fault),
            Ok(chain) => match platform_outcome(chain) {
                Err(fault) => Err(fault),
                Ok(platform) => match ca_outcome(chain.certs.first().names.issuer_common_name()) {
                    Err(fault) => Err(fault),
                    Ok(ca) => Ok((platform.fmspc, ca)),
                },
            },
        },
    }
}

/// Reads, from a quote's own PCK chain, what its collateral is selected by: the FMSPC and the PCK
/// CA. For fetching collateral only — proves nothing about authenticity.
pub fn pck_collateral_params(quote: &SgxQuote) -> (params: Result<([u8; 6], PckCa), VerifyError>)
    ensures
        match params {
            Ok((fmspc, ca)) => params_outcome(quote@.signature.cert_data) == Ok::<
                (Seq<u8>, PckCa),
                Rejection,
            >((fmspc@, ca)),
            Err(e) => params_outcome(quote@.signature.cert_data) == Err::<
                (Seq<u8>, PckCa),
                Rejection,
            >(e@),
        },
{
    let ders = CertChain::from_pem(ChainKind::QuotePck, quote.signature.cert_data.as_slice())?;
    proof {
        pki::lemma_parsed_len(ders@.kind, ders@.ders);
    }
    let chain = ders.parse()?;
    let platform = extract_pck_platform_tcb(&chain)?;
    assert(chain@.certs.first() == chain.certs@[0]@);
    let ca = ca_by_name(chain.certs[0].names.issuer_common_name())?;
    Ok((platform.fmspc, ca))
}

proof fn lemma_digits_value(digits: Seq<char>)
    requires
        forall|i: int| 0 <= i < digits.len() ==> '0' <= #[trigger] digits[i] <= '9',
    ensures
        digits_value(digits) == text::number_in(digits),
    decreases digits.len(),
{
    if digits.len() > 0 {
        assert(forall|i: int|
            0 <= i < digits.len() - 1 ==> digits.drop_last()[i] == #[trigger] digits[i]);
        assert('0' <= digits[digits.len() - 1] <= '9');
        lemma_digits_value(digits.drop_last());
    }
}

/// A TCB field goes by the number behind the prefix: written in decimal it is read back, and
/// nothing is read where the prefix is missing or anything but digits, with a plus sign in front or
/// without, stands behind it.
pub proof fn fields_go_by_the_number_behind_the_prefix(n: nat, oid: Seq<char>)
    ensures
        component_index("1.2.840.113741.1.13.1.2."@ + text::decimal(n as int)) == Some(n),
        component_index(oid) matches Some(index) ==> exists|tail: Seq<char>|
            {
                &&& oid == #[trigger] ("1.2.840.113741.1.13.1.2."@ + tail)
                &&& tail.len() > 0
                &&& {
                    let digits = if tail[0] == '+' {
                        tail.skip(1)
                    } else {
                        tail
                    };
                    &&& digits.len() > 0
                    &&& forall|i: int| 0 <= i < digits.len() ==> '0' <= #[trigger] digits[i] <= '9'
                    &&& text::number_in(digits) == index
                }
            },
{
    let prefix = "1.2.840.113741.1.13.1.2."@;
    let written = text::decimal(n as int);
    let whole = prefix + written;
    text::decimal_numbers_read_back(n as int);
    assert(whole.skip(prefix.len() as int) =~= written);
    assert(prefix.is_prefix_of(whole)) by {
        assert(prefix =~= whole.subrange(0, prefix.len() as int));
    }
    assert('0' <= written[0] <= '9');
    assert(without_plus(written) == written);
    assert forall|i: int| 0 <= i < written.len() implies is_digit(#[trigger] written[i]) by {}
    lemma_digits_value(written);
    if component_index(oid) is Some {
        let tail = oid.skip(prefix.len() as int);
        assert(prefix == oid.subrange(0, prefix.len() as int));
        assert(oid =~= prefix + tail);
        let digits = without_plus(tail);
        assert(all_digits(digits));
        assert(forall|i: int| 0 <= i < digits.len() ==> is_digit(#[trigger] digits[i]));
        assert(is_digit(digits[0]));
        if tail.len() > 1 && tail[0] == '+' {
            assert(digits == tail.skip(1));
        } else {
            assert(tail[0] != '+');
        }
        lemma_digits_value(digits);
    }
}

/// An entry of the TCB changes the field that it names and no other: components one to sixteen each
/// set their own SVN, seventeen sets the PCE's, and any other number nothing. A named field must
/// hold a small integer.
pub proof fn tcb_entries_set_their_own_field(fields: SgxFieldsView, n: nat, number: Option<u32>)
    requires
        fields.comp_svns.len() == 16,
    ensures
        ({
            let taken = with_component(
                fields,
                "1.2.840.113741.1.13.1.2."@ + text::decimal(n as int),
                number,
            );
            &&& taken is Ok <==> n == 0 || n > 17 || number is Some
            &&& taken matches Err(fault) ==> fault.category == ErrorCategory::QuoteParse
            &&& taken matches Ok(after) ==> {
                &&& after.fmspc == fields.fmspc && after.pce_id == fields.pce_id
                &&& after.comp_svns.len() == 16
                &&& forall|k: int|
                    0 <= k < 16 ==> #[trigger] after.comp_svns[k] == (if n == k + 1 {
                        number
                    } else {
                        fields.comp_svns[k]
                    })
                &&& after.pcesvn == (if n == 17 {
                    number
                } else {
                    fields.pcesvn
                })
            }
        }),
{
    fields_go_by_the_number_behind_the_prefix(n, seq![]);
}

/// An entry of the extension under the identifier of the PCE's ID, of the platform family or of the
/// TCB sets that field, when its value is of the right kind and size, and is an error when it is
/// not; any other entry changes nothing.
pub proof fn entries_set_the_field_of_their_identifier(
    fields: SgxFieldsView,
    objects: Seq<DerObjectView>,
)
    requires
        objects.len() >= 2,
    ensures
        ({
            let taken = with_entry(fields, Some(objects));
            let bytes = objects[1].bytes;
            &&& objects[0].oid == Some("1.2.840.113741.1.13.1.3"@) ==> (match bytes {
                Some(b) if b.len() == 2 => taken == Ok::<SgxFieldsView, Rejection>(
                    SgxFieldsView { pce_id: Some(b), ..fields },
                ),
                _ => taken matches Err(fault) && fault.category == ErrorCategory::QuoteParse,
            })
            &&& objects[0].oid == Some("1.2.840.113741.1.13.1.4"@) ==> (match bytes {
                Some(b) if b.len() == 6 => taken == Ok::<SgxFieldsView, Rejection>(
                    SgxFieldsView { fmspc: Some(b), ..fields },
                ),
                _ => taken matches Err(fault) && fault.category == ErrorCategory::QuoteParse,
            })
            &&& objects[0].oid == Some("1.2.840.113741.1.13.1.2"@) ==> (match objects[1].rows {
                Some(rows) => taken == with_tcb(fields, rows),
                None => taken matches Err(fault) && fault.category == ErrorCategory::QuoteParse,
            })
            &&& (objects[0].oid matches Some(oid) ==> oid != "1.2.840.113741.1.13.1.2"@ && oid
                != "1.2.840.113741.1.13.1.3"@ && oid != "1.2.840.113741.1.13.1.4"@) ==> taken
                == Ok::<SgxFieldsView, Rejection>(fields)
            &&& with_entry(fields, None) == Ok::<SgxFieldsView, Rejection>(fields)
            &&& with_entry(fields, Some(objects.take(1))) == Ok::<SgxFieldsView, Rejection>(fields)
            &&& with_entry(fields, Some(seq![])) == Ok::<SgxFieldsView, Rejection>(fields)
        }),
{
    reveal_strlit("1.2.840.113741.1.13.1.2");
    reveal_strlit("1.2.840.113741.1.13.1.3");
    reveal_strlit("1.2.840.113741.1.13.1.4");
    assert("1.2.840.113741.1.13.1.2"@[22] == '2');
    assert("1.2.840.113741.1.13.1.3"@[22] == '3');
    assert("1.2.840.113741.1.13.1.4"@[22] == '4');
}

/// The rows of a TCB are taken in one after the other, each by its first two cells, and a row that
/// names nothing changes nothing; so are the entries of an extension. The first error ends it.
pub proof fn rows_and_entries_are_taken_in_order(
    fields: SgxFieldsView,
    rows: Seq<Option<Seq<DerCellView>>>,
    row: Option<Seq<DerCellView>>,
    entries: Seq<Option<Seq<DerObjectView>>>,
    entry: Option<Seq<DerObjectView>>,
)
    ensures
        with_tcb(fields, seq![]) == Ok::<SgxFieldsView, Rejection>(fields),
        with_tcb(fields, rows.push(row)) == (match with_tcb(fields, rows) {
            Err(fault) => Err(fault),
            Ok(before) => match row {
                Some(cells) if cells.len() >= 2 && cells[0].oid is Some => with_component(
                    before,
                    cells[0].oid->0,
                    cells[1].number,
                ),
                _ => Ok(before),
            },
        }),
        fields_of(seq![]) == Ok::<SgxFieldsView, Rejection>(no_fields()),
        no_fields().fmspc is None && no_fields().pce_id is None && no_fields().pcesvn is None,
        no_fields().comp_svns.len() == 16,
        forall|k: int| 0 <= k < 16 ==> #[trigger] no_fields().comp_svns[k] is None,
        fields_of(entries.push(entry)) == (match fields_of(entries) {
            Err(fault) => Err(fault),
            Ok(before) => with_entry(before, entry),
        }),
{
    assert(rows.push(row).drop_last() =~= rows);
    assert(entries.push(entry).drop_last() =~= entries);
}

/// A platform is described exactly when every field was found, and then each is what was found.
pub proof fn a_platform_needs_every_field(fields: SgxFieldsView)
    requires
        fields.comp_svns.len() == 16,
    ensures
        completed(fields) is Ok <==> fields.fmspc is Some && fields.pce_id is Some
            && fields.pcesvn is Some && forall|k: int|
            0 <= k < 16 ==> #[trigger] fields.comp_svns[k] is Some,
        completed(fields) matches Ok(platform) ==> {
            &&& Some(platform.fmspc) == fields.fmspc
            &&& Some(platform.pce_id) == fields.pce_id
            &&& Some(platform.pcesvn) == fields.pcesvn
            &&& platform.comp_svns.len() == 16
            &&& forall|k: int|
                0 <= k < 16 ==> fields.comp_svns[k] == Some(#[trigger] platform.comp_svns[k])
        },
        completed(fields) matches Err(fault) ==> fault.category == ErrorCategory::QuoteParse,
{
    if completed(fields) is Ok {
        let platform = completed(fields)->Ok_0;
        assert forall|k: int| 0 <= k < 16 implies fields.comp_svns[k] == Some(
            #[trigger] platform.comp_svns[k],
        ) by {
            assert(fields.comp_svns[k] is Some);
        }
    }
}

proof fn lemma_rows_set_their_fields(
    fields: SgxFieldsView,
    rows: Seq<Option<Seq<DerCellView>>>,
    platform: PlatformView,
    n: int,
)
    requires
        fields.comp_svns.len() == 16,
        platform.comp_svns.len() == 16,
        rows.len() == 17,
        0 <= n <= 17,
        forall|i: int|
            0 <= i < 17 ==> (#[trigger] rows[i] matches Some(cells) && cells.len() >= 2
                && cells[0].oid == Some("1.2.840.113741.1.13.1.2."@ + text::decimal(i + 1))
                && cells[1].number == Some(
                if i < 16 {
                    platform.comp_svns[i]
                } else {
                    platform.pcesvn
                },
            )),
    ensures
        with_tcb(fields, rows.take(n)) matches Ok(after) && {
            &&& after.fmspc == fields.fmspc && after.pce_id == fields.pce_id
            &&& after.comp_svns.len() == 16
            &&& forall|k: int|
                0 <= k < 16 && k < n ==> #[trigger] after.comp_svns[k] == Some(
                    platform.comp_svns[k],
                )
            &&& n == 17 ==> after.pcesvn == Some(platform.pcesvn)
        },
    decreases n,
{
    if n > 0 {
        lemma_rows_set_their_fields(fields, rows, platform, n - 1);
        let before = with_tcb(fields, rows.take(n - 1))->Ok_0;
        let row = rows[n - 1];
        assert(rows.take(n) =~= rows.take(n - 1).push(row));
        rows_and_entries_are_taken_in_order(fields, rows.take(n - 1), row, seq![], None);
        tcb_entries_set_their_own_field(before, n as nat, (row->0)[1].number);
    } else {
        assert(rows.take(0) =~= seq![]);
        rows_and_entries_are_taken_in_order(fields, rows, None, seq![], None);
    }
}

/// An extension that lists a platform's SVNs by number, its PCE's ID and its family describes that
/// platform.
pub proof fn a_platform_written_down_is_read_back(
    platform: PlatformView,
    rows: Seq<Option<Seq<DerCellView>>>,
    tcb: Seq<DerObjectView>,
    pce: Seq<DerObjectView>,
    family: Seq<DerObjectView>,
)
    requires
        platform.comp_svns.len() == 16,
        platform.pce_id.len() == 2,
        platform.fmspc.len() == 6,
        rows.len() == 17,
        forall|i: int|
            0 <= i < 17 ==> (#[trigger] rows[i] matches Some(cells) && cells.len() >= 2
                && cells[0].oid == Some("1.2.840.113741.1.13.1.2."@ + text::decimal(i + 1))
                && cells[1].number == Some(
                if i < 16 {
                    platform.comp_svns[i]
                } else {
                    platform.pcesvn
                },
            )),
        tcb.len() == 2 && tcb[0].oid == Some("1.2.840.113741.1.13.1.2"@) && tcb[1].rows == Some(
            rows,
        ),
        pce.len() == 2 && pce[0].oid == Some("1.2.840.113741.1.13.1.3"@) && pce[1].bytes == Some(
            platform.pce_id,
        ),
        family.len() == 2 && family[0].oid == Some("1.2.840.113741.1.13.1.4"@) && family[1].bytes
            == Some(platform.fmspc),
    ensures
        entries_outcome(seq![Some(tcb), Some(pce), Some(family)]) == Ok::<
            PlatformView,
            Rejection,
        >(platform),
{
    let none = Seq::<Option<Seq<DerObjectView>>>::empty();
    let one = none.push(Some(tcb));
    let two = one.push(Some(pce));
    let all = two.push(Some(family));
    assert(all =~= seq![Some(tcb), Some(pce), Some(family)]);
    let f0 = no_fields();
    rows_and_entries_are_taken_in_order(f0, rows, None, none, Some(tcb));
    entries_set_the_field_of_their_identifier(f0, tcb);
    lemma_rows_set_their_fields(f0, rows, platform, 17);
    assert(rows.take(17) =~= rows);
    let f1 = with_tcb(f0, rows)->Ok_0;
    rows_and_entries_are_taken_in_order(f0, rows, None, one, Some(pce));
    entries_set_the_field_of_their_identifier(f1, pce);
    let f2 = SgxFieldsView { pce_id: Some(platform.pce_id), ..f1 };
    rows_and_entries_are_taken_in_order(f0, rows, None, two, Some(family));
    entries_set_the_field_of_their_identifier(f2, family);
    let f3 = SgxFieldsView { fmspc: Some(platform.fmspc), ..f2 };
    assert(fields_of(all) == Ok::<SgxFieldsView, Rejection>(f3));
    a_platform_needs_every_field(f3);
    assert(forall|k: int| 0 <= k < 16 ==> #[trigger] f3.comp_svns[k] == f1.comp_svns[k]);
    let read = completed(f3)->Ok_0;
    assert forall|k: int| 0 <= k < 16 implies read.comp_svns[k] == platform.comp_svns[k] by {
        assert(f3.comp_svns[k] == Some(read.comp_svns[k]));
        assert(f1.comp_svns[k] == Some(platform.comp_svns[k]));
    }
    assert(read =~= platform);
}

/// The extension that describes a platform is the first of the leaf's under the SGX identifier; a
/// leaf without one, and whatever is wrong with it, is a quote that cannot be parsed.
pub proof fn the_first_sgx_extension_counts(chain: ChainView)
    ensures
        ({
            let listed = chain.certs.first().extensions.listed;
            &&& sgx_extension(listed) is None <==> forall|i: int|
                0 <= i < listed.len() ==> (#[trigger] listed[i]).0 != "1.2.840.113741.1.13.1"@
            &&& sgx_extension(listed) matches Some(der) ==> exists|i: int|
                #![trigger listed[i]]
                {
                    &&& 0 <= i < listed.len()
                    &&& listed[i] == ("1.2.840.113741.1.13.1"@, der)
                    &&& forall|j: int|
                        0 <= j < i ==> (#[trigger] listed[j]).0 != "1.2.840.113741.1.13.1"@
                }
            &&& match sgx_extension(listed) {
                None => platform_outcome(chain) is Err,
                Some(der) => match x509::der_tree(der) {
                    Ok(entries) => platform_outcome(chain) == entries_outcome(entries),
                    Err(_) => platform_outcome(chain) is Err,
                },
            }
            &&& platform_outcome(chain) matches Err(fault) ==> fault.category
                == ErrorCategory::QuoteParse
        }),
{
    lemma_first_extension(chain.certs.first().extensions.listed);
    if let Some(der) = sgx_extension(chain.certs.first().extensions.listed) {
        if let Ok(entries) = x509::der_tree(der) {
            lemma_entry_faults(entries);
        }
    }
}

proof fn lemma_first_extension(listed: Seq<(Seq<char>, Seq<u8>)>)
    ensures
        sgx_extension(listed) is None <==> forall|i: int|
            0 <= i < listed.len() ==> (#[trigger] listed[i]).0 != SGX_PCK_EXTENSION_OID@,
        sgx_extension(listed) matches Some(der) ==> exists|i: int|
            #![trigger listed[i]]
            {
                &&& 0 <= i < listed.len()
                &&& listed[i] == (SGX_PCK_EXTENSION_OID@, der)
                &&& forall|j: int|
                    0 <= j < i ==> (#[trigger] listed[j]).0 != SGX_PCK_EXTENSION_OID@
            },
    decreases listed.len(),
{
    if listed.len() > 0 {
        if listed[0].0 == SGX_PCK_EXTENSION_OID@ {
            assert(listed[0] == (SGX_PCK_EXTENSION_OID@, sgx_extension(listed)->0));
        } else {
            let rest = listed.skip(1);
            lemma_first_extension(rest);
            assert(forall|i: int| 0 <= i < rest.len() ==> #[trigger] rest[i] == listed[i + 1]);
            assert forall|i: int| 1 <= i < listed.len() implies #[trigger] listed[i] == rest[i
                - 1] by {}
            if let Some(der) = sgx_extension(rest) {
                let i = choose|i: int|
                    #![trigger rest[i]]
                    {
                        &&& 0 <= i < rest.len()
                        &&& rest[i] == (SGX_PCK_EXTENSION_OID@, der)
                        &&& forall|j: int|
                            0 <= j < i ==> (#[trigger] rest[j]).0 != SGX_PCK_EXTENSION_OID@
                    };
                assert(listed[i + 1] == (SGX_PCK_EXTENSION_OID@, der));
                assert forall|j: int| 0 <= j < i + 1 implies (#[trigger] listed[j]).0
                    != SGX_PCK_EXTENSION_OID@ by {
                    if j > 0 {
                        assert(rest[j - 1] == listed[j]);
                    }
                }
            }
        }
    }
}

proof fn lemma_tcb_faults(fields: SgxFieldsView, rows: Seq<Option<Seq<DerCellView>>>)
    ensures
        with_tcb(fields, rows) matches Err(fault) ==> fault.category == ErrorCategory::QuoteParse,
    decreases rows.len(),
{
    if rows.len() > 0 {
        lemma_tcb_faults(fields, rows.drop_last());
    }
}

proof fn lemma_entry_faults(entries: Seq<Option<Seq<DerObjectView>>>)
    ensures
        fields_of(entries) matches Err(fault) ==> fault.category == ErrorCategory::QuoteParse,
        entries_outcome(entries) matches Err(fault) ==> fault.category
            == ErrorCategory::QuoteParse,
    decreases entries.len(),
{
    if entries.len() > 0 {
        lemma_entry_faults(entries.drop_last());
        if let Ok(before) = fields_of(entries.drop_last()) {
            if let Some((_, object)) = labelled_object(entries.last()) {
                if let Some(rows) = object.rows {
                    lemma_tcb_faults(before, rows);
                }
            }
        }
    }
}

/// The PCK CA is told by the leaf issuer's name, each of the two by its own, and no other name is
/// one of them.
pub proof fn pck_cas_are_told_by_name(issuer: Option<Seq<char>>)
    ensures
        ca_outcome(issuer) == Ok::<PckCa, Rejection>(PckCa::Processor) <==> issuer == Some(
            "Intel SGX PCK Processor CA"@,
        ),
        ca_outcome(issuer) == Ok::<PckCa, Rejection>(PckCa::Platform) <==> issuer == Some(
            "Intel SGX PCK Platform CA"@,
        ),
        ca_outcome(issuer) matches Err(fault) ==> fault.category == ErrorCategory::QuoteParse,
{
    reveal_strlit("Intel SGX PCK Processor CA");
    reveal_strlit("Intel SGX PCK Platform CA");
    assert("Intel SGX PCK Processor CA"@.len() == 26 && "Intel SGX PCK Platform CA"@.len() == 25);
}

/// What selects the collateral of a quote is read off the leaf of its own chain: the family in the
/// leaf's SGX extension and the CA that the leaf's issuer is named as.
pub proof fn collateral_is_selected_by_the_leaf(cert_data: Seq<u8>, fmspc: Seq<u8>, ca: PckCa)
    ensures
        params_outcome(cert_data) == Ok::<(Seq<u8>, PckCa), Rejection>((fmspc, ca)) <==> (
        pki::chain_ders(ChainKind::QuotePck, cert_data) matches Ok(ders) && (pki::parsed_chain(
            ders,
        ) matches Ok(chain) && (platform_outcome(chain) matches Ok(platform) && platform.fmspc
            == fmspc && ({
            let names = chain.certs.first().names.issuer_common_names;
            &&& names.len() > 0
            &&& names[0] == Some(
                match ca {
                    PckCa::Processor => "Intel SGX PCK Processor CA"@,
                    PckCa::Platform => "Intel SGX PCK Platform CA"@,
                },
            )
        })))),
        params_outcome(cert_data) matches Err(fault) ==> fault.category
            == ErrorCategory::QuoteParse,
{
    if let Ok(ders) = pki::chain_ders(ChainKind::QuotePck, cert_data) {
        pki::chains_are_decoded_certificate_by_certificate(ders);
        if let Ok(chain) = pki::parsed_chain(ders) {
            the_first_sgx_extension_counts(chain);
            pck_cas_are_told_by_name(chain.certs.first().names.issuer_common_name());
        }
    }
}

} // verus!
