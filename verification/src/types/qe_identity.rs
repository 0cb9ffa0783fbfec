//! The QE identity document: what the quoting enclave must look like. Dates are Unix seconds.

use vstd::prelude::*;

use crate::text;

verus! {

#[derive(Debug, Clone)]
pub struct QeIdentity {
    pub id: String,
    pub version: u32,
    pub issue_date: i64,
    pub next_update: i64,
    pub tcb_evaluation_data_number: u32,
    pub miscselect: String,
    pub miscselect_mask: String,
    pub attributes: String,
    pub attributes_mask: String,
    pub mrsigner: String,
    pub isvprodid: u16,
    pub tcb_levels: Vec<QeTcbLevel>,
}

#[derive(Debug, Clone)]
pub struct QeTcbLevel {
    pub tcb: QeTcb,
    pub tcb_date: i64,
    pub tcb_status: String,
    pub advisory_ids: Vec<String>,
}

#[derive(Debug, Clone)]
pub struct QeTcb {
    pub isvsvn: u16,
}

/// What a [`QeIdentity`] holds.
#[verifier::ext_equal]
pub ghost struct QeIdentityView {
    pub id: Seq<char>,
    pub version: u32,
    pub issue_date: i64,
    pub next_update: i64,
    pub tcb_evaluation_data_number: u32,
    pub miscselect: Seq<char>,
    pub miscselect_mask: Seq<char>,
    pub attributes: Seq<char>,
    pub attributes_mask: Seq<char>,
    pub mrsigner: Seq<char>,
    pub isvprodid: u16,
    pub tcb_levels: Seq<QeTcbLevelView>,
}

/// What a [`QeTcbLevel`] holds.
#[verifier::ext_equal]
pub ghost struct QeTcbLevelView {
    pub isvsvn: u16,
    pub tcb_date: i64,
    pub tcb_status: Seq<char>,
    pub advisory_ids: Seq<Seq<char>>,
}

impl View for QeTcbLevel {
    type V = QeTcbLevelView;

    open spec fn view(&self) -> QeTcbLevelView {
        QeTcbLevelView {
            isvsvn: self.tcb.isvsvn,
            tcb_date: self.tcb_date,
            tcb_status: self.tcb_status@,
            advisory_ids: text::texts(self.advisory_ids@),
        }
    }
}

impl View for QeIdentity {
    type V = QeIdentityView;

    open spec fn view(&self) -> QeIdentityView {
        QeIdentityView {
            id: self.id@,
            version: self.version,
            issue_date: self.issue_date,
            next_update: self.next_update,
            tcb_evaluation_data_number: self.tcb_evaluation_data_number,
            miscselect: self.miscselect@,
            miscselect_mask: self.miscselect_mask@,
            attributes: self.attributes@,
            attributes_mask: self.attributes_mask@,
            mrsigner: self.mrsigner@,
            isvprodid: self.isvprodid,
            tcb_levels: self.tcb_levels@.map_values(|level: QeTcbLevel| level@),
        }
    }
}

/// What a QE identity is taken to hold is what its fields hold, level by level.
pub proof fn qe_identities_show_their_fields(identity: QeIdentity, i: int)
    requires
        0 <= i < identity.tcb_levels@.len(),
    ensures
        identity@.id == identity.id@,
        identity@.version == identity.version,
        identity@.issue_date == identity.issue_date,
        identity@.next_update == identity.next_update,
        identity@.tcb_evaluation_data_number == identity.tcb_evaluation_data_number,
        identity@.miscselect == identity.miscselect@,
        identity@.miscselect_mask == identity.miscselect_mask@,
        identity@.attributes == identity.attributes@,
        identity@.attributes_mask == identity.attributes_mask@,
        identity@.mrsigner == identity.mrsigner@,
        identity@.isvprodid == identity.isvprodid,
        identity@.tcb_levels.len() == identity.tcb_levels@.len(),
        identity@.tcb_levels[i].isvsvn == identity.tcb_levels@[i].tcb.isvsvn,
        identity@.tcb_levels[i].tcb_date == identity.tcb_levels@[i].tcb_date,
        identity@.tcb_levels[i].tcb_status == identity.tcb_levels@[i].tcb_status@,
        identity@.tcb_levels[i].advisory_ids.len() == identity.tcb_levels@[i].advisory_ids@.len(),
{
}

} // verus!
