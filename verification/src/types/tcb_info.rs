//! The TCB info document: the TCB levels of a platform family. Dates are Unix seconds.

use vstd::prelude::*;

use crate::text;

verus! {

#[derive(Debug, Clone)]
pub struct TcbInfo {
    pub id: String,
    pub version: u32,
    pub issue_date: i64,
    pub next_update: i64,
    pub fmspc: String,
    pub pce_id: String,
    pub tcb_type: u32,
    pub tcb_evaluation_data_number: u32,
    pub tcb_levels: Vec<TcbLevel>,
}

#[derive(Debug, Clone)]
pub struct TcbLevel {
    pub tcb: TcbPlatform,
    pub tcb_date: i64,
    pub tcb_status: String,
    pub advisory_ids: Vec<String>,
}

#[derive(Debug, Clone)]
pub struct TcbPlatform {
    pub sgxtcbcomponents: Vec<TcbComponent>,
    pub pcesvn: u32,
}

#[derive(Debug, Clone)]
pub struct TcbComponent {
    pub svn: u32,
}

/// What a [`TcbInfo`] holds.
#[verifier::ext_equal]
pub ghost struct TcbInfoView {
    pub id: Seq<char>,
    pub version: u32,
    pub issue_date: i64,
    pub next_update: i64,
    pub fmspc: Seq<char>,
    pub pce_id: Seq<char>,
    pub tcb_type: u32,
    pub tcb_evaluation_data_number: u32,
    pub tcb_levels: Seq<TcbLevelView>,
}

/// What a [`TcbLevel`] holds.
#[verifier::ext_equal]
pub ghost struct TcbLevelView {
    pub component_svns: Seq<u32>,
    pub pcesvn: u32,
    pub tcb_date: i64,
    pub tcb_status: Seq<char>,
    pub advisory_ids: Seq<Seq<char>>,
}

impl View for TcbLevel {
    type V = TcbLevelView;

    open spec fn view(&self) -> TcbLevelView {
        TcbLevelView {
            component_svns: self.tcb.sgxtcbcomponents@.map_values(
                |component: TcbComponent| component.svn,
            ),
            pcesvn: self.tcb.pcesvn,
            tcb_date: self.tcb_date,
            tcb_status: self.tcb_status@,
            advisory_ids: text::texts(self.advisory_ids@),
        }
    }
}

impl View for TcbInfo {
    type V = TcbInfoView;

    open spec fn view(&self) -> TcbInfoView {
        TcbInfoView {
            id: self.id@,
            version: self.version,
            issue_date: self.issue_date,
            next_update: self.next_update,
            fmspc: self.fmspc@,
            pce_id: self.pce_id@,
            tcb_type: self.tcb_type,
            tcb_evaluation_data_number: self.tcb_evaluation_data_number,
            tcb_levels: self.tcb_levels@.map_values(|level: TcbLevel| level@),
        }
    }
}

/// What a TCB info is taken to hold is what its fields hold, level by level and component by
/// component.
pub proof fn tcb_infos_show_their_fields(info: TcbInfo, i: int, k: int)
    requires
        0 <= i < info.tcb_levels@.len(),
        0 <= k < info.tcb_levels@[i].tcb.sgxtcbcomponents@.len(),
    ensures
        info@.id == info.id@,
        info@.version == info.version,
        info@.issue_date == info.issue_date,
        info@.next_update == info.next_update,
        info@.fmspc == info.fmspc@,
        info@.pce_id == info.pce_id@,
        info@.tcb_type == info.tcb_type,
        info@.tcb_evaluation_data_number == info.tcb_evaluation_data_number,
        info@.tcb_levels.len() == info.tcb_levels@.len(),
        ({
            let (shown, level) = (info@.tcb_levels[i], info.tcb_levels@[i]);
            &&& shown.component_svns.len() == level.tcb.sgxtcbcomponents@.len()
            &&& shown.component_svns[k] == level.tcb.sgxtcbcomponents@[k].svn
            &&& shown.pcesvn == level.tcb.pcesvn
            &&& shown.tcb_date == level.tcb_date
            &&& shown.tcb_status == level.tcb_status@
            &&& shown.advisory_ids.len() == level.advisory_ids@.len()
        }),
{
}

} // verus!
