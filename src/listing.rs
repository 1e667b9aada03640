use vstd::prelude::*;
use crate::record::{ProcessStatus, ProcessView, copy_strings, strings_view};
use crate::store::DumpConfig;

verus! {

/// A registry record as shown to the operator.
pub struct PmrProcess {
    pub pmr_id: u32,
    pub pid: u32,
    pub name: String,
    pub namespace: String,
    pub program: String,
    pub args: Vec<String>,
    pub status: ProcessStatus,
}

/// The shown entry carries the record's fields.
pub open spec fn shows(e: PmrProcess, p: ProcessView) -> bool {
    &&& e.pmr_id == p.pmr_id
    &&& e.pid == p.pid
    &&& e.name@ == p.name
    &&& e.namespace@ == p.namespace
    &&& e.program@ == p.program
    &&& strings_view(e.args@) == p.args
    &&& e.status == p.status
}

/// The entries of the registry for display, one per record, in order.
pub fn read_pmr_processes(store: &DumpConfig) -> (r: Vec<PmrProcess>)
    ensures
        r@.len() == store@.len(),
        forall|i: int| 0 <= i < r@.len() ==> shows(#[trigger] r@[i], store@[i]),
{
    let mut r: Vec<PmrProcess> = Vec::new();
    let mut i: usize = 0;
    while i < store.len()
        invariant
            i <= store@.len(),
            r@.len() == i,
            forall|k: int| 0 <= k < i ==> shows(#[trigger] r@[k], store@[k]),
        decreases store@.len() - i,
    {
        let p = store.get(i);
        r.push(PmrProcess {
            pmr_id: p.pmr_id,
            pid: p.pid,
            name: p.name.clone(),
            namespace: p.namespace.clone(),
            program: p.program.clone(),
            args: copy_strings(&p.args),
            status: p.status,
        });
        i += 1;
    }
    r
}


/// The status to display for a record, given whether its process exists.
pub fn shown_status(p: &PmrProcess, alive: bool) -> (r: ProcessStatus)
    ensures
        r == (if p.pid > 0 && alive { ProcessStatus::Running } else { ProcessStatus::Stopped }),
{
    if p.pid > 0 && alive { ProcessStatus::Running } else { ProcessStatus::Stopped }
}

} // verus!
