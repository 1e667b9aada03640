use vstd::prelude::*;

verus! {

/// Last known lifecycle state of a supervised process.
#[derive(Clone, Copy, Debug, PartialEq, Eq, Structural)]
pub enum ProcessStatus {
    Starting,
    Running,
    Stopped,
}

/// One supervised process as it is kept in the registry.
#[derive(Clone, Debug)]
pub struct PmrProcessInfo {
    /// Registry identity, independent of the OS pid.
    pub pmr_id: u32,
    /// Last known OS process id; 0 means no live process.
    pub pid: u32,
    pub name: String,
    pub namespace: String,
    pub status: ProcessStatus,
    pub program: String,
    pub workdir: String,
    pub args: Vec<String>,
    /// Number of completed restart cycles.
    pub restarts: u32,
}

/// Mathematical model of a record: strings as character sequences.
pub ghost struct ProcessView {
    pub pmr_id: u32,
    pub pid: u32,
    pub name: Seq<char>,
    pub namespace: Seq<char>,
    pub status: ProcessStatus,
    pub program: Seq<char>,
    pub workdir: Seq<char>,
    pub args: Seq<Seq<char>>,
    pub restarts: u32,
}

/// The character sequences of a list of strings.
pub open spec fn strings_view(v: Seq<String>) -> Seq<Seq<char>> {
    v.map_values(|s: String| s@)
}

impl View for PmrProcessInfo {
    type V = ProcessView;

    open spec fn view(&self) -> ProcessView {
        ProcessView {
            pmr_id: self.pmr_id,
            pid: self.pid,
            name: self.name@,
            namespace: self.namespace@,
            status: self.status,
            program: self.program@,
            workdir: self.workdir@,
            args: strings_view(self.args@),
            restarts: self.restarts,
        }
    }
}

/// The models of a list of records.
pub open spec fn records_view(v: Seq<PmrProcessInfo>) -> Seq<ProcessView> {
    v.map_values(|p: PmrProcessInfo| p@)
}

/// The record with a new pid and status, everything else kept.
pub open spec fn with_status(p: ProcessView, pid: u32, status: ProcessStatus) -> ProcessView {
    ProcessView { pid, status, ..p }
}

/// Copies a list of strings element by element.
pub fn copy_strings(v: &Vec<String>) -> (r: Vec<String>)
    ensures
        r@ == v@,
{
    let mut r: Vec<String> = Vec::new();
    let mut i: usize = 0;
    while i < v.len()
        invariant
            i <= v.len(),
            r@ == v@.subrange(0, i as int),
        decreases v.len() - i,
    {
        r.push(v[i].clone());
        i += 1;
    }
    assert(r@ =~= v@);
    r
}

impl PmrProcessInfo {
    /// A copy of the record, equal to it in every field.
    pub fn duplicate(&self) -> (r: PmrProcessInfo)
        ensures
            r@ == self@,
    {
        PmrProcessInfo {
            pmr_id: self.pmr_id,
            pid: self.pid,
            name: self.name.clone(),
            namespace: self.namespace.clone(),
            status: self.status,
            program: self.program.clone(),
            workdir: self.workdir.clone(),
            args: copy_strings(&self.args),
            restarts: self.restarts,
        }
    }
}

} // verus!
