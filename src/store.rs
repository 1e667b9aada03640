use vstd::prelude::*;
use crate::record::{PmrProcessInfo, ProcessStatus, ProcessView, records_view, strings_view, with_status};

verus! {

/// Index of the first record at or after `start` whose id is `id`.
pub open spec fn find_id_from(recs: Seq<ProcessView>, id: u32, start: int) -> Option<int>
    decreases recs.len() - start,
{
    if start < 0 || start >= recs.len() {
        None
    } else if recs[start].pmr_id == id {
        Some(start)
    } else {
        find_id_from(recs, id, start + 1)
    }
}

/// Index of the first record whose id is `id`.
pub open spec fn find_id(recs: Seq<ProcessView>, id: u32) -> Option<int> {
    find_id_from(recs, id, 0)
}

/// The registry after the first record with id `id` took a new pid and status.
pub open spec fn update_status_spec(
    recs: Seq<ProcessView>,
    id: u32,
    pid: u32,
    status: ProcessStatus,
) -> Seq<ProcessView> {
    match find_id(recs, id) {
        Some(i) => recs.update(i, with_status(recs[i], pid, status)),
        None => recs,
    }
}

/// The restart count plus one, saturating at the largest `u32`.
pub open spec fn saturating_inc(n: u32) -> u32 {
    if n == u32::MAX { n } else { (n + 1) as u32 }
}

/// The registry after the first record with id `id` counted one more restart.
pub open spec fn increment_restarts_spec(recs: Seq<ProcessView>, id: u32) -> Seq<ProcessView> {
    match find_id(recs, id) {
        Some(i) => recs.update(i, ProcessView { restarts: saturating_inc(recs[i].restarts), ..recs[i] }),
        None => recs,
    }
}

/// Holds of the records whose id is not `id`.
pub open spec fn id_differs(id: u32) -> spec_fn(ProcessView) -> bool {
    |p: ProcessView| p.pmr_id != id
}

/// The registry without any record whose id is `id`.
pub open spec fn delete_spec(recs: Seq<ProcessView>, id: u32) -> Seq<ProcessView> {
    recs.filter(id_differs(id))
}

/// The largest id in the registry, 0 when it is empty.
pub open spec fn max_id(recs: Seq<ProcessView>) -> nat
    decreases recs.len(),
{
    if recs.len() == 0 {
        0
    } else {
        let m = max_id(recs.drop_last());
        if recs.last().pmr_id > m { recs.last().pmr_id as nat } else { m }
    }
}

/// The id that the next added record receives, if ids are not exhausted.
pub open spec fn next_id_spec(recs: Seq<ProcessView>) -> Option<u32> {
    if max_id(recs) < u32::MAX { Some((max_id(recs) + 1) as u32) } else { None }
}

/// The record that an addition appends.
pub open spec fn new_record(
    id: u32,
    name: Seq<char>,
    namespace: Seq<char>,
    workdir: Seq<char>,
    program: Seq<char>,
    pid: u32,
    status: ProcessStatus,
    args: Seq<Seq<char>>,
) -> ProcessView {
    ProcessView { pmr_id: id, pid, name, namespace, status, program, workdir, args, restarts: 0 }
}

/// No two records share an id.
pub open spec fn unique_ids(recs: Seq<ProcessView>) -> bool {
    forall|i: int, j: int| 0 <= i < j < recs.len() ==> recs[i].pmr_id != recs[j].pmr_id
}

/// Under unique ids, looking a record's id up finds that very record.
pub proof fn lemma_find_own_id(recs: Seq<ProcessView>, i: int, start: int)
    requires
        unique_ids(recs),
        0 <= start <= i < recs.len(),
    ensures
        find_id_from(recs, recs[i].pmr_id, start) == Some(i),
    decreases i - start,
{
    if start < i {
        lemma_find_own_id(recs, i, start + 1);
    }
}

/// The first match of an id search does carry that id, and nothing before
/// it does.
pub proof fn lemma_find_id_found(recs: Seq<ProcessView>, id: u32, start: int)
    requires
        0 <= start,
    ensures
        find_id_from(recs, id, start) matches Some(i) ==> start <= i < recs.len() && recs[i].pmr_id == id
            && forall|k: int| start <= k < i ==> recs[k].pmr_id != id,
        find_id_from(recs, id, start) is None ==> forall|k: int| start <= k < recs.len() ==> recs[k].pmr_id != id,
    decreases recs.len() - start,
{
    if start < recs.len() {
        lemma_find_id_found(recs, id, start + 1);
    }
}

/// Deleting keeps only records that were there, and so keeps ids unique.
pub proof fn lemma_delete_keeps_unique(recs: Seq<ProcessView>, d: u32)
    requires
        unique_ids(recs),
    ensures
        unique_ids(delete_spec(recs, d)),
        forall|k: int| 0 <= k < delete_spec(recs, d).len() ==> recs.contains(#[trigger] delete_spec(recs, d)[k]),
    decreases recs.len(),
{
    reveal(Seq::filter);
    if recs.len() > 0 {
        let init = recs.drop_last();
        assert(unique_ids(init));
        lemma_delete_keeps_unique(init, d);
        let sub = init.filter(id_differs(d));
        assert forall|k: int| 0 <= k < sub.len() implies recs.contains(#[trigger] sub[k]) by {
            let j = choose|j: int| 0 <= j < init.len() && init[j] == sub[k];
            assert(recs[j] == sub[k]);
        }
        if recs.last().pmr_id != d {
            let out = sub.push(recs.last());
            assert(delete_spec(recs, d) == out);
            assert forall|k: int| 0 <= k < sub.len() implies out[k].pmr_id != recs.last().pmr_id by {
                assert(init.contains(sub[k]));
                let j = choose|j: int| 0 <= j < init.len() && init[j] == sub[k];
                assert(recs[j] == init[j]);
            }
            assert forall|k: int| 0 <= k < out.len() implies recs.contains(#[trigger] out[k]) by {
                if k == sub.len() {
                    assert(recs[recs.len() - 1] == out[k]);
                } else {
                    assert(out[k] == sub[k]);
                }
            }
        } else {
            assert(delete_spec(recs, d) == sub);
        }
    }
}

/// The registry of supervised processes: an ordered table of records.
///
/// The table is the in-memory snapshot of the persisted registry document;
/// whoever owns the store writes the whole table back after each mutation.
pub struct DumpConfig {
    processes: Vec<PmrProcessInfo>,
}

impl View for DumpConfig {
    type V = Seq<ProcessView>;

    closed spec fn view(&self) -> Seq<ProcessView> {
        records_view(self.processes@)
    }
}

impl DumpConfig {
    /// An empty registry.
    pub fn new() -> (r: DumpConfig)
        ensures
            r@ == Seq::<ProcessView>::empty(),
            unique_ids(r@),
    {
        let r = DumpConfig { processes: Vec::new() };
        assert(r@ =~= Seq::<ProcessView>::empty());
        r
    }

    /// A registry holding the given records, in order; `None` when two of
    /// them share an id.
    pub fn from_processes(processes: Vec<PmrProcessInfo>) -> (r: Option<DumpConfig>)
        ensures
            r matches Some(c) ==> c@ == records_view(processes@),
            r is Some <==> unique_ids(records_view(processes@)),
    {
        let ghost recs = records_view(processes@);
        let mut j: usize = 0;
        while j < processes.len()
            invariant
                j <= processes.len(),
                recs == records_view(processes@),
                forall|a: int, b: int| 0 <= a < b < j ==> recs[a].pmr_id != recs[b].pmr_id,
            decreases processes.len() - j,
        {
            let mut i: usize = 0;
            while i < j
                invariant
                    i <= j < processes.len(),
                    recs == records_view(processes@),
                    forall|a: int| 0 <= a < i ==> recs[a].pmr_id != recs[j as int].pmr_id,
                decreases j - i,
            {
                if processes[i].pmr_id == processes[j].pmr_id {
                    assert(recs[i as int].pmr_id == recs[j as int].pmr_id);
                    assert(!unique_ids(recs));
                    return None;
                }
                i += 1;
            }
            j += 1;
        }
        Some(DumpConfig { processes })
    }

    /// Number of records.
    pub fn len(&self) -> (r: usize)
        ensures
            r == self@.len(),
    {
        self.processes.len()
    }

    /// The record at position `i`.
    pub fn get(&self, i: usize) -> (r: &PmrProcessInfo)
        requires
            i < self@.len(),
        ensures
            r@ == self@[i as int],
    {
        &self.processes[i]
    }

    /// A full copy of the records, in order.
    pub fn list_processes(&self) -> (r: Vec<PmrProcessInfo>)
        ensures
            records_view(r@) == self@,
    {
        let mut r: Vec<PmrProcessInfo> = Vec::new();
        let mut i: usize = 0;
        while i < self.processes.len()
            invariant
                i <= self.processes.len(),
                records_view(r@) == self@.subrange(0, i as int),
            decreases self.processes.len() - i,
        {
            let p = self.processes[i].duplicate();
            let ghost before = r@;
            r.push(p);
            assert(r@ == before.push(p));
            assert(records_view(r@) =~= records_view(before).push(p@));
            i += 1;
            assert(records_view(r@) =~= self@.subrange(0, i as int));
        }
        assert(self@.subrange(0, i as int) =~= self@);
        r
    }

    /// Position of the first record whose id is `id`.
    pub fn find_index(&self, id: u32) -> (r: Option<usize>)
        ensures
            r matches Some(i) ==> i < self@.len() && find_id(self@, id) == Some(i as int),
            r is None ==> find_id(self@, id) is None,
    {
        let mut i: usize = 0;
        while i < self.processes.len()
            invariant
                i <= self.processes.len(),
                find_id(self@, id) == find_id_from(self@, id, i as int),
            decreases self.processes.len() - i,
        {
            if self.processes[i].pmr_id == id {
                return Some(i);
            }
            i += 1;
        }
        None
    }

    /// The id that the next added record would receive: one more than the
    /// largest id present (1 on an empty registry), or `None` when that
    /// largest id is already the largest `u32`.
    pub fn next_id(&self) -> (r: Option<u32>)
        ensures
            r == next_id_spec(self@),
    {
        let mut m: u32 = 0;
        let mut i: usize = 0;
        while i < self.processes.len()
            invariant
                i <= self.processes.len(),
                m as nat == max_id(self@.subrange(0, i as int)),
            decreases self.processes.len() - i,
        {
            assert(self@.subrange(0, i + 1).drop_last() =~= self@.subrange(0, i as int));
            if self.processes[i].pmr_id > m {
                m = self.processes[i].pmr_id;
            }
            i += 1;
        }
        assert(self@.subrange(0, i as int) =~= self@);
        if m < u32::MAX { Some(m + 1) } else { None }
    }

    /// Appends a record with the next id and no restarts, and returns that
    /// id; leaves the registry unchanged and returns `None` when ids are
    /// exhausted.
    pub fn add_process(
        &mut self,
        name: String,
        namespace: String,
        workdir: String,
        program: String,
        pid: u32,
        status: ProcessStatus,
        args: Vec<String>,
    ) -> (r: Option<u32>)
        requires
            unique_ids(old(self)@),
        ensures
            unique_ids(final(self)@),
            r == next_id_spec(old(self)@),
            r matches Some(id) ==> forall|i: int| 0 <= i < old(self)@.len() ==> old(self)@[i].pmr_id < id,
            r matches Some(id) ==> final(self)@ == old(self)@.push(
                new_record(id, name@, namespace@, workdir@, program@, pid, status, strings_view(args@)),
            ),
            r is None ==> final(self)@ == old(self)@,
    {
        match self.next_id() {
            Some(id) => {
                let p = PmrProcessInfo {
                    pmr_id: id,
                    pid,
                    name,
                    namespace,
                    status,
                    program,
                    workdir,
                    args,
                    restarts: 0,
                };
                let ghost before = self.processes@;
                self.processes.push(p);
                assert(self.processes@ == before.push(p));
                assert(self@ =~= old(self)@.push(p@));
                proof {
                    lemma_max_id_bounds(old(self)@);
                }
                Some(id)
            },
            None => None,
        }
    }

    /// Removes every record whose id is `id`; does nothing when there is none.
    pub fn delete_process(&mut self, id: u32)
        requires
            unique_ids(old(self)@),
        ensures
            unique_ids(final(self)@),
            final(self)@ == delete_spec(old(self)@, id),
    {
        let mut kept: Vec<PmrProcessInfo> = Vec::new();
        let mut i: usize = 0;
        while i < self.processes.len()
            invariant
                i <= self.processes.len(),
                records_view(kept@) == self@.subrange(0, i as int).filter(id_differs(id)),
            decreases self.processes.len() - i,
        {
            assert(self@.subrange(0, i + 1) =~= self@.subrange(0, i as int).push(self@[i as int]));
            proof {
                self@.subrange(0, i as int).lemma_filter_push(self@[i as int], id_differs(id));
            }
            if self.processes[i].pmr_id != id {
                let p = self.processes[i].duplicate();
                let ghost before = kept@;
                kept.push(p);
                assert(kept@ == before.push(p));
                assert(records_view(kept@) =~= records_view(before).push(p@));
            }
            i += 1;
        }
        assert(self@.subrange(0, i as int) =~= self@);
        proof {
            lemma_delete_keeps_unique(self@, id);
        }
        self.processes = kept;
    }

    /// Sets the pid and status of the record with id `pmr_id`; does nothing
    /// when no record has that id.
    pub fn update_process_status(&mut self, pmr_id: u32, pid: u32, status: ProcessStatus)
        requires
            unique_ids(old(self)@),
        ensures
            unique_ids(final(self)@),
            final(self)@ == update_status_spec(old(self)@, pmr_id, pid, status),
    {
        match self.find_index(pmr_id) {
            Some(i) => {
                self.processes[i].pid = pid;
                self.processes[i].status = status;
                assert(self@ =~= update_status_spec(old(self)@, pmr_id, pid, status));
            },
            None => {},
        }
    }

    /// Counts one more restart of the record with id `pmr_id`, saturating at
    /// the largest count; does nothing when no record has that id.
    pub fn increment_restarts(&mut self, pmr_id: u32)
        requires
            unique_ids(old(self)@),
        ensures
            unique_ids(final(self)@),
            final(self)@ == increment_restarts_spec(old(self)@, pmr_id),
    {
        match self.find_index(pmr_id) {
            Some(i) => {
                let n = self.processes[i].restarts;
                self.processes[i].restarts = if n == u32::MAX { n } else { n + 1 };
                assert(self@ =~= increment_restarts_spec(old(self)@, pmr_id));
            },
            None => {},
        }
    }
}

/// One mutation of the registry's record set.
pub ghost enum StoreOp {
    /// Adds a record taking its fields (but id and restarts) from the template.
    Add(ProcessView),
    /// Deletes the records with this id.
    Delete(u32),
}

/// The registry after one operation.
pub open spec fn apply_op(recs: Seq<ProcessView>, op: StoreOp) -> Seq<ProcessView> {
    match op {
        StoreOp::Add(t) => match next_id_spec(recs) {
            Some(id) => recs.push(
                new_record(id, t.name, t.namespace, t.workdir, t.program, t.pid, t.status, t.args),
            ),
            None => recs,
        },
        StoreOp::Delete(id) => delete_spec(recs, id),
    }
}

/// The ids that the additions among `ops` return, in order.
pub open spec fn returned_ids(recs: Seq<ProcessView>, ops: Seq<StoreOp>) -> Seq<u32>
    decreases ops.len(),
{
    if ops.len() == 0 {
        Seq::empty()
    } else {
        let head: Seq<u32> = match ops[0] {
            StoreOp::Add(_) => match next_id_spec(recs) {
                Some(id) => seq![id],
                None => Seq::empty(),
            },
            StoreOp::Delete(_) => Seq::empty(),
        };
        head + returned_ids(apply_op(recs, ops[0]), ops.drop_first())
    }
}

/// No deletion among `ops` removes the record holding the largest id of the
/// registry at that point.
pub open spec fn spares_largest(recs: Seq<ProcessView>, ops: Seq<StoreOp>) -> bool
    decreases ops.len(),
{
    if ops.len() == 0 {
        true
    } else {
        (match ops[0] {
            StoreOp::Delete(id) => id as nat != max_id(recs) || max_id(recs) == 0,
            StoreOp::Add(_) => true,
        }) && spares_largest(apply_op(recs, ops[0]), ops.drop_first())
    }
}

/// Every id in the registry is at most the largest id.
pub proof fn lemma_max_id_bounds(recs: Seq<ProcessView>)
    ensures
        forall|i: int| 0 <= i < recs.len() ==> recs[i].pmr_id <= max_id(recs),
        max_id(recs) <= u32::MAX,
    decreases recs.len(),
{
    if recs.len() > 0 {
        lemma_max_id_bounds(recs.drop_last());
        assert forall|i: int| 0 <= i < recs.len() implies recs[i].pmr_id <= max_id(recs) by {
            if i < recs.len() - 1 {
                assert(recs[i] == recs.drop_last()[i]);
            }
        }
    }
}

/// Deleting never raises the largest id, and keeps it when the deleted id is
/// not the largest.
pub proof fn lemma_max_id_delete(recs: Seq<ProcessView>, d: u32)
    ensures
        max_id(delete_spec(recs, d)) <= max_id(recs),
        max_id(recs) != d as nat ==> max_id(delete_spec(recs, d)) == max_id(recs),
    decreases recs.len(),
{
    reveal(Seq::filter);
    if recs.len() > 0 {
        lemma_max_id_delete(recs.drop_last(), d);
        let sub = recs.drop_last().filter(id_differs(d));
        if recs.last().pmr_id != d {
            assert(delete_spec(recs, d) == sub.push(recs.last()));
            assert(sub.push(recs.last()).drop_last() =~= sub);
        } else {
            assert(delete_spec(recs, d) == sub);
        }
    } else {
        assert(delete_spec(recs, d) =~= recs);
    }
}

/// Adding a record makes its id the largest.
pub proof fn lemma_max_id_push(recs: Seq<ProcessView>, p: ProcessView)
    requires
        p.pmr_id as nat > max_id(recs),
    ensures
        max_id(recs.push(p)) == p.pmr_id,
{
    assert(recs.push(p).drop_last() =~= recs);
}

/// Ids returned by additions only grow: over any run of additions and
/// deletions in which no deletion removes the record holding the current
/// largest id, every returned id is larger than all ids present before the
/// run and than every id returned earlier in it.
pub proof fn lemma_ids_increase(recs: Seq<ProcessView>, ops: Seq<StoreOp>)
    requires
        spares_largest(recs, ops),
    ensures
        forall|k: int| 0 <= k < returned_ids(recs, ops).len()
            ==> returned_ids(recs, ops)[k] as nat > max_id(recs),
        forall|j: int, k: int| 0 <= j < k < returned_ids(recs, ops).len()
            ==> returned_ids(recs, ops)[j] < returned_ids(recs, ops)[k],
    decreases ops.len(),
{
    if ops.len() > 0 {
        let next = apply_op(recs, ops[0]);
        let rest = ops.drop_first();
        lemma_ids_increase(next, rest);
        match ops[0] {
            StoreOp::Add(t) => {
                match next_id_spec(recs) {
                    Some(id) => {
                        lemma_max_id_push(
                            recs,
                            new_record(id, t.name, t.namespace, t.workdir, t.program, t.pid, t.status, t.args),
                        );
                    },
                    None => {},
                }
            },
            StoreOp::Delete(d) => {
                lemma_max_id_delete(recs, d);
            },
        }
        let all = returned_ids(recs, ops);
        let tail = returned_ids(next, rest);
        assert forall|j: int, k: int| 0 <= j < k < all.len() implies all[j] < all[k] by {
            if all.len() > tail.len() && j == 0 {
                assert(all[k] == tail[k - 1]);
            } else if all.len() > tail.len() {
                assert(all[j] == tail[j - 1] && all[k] == tail[k - 1]);
            } else {
                assert(all[j] == tail[j] && all[k] == tail[k]);
            }
        }
    }
}

/// After a deletion no record carries the deleted id, whatever state the
/// deleted records were in.
pub proof fn lemma_delete_removes(recs: Seq<ProcessView>, id: u32)
    ensures
        forall|i: int| 0 <= i < delete_spec(recs, id).len() ==> delete_spec(recs, id)[i].pmr_id != id,
{
    broadcast use vstd::seq_lib::group_filter_ensures;
    assert forall|i: int| 0 <= i < delete_spec(recs, id).len()
        implies delete_spec(recs, id)[i].pmr_id != id by {
        assert(id_differs(id)(delete_spec(recs, id)[i]));
    }
}

} // verus!
