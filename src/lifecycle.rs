use vstd::prelude::*;
use crate::record::{ProcessStatus, ProcessView, strings_view, with_status};
use crate::resolve::{find_name, find_name_from, find_name_index, lemma_resolve_bounds, resolve_spec, resolve_target};
use crate::store::{
    DumpConfig, delete_spec, find_id, find_id_from, increment_restarts_spec, lemma_find_own_id,
    new_record, next_id_spec, saturating_inc, unique_ids, update_status_spec,
};
use crate::text::parse_u32_spec;

verus! {

/// Where a stop operation stands. The steps that end in `CheckAlive` or
/// `Terminate` ask the caller for an OS operation whose outcome it hands to
/// [`stop_on_liveness`] or [`stop_on_terminate`].
#[derive(Clone, Copy, Debug, PartialEq, Eq, Structural)]
pub enum StopStep {
    /// No record matches the target.
    NotFound,
    /// The record had no process; it is now marked stopped.
    AlreadyStopped { id: u32 },
    /// The caller must find out whether process `pid` is alive.
    CheckAlive { id: u32, pid: u32 },
    /// The process was already gone; the record is now marked stopped.
    Vanished { id: u32 },
    /// The caller must forcefully terminate process `pid`.
    Terminate { id: u32, pid: u32 },
    /// The process was terminated; the record is now marked stopped.
    Stopped { id: u32 },
    /// Termination failed; the record is left as it was, for a retry.
    TerminateFailed { id: u32, pid: u32 },
}

/// The registry after the record with id `id` was marked stopped.
pub open spec fn mark_stopped(recs: Seq<ProcessView>, id: u32) -> Seq<ProcessView> {
    update_status_spec(recs, id, 0, ProcessStatus::Stopped)
}

/// Beginning to stop the record at position `i`.
pub open spec fn stop_at_spec(recs: Seq<ProcessView>, i: int) -> (Seq<ProcessView>, StopStep) {
    let p = recs[i];
    if p.pid == 0 {
        (mark_stopped(recs, p.pmr_id), StopStep::AlreadyStopped { id: p.pmr_id })
    } else {
        (recs, StopStep::CheckAlive { id: p.pmr_id, pid: p.pid })
    }
}

/// Beginning to stop the record that `target` designates.
pub open spec fn stop_begin_spec(recs: Seq<ProcessView>, target: Seq<char>) -> (Seq<ProcessView>, StopStep) {
    match resolve_spec(recs, target) {
        Some(i) => stop_at_spec(recs, i),
        None => (recs, StopStep::NotFound),
    }
}

/// Beginning to stop the record with id `id`.
pub open spec fn stop_by_id_spec(recs: Seq<ProcessView>, id: u32) -> (Seq<ProcessView>, StopStep) {
    match find_id(recs, id) {
        Some(i) => stop_at_spec(recs, i),
        None => (recs, StopStep::NotFound),
    }
}

/// What follows the liveness check of process `pid` of record `id`.
pub open spec fn on_liveness_spec(recs: Seq<ProcessView>, id: u32, pid: u32, alive: bool) -> (Seq<ProcessView>, StopStep) {
    if alive {
        (recs, StopStep::Terminate { id, pid })
    } else {
        (mark_stopped(recs, id), StopStep::Vanished { id })
    }
}

/// What follows the attempt to terminate process `pid` of record `id`.
pub open spec fn on_terminate_spec(recs: Seq<ProcessView>, id: u32, pid: u32, killed: bool) -> (Seq<ProcessView>, StopStep) {
    if killed {
        (mark_stopped(recs, id), StopStep::Stopped { id })
    } else {
        (recs, StopStep::TerminateFailed { id, pid })
    }
}

/// Carries a stop through, given whether the process turns out alive and
/// whether terminating it succeeds.
pub open spec fn stop_finish_spec(
    state: (Seq<ProcessView>, StopStep),
    alive: bool,
    killed: bool,
) -> (Seq<ProcessView>, StopStep) {
    match state.1 {
        StopStep::CheckAlive { id, pid } => {
            let next = on_liveness_spec(state.0, id, pid, alive);
            match next.1 {
                StopStep::Terminate { id, pid } => on_terminate_spec(next.0, id, pid, killed),
                _ => next,
            }
        },
        _ => state,
    }
}

/// A whole stop of `target`, given the outcomes of the OS operations.
pub open spec fn stop_run_spec(recs: Seq<ProcessView>, target: Seq<char>, alive: bool, killed: bool) -> (Seq<ProcessView>, StopStep) {
    stop_finish_spec(stop_begin_spec(recs, target), alive, killed)
}

/// A whole stop of the record with id `id`, given the outcomes of the OS
/// operations.
pub open spec fn stop_run_by_id_spec(recs: Seq<ProcessView>, id: u32, alive: bool, killed: bool) -> (Seq<ProcessView>, StopStep) {
    stop_finish_spec(stop_by_id_spec(recs, id), alive, killed)
}

/// Begins to stop the record at position `i`: a record without a process is
/// marked stopped at once; otherwise the caller is asked to check liveness.
pub fn stop_at(store: &mut DumpConfig, i: usize) -> (r: StopStep)
    requires
        unique_ids(old(store)@),
        i < old(store)@.len(),
    ensures
        unique_ids(final(store)@),
        (final(store)@, r) == stop_at_spec(old(store)@, i as int),
{
    let id = store.get(i).pmr_id;
    let pid = store.get(i).pid;
    if pid == 0 {
        store.update_process_status(id, 0, ProcessStatus::Stopped);
        StopStep::AlreadyStopped { id }
    } else {
        StopStep::CheckAlive { id, pid }
    }
}

/// Begins to stop the record that `target` designates (numeric id first,
/// then exact name).
pub fn stop_process(store: &mut DumpConfig, target: &str) -> (r: StopStep)
    requires
        unique_ids(old(store)@),
    ensures
        unique_ids(final(store)@),
        (final(store)@, r) == stop_begin_spec(old(store)@, target@),
{
    match resolve_target(store, target) {
        Some(i) => stop_at(store, i),
        None => StopStep::NotFound,
    }
}

/// Begins to stop the record with id `id`.
pub fn stop_by_id(store: &mut DumpConfig, id: u32) -> (r: StopStep)
    requires
        unique_ids(old(store)@),
    ensures
        unique_ids(final(store)@),
        (final(store)@, r) == stop_by_id_spec(old(store)@, id),
{
    match store.find_index(id) {
        Some(i) => stop_at(store, i),
        None => StopStep::NotFound,
    }
}

/// Continues a stop once the liveness of process `pid` is known: a live
/// process must be terminated; a vanished one leaves its record stopped.
pub fn stop_on_liveness(store: &mut DumpConfig, id: u32, pid: u32, alive: bool) -> (r: StopStep)
    requires
        unique_ids(old(store)@),
    ensures
        unique_ids(final(store)@),
        (final(store)@, r) == on_liveness_spec(old(store)@, id, pid, alive),
{
    if alive {
        StopStep::Terminate { id, pid }
    } else {
        store.update_process_status(id, 0, ProcessStatus::Stopped);
        StopStep::Vanished { id }
    }
}

/// Ends a stop once the termination attempt is over: on success the record
/// is marked stopped, on failure it is left untouched.
pub fn stop_on_terminate(store: &mut DumpConfig, id: u32, pid: u32, killed: bool) -> (r: StopStep)
    requires
        unique_ids(old(store)@),
    ensures
        unique_ids(final(store)@),
        (final(store)@, r) == on_terminate_spec(old(store)@, id, pid, killed),
{
    if killed {
        store.update_process_status(id, 0, ProcessStatus::Stopped);
        StopStep::Stopped { id }
    } else {
        StopStep::TerminateFailed { id, pid }
    }
}

/// Two registries with the same ids and names, position by position.
pub open spec fn same_keys(a: Seq<ProcessView>, b: Seq<ProcessView>) -> bool {
    a.len() == b.len() && forall|k: int| 0 <= k < a.len() ==> a[k].pmr_id == b[k].pmr_id && a[k].name == b[k].name
}

/// Lookups by id and by name only see ids and names.
pub proof fn lemma_same_keys_find(a: Seq<ProcessView>, b: Seq<ProcessView>, id: u32, name: Seq<char>, start: int)
    requires
        same_keys(a, b),
        0 <= start,
    ensures
        find_id_from(a, id, start) == find_id_from(b, id, start),
        find_name_from(a, name, start) == find_name_from(b, name, start),
    decreases a.len() - start,
{
    if start < a.len() {
        lemma_same_keys_find(a, b, id, name, start + 1);
    }
}

/// Targets resolve alike in two registries with the same ids and names.
pub proof fn lemma_same_keys_resolve(a: Seq<ProcessView>, b: Seq<ProcessView>, target: Seq<char>)
    requires
        same_keys(a, b),
    ensures
        resolve_spec(a, target) == resolve_spec(b, target),
{
    lemma_same_keys_find(a, b, 0, target, 0);
    if let Some(id) = parse_u32_spec(target) {
        lemma_same_keys_find(a, b, id, target, 0);
    }
}

/// Marking a record stopped changes only the pid and status of the record
/// with that id.
pub proof fn lemma_mark_stopped(recs: Seq<ProcessView>, i: int)
    requires
        unique_ids(recs),
        0 <= i < recs.len(),
    ensures
        mark_stopped(recs, recs[i].pmr_id) == recs.update(i, with_status(recs[i], 0, ProcessStatus::Stopped)),
        same_keys(recs, mark_stopped(recs, recs[i].pmr_id)),
        unique_ids(mark_stopped(recs, recs[i].pmr_id)),
{
    lemma_find_own_id(recs, i, 0);
}

/// A stop that did not fail leaves the designated record with no pid and
/// status stopped, and keeps ids and names in place.
pub proof fn lemma_stop_run_outcome(recs: Seq<ProcessView>, target: Seq<char>, alive: bool, killed: bool)
    requires
        unique_ids(recs),
        !(stop_run_spec(recs, target, alive, killed).1 is TerminateFailed),
    ensures
        same_keys(recs, stop_run_spec(recs, target, alive, killed).0),
        unique_ids(stop_run_spec(recs, target, alive, killed).0),
        resolve_spec(recs, target) is None ==> stop_run_spec(recs, target, alive, killed) == (recs, StopStep::NotFound),
        resolve_spec(recs, target) matches Some(i) ==> ({
            let after = stop_run_spec(recs, target, alive, killed).0;
            &&& after == recs.update(i, with_status(recs[i], 0, ProcessStatus::Stopped))
            &&& after[i].pid == 0
            &&& after[i].status == ProcessStatus::Stopped
        }),
{
    lemma_resolve_bounds(recs, target);
    assert(same_keys(recs, recs));
    if let Some(i) = resolve_spec(recs, target) {
        lemma_mark_stopped(recs, i);
    }
}

/// Stopping is idempotent: once a stop of a target has gone through (the
/// process was absent, had vanished, or was terminated), stopping the same
/// target again reports it already stopped and changes nothing, whatever the
/// OS would say; both times the record is left with pid 0 and status stopped.
pub proof fn lemma_stop_idempotent(
    recs: Seq<ProcessView>,
    target: Seq<char>,
    alive1: bool,
    killed1: bool,
    alive2: bool,
    killed2: bool,
)
    requires
        unique_ids(recs),
        !(stop_run_spec(recs, target, alive1, killed1).1 is TerminateFailed),
    ensures
        ({
            let first = stop_run_spec(recs, target, alive1, killed1);
            let second = stop_run_spec(first.0, target, alive2, killed2);
            &&& resolve_spec(recs, target) is None ==> first.1 == StopStep::NotFound && second.1 == StopStep::NotFound
            &&& resolve_spec(recs, target) matches Some(i) ==> {
                &&& first.0[i].pid == 0 && first.0[i].status == ProcessStatus::Stopped
                &&& second.1 == (StopStep::AlreadyStopped { id: recs[i].pmr_id })
                &&& second.0 == first.0
            }
        }),
{
    let first = stop_run_spec(recs, target, alive1, killed1);
    lemma_stop_run_outcome(recs, target, alive1, killed1);
    lemma_same_keys_resolve(recs, first.0, target);
    lemma_resolve_bounds(recs, target);
    if let Some(i) = resolve_spec(recs, target) {
        lemma_mark_stopped(first.0, i);
        assert(first.0[i].pmr_id == recs[i].pmr_id);
        assert(with_status(first.0[i], 0, ProcessStatus::Stopped) == first.0[i]);
        assert(first.0.update(i, first.0[i]) =~= first.0);
    }
}

/// A program descriptor read from a configuration document.
pub struct StartConfig {
    pub name: String,
    pub program: String,
    pub args: Vec<String>,
}

/// Mathematical model of a [`StartConfig`].
pub ghost struct StartConfigView {
    pub name: Seq<char>,
    pub program: Seq<char>,
    pub args: Seq<Seq<char>>,
}

impl View for StartConfig {
    type V = StartConfigView;

    open spec fn view(&self) -> StartConfigView {
        StartConfigView { name: self.name@, program: self.program@, args: strings_view(self.args@) }
    }
}

/// The characters of an optional string.
pub open spec fn opt_view(o: Option<String>) -> Option<Seq<char>> {
    match o {
        Some(s) => Some(s@),
        None => None,
    }
}

/// The model of an optional configuration.
pub open spec fn opt_config_view(o: Option<StartConfig>) -> Option<StartConfigView> {
    match o {
        Some(c) => Some(c@),
        None => None,
    }
}

/// The name given to a record with no other name.
pub open spec fn unnamed() -> Seq<char> {
    seq!['u', 'n', 'n', 'a', 'm', 'e', 'd']
}

/// The name of a fresh record: the explicit name, else the target, else the
/// configuration's name, else `unnamed`.
pub open spec fn effective_name(
    name: Option<Seq<char>>,
    target: Option<Seq<char>>,
    config: Option<StartConfigView>,
) -> Seq<char> {
    match name {
        Some(n) => n,
        None => match target {
            Some(t) => t,
            None => match config {
                Some(c) => c.name,
                None => unnamed(),
            },
        },
    }
}

/// Where a start operation stands.
#[derive(Clone, Copy, Debug, PartialEq, Eq, Structural)]
pub enum StartStep {
    /// Neither a configuration nor a target was given.
    NothingToStart,
    /// The target designates a record that is already running.
    AlreadyRunning { id: u32, pid: u32 },
    /// A fresh record would take the name of record `id`.
    DuplicateName { id: u32 },
    /// No id is left for a fresh record.
    IdsExhausted,
    /// The caller must spawn the program of record `id`, after stopping the
    /// record's old process when `stop_first` holds, and report the new pid
    /// to [`start_spawned`].
    Launch { id: u32, stop_first: bool },
}

/// A start of a program that no record holds yet.
pub open spec fn start_fresh_spec(
    recs: Seq<ProcessView>,
    name: Option<Seq<char>>,
    namespace: Seq<char>,
    workdir: Seq<char>,
    target: Option<Seq<char>>,
    config: Option<StartConfigView>,
    args: Seq<Seq<char>>,
) -> (Seq<ProcessView>, StartStep) {
    if config is None && target is None {
        (recs, StartStep::NothingToStart)
    } else {
        let program = match config {
            Some(c) => c.program,
            None => target.unwrap(),
        };
        let run_args = match config {
            Some(c) => c.args,
            None => args,
        };
        let nm = effective_name(name, target, config);
        match find_name(recs, nm) {
            Some(j) => (recs, StartStep::DuplicateName { id: recs[j].pmr_id }),
            None => match next_id_spec(recs) {
                None => (recs, StartStep::IdsExhausted),
                Some(id) => (
                    recs.push(new_record(id, nm, namespace, workdir, program, 0, ProcessStatus::Starting, run_args)),
                    StartStep::Launch { id, stop_first: false },
                ),
            },
        }
    }
}

/// The record that a start's target designates, if any.
pub open spec fn existing_spec(recs: Seq<ProcessView>, target: Option<Seq<char>>) -> Option<int> {
    match target {
        Some(t) => resolve_spec(recs, t),
        None => None,
    }
}

/// A start: an existing record that the target designates is launched again
/// unless it runs; otherwise a fresh record is created in status starting
/// with pid 0, before anything is spawned.
pub open spec fn start_spec(
    recs: Seq<ProcessView>,
    name: Option<Seq<char>>,
    namespace: Seq<char>,
    workdir: Seq<char>,
    target: Option<Seq<char>>,
    config: Option<StartConfigView>,
    args: Seq<Seq<char>>,
) -> (Seq<ProcessView>, StartStep) {
    match existing_spec(recs, target) {
        Some(i) => if recs[i].status == ProcessStatus::Running {
            (recs, StartStep::AlreadyRunning { id: recs[i].pmr_id, pid: recs[i].pid })
        } else {
            (recs, StartStep::Launch { id: recs[i].pmr_id, stop_first: recs[i].pid != 0 })
        },
        None => start_fresh_spec(recs, name, namespace, workdir, target, config, args),
    }
}

fn start_fresh(
    store: &mut DumpConfig,
    name: Option<String>,
    namespace: String,
    workdir: String,
    target: Option<String>,
    config: Option<StartConfig>,
    args: Vec<String>,
) -> (r: StartStep)
    requires
        unique_ids(old(store)@),
    ensures
        unique_ids(final(store)@),
        (final(store)@, r) == start_fresh_spec(
            old(store)@,
            opt_view(name),
            namespace@,
            workdir@,
            opt_view(target),
            opt_config_view(config),
            strings_view(args@),
        ),
{
    let ghost config_v = opt_config_view(config);
    let ghost target_v = opt_view(target);
    let (program, run_args, config_name) = match config {
        Some(c) => (c.program, c.args, Some(c.name)),
        None => match &target {
            Some(t) => (t.clone(), args, None),
            None => {
                return StartStep::NothingToStart;
            },
        },
    };
    let nm = match name {
        Some(n) => n,
        None => match target {
            Some(t) => t,
            None => match config_name {
                Some(c) => c,
                None => {
                    proof {
                        reveal_strlit("unnamed");
                    }
                    let u = String::from_str("unnamed");
                    assert(u@ =~= unnamed());
                    u
                },
            },
        },
    };
    assert(nm@ == effective_name(opt_view(name), target_v, config_v));
    match find_name_index(store, &nm) {
        Some(j) => StartStep::DuplicateName { id: store.get(j).pmr_id },
        None => match store.add_process(nm, namespace, workdir, program, 0, ProcessStatus::Starting, run_args) {
            None => StartStep::IdsExhausted,
            Some(id) => StartStep::Launch { id, stop_first: false },
        },
    }
}

/// Decides a start. A target that designates an existing record relaunches
/// that record (refused while it runs; its old process is stopped first when
/// it has one). Otherwise the program of the configuration, or else the
/// target with `args`, gets a fresh record in status starting with pid 0,
/// unless its name is taken.
pub fn start_process(
    store: &mut DumpConfig,
    name: Option<String>,
    namespace: String,
    workdir: String,
    target: Option<String>,
    config: Option<StartConfig>,
    args: Vec<String>,
) -> (r: StartStep)
    requires
        unique_ids(old(store)@),
    ensures
        unique_ids(final(store)@),
        (final(store)@, r) == start_spec(
            old(store)@,
            opt_view(name),
            namespace@,
            workdir@,
            opt_view(target),
            opt_config_view(config),
            strings_view(args@),
        ),
{
    let existing = match &target {
        Some(t) => resolve_target(store, t.as_str()),
        None => None,
    };
    match existing {
        Some(i) => {
            let p = store.get(i);
            if p.status == ProcessStatus::Running {
                StartStep::AlreadyRunning { id: p.pmr_id, pid: p.pid }
            } else {
                StartStep::Launch { id: p.pmr_id, stop_first: p.pid != 0 }
            }
        },
        None => start_fresh(store, name, namespace, workdir, target, config, args),
    }
}

/// Records that the program of record `id` was spawned as process `pid`.
pub fn start_spawned(store: &mut DumpConfig, id: u32, pid: u32)
    requires
        unique_ids(old(store)@),
    ensures
        unique_ids(final(store)@),
        final(store)@ == update_status_spec(old(store)@, id, pid, ProcessStatus::Running),
{
    store.update_process_status(id, pid, ProcessStatus::Running);
}

/// Where a restart operation stands.
#[derive(Clone, Copy, Debug, PartialEq, Eq, Structural)]
pub enum RestartStep {
    /// The caller must stop record `id` (see [`stop_by_id`]), spawn its
    /// recorded program again and report the new pid to [`restart_spawned`].
    Relaunch { id: u32 },
    /// No record matched the target: the restart went on as a start.
    Fresh(StartStep),
}

/// A restart: an existing record that the target designates is relaunched;
/// otherwise the call is a start of a fresh program.
pub open spec fn restart_spec(
    recs: Seq<ProcessView>,
    namespace: Seq<char>,
    workdir: Seq<char>,
    target: Option<Seq<char>>,
    config: Option<StartConfigView>,
    args: Seq<Seq<char>>,
) -> (Seq<ProcessView>, RestartStep) {
    match existing_spec(recs, target) {
        Some(i) => (recs, RestartStep::Relaunch { id: recs[i].pmr_id }),
        None => {
            let s = start_fresh_spec(recs, None, namespace, workdir, target, config, args);
            (s.0, RestartStep::Fresh(s.1))
        },
    }
}

/// Decides a restart: a target that designates an existing record restarts
/// that record with its recorded program and arguments; any other call is a
/// start of a fresh program.
pub fn restart_process(
    store: &mut DumpConfig,
    namespace: String,
    workdir: String,
    target: Option<String>,
    config: Option<StartConfig>,
    args: Vec<String>,
) -> (r: RestartStep)
    requires
        unique_ids(old(store)@),
    ensures
        unique_ids(final(store)@),
        (final(store)@, r) == restart_spec(
            old(store)@,
            namespace@,
            workdir@,
            opt_view(target),
            opt_config_view(config),
            strings_view(args@),
        ),
{
    let existing = match &target {
        Some(t) => resolve_target(store, t.as_str()),
        None => None,
    };
    match existing {
        Some(i) => RestartStep::Relaunch { id: store.get(i).pmr_id },
        None => RestartStep::Fresh(start_fresh(store, None, namespace, workdir, target, config, args)),
    }
}

/// The registry after record `id` was respawned as process `pid`.
pub open spec fn restart_spawned_spec(recs: Seq<ProcessView>, id: u32, pid: u32) -> Seq<ProcessView> {
    increment_restarts_spec(update_status_spec(recs, id, pid, ProcessStatus::Running), id)
}

/// Records that record `id` was respawned as process `pid`: it runs with the
/// new pid and counts one more restart.
pub fn restart_spawned(store: &mut DumpConfig, id: u32, pid: u32)
    requires
        unique_ids(old(store)@),
    ensures
        unique_ids(final(store)@),
        final(store)@ == restart_spawned_spec(old(store)@, id, pid),
{
    store.update_process_status(id, pid, ProcessStatus::Running);
    store.increment_restarts(id);
}

/// A restart keeps the record's identity and advances its counters: once
/// the old process of record `id` is stopped and the new one spawned as
/// `new_pid`, the record keeps its position, id, name, namespace, program,
/// working directory and arguments, runs as `new_pid`, and counts exactly one
/// more restart (the count saturates at the largest `u32`).
pub proof fn lemma_restart_keeps_identity(
    recs: Seq<ProcessView>,
    i: int,
    alive: bool,
    killed: bool,
    new_pid: u32,
)
    requires
        unique_ids(recs),
        0 <= i < recs.len(),
        !(stop_run_by_id_spec(recs, recs[i].pmr_id, alive, killed).1 is TerminateFailed),
    ensures
        ({
            let id = recs[i].pmr_id;
            let after = restart_spawned_spec(stop_run_by_id_spec(recs, id, alive, killed).0, id, new_pid);
            &&& after.len() == recs.len()
            &&& after[i].pmr_id == id
            &&& after[i].name == recs[i].name
            &&& after[i].namespace == recs[i].namespace
            &&& after[i].program == recs[i].program
            &&& after[i].workdir == recs[i].workdir
            &&& after[i].args == recs[i].args
            &&& after[i].status == ProcessStatus::Running
            &&& after[i].pid == new_pid
            &&& after[i].restarts == saturating_inc(recs[i].restarts)
            &&& recs[i].restarts < u32::MAX ==> after[i].restarts == recs[i].restarts + 1
            &&& forall|k: int| 0 <= k < recs.len() && k != i ==> after[k] == recs[k]
        }),
{
    let id = recs[i].pmr_id;
    lemma_find_own_id(recs, i, 0);
    lemma_mark_stopped(recs, i);
    let mid = stop_run_by_id_spec(recs, id, alive, killed).0;
    assert(mid.len() == recs.len() && mid[i].pmr_id == id);
    assert(unique_ids(mid));
    lemma_find_own_id(mid, i, 0);
    let running = update_status_spec(mid, id, new_pid, ProcessStatus::Running);
    assert(unique_ids(running));
    lemma_find_own_id(running, i, 0);
}

/// Where a delete operation stands.
#[derive(Clone, Copy, Debug, PartialEq, Eq, Structural)]
pub enum DeleteStep {
    /// No record matches the target.
    NotFound,
    /// Record `id` has a process: the caller must stop it (see
    /// [`stop_by_id`]) and then call [`delete_after_stop`].
    StopFirst { id: u32 },
    /// Record `id` is removed from the registry.
    Deleted { id: u32 },
}

/// Beginning to delete the record that `target` designates.
pub open spec fn delete_begin_spec(recs: Seq<ProcessView>, target: Seq<char>) -> (Seq<ProcessView>, DeleteStep) {
    match resolve_spec(recs, target) {
        None => (recs, DeleteStep::NotFound),
        Some(i) => if recs[i].pid > 0 {
            (recs, DeleteStep::StopFirst { id: recs[i].pmr_id })
        } else {
            (delete_spec(recs, recs[i].pmr_id), DeleteStep::Deleted { id: recs[i].pmr_id })
        },
    }
}

/// Begins to delete the record that `target` designates: a record with a
/// process must be stopped first; any other is removed at once.
pub fn delete_process(store: &mut DumpConfig, target: &str) -> (r: DeleteStep)
    requires
        unique_ids(old(store)@),
    ensures
        unique_ids(final(store)@),
        (final(store)@, r) == delete_begin_spec(old(store)@, target@),
{
    match resolve_target(store, target) {
        None => DeleteStep::NotFound,
        Some(i) => {
            let id = store.get(i).pmr_id;
            if store.get(i).pid > 0 {
                DeleteStep::StopFirst { id }
            } else {
                store.delete_process(id);
                DeleteStep::Deleted { id }
            }
        },
    }
}

/// Ends a delete after the stop attempt: the record is removed whatever the
/// stop's outcome.
pub fn delete_after_stop(store: &mut DumpConfig, id: u32) -> (r: DeleteStep)
    requires
        unique_ids(old(store)@),
    ensures
        unique_ids(final(store)@),
        final(store)@ == delete_spec(old(store)@, id),
        r == (DeleteStep::Deleted { id }),
{
    store.delete_process(id);
    DeleteStep::Deleted { id }
}

/// The record as reconciliation leaves it: a record whose process is gone
/// is stopped with pid 0.
pub open spec fn reconciled(p: ProcessView, alive: bool) -> ProcessView {
    if p.pid > 0 && !alive { with_status(p, 0, ProcessStatus::Stopped) } else { p }
}

/// Reconciles the registry with the OS: `alive[i]` tells whether the process
/// of the record at position `i` exists (it is ignored for records without a
/// process). Every record whose process is gone is written back as stopped
/// with pid 0; the others are unchanged. Returns whether anything changed.
pub fn reconcile_statuses(store: &mut DumpConfig, alive: &Vec<bool>) -> (changed: bool)
    requires
        unique_ids(old(store)@),
        alive@.len() == old(store)@.len(),
    ensures
        unique_ids(final(store)@),
        final(store)@.len() == old(store)@.len(),
        forall|i: int| 0 <= i < old(store)@.len() ==> final(store)@[i] == reconciled(#[trigger] old(store)@[i], alive@[i]),
        changed == exists|i: int| 0 <= i < old(store)@.len() && old(store)@[i].pid > 0 && !alive@[i],
{
    let mut changed = false;
    let mut i: usize = 0;
    while i < store.len()
        invariant
            i <= store@.len(),
            unique_ids(store@),
            store@.len() == old(store)@.len(),
            alive@.len() == old(store)@.len(),
            forall|k: int| 0 <= k < i ==> store@[k] == reconciled(#[trigger] old(store)@[k], alive@[k]),
            forall|k: int| i <= k < store@.len() ==> store@[k] == old(store)@[k],
            changed == exists|k: int| 0 <= k < i && old(store)@[k].pid > 0 && !alive@[k],
        decreases store@.len() - i,
    {
        let p = store.get(i);
        if p.pid > 0 && !alive[i] {
            let id = p.pmr_id;
            proof {
                lemma_find_own_id(store@, i as int, 0);
            }
            store.update_process_status(id, 0, ProcessStatus::Stopped);
            changed = true;
        }
        i += 1;
    }
    changed
}

} // verus!
