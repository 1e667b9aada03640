use pmr::lifecycle::{
    delete_after_stop, delete_process, reconcile_statuses, restart_process, restart_spawned,
    start_process, start_spawned, stop_by_id, stop_on_liveness, stop_on_terminate, stop_process,
    DeleteStep, RestartStep, StartConfig, StartStep, StopStep,
};
use pmr::listing::{read_pmr_processes, shown_status};
use pmr::record::{PmrProcessInfo, ProcessStatus};
use pmr::resolve::resolve_target;
use pmr::store::DumpConfig;

fn s(x: &str) -> String {
    x.to_string()
}

fn record(id: u32, pid: u32, name: &str, status: ProcessStatus) -> PmrProcessInfo {
    PmrProcessInfo {
        pmr_id: id,
        pid,
        name: s(name),
        namespace: s("default"),
        status,
        program: s("sleep"),
        workdir: s("/tmp"),
        args: vec![s("30")],
        restarts: 0,
    }
}

fn store_of(v: Vec<PmrProcessInfo>) -> DumpConfig {
    DumpConfig::from_processes(v).unwrap()
}

/// Runs a whole stop, answering the OS questions with `alive` and `killed`.
fn run_stop(store: &mut DumpConfig, target: &str, alive: bool, killed: bool) -> StopStep {
    let mut step = stop_process(store, target);
    loop {
        step = match step {
            StopStep::CheckAlive { id, pid } => stop_on_liveness(store, id, pid, alive),
            StopStep::Terminate { id, pid } => stop_on_terminate(store, id, pid, killed),
            other => return other,
        }
    }
}

#[test]
fn id_match_precedes_name_match() {
    let store = store_of(vec![
        record(1, 0, "3", ProcessStatus::Stopped),
        record(3, 0, "7", ProcessStatus::Stopped),
    ]);
    assert_eq!(resolve_target(&store, "3"), Some(1));
    assert_eq!(resolve_target(&store, "7"), Some(1));
    assert_eq!(resolve_target(&store, "1"), Some(0));
}

#[test]
fn name_match_when_no_id_matches() {
    let store = store_of(vec![
        record(1, 0, "web", ProcessStatus::Stopped),
        record(2, 0, "99", ProcessStatus::Stopped),
        record(3, 0, "web", ProcessStatus::Stopped),
    ]);
    assert_eq!(resolve_target(&store, "99"), Some(1));
    assert_eq!(resolve_target(&store, "web"), Some(0));
    assert_eq!(resolve_target(&store, "Web"), None);
    assert_eq!(resolve_target(&store, "4"), None);
}

#[test]
fn stop_twice_is_idempotent() {
    let mut store = store_of(vec![record(1, 4321, "web", ProcessStatus::Running)]);
    assert_eq!(stop_process(&mut store, "web"), StopStep::CheckAlive { id: 1, pid: 4321 });
    assert_eq!(stop_on_liveness(&mut store, 1, 4321, true), StopStep::Terminate { id: 1, pid: 4321 });
    assert_eq!(stop_on_terminate(&mut store, 1, 4321, true), StopStep::Stopped { id: 1 });
    assert_eq!(store.get(0).pid, 0);
    assert_eq!(store.get(0).status, ProcessStatus::Stopped);
    assert_eq!(run_stop(&mut store, "web", true, false), StopStep::AlreadyStopped { id: 1 });
    assert_eq!(store.get(0).pid, 0);
    assert_eq!(store.get(0).status, ProcessStatus::Stopped);
}

#[test]
fn stop_of_vanished_process_self_heals() {
    let mut store = store_of(vec![record(1, 4321, "web", ProcessStatus::Running)]);
    assert_eq!(run_stop(&mut store, "1", false, false), StopStep::Vanished { id: 1 });
    assert_eq!(store.get(0).pid, 0);
    assert_eq!(store.get(0).status, ProcessStatus::Stopped);
}

#[test]
fn failed_termination_leaves_record_for_retry() {
    let mut store = store_of(vec![record(1, 4321, "web", ProcessStatus::Running)]);
    assert_eq!(
        run_stop(&mut store, "1", true, false),
        StopStep::TerminateFailed { id: 1, pid: 4321 }
    );
    assert_eq!(store.get(0).pid, 4321);
    assert_eq!(store.get(0).status, ProcessStatus::Running);
}

#[test]
fn stop_of_unknown_target() {
    let mut store = store_of(vec![record(1, 0, "web", ProcessStatus::Stopped)]);
    assert_eq!(stop_process(&mut store, "api"), StopStep::NotFound);
    assert_eq!(stop_by_id(&mut store, 2), StopStep::NotFound);
}

#[test]
fn stop_without_process_normalizes_status() {
    let mut store = store_of(vec![record(1, 0, "web", ProcessStatus::Starting)]);
    assert_eq!(stop_by_id(&mut store, 1), StopStep::AlreadyStopped { id: 1 });
    assert_eq!(store.get(0).status, ProcessStatus::Stopped);
}

#[test]
fn restart_preserves_identity_and_counts() {
    let mut store = store_of(vec![
        record(1, 0, "other", ProcessStatus::Stopped),
        record(2, 500, "web", ProcessStatus::Running),
    ]);
    let step = restart_process(&mut store, s("default"), s("/home"), Some(s("web")), None, vec![]);
    assert_eq!(step, RestartStep::Relaunch { id: 2 });
    assert_eq!(stop_by_id(&mut store, 2), StopStep::CheckAlive { id: 2, pid: 500 });
    assert_eq!(stop_on_liveness(&mut store, 2, 500, true), StopStep::Terminate { id: 2, pid: 500 });
    assert_eq!(stop_on_terminate(&mut store, 2, 500, true), StopStep::Stopped { id: 2 });
    restart_spawned(&mut store, 2, 600);
    let p = store.get(1);
    assert_eq!(p.pmr_id, 2);
    assert_eq!(p.name, "web");
    assert_eq!(p.program, "sleep");
    assert_eq!(p.args, vec![s("30")]);
    assert_eq!(p.restarts, 1);
    assert_eq!(p.status, ProcessStatus::Running);
    assert_eq!(p.pid, 600);
    assert_ne!(p.pid, 500);
    assert_eq!(store.get(0).restarts, 0);
}

#[test]
fn restart_of_unknown_target_starts_fresh() {
    let mut store = store_of(vec![record(1, 0, "web", ProcessStatus::Stopped)]);
    let step =
        restart_process(&mut store, s("batch"), s("/srv"), Some(s("worker")), None, vec![s("-v")]);
    assert_eq!(step, RestartStep::Fresh(StartStep::Launch { id: 2, stop_first: false }));
    let p = store.get(1);
    assert_eq!(p.name, "worker");
    assert_eq!(p.program, "worker");
    assert_eq!(p.namespace, "batch");
    assert_eq!(p.workdir, "/srv");
    assert_eq!(p.args, vec![s("-v")]);
    assert_eq!(p.status, ProcessStatus::Starting);
    assert_eq!(p.pid, 0);
}

#[test]
fn start_fresh_program_creates_starting_record() {
    let mut store = DumpConfig::new();
    let step = start_process(
        &mut store,
        None,
        s("default"),
        s("/tmp"),
        Some(s("sleep")),
        None,
        vec![s("30")],
    );
    assert_eq!(step, StartStep::Launch { id: 1, stop_first: false });
    let p = store.get(0);
    assert_eq!(p.name, "sleep");
    assert_eq!(p.program, "sleep");
    assert_eq!(p.pid, 0);
    assert_eq!(p.status, ProcessStatus::Starting);
    start_spawned(&mut store, 1, 999);
    assert_eq!(store.get(0).pid, 999);
    assert_eq!(store.get(0).status, ProcessStatus::Running);
}

#[test]
fn start_needs_config_or_target() {
    let mut store = DumpConfig::new();
    let step = start_process(&mut store, Some(s("x")), s("default"), s("/"), None, None, vec![]);
    assert_eq!(step, StartStep::NothingToStart);
    assert_eq!(store.len(), 0);
}

#[test]
fn start_names_by_priority() {
    let cfg = || StartConfig { name: s("cfgname"), program: s("prog"), args: vec![s("a")] };
    let mut store = DumpConfig::new();
    start_process(&mut store, Some(s("explicit")), s("d"), s("/"), Some(s("tgt")), Some(cfg()), vec![]);
    start_process(&mut store, None, s("d"), s("/"), Some(s("tgt")), Some(cfg()), vec![]);
    start_process(&mut store, None, s("d"), s("/"), None, Some(cfg()), vec![]);
    let names: Vec<String> = store.list_processes().into_iter().map(|p| p.name).collect();
    assert_eq!(names, vec![s("explicit"), s("tgt"), s("cfgname")]);
    let p = store.get(2);
    assert_eq!(p.program, "prog");
    assert_eq!(p.args, vec![s("a")]);
    let unnamed = StartConfig { name: s("cfgname"), program: s("prog"), args: vec![] };
    let mut other = DumpConfig::new();
    let step = start_process(&mut other, None, s("d"), s("/"), None, Some(unnamed), vec![]);
    assert_eq!(step, StartStep::Launch { id: 1, stop_first: false });
}

#[test]
fn start_refuses_duplicate_names() {
    let mut store = store_of(vec![record(4, 0, "web", ProcessStatus::Stopped)]);
    let step = start_process(
        &mut store,
        Some(s("web")),
        s("default"),
        s("/"),
        Some(s("nginx")),
        None,
        vec![],
    );
    assert_eq!(step, StartStep::DuplicateName { id: 4 });
    assert_eq!(store.len(), 1);
}

#[test]
fn start_of_existing_record() {
    let mut store = store_of(vec![
        record(1, 10, "a", ProcessStatus::Running),
        record(2, 20, "b", ProcessStatus::Stopped),
        record(3, 0, "c", ProcessStatus::Stopped),
    ]);
    let go = |st: &mut DumpConfig, t: &str| {
        start_process(st, None, s("default"), s("/"), Some(s(t)), None, vec![])
    };
    assert_eq!(go(&mut store, "a"), StartStep::AlreadyRunning { id: 1, pid: 10 });
    assert_eq!(go(&mut store, "2"), StartStep::Launch { id: 2, stop_first: true });
    assert_eq!(go(&mut store, "c"), StartStep::Launch { id: 3, stop_first: false });
    assert_eq!(store.len(), 3);
}

#[test]
fn delete_stops_live_records_first() {
    let mut store = store_of(vec![
        record(1, 100, "a", ProcessStatus::Running),
        record(2, 0, "b", ProcessStatus::Stopped),
    ]);
    assert_eq!(delete_process(&mut store, "b"), DeleteStep::Deleted { id: 2 });
    assert_eq!(delete_process(&mut store, "a"), DeleteStep::StopFirst { id: 1 });
    assert_eq!(store.len(), 1);
    assert_eq!(stop_by_id(&mut store, 1), StopStep::CheckAlive { id: 1, pid: 100 });
    assert_eq!(stop_on_liveness(&mut store, 1, 100, true), StopStep::Terminate { id: 1, pid: 100 });
    assert_eq!(
        stop_on_terminate(&mut store, 1, 100, false),
        StopStep::TerminateFailed { id: 1, pid: 100 }
    );
    assert_eq!(delete_after_stop(&mut store, 1), DeleteStep::Deleted { id: 1 });
    assert_eq!(store.len(), 0);
    assert_eq!(delete_process(&mut store, "a"), DeleteStep::NotFound);
}

#[test]
fn reconciliation_writes_back_stopped() {
    let mut store = store_of(vec![
        record(1, 111, "gone", ProcessStatus::Running),
        record(2, 222, "live", ProcessStatus::Running),
        record(3, 0, "idle", ProcessStatus::Stopped),
    ]);
    let changed = reconcile_statuses(&mut store, &vec![false, true, false]);
    assert!(changed);
    assert_eq!(store.get(0).pid, 0);
    assert_eq!(store.get(0).status, ProcessStatus::Stopped);
    assert_eq!(store.get(1).pid, 222);
    assert_eq!(store.get(1).status, ProcessStatus::Running);
    assert_eq!(store.get(2).pid, 0);
    assert!(!reconcile_statuses(&mut store, &vec![false, true, false]));
}

#[test]
fn listing_shows_records() {
    let store = store_of(vec![
        record(1, 111, "a", ProcessStatus::Running),
        record(2, 0, "b", ProcessStatus::Stopped),
    ]);
    let shown = read_pmr_processes(&store);
    assert_eq!(shown.len(), 2);
    assert_eq!(shown[0].pmr_id, 1);
    assert_eq!(shown[0].name, "a");
    assert_eq!(shown[1].status, ProcessStatus::Stopped);
    assert_eq!(shown_status(&shown[0], true), ProcessStatus::Running);
    assert_eq!(shown_status(&shown[0], false), ProcessStatus::Stopped);
    assert_eq!(shown_status(&shown[1], true), ProcessStatus::Stopped);
}
