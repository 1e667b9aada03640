use pmr::record::{PmrProcessInfo, ProcessStatus};
use pmr::store::DumpConfig;

fn s(x: &str) -> String {
    x.to_string()
}

fn record(id: u32, pid: u32, name: &str, status: ProcessStatus) -> PmrProcessInfo {
    PmrProcessInfo {
        pmr_id: id,
        pid,
        name: s(name),
        namespace: s("default"),
        status,
        program: s("sleep"),
        workdir: s("/tmp"),
        args: vec![s("30")],
        restarts: 0,
    }
}

#[test]
fn registry_scenario() {
    let mut store = DumpConfig::new();
    let id = store.add_process(
        s("web"),
        s("default"),
        s("/tmp"),
        s("sleep"),
        0,
        ProcessStatus::Starting,
        vec![s("30")],
    );
    assert_eq!(id, Some(1));
    store.update_process_status(1, 4321, ProcessStatus::Running);
    let list = store.list_processes();
    assert_eq!(list.len(), 1);
    assert_eq!(list[0].pmr_id, 1);
    assert_eq!(list[0].pid, 4321);
    assert_eq!(list[0].status, ProcessStatus::Running);
    assert_eq!(list[0].restarts, 0);
    assert_eq!(list[0].name, "web");
    assert_eq!(list[0].namespace, "default");
    assert_eq!(list[0].workdir, "/tmp");
    assert_eq!(list[0].program, "sleep");
    assert_eq!(list[0].args, vec![s("30")]);
    store.increment_restarts(1);
    assert_eq!(store.list_processes()[0].restarts, 1);
    store.delete_process(1);
    assert!(store.list_processes().is_empty());
}

#[test]
fn ids_increase_across_adds_and_deletes() {
    let mut store = DumpConfig::new();
    let mut last = 0u32;
    for round in 0..5 {
        let a = store
            .add_process(s("a"), s("default"), s("/"), s("p"), 0, ProcessStatus::Starting, vec![])
            .unwrap();
        let b = store
            .add_process(s("b"), s("default"), s("/"), s("p"), 0, ProcessStatus::Starting, vec![])
            .unwrap();
        assert!(a > last, "round {}", round);
        assert!(b > a);
        // delete the older of the two, never the newest
        store.delete_process(a);
        last = b;
    }
    assert_eq!(last, 10);
    assert_eq!(store.len(), 5);
}

#[test]
fn next_id_follows_largest_present() {
    let store = DumpConfig::from_processes(vec![
        record(4, 0, "x", ProcessStatus::Stopped),
        record(9, 0, "y", ProcessStatus::Stopped),
        record(2, 0, "z", ProcessStatus::Stopped),
    ])
    .unwrap();
    assert_eq!(store.next_id(), Some(10));
    assert_eq!(DumpConfig::new().next_id(), Some(1));
}

#[test]
fn deleting_the_largest_id_lets_it_come_back() {
    let mut store = DumpConfig::new();
    assert_eq!(
        store.add_process(s("a"), s("d"), s("/"), s("p"), 0, ProcessStatus::Starting, vec![]),
        Some(1)
    );
    store.delete_process(1);
    assert_eq!(
        store.add_process(s("a"), s("d"), s("/"), s("p"), 0, ProcessStatus::Starting, vec![]),
        Some(1)
    );
}

#[test]
fn ids_exhausted_leaves_registry_unchanged() {
    let mut store =
        DumpConfig::from_processes(vec![record(u32::MAX, 0, "x", ProcessStatus::Stopped)]).unwrap();
    assert_eq!(store.next_id(), None);
    let r = store.add_process(s("y"), s("d"), s("/"), s("p"), 0, ProcessStatus::Starting, vec![]);
    assert_eq!(r, None);
    assert_eq!(store.len(), 1);
}

#[test]
fn duplicate_ids_are_refused_on_load() {
    let r = DumpConfig::from_processes(vec![
        record(3, 0, "x", ProcessStatus::Stopped),
        record(3, 0, "y", ProcessStatus::Stopped),
    ]);
    assert!(r.is_none());
    let ok = DumpConfig::from_processes(vec![
        record(3, 0, "x", ProcessStatus::Stopped),
        record(4, 0, "x", ProcessStatus::Stopped),
    ]);
    assert_eq!(ok.unwrap().len(), 2);
}

#[test]
fn delete_removes_whatever_the_status() {
    let mut store = DumpConfig::from_processes(vec![
        record(1, 100, "a", ProcessStatus::Running),
        record(2, 0, "b", ProcessStatus::Starting),
        record(3, 0, "c", ProcessStatus::Stopped),
    ])
    .unwrap();
    store.delete_process(1);
    store.delete_process(2);
    let ids: Vec<u32> = store.list_processes().iter().map(|p| p.pmr_id).collect();
    assert_eq!(ids, vec![3]);
    store.delete_process(42);
    assert_eq!(store.len(), 1);
}

#[test]
fn updates_of_absent_ids_do_nothing() {
    let mut store =
        DumpConfig::from_processes(vec![record(5, 0, "a", ProcessStatus::Stopped)]).unwrap();
    store.update_process_status(6, 77, ProcessStatus::Running);
    store.increment_restarts(6);
    let p = &store.list_processes()[0];
    assert_eq!(p.pid, 0);
    assert_eq!(p.status, ProcessStatus::Stopped);
    assert_eq!(p.restarts, 0);
}

#[test]
fn restart_count_saturates() {
    let mut r = record(1, 0, "a", ProcessStatus::Stopped);
    r.restarts = u32::MAX - 1;
    let mut store = DumpConfig::from_processes(vec![r]).unwrap();
    store.increment_restarts(1);
    assert_eq!(store.get(0).restarts, u32::MAX);
    store.increment_restarts(1);
    assert_eq!(store.get(0).restarts, u32::MAX);
}

#[test]
fn find_index_takes_the_matching_record() {
    let store = DumpConfig::from_processes(vec![
        record(7, 0, "a", ProcessStatus::Stopped),
        record(8, 0, "b", ProcessStatus::Stopped),
    ])
    .unwrap();
    assert_eq!(store.find_index(8), Some(1));
    assert_eq!(store.find_index(9), None);
}
