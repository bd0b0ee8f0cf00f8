use slackwatch::history::{HistoryError, HistoryStore, ScanRecord};
use slackwatch::model::{UpdateStatus, Workload};

fn workload(name: &str, namespace: &str, scanned: &str, latest: &str) -> Workload {
    Workload {
        name: name.to_string(),
        exclude_pattern: None,
        git_ops_repo: Some("repo".to_string()),
        include_pattern: Some("^1".to_string()),
        update_available: UpdateStatus::Available,
        git_directory: None,
        image: "registry/app:1.0.0".to_string(),
        last_scanned: scanned.to_string(),
        namespace: namespace.to_string(),
        current_version: "1.0.0".to_string(),
        latest_version: latest.to_string(),
    }
}

fn same(a: &Workload, b: &Workload) -> bool {
    a.name == b.name
        && a.exclude_pattern == b.exclude_pattern
        && a.git_ops_repo == b.git_ops_repo
        && a.include_pattern == b.include_pattern
        && a.update_available == b.update_available
        && a.git_directory == b.git_directory
        && a.image == b.image
        && a.last_scanned == b.last_scanned
        && a.namespace == b.namespace
        && a.current_version == b.current_version
        && a.latest_version == b.latest_version
}

#[test]
fn first_scan_id_is_one() {
    let s = HistoryStore::new();
    assert_eq!(s.get_latest_scan_id(), 0);
    assert_eq!(s.next_scan_id(), 1);
}

#[test]
fn next_scan_id_follows_last_scan() {
    let mut s = HistoryStore::new();
    let id = s.next_scan_id();
    s.insert_workload(&workload("a", "x", "t1", "1.1"), id);
    s.insert_workload(&workload("b", "x", "t1", "1.1"), id);
    assert_eq!(s.next_scan_id(), 2);
    s.insert_workload(&workload("a", "x", "t2", "1.2"), 7);
    assert_eq!(s.next_scan_id(), 8);
}

#[test]
fn missing_snapshot_is_not_found() {
    let s = HistoryStore::new();
    assert_eq!(s.return_workload("a", "x").unwrap_err(), HistoryError::NotFound);
}

#[test]
fn recorded_workload_reads_back_identical() {
    let mut s = HistoryStore::new();
    let mut w = workload("a", "x", "t1", "1.1");
    w.git_directory = Some("deploy".to_string());
    s.insert_workload(&workload("a", "x", "t0", "1.0"), 1);
    s.insert_workload(&w, 2);
    let back = s.return_workload("a", "x").unwrap();
    assert!(same(&back, &w));
    assert_eq!(s.rows()[1].scan_type, "a");
}

#[test]
fn latest_snapshots_are_unique_per_key() {
    let mut s = HistoryStore::new();
    s.insert_workload(&workload("a", "x", "t1", "1.1"), 1);
    s.insert_workload(&workload("a", "x", "t2", "1.2"), 2);
    s.insert_workload(&workload("a", "x", "t2", "1.3"), 2);
    s.insert_workload(&workload("b", "y", "t1", "2.0"), 1);
    let all = s.return_all_workloads();
    assert_eq!(all.len(), 2);
    assert_eq!(all[0].name, "a");
    assert_eq!(all[0].latest_version, "1.3");
    assert_eq!(all[1].name, "b");
    assert_eq!(all[1].latest_version, "2.0");
}

#[test]
fn older_scan_of_same_name_is_hidden() {
    let mut s = HistoryStore::new();
    s.insert_workload(&workload("a", "x", "t5", "1.1"), 1);
    s.insert_workload(&workload("a", "y", "t1", "1.2"), 2);
    let all = s.return_all_workloads();
    assert_eq!(all.len(), 1);
    assert_eq!(all[0].namespace, "y");
}

#[test]
fn rows_with_top_scan_id_are_refused() {
    let row = ScanRecord { workload: workload("a", "x", "t", "1"), scan_id: u64::MAX, scan_type: "a".to_string() };
    assert!(HistoryStore::from_rows(vec![row]).is_none());
    let row = ScanRecord { workload: workload("a", "x", "t", "1"), scan_id: 3, scan_type: "a".to_string() };
    let s = HistoryStore::from_rows(vec![row]).unwrap();
    assert_eq!(s.next_scan_id(), 4);
}
