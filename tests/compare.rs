use slackwatch::compare::{
    compile_patterns, filter_tags, parse_tags, scan_workload, select_latest, strip_tag_lettings,
    CompareError,
};
use slackwatch::history::HistoryStore;
use slackwatch::model::{UpdateStatus, Workload};

fn workload(current: &str, allow: Option<&str>, deny: Option<&str>) -> Workload {
    Workload {
        name: "web".to_string(),
        exclude_pattern: deny.map(|s| s.to_string()),
        git_ops_repo: None,
        include_pattern: allow.map(|s| s.to_string()),
        update_available: UpdateStatus::NotAvailable,
        git_directory: None,
        image: "registry/app:1.0.0".to_string(),
        last_scanned: "2024-01-01T00:00:00Z".to_string(),
        namespace: "prod".to_string(),
        current_version: current.to_string(),
        latest_version: String::new(),
    }
}

fn tags(list: &[&str]) -> Vec<String> {
    list.iter().map(|s| s.to_string()).collect()
}

#[test]
fn newer_candidates_make_update_available() {
    let w = workload("1.2.0", None, None);
    let r = parse_tags(&w, tags(&["1.1.0", "1.3.0", "v1.2.5", "abc"])).unwrap();
    assert_eq!(r.update_available, UpdateStatus::Available);
    assert!(r.latest_version == "1.3.0" || r.latest_version == "v1.2.5");
    // after sorting, "v1.2.5" comes last among the newer tags
    assert_eq!(r.latest_version, "v1.2.5");
}

#[test]
fn garbage_current_version_counts_as_zero() {
    let w = workload("garbage", None, None);
    let r = parse_tags(&w, tags(&["0.1.0"])).unwrap();
    assert_eq!(r.update_available, UpdateStatus::Available);
    assert_eq!(r.latest_version, "0.1.0");
}

#[test]
fn scenario_web_prod() {
    let w = workload("1.0.0", None, None);
    let r = parse_tags(&w, tags(&["1.0.0", "1.1.0", "2.0.0"])).unwrap();
    assert_eq!(r.update_available, UpdateStatus::Available);
    assert_eq!(r.latest_version, "2.0.0");
    assert_eq!(r.name, "web");
    assert_eq!(r.namespace, "prod");
    assert_eq!(r.image, "registry/app:1.0.0");
    assert_eq!(r.current_version, "1.0.0");
}

#[test]
fn no_newer_tag_leaves_latest_empty() {
    let w = workload("2.0.0", None, None);
    let r = parse_tags(&w, tags(&["1.0.0", "2.0.0", "latest"])).unwrap();
    assert_eq!(r.update_available, UpdateStatus::NotAvailable);
    assert_eq!(r.latest_version, "");
}

#[test]
fn empty_tag_list_is_not_available() {
    let w = workload("1.0.0", None, None);
    let r = parse_tags(&w, Vec::new()).unwrap();
    assert_eq!(r.update_available, UpdateStatus::NotAvailable);
    assert_eq!(r.latest_version, "");
}

#[test]
fn allow_list_limits_candidates() {
    let w = workload("1.0.0", Some("^1\\."), None);
    let r = parse_tags(&w, tags(&["1.1.0", "2.0.0"])).unwrap();
    assert_eq!(r.update_available, UpdateStatus::Available);
    assert_eq!(r.latest_version, "1.1.0");
}

#[test]
fn deny_list_removes_candidates() {
    let w = workload("1.0.0", None, Some("^2\\.,rc"));
    let r = parse_tags(&w, tags(&["1.1.0", "1.2.0-rc1", "2.0.0"])).unwrap();
    assert_eq!(r.latest_version, "1.1.0");
}

#[test]
fn allow_list_overrides_deny_list() {
    let w = workload("1.0.0", Some("^2\\."), Some("^2\\."));
    let r = parse_tags(&w, tags(&["1.1.0", "2.0.0"])).unwrap();
    assert_eq!(r.latest_version, "2.0.0");
}

#[test]
fn invalid_pattern_is_refused() {
    let w = workload("1.0.0", Some("("), None);
    assert_eq!(parse_tags(&w, tags(&["1.1.0"])).unwrap_err(), CompareError::InvalidPattern);
    let w = workload("1.0.0", None, Some("ok,[unclosed"));
    assert_eq!(parse_tags(&w, tags(&["1.1.0"])).unwrap_err(), CompareError::InvalidPattern);
}

#[test]
fn filter_keeps_only_given_tags_in_order() {
    let all = tags(&["a1", "b2", "a3"]);
    let kept = filter_tags(&all, &Some("^a".to_string()), &Some("3".to_string())).unwrap();
    assert_eq!(kept, tags(&["a1", "a3"]));
    let kept = filter_tags(&all, &None, &Some("3".to_string())).unwrap();
    assert_eq!(kept, tags(&["a1", "b2"]));
    let kept = filter_tags(&all, &None, &None).unwrap();
    assert_eq!(kept, all);
}

#[test]
fn selection_follows_iteration_order() {
    let r = select_latest("1.0.0", &tags(&["2.0.0", "1.5.0", "x"]));
    assert_eq!(r, Some("1.5.0".to_string()));
    assert_eq!(select_latest("3.0.0", &tags(&["2.0.0"])), None);
}

#[test]
fn strip_drops_leading_letters() {
    assert_eq!(strip_tag_lettings("v1.2.3"), "1.2.3");
    assert_eq!(strip_tag_lettings("release-10"), "10");
    assert_eq!(strip_tag_lettings("abc"), "");
    assert_eq!(strip_tag_lettings("1a"), "1a");
}

#[test]
fn versions_compare_by_precedence_not_text() {
    assert_eq!(select_latest("1.9.0", &tags(&["1.10.0"])), Some("1.10.0".to_string()));
    assert_eq!(select_latest("1.10.0", &tags(&["1.9.0"])), None);
    assert_eq!(select_latest("1.0.0", &tags(&["1.0.0-rc1"])), None);
    assert_eq!(select_latest("1.0.0", &tags(&["1.2", ""])), None);
    assert_eq!(select_latest("", &tags(&["0.0.1"])), Some("0.0.1".to_string()));
    assert_eq!(select_latest("", &tags(&["0.0.0"])), None);
}

#[test]
fn patterns_compile_per_piece_and_match_anywhere() {
    assert_eq!(compile_patterns("a,b").map(|v| v.len()), Some(2));
    assert!(compile_patterns("rc,(").is_none());
    let kept = filter_tags(&tags(&["1.0.0-rc1", "1.0.0"]), &Some("rc".to_string()), &None).unwrap();
    assert_eq!(kept, tags(&["1.0.0-rc1"]));
}

#[test]
fn scan_records_evaluated_workload() {
    let mut store = HistoryStore::new();
    let w = workload("1.0.0", None, None);
    let r = scan_workload(&mut store, &w, tags(&["1.1.0"]), 4).unwrap();
    assert_eq!(r.update_available, UpdateStatus::Available);
    assert_eq!(store.rows().len(), 1);
    assert_eq!(store.rows()[0].scan_id, 4);
    assert_eq!(store.rows()[0].workload.latest_version, "1.1.0");
    let bad = workload("1.0.0", Some("("), None);
    assert!(scan_workload(&mut store, &bad, tags(&["1.1.0"]), 4).is_err());
    assert_eq!(store.rows().len(), 1);
}

#[test]
fn evaluation_ignores_tag_order() {
    let w = workload("1.0.0", None, Some("beta"));
    let a = parse_tags(&w, tags(&["2.0.0", "1.5.0", "3.0.0-beta", "v2.1.0"])).unwrap();
    let b = parse_tags(&w, tags(&["v2.1.0", "3.0.0-beta", "1.5.0", "2.0.0"])).unwrap();
    assert_eq!(a.update_available, b.update_available);
    assert_eq!(a.latest_version, b.latest_version);
    assert_eq!(a.latest_version, "v2.1.0");
}
