use slackwatch::discovery::{annotation, create_workload_from_pod, find_specific_workload, ContainerSummary, PodSummary};
use slackwatch::model::UpdateStatus;

fn pod(annotations: &[(&str, &str)], image: Option<&str>) -> PodSummary {
    PodSummary {
        annotations: annotations.iter().map(|(k, v)| (k.to_string(), v.to_string())).collect(),
        namespace: Some("prod".to_string()),
        first_container: Some(ContainerSummary { name: "web".to_string(), image: image.map(|s| s.to_string()) }),
    }
}

#[test]
fn annotated_pod_becomes_workload() {
    let p = pod(
        &[
            ("slackwatch.directory", "apps/web"),
            ("slackwatch.enable", "true"),
            ("slackwatch.exclude", "rc"),
            ("slackwatch.repo", "example-repo"),
        ],
        Some("registry/app:1.2.3"),
    );
    let w = create_workload_from_pod(&p, "2024-01-01T00:00:00+00:00").unwrap();
    assert_eq!(w.name, "web");
    assert_eq!(w.namespace, "prod");
    assert_eq!(w.image, "registry/app:1.2.3");
    assert_eq!(w.current_version, "1.2.3");
    assert_eq!(w.latest_version, "");
    assert_eq!(w.update_available, UpdateStatus::NotAvailable);
    assert_eq!(w.exclude_pattern, Some("rc".to_string()));
    assert_eq!(w.include_pattern, None);
    assert_eq!(w.git_ops_repo, Some("example-repo".to_string()));
    assert_eq!(w.git_directory, Some("apps/web".to_string()));
    assert_eq!(w.last_scanned, "2024-01-01T00:00:00+00:00");
}

#[test]
fn untagged_image_is_latest() {
    let w = create_workload_from_pod(&pod(&[("slackwatch.enable", "true")], Some("nginx")), "t").unwrap();
    assert_eq!(w.current_version, "latest");
}

#[test]
fn pods_not_enabled_are_ignored() {
    assert!(create_workload_from_pod(&pod(&[], Some("nginx:1")), "t").is_none());
    assert!(create_workload_from_pod(&pod(&[("slackwatch.enable", "false")], Some("nginx:1")), "t").is_none());
    let mut p = pod(&[("slackwatch.enable", "true")], Some("nginx:1"));
    p.namespace = None;
    assert!(create_workload_from_pod(&p, "t").is_none());
}

#[test]
fn annotation_lookup_and_workload_search() {
    let a = vec![("a".to_string(), "1".to_string()), ("b".to_string(), "2".to_string())];
    assert_eq!(annotation(&a, "b"), Some("2".to_string()));
    assert_eq!(annotation(&a, "c"), None);
    let w = create_workload_from_pod(&pod(&[("slackwatch.enable", "true")], Some("nginx:1")), "t").unwrap();
    let list = vec![w];
    assert_eq!(find_specific_workload(&list, "web", "prod"), Some(0));
    assert_eq!(find_specific_workload(&list, "web", "dev"), None);
}
