use slackwatch::config::{GitopsConfig, Settings, System};
use slackwatch::gitops::{
    base_image, find_gitops_config, load_settings, new_image, plan_remediation, push_refspec,
    search_directory, RemediationError, RemediationStage, StepOutcome,
};
use slackwatch::manifest::{Container, Deployment, ManifestKind, PodSpec, Spec, Template};
use slackwatch::model::{UpdateStatus, Workload};

fn config(name: &str) -> GitopsConfig {
    GitopsConfig {
        name: name.to_string(),
        repository_url: "https://example.com/repo.git".to_string(),
        branch: "main".to_string(),
        commit_name: "Example Committer".to_string(),
        commit_email: "committer@example.com".to_string(),
        access_token_env_name: "GITOPS_TOKEN".to_string(),
        commit_message: "Update".to_string(),
    }
}

fn workload(repo: Option<&str>, dir: Option<&str>) -> Workload {
    Workload {
        name: "web".to_string(),
        exclude_pattern: None,
        git_ops_repo: repo.map(|s| s.to_string()),
        include_pattern: None,
        update_available: UpdateStatus::Available,
        git_directory: dir.map(|s| s.to_string()),
        image: "registry/app:1.0.0".to_string(),
        last_scanned: "t".to_string(),
        namespace: "prod".to_string(),
        current_version: "1.0.0".to_string(),
        latest_version: "2.0.0".to_string(),
    }
}

#[test]
fn images_are_retagged() {
    assert_eq!(base_image("registry/app:1.0.0"), "registry/app");
    assert_eq!(base_image("app"), "app");
    assert_eq!(new_image("registry/app:1.0.0", "2.0.0"), "registry/app:2.0.0");
    assert_eq!(push_refspec(), "refs/heads/main:refs/heads/main");
}

#[test]
fn search_directory_defaults_to_name() {
    assert_eq!(search_directory(&workload(None, None)), "web");
    assert_eq!(search_directory(&workload(None, Some(""))), "web");
    assert_eq!(search_directory(&workload(None, Some("apps/web"))), "apps/web");
}

#[test]
fn config_is_found_by_name() {
    let configs = vec![config("other"), config("example-repo")];
    assert_eq!(find_gitops_config(&configs, &workload(Some("example-repo"), None)), Some(1));
    assert_eq!(find_gitops_config(&configs, &workload(Some("missing"), None)), None);
    assert_eq!(find_gitops_config(&configs, &workload(None, None)), None);
    let plan = plan_remediation(&configs, &workload(Some("example-repo"), None)).unwrap();
    assert_eq!(plan.config.name, "example-repo");
    assert_eq!(plan.new_image, "registry/app:2.0.0");
    assert_eq!(plan.base_image, "registry/app");
    assert_eq!(plan.search_dir, "web");
    assert!(plan_remediation(&Vec::new(), &workload(Some("example-repo"), None)).is_none());
}

#[test]
fn settings_without_repositories_are_an_error() {
    let system = System { schedule: "0 0 * * * *".to_string(), data_dir: "/tmp/data".to_string(), run_at_startup: false };
    let s = Settings { system: system.clone(), notifications: None, gitops: None };
    assert_eq!(load_settings(&s).unwrap_err(), "No Gitops Config Found");
    let s = Settings { system, notifications: None, gitops: Some(vec![config("example-repo")]) };
    assert_eq!(load_settings(&s).unwrap()[0].name, "example-repo");
}

#[test]
fn manifest_images_are_patched() {
    let mut d = Deployment {
        api_version: "apps/v1".to_string(),
        kind: "Deployment".to_string(),
        spec: Spec {
            template: Template {
                spec: PodSpec {
                    containers: vec![
                        Container { image: "registry/app:1.0.0".to_string() },
                        Container { image: "registry/sidecar:3".to_string() },
                    ],
                },
            },
        },
    };
    assert!(d.patch_images("registry/app", "registry/app:2.0.0"));
    assert_eq!(d.spec.template.spec.containers[0].image, "registry/app:2.0.0");
    assert_eq!(d.spec.template.spec.containers[1].image, "registry/sidecar:3");
    assert!(!d.patch_images("other/image", "other/image:9"));
}

#[test]
fn manifest_kind_is_read_from_kind_field() {
    assert_eq!(ManifestKind::from_kind("Deployment"), Some(ManifestKind::Deployment));
    assert_eq!(ManifestKind::from_kind("StatefulSet"), Some(ManifestKind::StatefulSet));
    assert_eq!(ManifestKind::from_kind("Service"), None);
}

#[test]
fn remediation_runs_in_order() {
    let mut s = RemediationStage::Idle;
    let order = [
        RemediationStage::ConfigResolved,
        RemediationStage::WorkspacePrepared,
        RemediationStage::RepositoryReady,
        RemediationStage::FilesPatched,
        RemediationStage::Staged,
        RemediationStage::Committed,
        RemediationStage::Pushed,
        RemediationStage::Done,
    ];
    for expected in order {
        assert_eq!(s.result(), None);
        s = s.advance(StepOutcome::Succeeded);
        assert_eq!(s, expected);
    }
    assert_eq!(s.result(), Some(Ok(())));
}

#[test]
fn repository_without_commits_fails_with_documented_error() {
    let s = RemediationStage::Staged.advance(StepOutcome::Missing);
    assert_eq!(s, RemediationStage::Failed(RemediationError::NoCommitHistory));
    assert!(s.is_finished());
    assert_eq!(s.result(), Some(Err(RemediationError::NoCommitHistory)));
}

#[test]
fn missing_config_is_a_no_op() {
    let s = RemediationStage::Idle.advance(StepOutcome::Missing);
    assert_eq!(s, RemediationStage::Skipped);
    assert_eq!(s.result(), Some(Ok(())));
}

#[test]
fn failed_notification_keeps_push() {
    assert_eq!(RemediationStage::Pushed.advance(StepOutcome::Failed), RemediationStage::Done);
    assert_eq!(
        RemediationStage::Committed.advance(StepOutcome::Failed),
        RemediationStage::Failed(RemediationError::Push)
    );
    assert_eq!(
        RemediationStage::WorkspacePrepared.advance(StepOutcome::Failed),
        RemediationStage::Failed(RemediationError::Clone)
    );
}
