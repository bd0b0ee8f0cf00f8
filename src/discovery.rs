//! Which cluster pods are watched, and the workload each one describes.
use vstd::prelude::*;
use crate::compare::opt_view;
use crate::model::{UpdateStatus, Workload};
use crate::text::{pieces, split_text, texts};

verus! {

/// What discovery reads of a pod's first container.
pub struct ContainerSummary {
    pub name: String,
    pub image: Option<String>,
}

/// What discovery reads of a pod: its annotations, in key order, its
/// namespace and its first container.
pub struct PodSummary {
    pub annotations: Vec<(String, String)>,
    pub namespace: Option<String>,
    pub first_container: Option<ContainerSummary>,
}

/// The value of the first annotation with this key.
pub open spec fn annotation_of(annotations: Seq<(String, String)>, key: Seq<char>) -> Option<Seq<char>>
    decreases annotations.len(),
{
    if annotations.len() == 0 {
        None
    } else if annotations[0].0@ == key {
        Some(annotations[0].1@)
    } else {
        annotation_of(annotations.drop_first(), key)
    }
}

pub fn annotation(annotations: &Vec<(String, String)>, key: &str) -> (r: Option<String>)
    ensures
        opt_view(r) == annotation_of(annotations@, key@),
{
    let k = String::from_str(key);
    let mut i: usize = 0;
    assert(annotations@.subrange(0, annotations@.len() as int) =~= annotations@);
    while i < annotations.len()
        invariant
            0 <= i <= annotations@.len(),
            k@ == key@,
            annotation_of(annotations@, key@) == annotation_of(annotations@.subrange(i as int, annotations@.len() as int), key@),
        decreases annotations.len() - i,
    {
        let ghost rest = annotations@.subrange(i as int, annotations@.len() as int);
        assert(rest.drop_first() =~= annotations@.subrange(i + 1, annotations@.len() as int));
        assert(rest[0] == annotations@[i as int]);
        if annotations[i].0 == k {
            return Some(annotations[i].1.clone());
        }
        i += 1;
    }
    None
}

pub open spec fn enable_key() -> Seq<char> {
    "slackwatch.enable"@
}

pub open spec fn true_text() -> Seq<char> {
    "true"@
}

/// The tag part of an image reference, `latest` when it names none.
pub open spec fn tag_of(image: Seq<char>) -> Seq<char> {
    if pieces(image, ':').len() > 1 {
        pieces(image, ':')[1]
    } else {
        "latest"@
    }
}

/// The pod is watched: it is annotated `slackwatch.enable: "true"` and has
/// a namespace and a container.
pub open spec fn is_watched(pod: PodSummary) -> bool {
    &&& annotation_of(pod.annotations@, enable_key()) == Some(true_text())
    &&& pod.namespace is Some
    &&& pod.first_container is Some
}

/// The initial workload of a watched pod, scanned at `scanned_at`: not yet
/// compared, so no update and no latest version.
pub fn create_workload_from_pod(pod: &PodSummary, scanned_at: &str) -> (r: Option<Workload>)
    ensures
        r is Some <==> is_watched(*pod),
        r matches Some(w) ==> {
            let c = pod.first_container->0;
            let image = match c.image {
                Some(i) => i@,
                None => Seq::empty(),
            };
            &&& w.name == c.name
            &&& w.namespace == pod.namespace->0
            &&& w.image@ == image
            &&& w.current_version@ == tag_of(image)
            &&& w.latest_version@.len() == 0
            &&& w.update_available == UpdateStatus::NotAvailable
            &&& w.last_scanned@ == scanned_at@
            &&& opt_view(w.exclude_pattern) == annotation_of(pod.annotations@, "slackwatch.exclude"@)
            &&& opt_view(w.include_pattern) == annotation_of(pod.annotations@, "slackwatch.include"@)
            &&& opt_view(w.git_ops_repo) == annotation_of(pod.annotations@, "slackwatch.repo"@)
            &&& opt_view(w.git_directory) == annotation_of(pod.annotations@, "slackwatch.directory"@)
        },
{
    let enabled = annotation(&pod.annotations, "slackwatch.enable");
    let yes = String::from_str("true");
    let on = match enabled {
        Some(v) => v == yes,
        None => false,
    };
    if !on {
        return None;
    }
    let namespace = match &pod.namespace {
        Some(n) => n.clone(),
        None => {
            return None;
        },
    };
    let c = match &pod.first_container {
        Some(c) => c,
        None => {
            return None;
        },
    };
    let image = match &c.image {
        Some(i) => i.clone(),
        None => String::new(),
    };
    let parts = split_text(image.as_str(), ':');
    let current_version = if parts.len() > 1 {
        assert(texts(parts@)[1] == parts@[1]@);
        parts[1].clone()
    } else {
        let l = String::from_str("latest");
        l
    };
    Some(Workload {
        name: c.name.clone(),
        exclude_pattern: annotation(&pod.annotations, "slackwatch.exclude"),
        git_ops_repo: annotation(&pod.annotations, "slackwatch.repo"),
        include_pattern: annotation(&pod.annotations, "slackwatch.include"),
        update_available: UpdateStatus::NotAvailable,
        git_directory: annotation(&pod.annotations, "slackwatch.directory"),
        image,
        last_scanned: String::from_str(scanned_at),
        namespace,
        current_version,
        latest_version: String::new(),
    })
}

/// The first workload with this name and namespace.
pub fn find_specific_workload(workloads: &Vec<Workload>, name: &str, namespace: &str) -> (r: Option<usize>)
    ensures
        r is None <==> forall|i: int|
            0 <= i < workloads@.len() ==> !(#[trigger] workloads@[i].name@ == name@ && workloads@[i].namespace@ == namespace@),
        r matches Some(i) ==> i < workloads@.len() && workloads@[i as int].name@ == name@
            && workloads@[i as int].namespace@ == namespace@,
{
    let n = String::from_str(name);
    let ns = String::from_str(namespace);
    let mut i: usize = 0;
    while i < workloads.len()
        invariant
            0 <= i <= workloads@.len(),
            n@ == name@,
            ns@ == namespace@,
            forall|j: int|
                0 <= j < i ==> !(#[trigger] workloads@[j].name@ == name@ && workloads@[j].namespace@ == namespace@),
        decreases workloads.len() - i,
    {
        if workloads[i].name == n && workloads[i].namespace == ns {
            return Some(i);
        }
        i += 1;
    }
    None
}

} // verus!
