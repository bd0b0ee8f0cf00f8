//! Remediation: which repository a workload's manifests live in, what is
//! rewritten there, and the order of the clone, patch, commit and push steps.
use vstd::prelude::*;
use crate::config::{GitopsConfig, Settings};
use crate::model::Workload;
use crate::text::{pieces, split_text, texts, lemma_pieces_nonempty};

verus! {

/// The repository list of the settings, or an error when there is none.
pub fn load_settings(settings: &Settings) -> (r: Result<Vec<GitopsConfig>, String>)
    ensures
        r is Ok <==> settings.gitops is Some,
        r matches Ok(v) ==> v@ == settings.gitops->0@,
        r matches Err(e) ==> e@ == "No Gitops Config Found"@,
{
    match &settings.gitops {
        Some(list) => {
            let mut out: Vec<GitopsConfig> = Vec::new();
            let mut i: usize = 0;
            while i < list.len()
                invariant
                    0 <= i <= list@.len(),
                    out@ == list@.subrange(0, i as int),
                decreases list.len() - i,
            {
                out.push(list[i].duplicate());
                assert(list@.subrange(0, i + 1) =~= list@.subrange(0, i as int).push(list@[i as int]));
                i += 1;
            }
            assert(list@.subrange(0, list@.len() as int) =~= list@);
            Ok(out)
        },
        None => Err(String::from_str("No Gitops Config Found")),
    }
}

/// The repository configuration that the workload names.
pub open spec fn names_config(w: Workload, c: GitopsConfig) -> bool {
    w.git_ops_repo matches Some(repo) && repo@ == c.name@
}

/// The first repository configuration that the workload names; none when
/// the workload names no repository.
pub fn find_gitops_config(configs: &Vec<GitopsConfig>, workload: &Workload) -> (r: Option<usize>)
    ensures
        r is None <==> forall|i: int| 0 <= i < configs@.len() ==> !names_config(*workload, #[trigger] configs@[i]),
        r matches Some(i) ==> i < configs@.len() && names_config(*workload, configs@[i as int]) && forall|j: int|
            0 <= j < i ==> !names_config(*workload, #[trigger] configs@[j]),
{
    match &workload.git_ops_repo {
        None => None,
        Some(repo) => {
            let mut i: usize = 0;
            while i < configs.len()
                invariant
                    0 <= i <= configs@.len(),
                    workload.git_ops_repo == Some(*repo),
                    forall|j: int| 0 <= j < i ==> !names_config(*workload, #[trigger] configs@[j]),
                decreases configs.len() - i,
            {
                if configs[i].name == *repo {
                    return Some(i);
                }
                i += 1;
            }
            None
        },
    }
}

/// Directory of the repository searched for manifests: the workload's
/// `git_directory`, or its name when that is absent or empty.
pub open spec fn search_dir_of(w: Workload) -> Seq<char> {
    match w.git_directory {
        Some(d) => if d@.len() > 0 { d@ } else { w.name@ },
        None => w.name@,
    }
}

pub fn search_directory(workload: &Workload) -> (r: String)
    ensures
        r@ == search_dir_of(*workload),
{
    match &workload.git_directory {
        Some(d) => {
            if d.as_str().is_empty() {
                workload.name.clone()
            } else {
                d.clone()
            }
        },
        None => workload.name.clone(),
    }
}

/// The image reference up to its first `:`, that is without its tag.
pub open spec fn base_of(image: Seq<char>) -> Seq<char> {
    pieces(image, ':')[0]
}

pub fn base_image(image: &str) -> (r: String)
    ensures
        r@ == base_of(image@),
{
    let parts = split_text(image, ':');
    proof {
        lemma_pieces_nonempty(image@, ':');
        assert(texts(parts@)[0] == parts@[0]@);
    }
    parts[0].clone()
}

/// The base image tagged with `version`.
pub open spec fn retagged(image: Seq<char>, version: Seq<char>) -> Seq<char> {
    base_of(image) + seq![':'] + version
}

pub fn new_image(image: &str, version: &str) -> (r: String)
    ensures
        r@ == retagged(image@, version@),
{
    let base = base_image(image);
    proof {
        reveal_strlit(":");
    }
    base.concat(":").concat(version)
}

/// Branch mapping of the push: the local `main` onto the remote `main`,
/// whatever branch the configuration names.
pub fn push_refspec() -> (r: String)
    ensures
        r@ == seq!['r', 'e', 'f', 's', '/', 'h', 'e', 'a', 'd', 's', '/', 'm', 'a', 'i', 'n', ':', 'r', 'e', 'f', 's', '/', 'h', 'e', 'a', 'd', 's', '/', 'm', 'a', 'i', 'n'],
{
    let r = String::from_str("refs/heads/main:refs/heads/main");
    proof {
        reveal_strlit("refs/heads/main:refs/heads/main");
        assert(r@ =~= seq!['r', 'e', 'f', 's', '/', 'h', 'e', 'a', 'd', 's', '/', 'm', 'a', 'i', 'n', ':', 'r', 'e', 'f', 's', '/', 'h', 'e', 'a', 'd', 's', '/', 'm', 'a', 'i', 'n']);
    }
    r
}

/// What one remediation does, fixed before any step runs.
pub struct RemediationPlan {
    pub config: GitopsConfig,
    pub search_dir: String,
    pub base_image: String,
    pub new_image: String,
}

/// The plan for a workload: the repository it names and the image rewrite;
/// none when no configuration matches, which is no error.
pub fn plan_remediation(configs: &Vec<GitopsConfig>, workload: &Workload) -> (r: Option<RemediationPlan>)
    ensures
        r is None <==> forall|i: int| 0 <= i < configs@.len() ==> !names_config(*workload, #[trigger] configs@[i]),
        r matches Some(p) ==> {
            &&& exists|i: int|
                0 <= i < configs@.len() && configs@[i] == p.config && names_config(*workload, #[trigger] configs@[i])
                    && forall|j: int| 0 <= j < i ==> !names_config(*workload, #[trigger] configs@[j])
            &&& p.search_dir@ == search_dir_of(*workload)
            &&& p.base_image@ == base_of(workload.image@)
            &&& p.new_image@ == retagged(workload.image@, workload.latest_version@)
        },
{
    match find_gitops_config(configs, workload) {
        None => None,
        Some(i) => {
            let config = configs[i].duplicate();
            assert(configs@[i as int] == config);
            Some(RemediationPlan {
                config,
                search_dir: search_directory(workload),
                base_image: base_image(workload.image.as_str()),
                new_image: new_image(workload.image.as_str(), workload.latest_version.as_str()),
            })
        },
    }
}

/// Why a remediation stopped.
#[derive(PartialEq, Eq, Structural, Clone, Copy, Debug)]
pub enum RemediationError {
    /// The local working copy could not be cleared.
    Workspace,
    /// The repository could not be cloned or opened.
    Clone,
    /// A manifest could not be read or written.
    Patch,
    /// The changes could not be staged.
    Stage,
    /// The repository has no commit to build on.
    NoCommitHistory,
    /// The commit could not be made.
    Commit,
    /// The push was refused or failed.
    Push,
}

/// Where one remediation stands.
#[derive(PartialEq, Eq, Structural, Clone, Copy, Debug)]
pub enum RemediationStage {
    Idle,
    ConfigResolved,
    WorkspacePrepared,
    RepositoryReady,
    FilesPatched,
    Staged,
    Committed,
    Pushed,
    /// Pushed, and the notification was attempted.
    Done,
    /// No repository configuration matched: nothing to do.
    Skipped,
    Failed(RemediationError),
}

/// How the step that a stage starts went.
#[derive(PartialEq, Eq, Structural, Clone, Copy, Debug)]
pub enum StepOutcome {
    Succeeded,
    /// What the step acts on is absent: no matching configuration, or no
    /// commit at `HEAD`.
    Missing,
    Failed,
}

pub open spec fn is_terminal(s: RemediationStage) -> bool {
    s is Done || s is Skipped || s is Failed
}

/// The stage after the step that `s` starts ends with `o`.
pub open spec fn next_stage(s: RemediationStage, o: StepOutcome) -> RemediationStage {
    let ok = o == StepOutcome::Succeeded;
    match s {
        RemediationStage::Idle => if ok {
            RemediationStage::ConfigResolved
        } else {
            RemediationStage::Skipped
        },
        RemediationStage::ConfigResolved => if ok {
            RemediationStage::WorkspacePrepared
        } else {
            RemediationStage::Failed(RemediationError::Workspace)
        },
        RemediationStage::WorkspacePrepared => if ok {
            RemediationStage::RepositoryReady
        } else {
            RemediationStage::Failed(RemediationError::Clone)
        },
        RemediationStage::RepositoryReady => if ok {
            RemediationStage::FilesPatched
        } else {
            RemediationStage::Failed(RemediationError::Patch)
        },
        RemediationStage::FilesPatched => if ok {
            RemediationStage::Staged
        } else {
            RemediationStage::Failed(RemediationError::Stage)
        },
        RemediationStage::Staged => if ok {
            RemediationStage::Committed
        } else if o == StepOutcome::Missing {
            RemediationStage::Failed(RemediationError::NoCommitHistory)
        } else {
            RemediationStage::Failed(RemediationError::Commit)
        },
        RemediationStage::Committed => if ok {
            RemediationStage::Pushed
        } else {
            RemediationStage::Failed(RemediationError::Push)
        },
        RemediationStage::Pushed => RemediationStage::Done,
        _ => s,
    }
}

impl RemediationStage {
    /// Moves past the step that this stage starts, given how it went. The
    /// notification after the push is best effort: the push stands.
    pub fn advance(self, outcome: StepOutcome) -> (r: RemediationStage)
        ensures
            r == next_stage(self, outcome),
    {
        let ok = outcome == StepOutcome::Succeeded;
        match self {
            RemediationStage::Idle => if ok {
                RemediationStage::ConfigResolved
            } else {
                RemediationStage::Skipped
            },
            RemediationStage::ConfigResolved => if ok {
                RemediationStage::WorkspacePrepared
            } else {
                RemediationStage::Failed(RemediationError::Workspace)
            },
            RemediationStage::WorkspacePrepared => if ok {
                RemediationStage::RepositoryReady
            } else {
                RemediationStage::Failed(RemediationError::Clone)
            },
            RemediationStage::RepositoryReady => if ok {
                RemediationStage::FilesPatched
            } else {
                RemediationStage::Failed(RemediationError::Patch)
            },
            RemediationStage::FilesPatched => if ok {
                RemediationStage::Staged
            } else {
                RemediationStage::Failed(RemediationError::Stage)
            },
            RemediationStage::Staged => if ok {
                RemediationStage::Committed
            } else if outcome == StepOutcome::Missing {
                RemediationStage::Failed(RemediationError::NoCommitHistory)
            } else {
                RemediationStage::Failed(RemediationError::Commit)
            },
            RemediationStage::Committed => if ok {
                RemediationStage::Pushed
            } else {
                RemediationStage::Failed(RemediationError::Push)
            },
            RemediationStage::Pushed => RemediationStage::Done,
            _ => self,
        }
    }

    pub fn is_finished(&self) -> (r: bool)
        ensures
            r == is_terminal(*self),
    {
        match self {
            RemediationStage::Done | RemediationStage::Skipped | RemediationStage::Failed(_) => true,
            _ => false,
        }
    }

    /// The outcome for the caller: success for `Done` and `Skipped`, the
    /// error for `Failed`, none while steps remain.
    pub fn result(&self) -> (r: Option<Result<(), RemediationError>>)
        ensures
            r is None <==> !is_terminal(*self),
            r == Some(Ok::<(), RemediationError>(())) <==> (*self == RemediationStage::Done || *self == RemediationStage::Skipped),
            forall|e: RemediationError| r == Some(Err::<(), RemediationError>(e)) <==> *self == RemediationStage::Failed(e),
    {
        match self {
            RemediationStage::Done | RemediationStage::Skipped => Some(Ok(())),
            RemediationStage::Failed(e) => Some(Err(*e)),
            _ => None,
        }
    }
}

/// A commit attempted on a repository without any commit ends the
/// remediation with `NoCommitHistory`, a result and no crash.
pub proof fn law_no_history_fails_cleanly()
    ensures
        next_stage(RemediationStage::Staged, StepOutcome::Missing) == RemediationStage::Failed(
            RemediationError::NoCommitHistory,
        ),
        is_terminal(next_stage(RemediationStage::Staged, StepOutcome::Missing)),
{
}

/// Once finished, a remediation stays as it is; a failed step after the
/// configuration was found, and before the push was done, ends it in failure.
pub proof fn law_failure_is_final(s: RemediationStage, o: StepOutcome)
    ensures
        is_terminal(s) ==> next_stage(s, o) == s,
        !is_terminal(s) && o == StepOutcome::Failed && s != RemediationStage::Idle && s != RemediationStage::Pushed ==> next_stage(s, o) is Failed,
{
}

} // verus!
