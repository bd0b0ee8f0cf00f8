//! The parts of a workload manifest that remediation rewrites.
use vstd::prelude::*;
use crate::text::{has_substring, contains_text};

verus! {

/// The kinds of manifest that remediation rewrites, told apart by their
/// `kind` field before anything else is read.
#[derive(PartialEq, Eq, Structural, Clone, Copy, Debug)]
pub enum ManifestKind {
    /// A replica-set style manifest (`Deployment`).
    Deployment,
    StatefulSet,
}

pub open spec fn deployment_text() -> Seq<char> {
    seq!['D', 'e', 'p', 'l', 'o', 'y', 'm', 'e', 'n', 't']
}

pub open spec fn stateful_set_text() -> Seq<char> {
    seq!['S', 't', 'a', 't', 'e', 'f', 'u', 'l', 'S', 'e', 't']
}

impl ManifestKind {
    /// The manifest kind named by a `kind` field, if remediation handles it.
    pub fn from_kind(kind: &str) -> (r: Option<ManifestKind>)
        ensures
            r == (if kind@ == deployment_text() {
                Some(ManifestKind::Deployment)
            } else if kind@ == stateful_set_text() {
                Some(ManifestKind::StatefulSet)
            } else {
                None
            }),
    {
        let k = String::from_str(kind);
        let d = String::from_str("Deployment");
        let s = String::from_str("StatefulSet");
        proof {
            reveal_strlit("Deployment");
            reveal_strlit("StatefulSet");
            assert(d@ =~= deployment_text());
            assert(s@ =~= stateful_set_text());
        }
        if k == d {
            Some(ManifestKind::Deployment)
        } else if k == s {
            Some(ManifestKind::StatefulSet)
        } else {
            None
        }
    }
}

/// A container image field after the rewrite: replaced when it holds the
/// base image.
pub open spec fn patched_image(old: Seq<char>, base: Seq<char>, new: Seq<char>) -> Seq<char> {
    if has_substring(old, base) {
        new
    } else {
        old
    }
}

#[derive(Clone, Debug)]
pub struct Container {
    pub image: String,
}

#[derive(Clone, Debug)]
pub struct PodSpec {
    pub containers: Vec<Container>,
}

#[derive(Clone, Debug)]
pub struct Template {
    pub spec: PodSpec,
}

#[derive(Clone, Debug)]
pub struct Spec {
    pub template: Template,
}

/// A workload manifest: its kind and the pod template's containers.
#[derive(Clone, Debug)]
pub struct Deployment {
    pub api_version: String,
    pub kind: String,
    pub spec: Spec,
}

impl PodSpec {
    pub open spec fn images(&self) -> Seq<Seq<char>> {
        self.containers@.map_values(|c: Container| c.image@)
    }

    /// Replaces every image that contains `base` by `new`; true when any was
    /// replaced.
    pub fn patch_images(&mut self, base: &str, new: &str) -> (r: bool)
        ensures
            final(self).images().len() == old(self).images().len(),
            forall|i: int|
                0 <= i < old(self).images().len() ==> #[trigger] final(self).images()[i]
                    == patched_image(old(self).images()[i], base@, new@),
            r == exists|i: int|
                0 <= i < old(self).images().len() && has_substring(#[trigger] old(self).images()[i], base@),
    {
        let ghost before = self.images();
        let mut changed = false;
        let mut i: usize = 0;
        while i < self.containers.len()
            invariant
                0 <= i <= self.containers@.len(),
                self.images().len() == before.len(),
                forall|k: int| 0 <= k < i ==> #[trigger] self.images()[k] == patched_image(before[k], base@, new@),
                forall|k: int| i <= k < before.len() ==> #[trigger] self.images()[k] == before[k],
                changed == exists|k: int| 0 <= k < i && has_substring(#[trigger] before[k], base@),
            decreases self.containers.len() - i,
        {
            let hit = contains_text(self.containers[i].image.as_str(), base);
            assert(self.images()[i as int] == self.containers@[i as int].image@);
            if hit {
                let ghost prev = self.images();
                self.containers.set(i, Container { image: String::from_str(new) });
                assert forall|k: int| 0 <= k < self.images().len() && k != i implies #[trigger] self.images()[k] == prev[k] by {}
                changed = true;
            }
            i += 1;
        }
        changed
    }
}

impl Deployment {
    /// Replaces, in the pod template, every image that contains `base` by
    /// `new`; true when any was replaced.
    pub fn patch_images(&mut self, base: &str, new: &str) -> (r: bool)
        ensures
            final(self).api_version == old(self).api_version,
            final(self).kind == old(self).kind,
            final(self).spec.template.spec.images().len() == old(self).spec.template.spec.images().len(),
            forall|i: int|
                0 <= i < old(self).spec.template.spec.images().len() ==> #[trigger] final(self).spec.template.spec.images()[i]
                    == patched_image(old(self).spec.template.spec.images()[i], base@, new@),
            r == exists|i: int|
                0 <= i < old(self).spec.template.spec.images().len() && has_substring(
                    #[trigger] old(self).spec.template.spec.images()[i],
                    base@,
                ),
    {
        self.spec.template.spec.patch_images(base, new)
    }
}

} // verus!
