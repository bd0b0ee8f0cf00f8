//! The data the library works on: watched workloads and their status.
use vstd::prelude::*;

verus! {

/// Whether a newer tag than the running one was found.
#[derive(PartialEq, Eq, Structural, Clone, Copy, Debug)]
pub enum UpdateStatus {
    Available,
    NotAvailable,
}

pub open spec fn available_text() -> Seq<char> {
    seq!['A', 'v', 'a', 'i', 'l', 'a', 'b', 'l', 'e']
}

pub open spec fn not_available_text() -> Seq<char> {
    seq!['N', 'o', 't', 'A', 'v', 'a', 'i', 'l', 'a', 'b', 'l', 'e']
}

impl UpdateStatus {
    pub open spec fn text(self) -> Seq<char> {
        match self {
            UpdateStatus::Available => available_text(),
            UpdateStatus::NotAvailable => not_available_text(),
        }
    }

    /// The name of the variant, as it is stored and sent.
    pub fn to_text(&self) -> (r: String)
        ensures
            r@ == self.text(),
    {
        proof {
            reveal_strlit("Available");
            reveal_strlit("NotAvailable");
        }
        match self {
            UpdateStatus::Available => String::from_str("Available"),
            UpdateStatus::NotAvailable => String::from_str("NotAvailable"),
        }
    }

    /// Reads a variant back from its name; any other text is refused.
    pub fn from_text(s: &str) -> (r: Option<UpdateStatus>)
        ensures
            r matches Some(st) ==> st.text() == s@,
            r is None ==> s@ != available_text() && s@ != not_available_text(),
    {
        let a = String::from_str("Available");
        let n = String::from_str("NotAvailable");
        let t = String::from_str(s);
        proof {
            reveal_strlit("Available");
            reveal_strlit("NotAvailable");
            assert(a@ =~= available_text());
            assert(n@ =~= not_available_text());
        }
        if t == a {
            Some(UpdateStatus::Available)
        } else if t == n {
            Some(UpdateStatus::NotAvailable)
        } else {
            None
        }
    }
}

/// One watched container within one cluster object.
#[derive(Clone, Debug)]
pub struct Workload {
    pub name: String,
    pub exclude_pattern: Option<String>,
    pub git_ops_repo: Option<String>,
    pub include_pattern: Option<String>,
    pub update_available: UpdateStatus,
    pub git_directory: Option<String>,
    pub image: String,
    pub last_scanned: String,
    pub namespace: String,
    pub current_version: String,
    pub latest_version: String,
}

pub fn copy_text(o: &Option<String>) -> (r: Option<String>)
    ensures
        r == *o,
{
    match o {
        Some(s) => Some(s.clone()),
        None => None,
    }
}

impl Workload {
    /// A field-for-field copy.
    pub fn duplicate(&self) -> (r: Workload)
        ensures
            r == *self,
    {
        Workload {
            name: self.name.clone(),
            exclude_pattern: copy_text(&self.exclude_pattern),
            git_ops_repo: copy_text(&self.git_ops_repo),
            include_pattern: copy_text(&self.include_pattern),
            update_available: self.update_available,
            git_directory: copy_text(&self.git_directory),
            image: self.image.clone(),
            last_scanned: self.last_scanned.clone(),
            namespace: self.namespace.clone(),
            current_version: self.current_version.clone(),
            latest_version: self.latest_version.clone(),
        }
    }

    /// Same identity, image, patterns and targets as `other`; status fields
    /// may differ.
    pub open spec fn same_but_status(self, other: Workload) -> bool {
        &&& self.name == other.name
        &&& self.exclude_pattern == other.exclude_pattern
        &&& self.git_ops_repo == other.git_ops_repo
        &&& self.include_pattern == other.include_pattern
        &&& self.git_directory == other.git_directory
        &&& self.image == other.image
        &&& self.last_scanned == other.last_scanned
        &&& self.namespace == other.namespace
        &&& self.current_version == other.current_version
    }
}

/// A status reply of the service interface.
#[derive(Clone, Debug)]
pub struct ApiResponse {
    pub status: String,
    pub message: String,
}

} // verus!
