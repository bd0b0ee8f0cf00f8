//! Update detection and GitOps remediation for container workloads.
//!
//! The library holds the decisions: which registry tags are newer than a
//! running version, how tag listings are paged, what the scan history
//! returns, which manifests a remediation rewrites and in what order its
//! steps run. Network, disk and repository access stay with the caller.
pub mod text;
pub mod model;
pub mod compare;
pub mod registry;
pub mod history;
pub mod config;
pub mod manifest;
pub mod gitops;
pub mod scheduler;
pub mod notify;
pub mod discovery;
