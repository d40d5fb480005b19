//! What the shim reads of the Kubernetes objects it manages, as plain values.
//!
//! The application fills these from the Job and Pod objects that the
//! Kubernetes API returns; times are given in the text that the API's time
//! type prints.

use vstd::prelude::*;

verus! {

/// An environment entry of a container.
#[derive(Debug, Clone, PartialEq, Eq)]
pub struct EnvEntry {
    pub name: String,
    pub value: Option<String>,
}

/// The first container of a Job's Pod template.
#[derive(Debug, Clone, PartialEq, Eq)]
pub struct ContainerSnapshot {
    pub image: Option<String>,
    pub args: Option<Vec<String>>,
    pub env: Option<Vec<EnvEntry>>,
}

/// The status of a Job.
#[derive(Debug, Clone, PartialEq, Eq)]
pub struct JobStatusSnapshot {
    pub active: Option<i32>,
    pub succeeded: Option<i32>,
    pub failed: Option<i32>,
    pub start_time: Option<String>,
    pub completion_time: Option<String>,
}

/// A Job as the Kubernetes API reports it.
#[derive(Debug, Clone, PartialEq, Eq)]
pub struct JobSnapshot {
    pub name: Option<String>,
    pub creation_timestamp: Option<String>,
    pub labels: Option<Vec<(String, String)>>,
    pub first_container: Option<ContainerSnapshot>,
    pub status: Option<JobStatusSnapshot>,
}

/// A Pod as the Kubernetes API reports it.
#[derive(Debug, Clone, PartialEq, Eq)]
pub struct PodSnapshot {
    pub name: Option<String>,
}

} // verus!
