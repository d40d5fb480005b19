//! A shim that serves the Docker Engine API on top of Kubernetes Jobs.
//!
//! The library holds the verified logic: Docker's multiplexed log framing,
//! Kubernetes-safe Job names, the Job manifest built for a container request,
//! the Docker view of a Job's state, request routing, waiting, cleanup and the
//! configuration defaults. The program around it (sockets, HTTP, the
//! Kubernetes API) lives in the application crate.

pub mod text;
pub mod multiplex;
pub mod names;
pub mod error;
pub mod labels;
pub mod snapshot;
pub mod jobs;
pub mod logs;
pub mod types;
pub mod containers;
pub mod info;
pub mod ids;
pub mod numbers;
pub mod router;
pub mod config;
pub mod pods;
pub mod laws;
pub mod cleanup;
