//! The Docker Engine API messages that the shim reads and writes.
//!
//! Maps of the API (labels, port bindings) are held as lists of key/value
//! pairs; see `labels` for how such a list stands for a map.

use vstd::prelude::*;

verus! {

/// The body of `POST /containers/create`.
#[derive(Debug, Clone, PartialEq, Eq)]
pub struct ContainerCreateRequest {
    pub image: String,
    pub env: Vec<String>,
    pub cmd: Option<Vec<String>>,
    pub entrypoint: Option<Vec<String>>,
    pub working_dir: Option<String>,
    pub labels: Vec<(String, String)>,
    pub host_config: Option<HostConfig>,
}

/// Host settings of a container create request; the shim reads none of them.
#[derive(Debug, Clone, PartialEq, Eq)]
pub struct HostConfig {
    pub binds: Vec<String>,
    pub port_bindings: Vec<(String, Vec<PortBinding>)>,
}

/// A published port of a container create request.
#[derive(Debug, Clone, PartialEq, Eq)]
pub struct PortBinding {
    pub host_ip: Option<String>,
    pub host_port: String,
}

/// The answer to `POST /containers/create`.
#[derive(Debug, Clone, PartialEq, Eq)]
pub struct ContainerCreateResponse {
    pub id: String,
    pub warnings: Vec<String>,
}

/// The answer to `GET /containers/{id}/json`.
#[derive(Debug, Clone, PartialEq, Eq)]
pub struct ContainerInspectResponse {
    pub id: String,
    pub created: String,
    pub path: String,
    pub args: Vec<String>,
    pub state: ContainerState,
    pub image: String,
    pub name: String,
    pub config: ContainerConfig,
}

/// The state of a container, as Docker reports it.
#[derive(Debug, Clone, PartialEq, Eq)]
pub struct ContainerState {
    pub status: String,
    pub running: bool,
    pub paused: bool,
    pub restarting: bool,
    pub oom_killed: bool,
    pub dead: bool,
    pub pid: i32,
    pub exit_code: i32,
    pub error: String,
    pub started_at: String,
    pub finished_at: String,
}

/// The configuration of a container, as Docker reports it.
#[derive(Debug, Clone, PartialEq, Eq)]
pub struct ContainerConfig {
    pub image: String,
    pub cmd: Vec<String>,
    pub env: Vec<String>,
    pub labels: Vec<(String, String)>,
}

/// The answer to `GET /version`.
#[derive(Debug, Clone, PartialEq, Eq)]
pub struct VersionResponse {
    pub version: String,
    pub api_version: String,
    pub git_commit: String,
    pub go_version: String,
    pub os: String,
    pub arch: String,
    pub kernel_version: String,
    pub build_time: String,
}

/// The body of an error answer.
#[derive(Debug, Clone, PartialEq, Eq)]
pub struct ErrorResponse {
    pub message: String,
}

/// The answer to `POST /containers/{id}/wait`.
#[derive(Debug, Clone, PartialEq, Eq)]
pub struct ContainerWaitResponse {
    pub status_code: i64,
    pub error: Option<ErrorDetail>,
}

/// Why a waited-for container failed.
#[derive(Debug, Clone, PartialEq, Eq)]
pub struct ErrorDetail {
    pub message: String,
}

/// The answer to `GET /images/{name}/json`: an image that is taken to exist.
#[derive(Debug, Clone, PartialEq, Eq)]
pub struct ImageInspect {
    pub id: String,
    pub repo_tags: Vec<String>,
}

/// The answer to `GET /volumes/{name}`: a local volume that is taken to exist.
#[derive(Debug, Clone, PartialEq, Eq)]
pub struct VolumeInspect {
    pub name: String,
    pub driver: String,
    pub mountpoint: String,
    pub scope: String,
}

/// An HTTP answer whose body the library writes out.
#[derive(Debug, Clone, PartialEq, Eq)]
pub struct Reply {
    pub status: u16,
    pub content_type: Option<String>,
    pub body: Vec<u8>,
}

/// An HTTP answer whose body is `value` written as JSON.
#[derive(Debug, Clone, PartialEq, Eq)]
pub struct JsonReply<T> {
    pub status: u16,
    pub value: T,
}

} // verus!
