//! The shim's settings, taken from environment variables with defaults.

use vstd::prelude::*;
use vstd::string::*;
use crate::labels::{label_map, lookup_label};
use crate::numbers::{parse_i32, parse_i32_value, parse_i64, parse_i64_value};
use crate::text::owned;

verus! {

/// The shim's settings.
#[derive(Debug, Clone, PartialEq, Eq)]
pub struct Config {
    pub socket_path: String,
    pub tcp_addr: Option<String>,
    pub namespace: String,
    pub ttl_seconds_after_finished: i32,
    pub active_deadline_seconds: i64,
    pub default_cpu_limit: String,
    pub default_memory_limit: String,
    pub default_cpu_request: String,
    pub default_memory_request: String,
}

/// The value a list of variables gives `name`, if any.
pub open spec fn var_value(vars: Seq<(String, String)>, name: Seq<char>) -> Option<Seq<char>> {
    if label_map(vars).contains_key(name) {
        Some(label_map(vars)[name])
    } else {
        None
    }
}

/// The value of a variable, or `default` when it is not set.
pub open spec fn text_setting(vars: Seq<(String, String)>, name: Seq<char>, default: Seq<char>) -> Seq<
    char,
> {
    match var_value(vars, name) {
        Some(v) => v,
        None => default,
    }
}

/// A number setting: the variable read as an `i32`, or `default` when it is
/// not set or is no `i32`.
pub open spec fn i32_setting(vars: Seq<(String, String)>, name: Seq<char>, default: i32) -> i32 {
    match var_value(vars, name) {
        Some(v) => match parse_i32_value(v) {
            Some(n) => n,
            None => default,
        },
        None => default,
    }
}

/// A number setting: the variable read as an `i64`, or `default` when it is
/// not set or is no `i64`.
pub open spec fn i64_setting(vars: Seq<(String, String)>, name: Seq<char>, default: i64) -> i64 {
    match var_value(vars, name) {
        Some(v) => match parse_i64_value(v) {
            Some(n) => n,
            None => default,
        },
        None => default,
    }
}

fn text_var(vars: &Vec<(String, String)>, name: &str, default: &str) -> (s: String)
    ensures
        s@ == text_setting(vars@, name@, default@),
{
    match lookup_label(vars, name) {
        Some(v) => v,
        None => owned(default),
    }
}

impl Config {
    /// The settings that the given environment variables make, a later
    /// variable of the same name winning: `DOCKER_SOCKET_PATH` (default
    /// `/var/run/docker.sock`), `DOCKER_TCP_ADDR` (none by default),
    /// `KUBE_NAMESPACE` (`default`), `JOB_TTL_SECONDS` (0: the cluster's TTL
    /// controller, where it runs, removes a Job as soon as it finishes; the
    /// cleanup sweep removes it otherwise),
    /// `JOB_ACTIVE_DEADLINE_SECONDS` (3600), `DEFAULT_CPU_LIMIT` (`500m`),
    /// `DEFAULT_MEMORY_LIMIT` (`512Mi`), `DEFAULT_CPU_REQUEST` (`100m`) and
    /// `DEFAULT_MEMORY_REQUEST` (`128Mi`). A number that does not parse gives
    /// the default.
    pub fn from_vars(vars: &Vec<(String, String)>) -> (c: Config)
        ensures
            c.socket_path@ == text_setting(vars@, "DOCKER_SOCKET_PATH"@, "/var/run/docker.sock"@),
            match var_value(vars@, "DOCKER_TCP_ADDR"@) {
                Some(v) => c.tcp_addr matches Some(a) && a@ == v,
                None => c.tcp_addr is None,
            },
            c.namespace@ == text_setting(vars@, "KUBE_NAMESPACE"@, "default"@),
            c.ttl_seconds_after_finished == i32_setting(vars@, "JOB_TTL_SECONDS"@, 0),
            c.active_deadline_seconds == i64_setting(vars@, "JOB_ACTIVE_DEADLINE_SECONDS"@, 3600),
            c.default_cpu_limit@ == text_setting(vars@, "DEFAULT_CPU_LIMIT"@, "500m"@),
            c.default_memory_limit@ == text_setting(vars@, "DEFAULT_MEMORY_LIMIT"@, "512Mi"@),
            c.default_cpu_request@ == text_setting(vars@, "DEFAULT_CPU_REQUEST"@, "100m"@),
            c.default_memory_request@ == text_setting(vars@, "DEFAULT_MEMORY_REQUEST"@, "128Mi"@),
    {
        let ttl = match lookup_label(vars, "JOB_TTL_SECONDS") {
            Some(v) => match parse_i32(v.as_str()) {
                Some(n) => n,
                None => 0,
            },
            None => 0,
        };
        let deadline = match lookup_label(vars, "JOB_ACTIVE_DEADLINE_SECONDS") {
            Some(v) => match parse_i64(v.as_str()) {
                Some(n) => n,
                None => 3600,
            },
            None => 3600,
        };
        Config {
            socket_path: text_var(vars, "DOCKER_SOCKET_PATH", "/var/run/docker.sock"),
            tcp_addr: lookup_label(vars, "DOCKER_TCP_ADDR"),
            namespace: text_var(vars, "KUBE_NAMESPACE", "default"),
            ttl_seconds_after_finished: ttl,
            active_deadline_seconds: deadline,
            default_cpu_limit: text_var(vars, "DEFAULT_CPU_LIMIT", "500m"),
            default_memory_limit: text_var(vars, "DEFAULT_MEMORY_LIMIT", "512Mi"),
            default_cpu_request: text_var(vars, "DEFAULT_CPU_REQUEST", "100m"),
            default_memory_request: text_var(vars, "DEFAULT_MEMORY_REQUEST", "128Mi"),
        }
    }
}

} // verus!
