//! The Kubernetes Job that stands for a Docker container.

use vstd::prelude::*;
use vstd::utf8::*;
use vstd::string::*;
use crate::labels::{keys_unique, label_map, labels_over, lookup_label, upsert_label};
use crate::names::{sanitize_name, sanitized_name_bytes};
use crate::snapshot::JobSnapshot;
use crate::text::{boundary_at_most, floor_boundary, lemma_ascii_byte_boundaries, owned};

verus! {

/// What a container is created with.
#[derive(Debug, Clone, PartialEq, Eq)]
pub struct JobConfig {
    pub container_id: String,
    pub image: String,
    pub env: Vec<String>,
    pub cmd: Option<Vec<String>>,
    pub entrypoint: Option<Vec<String>>,
    pub working_dir: Option<String>,
    pub labels: Vec<(String, String)>,
}

/// A `JobConfig` under construction. `container_id` and `image` must be set;
/// the other fields default to empty.
#[derive(Debug, Clone, PartialEq, Eq)]
pub struct JobConfigBuilder {
    pub container_id: Option<String>,
    pub image: Option<String>,
    pub env: Option<Vec<String>>,
    pub cmd: Option<Option<Vec<String>>>,
    pub entrypoint: Option<Option<Vec<String>>>,
    pub working_dir: Option<Option<String>>,
    pub labels: Option<Vec<(String, String)>>,
}

/// Why a `JobConfig` could not be built.
#[derive(Debug, Clone, PartialEq, Eq)]
pub enum JobConfigBuilderError {
    /// A field without a default was never set; it holds the field's name.
    UninitializedField(String),
}

impl JobConfigBuilderError {
    /// The text of the error.
    pub fn message(&self) -> (text: String)
        ensures
            self matches JobConfigBuilderError::UninitializedField(f) && text@ == "`"@ + f@
                + "` must be initialized"@,
    {
        match self {
            JobConfigBuilderError::UninitializedField(f) => {
                let mut text = String::new();
                text.append("`");
                text.append(f.as_str());
                text.append("` must be initialized");
                text
            },
        }
    }
}

impl Default for JobConfigBuilder {
    fn default() -> (b: Self)
        ensures
            b.container_id is None && b.image is None && b.env is None && b.cmd is None
                && b.entrypoint is None && b.working_dir is None && b.labels is None,
    {
        JobConfigBuilder {
            container_id: None,
            image: None,
            env: None,
            cmd: None,
            entrypoint: None,
            working_dir: None,
            labels: None,
        }
    }
}

impl JobConfigBuilder {
    pub fn container_id(self, value: String) -> (b: Self)
        ensures
            b == (JobConfigBuilder { container_id: Some(value), ..self }),
    {
        JobConfigBuilder { container_id: Some(value), ..self }
    }

    pub fn image(self, value: String) -> (b: Self)
        ensures
            b == (JobConfigBuilder { image: Some(value), ..self }),
    {
        JobConfigBuilder { image: Some(value), ..self }
    }

    pub fn env(self, value: Vec<String>) -> (b: Self)
        ensures
            b == (JobConfigBuilder { env: Some(value), ..self }),
    {
        JobConfigBuilder { env: Some(value), ..self }
    }

    pub fn cmd(self, value: Option<Vec<String>>) -> (b: Self)
        ensures
            b == (JobConfigBuilder { cmd: Some(value), ..self }),
    {
        JobConfigBuilder { cmd: Some(value), ..self }
    }

    pub fn entrypoint(self, value: Option<Vec<String>>) -> (b: Self)
        ensures
            b == (JobConfigBuilder { entrypoint: Some(value), ..self }),
    {
        JobConfigBuilder { entrypoint: Some(value), ..self }
    }

    pub fn working_dir(self, value: Option<String>) -> (b: Self)
        ensures
            b == (JobConfigBuilder { working_dir: Some(value), ..self }),
    {
        JobConfigBuilder { working_dir: Some(value), ..self }
    }

    pub fn labels(self, value: Vec<(String, String)>) -> (b: Self)
        ensures
            b == (JobConfigBuilder { labels: Some(value), ..self }),
    {
        JobConfigBuilder { labels: Some(value), ..self }
    }

    /// The configuration, or the first field without a default that was not set.
    pub fn build(self) -> (r: Result<JobConfig, JobConfigBuilderError>)
        ensures
            self.container_id is None ==> (r matches Err(
                JobConfigBuilderError::UninitializedField(f),
            ) && f@ == "container_id"@),
            self.container_id is Some && self.image is None ==> (r matches Err(
                JobConfigBuilderError::UninitializedField(f),
            ) && f@ == "image"@),
            self.container_id is Some && self.image is Some ==> (r matches Ok(c) && c.container_id
                == self.container_id->0 && c.image == self.image->0 && (self.env matches Some(v)
                ==> c.env == v) && (self.env is None ==> c.env@.len() == 0) && c.cmd == (
            match self.cmd {
                Some(v) => v,
                None => None,
            }) && c.entrypoint == (match self.entrypoint {
                Some(v) => v,
                None => None,
            }) && c.working_dir == (match self.working_dir {
                Some(v) => v,
                None => None,
            }) && (self.labels matches Some(v) ==> c.labels == v) && (self.labels is None
                ==> c.labels@.len() == 0)),
    {
        let container_id = match self.container_id {
            Some(v) => v,
            None => {
                return Err(JobConfigBuilderError::UninitializedField(owned("container_id")));
            },
        };
        let image = match self.image {
            Some(v) => v,
            None => {
                return Err(JobConfigBuilderError::UninitializedField(owned("image")));
            },
        };
        Ok(
            JobConfig {
                container_id,
                image,
                env: match self.env {
                    Some(v) => v,
                    None => Vec::new(),
                },
                cmd: match self.cmd {
                    Some(v) => v,
                    None => None,
                },
                entrypoint: match self.entrypoint {
                    Some(v) => v,
                    None => None,
                },
                working_dir: match self.working_dir {
                    Some(v) => v,
                    None => None,
                },
                labels: match self.labels {
                    Some(v) => v,
                    None => Vec::new(),
                },
            },
        )
    }
}

/// An environment variable of the Job's container.
#[derive(Debug, Clone, PartialEq, Eq)]
pub struct EnvVar {
    pub name: String,
    pub value: String,
}

/// The single container of the Job's Pod.
#[derive(Debug, Clone, PartialEq, Eq)]
pub struct ContainerManifest {
    pub name: String,
    pub image: String,
    pub env: Vec<EnvVar>,
    pub args: Option<Vec<String>>,
    pub command: Option<Vec<String>>,
    pub working_dir: Option<String>,
    pub cpu_limit: String,
    pub memory_limit: String,
    pub cpu_request: String,
    pub memory_request: String,
    /// Where Kubernetes takes the message of a terminated container from.
    pub termination_message_policy: String,
}

/// The Job to create for a container. `labels` are set both on the Job and
/// on its Pod template.
#[derive(Debug, Clone, PartialEq, Eq)]
pub struct JobManifest {
    pub name: String,
    pub labels: Vec<(String, String)>,
    pub ttl_seconds_after_finished: i32,
    pub backoff_limit: i32,
    pub active_deadline_seconds: i64,
    pub restart_policy: String,
    pub container: ContainerManifest,
}

/// `i` is the first position of `x` in `b`.
pub open spec fn is_first_index(b: Seq<u8>, x: u8, i: int) -> bool {
    &&& 0 <= i < b.len()
    &&& b[i] == x
    &&& forall|j: int| 0 <= j < i ==> b[j] != x
}

/// A Docker environment entry `NAME=VALUE` split at its first `=`; `None`
/// when it has no `=`.
pub open spec fn env_split(b: Seq<u8>) -> Option<(Seq<u8>, Seq<u8>)> {
    if exists|i: int| is_first_index(b, 61u8, i) {
        let i = choose|i: int| is_first_index(b, 61u8, i);
        Some((b.take(i), b.skip(i + 1)))
    } else {
        None
    }
}

/// The variables that a list of Docker environment entries gives, in order;
/// entries without `=` give none.
pub open spec fn parsed_env(entries: Seq<Seq<u8>>) -> Seq<(Seq<u8>, Seq<u8>)>
    decreases entries.len(),
{
    if entries.len() == 0 {
        seq![]
    } else {
        let rest = parsed_env(entries.drop_last());
        match env_split(entries.last()) {
            Some(p) => rest.push(p),
            None => rest,
        }
    }
}

/// The UTF-8 bytes of each string.
pub open spec fn strings_bytes(v: Seq<String>) -> Seq<Seq<u8>> {
    v.map_values(|s: String| encode_utf8(s@))
}

/// The UTF-8 bytes of the names and values of environment variables.
pub open spec fn env_bytes(v: Seq<EnvVar>) -> Seq<(Seq<u8>, Seq<u8>)> {
    v.map_values(|e: EnvVar| (encode_utf8(e.name@), encode_utf8(e.value@)))
}

/// The value of the `container-id` label: the id, cut to at most 63 bytes at
/// a character boundary.
pub open spec fn label_id_bytes(id: Seq<u8>) -> Seq<u8> {
    if id.len() > 63 {
        id.take(boundary_at_most(id, 63))
    } else {
        id
    }
}

/// The labels every Job gets before the container's own labels.
pub open spec fn base_labels(label_id: Seq<char>) -> Map<Seq<char>, Seq<char>> {
    Map::<Seq<char>, Seq<char>>::empty().insert("socket-shim"@, "true"@).insert(
        "container-id"@,
        label_id,
    )
}

/// Splits a Docker environment entry `NAME=VALUE` at its first `=`.
pub fn parse_env_entry(entry: &str) -> (var: Option<EnvVar>)
    ensures
        match env_split(entry.spec_bytes()) {
            Some((n, v)) => var matches Some(e) && encode_utf8(e.name@) == n && encode_utf8(
                e.value@,
            ) == v,
            None => var is None,
        },
{
    let b = entry.as_bytes();
    let mut i: usize = 0;
    while i < b.len() && b[i] != 61u8
        invariant
            i <= b@.len(),
            forall|j: int| 0 <= j < i ==> b@[j] != 61u8,
        decreases b@.len() - i,
    {
        i = i + 1;
    }
    if i == b.len() {
        proof {
            assert(!exists|k: int| is_first_index(b@, 61u8, k));
        }
        None
    } else {
        proof {
            assert(is_first_index(b@, 61u8, i as int));
            let k = choose|k: int| is_first_index(b@, 61u8, k);
            assert(k == i);
            encode_utf8_valid_utf8(entry@);
            lemma_ascii_byte_boundaries(b@, i as int);
        }
        let (name, _) = entry.split_at(i);
        let (_, value) = entry.split_at(i + 1);
        proof {
            assert(b@.subrange(0, i as int) =~= b@.take(i as int));
            assert(b@.subrange(i + 1, b@.len() as int) =~= b@.skip(i + 1));
        }
        Some(EnvVar { name: owned(name), value: owned(value) })
    }
}

/// The variables of a list of Docker environment entries.
pub fn parse_env(entries: &Vec<String>) -> (vars: Vec<EnvVar>)
    ensures
        env_bytes(vars@) == parsed_env(strings_bytes(entries@)),
{
    let mut vars: Vec<EnvVar> = Vec::new();
    let mut i: usize = 0;
    while i < entries.len()
        invariant
            i <= entries@.len(),
            env_bytes(vars@) == parsed_env(strings_bytes(entries@.take(i as int))),
        decreases entries@.len() - i,
    {
        let var = parse_env_entry(entries[i].as_str());
        let ghost prev = vars@;
        proof {
            let t = strings_bytes(entries@.take(i + 1));
            assert(t.drop_last() =~= strings_bytes(entries@.take(i as int)));
            assert(t.last() == encode_utf8(entries@[i as int]@));
        }
        match var {
            Some(v) => {
                vars.push(v);
                proof {
                    assert(env_bytes(vars@) =~= env_bytes(prev).push(
                        (encode_utf8(vars@.last().name@), encode_utf8(vars@.last().value@)),
                    ));
                }
            },
            None => {},
        }
        i = i + 1;
    }
    proof {
        assert(entries@.take(entries@.len() as int) =~= entries@);
    }
    vars
}

/// The settings with which Jobs are created.
#[derive(Debug, Clone, PartialEq, Eq)]
pub struct JobManager {
    pub namespace: String,
    pub ttl_seconds: i32,
    pub active_deadline_seconds: i64,
    pub cpu_limit: String,
    pub memory_limit: String,
    pub cpu_request: String,
    pub memory_request: String,
}

impl JobManager {
    pub fn new(
        namespace: String,
        ttl_seconds: i32,
        active_deadline_seconds: i64,
        cpu_limit: String,
        memory_limit: String,
        cpu_request: String,
        memory_request: String,
    ) -> (m: Self)
        ensures
            m == (JobManager {
                namespace,
                ttl_seconds,
                active_deadline_seconds,
                cpu_limit,
                memory_limit,
                cpu_request,
                memory_request,
            }),
    {
        JobManager {
            namespace,
            ttl_seconds,
            active_deadline_seconds,
            cpu_limit,
            memory_limit,
            cpu_request,
            memory_request,
        }
    }

    /// The name of the Job that stands for `container_id`.
    pub fn sanitize_name(&self, container_id: &str) -> (name: String)
        ensures
            encode_utf8(name@) == sanitized_name_bytes(container_id.spec_bytes()),
    {
        sanitize_name(container_id)
    }

    /// `job` is the Job that `build_job` makes for `config`.
    pub open spec fn is_job_for(self, config: JobConfig, job: JobManifest) -> bool {
        &&& encode_utf8(job.name@) == sanitized_name_bytes(encode_utf8(config.container_id@))
        &&& keys_unique(job.labels@)
        &&& label_map(job.labels@) == labels_over(
            base_labels(decode_utf8(label_id_bytes(encode_utf8(config.container_id@)))),
            config.labels@,
        )
        &&& job.ttl_seconds_after_finished == self.ttl_seconds
        &&& job.backoff_limit == 0
        &&& job.active_deadline_seconds == self.active_deadline_seconds
        &&& job.restart_policy@ == "Never"@
        &&& job.container.name@ == "task"@
        &&& job.container.image == config.image
        &&& env_bytes(job.container.env@) == parsed_env(strings_bytes(config.env@))
        &&& job.container.args == config.cmd
        &&& job.container.command == config.entrypoint
        &&& job.container.working_dir == config.working_dir
        &&& job.container.cpu_limit@ == self.cpu_limit@
        &&& job.container.memory_limit@ == self.memory_limit@
        &&& job.container.cpu_request@ == self.cpu_request@
        &&& job.container.memory_request@ == self.memory_request@
        &&& job.container.termination_message_policy@ == "FallbackToLogsOnError"@
    }

    /// The Job for a container: named by `sanitize_name`, labelled
    /// `socket-shim=true` and `container-id=<id cut to 63 bytes>` and then with
    /// the container's own labels (which win), never retried, removed after
    /// the configured time once finished and stopped after the configured
    /// deadline; its one container, `task`, runs the image with the parsed
    /// environment, the resource settings of the manager, `cmd` as arguments,
    /// `entrypoint` as command and the working directory, and reports the end
    /// of its logs as its termination message when it fails.
    pub fn build_job(&self, config: JobConfig) -> (job: JobManifest)
        ensures
            self.is_job_for(config, job),
    {
        let env = parse_env(&config.env);
        let name = sanitize_name(config.container_id.as_str());
        let id: &str = config.container_id.as_str();
        let label_id = if id.as_bytes().len() > 63 {
            let cut = floor_boundary(id, 63);
            let (head, _) = id.split_at(cut);
            proof {
                encode_utf8_decode_utf8(head@);
                assert(encode_utf8(config.container_id@).subrange(0, cut as int) =~= encode_utf8(
                    config.container_id@,
                ).take(cut as int));
            }
            owned(head)
        } else {
            proof {
                encode_utf8_decode_utf8(config.container_id@);
            }
            owned(id)
        };
        proof {
            reveal_strlit("socket-shim");
            reveal_strlit("container-id");
        }
        let ghost lid = label_id@;
        let mut labels: Vec<(String, String)> = Vec::new();
        labels.push((owned("socket-shim"), owned("true")));
        labels.push((owned("container-id"), label_id));
        proof {
            reveal_with_fuel(labels_over, 3);
            assert(labels@.drop_last().drop_last() =~= Seq::<(String, String)>::empty());
            assert(labels@[0].0@ == "socket-shim"@);
            assert(labels@[1].0@ == "container-id"@);
            assert("socket-shim"@.len() != "container-id"@.len());
            assert(label_map(labels@) =~= base_labels(lid));
            assert(labels_over(base_labels(lid), config.labels@.take(0)) == base_labels(lid));
        }
        let mut i: usize = 0;
        while i < config.labels.len()
            invariant
                i <= config.labels@.len(),
                keys_unique(labels@),
                label_map(labels@) == labels_over(base_labels(lid), config.labels@.take(i as int)),
            decreases config.labels@.len() - i,
        {
            let key = config.labels[i].0.clone();
            let value = config.labels[i].1.clone();
            labels = upsert_label(labels, key, value);
            proof {
                assert(config.labels@.take(i + 1).drop_last() =~= config.labels@.take(i as int));
            }
            i = i + 1;
        }
        proof {
            assert(config.labels@.take(config.labels@.len() as int) =~= config.labels@);
        }
        let container = ContainerManifest {
            name: owned("task"),
            image: config.image,
            env,
            args: config.cmd,
            command: config.entrypoint,
            working_dir: config.working_dir,
            cpu_limit: self.cpu_limit.clone(),
            memory_limit: self.memory_limit.clone(),
            cpu_request: self.cpu_request.clone(),
            memory_request: self.memory_request.clone(),
            termination_message_policy: owned("FallbackToLogsOnError"),
        };
        JobManifest {
            name,
            labels,
            ttl_seconds_after_finished: self.ttl_seconds,
            backoff_limit: 0,
            active_deadline_seconds: self.active_deadline_seconds,
            restart_policy: owned("Never"),
            container,
        }
    }

    /// The `container-id` label of a Job, if it has one.
    pub fn extract_container_id(&self, job: &JobSnapshot) -> (id: Option<String>)
        ensures
            match job.labels {
                Some(l) => (id is Some <==> label_map(l@).contains_key("container-id"@)) && (
                id matches Some(v) ==> v@ == label_map(l@)["container-id"@]),
                None => id is None,
            },
    {
        match &job.labels {
            Some(l) => lookup_label(l, "container-id"),
            None => None,
        }
    }
}

} // verus!
