//! The container endpoints: what the shim answers, given the Jobs it reads.

use vstd::prelude::*;
use vstd::string::*;
use crate::error::Error;
use crate::jobs::{JobConfig, JobConfigBuilder};
use crate::snapshot::{EnvEntry, JobSnapshot, JobStatusSnapshot};
use crate::text::owned;
use crate::types::{
    ContainerConfig, ContainerCreateRequest, ContainerCreateResponse, ContainerInspectResponse,
    ContainerState, ContainerWaitResponse, ErrorDetail, ErrorResponse, JsonReply, Reply,
};

verus! {

/// The text of `o`, or `default` when there is none.
pub open spec fn text_or(o: Option<String>, default: Seq<char>) -> Seq<char> {
    match o {
        Some(s) => s@,
        None => default,
    }
}

/// A count that is present and above zero.
pub open spec fn is_positive(count: Option<i32>) -> bool {
    match count {
        Some(n) => n > 0,
        None => false,
    }
}

/// The Docker state of a container, given its Job's status: the status word,
/// whether it runs, its exit code, and when it started and finished.
pub open spec fn docker_state(status: Option<JobStatusSnapshot>) -> (
    Seq<char>,
    bool,
    i32,
    Seq<char>,
    Seq<char>,
) {
    match status {
        Some(st) => if is_positive(st.succeeded) {
            ("exited"@, false, 0, text_or(st.start_time, seq![]), text_or(st.completion_time, seq![]))
        } else if is_positive(st.failed) {
            ("exited"@, false, 1, text_or(st.start_time, seq![]), text_or(st.completion_time, seq![]))
        } else if is_positive(st.active) {
            ("running"@, true, 0, text_or(st.start_time, seq![]), seq![])
        } else {
            ("created"@, false, 0, seq![], seq![])
        },
        None => ("created"@, false, 0, seq![], seq![]),
    }
}

/// The arguments of the Job's first container, if it has any.
pub open spec fn inspect_args(job: JobSnapshot) -> Seq<String> {
    match job.first_container {
        Some(c) => match c.args {
            Some(a) => a@,
            None => seq![],
        },
        None => seq![],
    }
}

/// The image of the Job's first container, or `unknown`.
pub open spec fn inspect_image(job: JobSnapshot) -> Seq<char> {
    match job.first_container {
        Some(c) => text_or(c.image, "unknown"@),
        None => "unknown"@,
    }
}

/// `NAME=VALUE` for each environment entry that has a value, in order.
pub open spec fn env_texts(entries: Seq<EnvEntry>) -> Seq<Seq<char>>
    decreases entries.len(),
{
    if entries.len() == 0 {
        seq![]
    } else {
        let rest = env_texts(entries.drop_last());
        match entries.last().value {
            Some(v) => rest.push(entries.last().name@ + "="@ + v@),
            None => rest,
        }
    }
}

/// The environment of the Job's first container, as Docker shows it.
pub open spec fn inspect_env(job: JobSnapshot) -> Seq<Seq<char>> {
    match job.first_container {
        Some(c) => match c.env {
            Some(e) => env_texts(e@),
            None => seq![],
        },
        None => seq![],
    }
}

/// The Job's labels, or none.
pub open spec fn inspect_labels(job: JobSnapshot) -> Seq<(String, String)> {
    match job.labels {
        Some(l) => l@,
        None => seq![],
    }
}

/// The texts of a list of strings.
pub open spec fn strings_view(v: Seq<String>) -> Seq<Seq<char>> {
    v.map_values(|s: String| s@)
}

/// The exit code and whether the answer carries an error, for a wait on a
/// container whose Job has the given status.
pub open spec fn wait_outcome(status: Option<JobStatusSnapshot>) -> (i64, bool) {
    match status {
        Some(st) => if is_positive(st.succeeded) {
            (0, false)
        } else if is_positive(st.failed) {
            (1, true)
        } else {
            (0, false)
        },
        None => (0, false),
    }
}

fn copy_text(o: &Option<String>, default: &str) -> (s: String)
    ensures
        s@ == text_or(*o, default@),
{
    match o {
        Some(t) => t.clone(),
        None => owned(default),
    }
}

/// A copy of a list of strings.
pub fn copy_strings(v: &Vec<String>) -> (out: Vec<String>)
    ensures
        out@ == v@,
{
    let mut out: Vec<String> = Vec::new();
    let mut i: usize = 0;
    while i < v.len()
        invariant
            i <= v@.len(),
            out@ == v@.take(i as int),
        decreases v@.len() - i,
    {
        out.push(v[i].clone());
        i = i + 1;
        assert(out@ =~= v@.take(i as int));
    }
    assert(v@.take(i as int) =~= v@);
    out
}

/// A copy of a list of key/value pairs.
pub fn copy_pairs(v: &Vec<(String, String)>) -> (out: Vec<(String, String)>)
    ensures
        out@ == v@,
{
    let mut out: Vec<(String, String)> = Vec::new();
    let mut i: usize = 0;
    while i < v.len()
        invariant
            i <= v@.len(),
            out@ == v@.take(i as int),
        decreases v@.len() - i,
    {
        out.push((v[i].0.clone(), v[i].1.clone()));
        i = i + 1;
        assert(out@ =~= v@.take(i as int));
    }
    assert(v@.take(i as int) =~= v@);
    out
}

fn env_strings(entries: &Vec<EnvEntry>) -> (out: Vec<String>)
    ensures
        strings_view(out@) == env_texts(entries@),
{
    let mut out: Vec<String> = Vec::new();
    let mut i: usize = 0;
    while i < entries.len()
        invariant
            i <= entries@.len(),
            strings_view(out@) == env_texts(entries@.take(i as int)),
        decreases entries@.len() - i,
    {
        let ghost prev = out@;
        proof {
            assert(entries@.take(i + 1).drop_last() =~= entries@.take(i as int));
        }
        match &entries[i].value {
            Some(v) => {
                let mut text = entries[i].name.clone();
                text.append("=");
                text.append(v.as_str());
                out.push(text);
                assert(strings_view(out@) =~= strings_view(prev).push(out@.last()@));
            },
            None => {},
        }
        i = i + 1;
    }
    assert(entries@.take(i as int) =~= entries@);
    out
}

/// The Docker state of a container whose Job has the given status.
pub fn container_state(status: &Option<JobStatusSnapshot>) -> (state: ContainerState)
    ensures
        state.status@ == docker_state(*status).0,
        state.running == docker_state(*status).1,
        state.exit_code == docker_state(*status).2,
        state.started_at@ == docker_state(*status).3,
        state.finished_at@ == docker_state(*status).4,
        !state.paused && !state.restarting && !state.oom_killed && !state.dead,
        state.pid == 0,
        state.error@ == Seq::<char>::empty(),
{
    let (status_word, running, exit_code, started_at, finished_at) = match status {
        Some(st) => {
            let succeeded = match st.succeeded {
                Some(n) => n > 0,
                None => false,
            };
            let failed = match st.failed {
                Some(n) => n > 0,
                None => false,
            };
            let active = match st.active {
                Some(n) => n > 0,
                None => false,
            };
            if succeeded {
                (
                    owned("exited"),
                    false,
                    0i32,
                    copy_text(&st.start_time, ""),
                    copy_text(&st.completion_time, ""),
                )
            } else if failed {
                (
                    owned("exited"),
                    false,
                    1i32,
                    copy_text(&st.start_time, ""),
                    copy_text(&st.completion_time, ""),
                )
            } else if active {
                (owned("running"), true, 0i32, copy_text(&st.start_time, ""), String::new())
            } else {
                (owned("created"), false, 0i32, String::new(), String::new())
            }
        },
        None => (owned("created"), false, 0i32, String::new(), String::new()),
    };
    proof {
        reveal_strlit("");
        assert(""@ =~= Seq::<char>::empty());
    }
    ContainerState {
        status: status_word,
        running,
        paused: false,
        restarting: false,
        oom_killed: false,
        dead: false,
        pid: 0,
        exit_code,
        error: String::new(),
        started_at,
        finished_at,
    }
}

/// The answer to inspecting a container, given its Job.
pub fn handle_inspect(container_id: String, job: &JobSnapshot) -> (reply: JsonReply<
    ContainerInspectResponse,
>)
    ensures
        reply.status == 200,
        reply.value.id == container_id,
        reply.value.created@ == text_or(job.creation_timestamp, "unknown"@),
        reply.value.name@ == "/"@ + text_or(job.name, "unknown"@),
        reply.value.image@ == inspect_image(*job),
        reply.value.args@ == inspect_args(*job),
        reply.value.path@ == (if inspect_args(*job).len() > 0 {
            inspect_args(*job)[0]@
        } else {
            Seq::<char>::empty()
        }),
        reply.value.config.image@ == inspect_image(*job),
        reply.value.config.cmd@ == inspect_args(*job),
        strings_view(reply.value.config.env@) == inspect_env(*job),
        reply.value.config.labels@ == inspect_labels(*job),
        reply.value.state.status@ == docker_state(job.status).0,
        reply.value.state.running == docker_state(job.status).1,
        reply.value.state.exit_code == docker_state(job.status).2,
        reply.value.state.started_at@ == docker_state(job.status).3,
        reply.value.state.finished_at@ == docker_state(job.status).4,
        !reply.value.state.paused && !reply.value.state.restarting && !reply.value.state.oom_killed
            && !reply.value.state.dead,
        reply.value.state.pid == 0,
        reply.value.state.error@ == Seq::<char>::empty(),
{
    let job_name = copy_text(&job.name, "unknown");
    let created = copy_text(&job.creation_timestamp, "unknown");
    let (image, cmd, env) = match &job.first_container {
        Some(c) => {
            let image = copy_text(&c.image, "unknown");
            let cmd = match &c.args {
                Some(a) => copy_strings(a),
                None => Vec::new(),
            };
            let env = match &c.env {
                Some(e) => env_strings(e),
                None => Vec::new(),
            };
            (image, cmd, env)
        },
        None => (owned("unknown"), Vec::new(), Vec::new()),
    };
    proof {
        assert(strings_view(Seq::<String>::empty()) =~= Seq::<Seq<char>>::empty());
    }
    let state = container_state(&job.status);
    let labels = match &job.labels {
        Some(l) => copy_pairs(l),
        None => Vec::new(),
    };
    let path = if cmd.len() > 0 {
        cmd[0].clone()
    } else {
        String::new()
    };
    let mut name = owned("/");
    name.append(job_name.as_str());
    let args = copy_strings(&cmd);
    let config = ContainerConfig { image: image.clone(), cmd, env, labels };
    JsonReply {
        status: 200,
        value: ContainerInspectResponse {
            id: container_id,
            created,
            path,
            args,
            state,
            image,
            name,
            config,
        },
    }
}

/// The Job has finished: it succeeded or it failed.
pub open spec fn job_finished(status: Option<JobStatusSnapshot>) -> bool {
    match status {
        Some(st) => is_positive(st.succeeded) || is_positive(st.failed),
        None => false,
    }
}

/// How long to wait before looking at an unfinished Job again, in
/// milliseconds.
pub open spec fn wait_poll_ms() -> u64 {
    1000
}

/// What a wait for a container does after looking at its Job.
#[derive(Debug, Clone, PartialEq, Eq)]
pub enum WaitStep {
    /// The Job has finished: answer with this.
    Answer(JsonReply<ContainerWaitResponse>),
    /// The Job has not finished: look at it again after this many
    /// milliseconds.
    AskAgainAfter(u64),
}

/// The next step of waiting for a container, given its Job as it is now:
/// once the Job has finished, the answer (exit code 0, or 1 with the error
/// `Job failed` when the Job failed); until then, to look again.
pub fn handle_wait(job: &JobSnapshot) -> (step: WaitStep)
    ensures
        job_finished(job.status) ==> (step matches WaitStep::Answer(reply) && reply.status == 200
            && reply.value.status_code == wait_outcome(job.status).0 && (reply.value.error is Some
            == wait_outcome(job.status).1) && (reply.value.error matches Some(d) ==> d.message@
            == "Job failed"@)),
        !job_finished(job.status) ==> step == WaitStep::AskAgainAfter(wait_poll_ms()),
{
    match &job.status {
        Some(st) => {
            let succeeded = match st.succeeded {
                Some(n) => n > 0,
                None => false,
            };
            let failed = match st.failed {
                Some(n) => n > 0,
                None => false,
            };
            if succeeded {
                WaitStep::Answer(
                    JsonReply { status: 200, value: ContainerWaitResponse { status_code: 0, error: None } },
                )
            } else if failed {
                WaitStep::Answer(
                    JsonReply {
                        status: 200,
                        value: ContainerWaitResponse {
                            status_code: 1,
                            error: Some(ErrorDetail { message: owned("Job failed") }),
                        },
                    },
                )
            } else {
                WaitStep::AskAgainAfter(1000)
            }
        },
        None => WaitStep::AskAgainAfter(1000),
    }
}

/// The Job configuration for a container create request: the request's
/// image, environment, command, entrypoint, working directory and labels,
/// under the given container id.
pub fn plan_create(request: ContainerCreateRequest, container_id: String) -> (r: Result<
    JobConfig,
    Error,
>)
    ensures
        r matches Ok(c) && c.container_id == container_id && c.image == request.image && c.env
            == request.env && c.cmd == request.cmd && c.entrypoint == request.entrypoint
            && c.working_dir == request.working_dir && c.labels == request.labels,
{
    let mut builder = JobConfigBuilder::default().container_id(container_id).image(
        request.image,
    ).env(request.env).labels(request.labels);
    if let Some(cmd) = request.cmd {
        builder = builder.cmd(Some(cmd));
    }
    if let Some(entrypoint) = request.entrypoint {
        builder = builder.entrypoint(Some(entrypoint));
    }
    if let Some(working_dir) = request.working_dir {
        builder = builder.working_dir(Some(working_dir));
    }
    match builder.build() {
        Ok(config) => Ok(config),
        Err(e) => {
            let mut m = owned("Failed to build job config: ");
            m.append(e.message().as_str());
            Err(Error::Internal(m))
        },
    }
}

/// The answer to a successful container create: 201 with the new id.
pub fn handle_create(container_id: String) -> (reply: JsonReply<ContainerCreateResponse>)
    ensures
        reply.status == 201,
        reply.value.id == container_id,
        reply.value.warnings@.len() == 0,
{
    JsonReply { status: 201, value: ContainerCreateResponse { id: container_id, warnings: Vec::new() } }
}

/// The answer with no content that a start, stop or delete gives.
pub fn no_content() -> (reply: Reply)
    ensures
        reply.status == 204,
        reply.content_type is None,
        reply.body@.len() == 0,
{
    Reply { status: 204, content_type: None, body: Vec::new() }
}

/// The answer to starting a container: Jobs start by themselves, so there is
/// nothing to do.
pub fn handle_start(container_id: String) -> (reply: Reply)
    ensures
        reply.status == 204,
        reply.content_type is None,
        reply.body@.len() == 0,
{
    no_content()
}

/// An error answer with the given status and message.
pub fn error_response(status: u16, message: &str) -> (reply: JsonReply<ErrorResponse>)
    ensures
        reply.status == status,
        reply.value.message@ == message@,
{
    JsonReply { status, value: ErrorResponse { message: owned(message) } }
}

} // verus!
