use socket_swap::containers::{
    error_response, handle_create, handle_inspect, handle_start, handle_wait, no_content,
    plan_create, WaitStep,
};
use socket_swap::snapshot::{ContainerSnapshot, EnvEntry, JobSnapshot, JobStatusSnapshot};
use socket_swap::types::{ContainerCreateRequest, ContainerWaitResponse, ErrorDetail};

#[test]
fn test_handle_start_no_op() {
    let response = handle_start("test-id".to_string());
    assert_eq!(response.status, 204);
}

#[test]
fn test_error_response() {
    let response = error_response(400, "test error");
    assert_eq!(response.status, 400);
    assert_eq!(response.value.message, "test error");
}

#[test]
fn no_content_is_empty() {
    let reply = no_content();
    assert_eq!(reply.status, 204);
    assert_eq!(reply.content_type, None);
    assert!(reply.body.is_empty());
}

fn status(active: Option<i32>, succeeded: Option<i32>, failed: Option<i32>) -> JobStatusSnapshot {
    JobStatusSnapshot {
        active,
        succeeded,
        failed,
        start_time: Some("2024-05-01 10:00:00 UTC".to_string()),
        completion_time: Some("2024-05-01 10:05:00 UTC".to_string()),
    }
}

fn job(st: Option<JobStatusSnapshot>) -> JobSnapshot {
    JobSnapshot {
        name: Some("ss-abc".to_string()),
        creation_timestamp: Some("2024-05-01 09:59:00 UTC".to_string()),
        labels: Some(vec![("container-id".to_string(), "abc".to_string())]),
        first_container: Some(ContainerSnapshot {
            image: Some("busybox".to_string()),
            args: Some(vec!["echo".to_string(), "hi".to_string()]),
            env: Some(vec![
                EnvEntry { name: "A".to_string(), value: Some("1".to_string()) },
                EnvEntry { name: "B".to_string(), value: None },
            ]),
        }),
        status: st,
    }
}

#[test]
fn inspect_of_succeeded_job() {
    let reply = handle_inspect("abc".to_string(), &job(Some(status(None, Some(1), None))));
    assert_eq!(reply.status, 200);
    let v = reply.value;
    assert_eq!(v.id, "abc");
    assert_eq!(v.name, "/ss-abc");
    assert_eq!(v.created, "2024-05-01 09:59:00 UTC");
    assert_eq!(v.path, "echo");
    assert_eq!(v.args, vec!["echo".to_string(), "hi".to_string()]);
    assert_eq!(v.image, "busybox");
    assert_eq!(v.config.image, "busybox");
    assert_eq!(v.config.cmd, v.args);
    assert_eq!(v.config.env, vec!["A=1".to_string()]);
    assert_eq!(v.config.labels, vec![("container-id".to_string(), "abc".to_string())]);
    assert_eq!(v.state.status, "exited");
    assert!(!v.state.running);
    assert_eq!(v.state.exit_code, 0);
    assert_eq!(v.state.started_at, "2024-05-01 10:00:00 UTC");
    assert_eq!(v.state.finished_at, "2024-05-01 10:05:00 UTC");
    assert_eq!(v.state.pid, 0);
    assert_eq!(v.state.error, "");
}

#[test]
fn inspect_of_failed_running_and_new_jobs() {
    let failed = handle_inspect("x".to_string(), &job(Some(status(None, Some(0), Some(2))))).value;
    assert_eq!((failed.state.status.as_str(), failed.state.exit_code), ("exited", 1));
    let running = handle_inspect("x".to_string(), &job(Some(status(Some(1), None, None)))).value;
    assert_eq!(running.state.status, "running");
    assert!(running.state.running);
    assert_eq!(running.state.finished_at, "");
    let pending = handle_inspect("x".to_string(), &job(Some(status(Some(0), None, None)))).value;
    assert_eq!(pending.state.status, "created");
    assert_eq!(pending.state.started_at, "");
    let fresh = handle_inspect("x".to_string(), &job(None)).value;
    assert_eq!(fresh.state.status, "created");
}

#[test]
fn inspect_of_bare_job_uses_unknown() {
    let bare = JobSnapshot {
        name: None,
        creation_timestamp: None,
        labels: None,
        first_container: None,
        status: None,
    };
    let v = handle_inspect("id".to_string(), &bare).value;
    assert_eq!(v.name, "/unknown");
    assert_eq!(v.created, "unknown");
    assert_eq!(v.image, "unknown");
    assert_eq!(v.path, "");
    assert!(v.args.is_empty());
    assert!(v.config.env.is_empty());
    assert!(v.config.labels.is_empty());
}

fn answered(step: WaitStep) -> ContainerWaitResponse {
    match step {
        WaitStep::Answer(reply) => {
            assert_eq!(reply.status, 200);
            reply.value
        }
        WaitStep::AskAgainAfter(ms) => panic!("wait did not answer; asked again after {} ms", ms),
    }
}

#[test]
fn wait_reports_exit_codes_of_finished_jobs() {
    let ok = answered(handle_wait(&job(Some(status(None, Some(1), Some(1))))));
    assert_eq!((ok.status_code, ok.error), (0, None));
    let failed = answered(handle_wait(&job(Some(status(None, None, Some(1))))));
    assert_eq!(failed.status_code, 1);
    assert_eq!(failed.error, Some(ErrorDetail { message: "Job failed".to_string() }));
}

#[test]
fn wait_asks_again_until_the_job_finishes() {
    assert_eq!(handle_wait(&job(Some(status(Some(1), None, None)))), WaitStep::AskAgainAfter(1000));
    assert_eq!(handle_wait(&job(Some(status(None, Some(0), Some(0))))), WaitStep::AskAgainAfter(1000));
    assert_eq!(handle_wait(&job(None)), WaitStep::AskAgainAfter(1000));
}

#[test]
fn wait_agrees_with_inspect() {
    for st in [
        None,
        Some(status(None, Some(1), None)),
        Some(status(None, None, Some(1))),
        Some(status(Some(1), None, None)),
        Some(status(None, None, None)),
    ] {
        let j = job(st);
        let inspect = handle_inspect("x".to_string(), &j).value;
        match handle_wait(&j) {
            WaitStep::Answer(reply) => {
                assert_eq!(inspect.state.status, "exited");
                assert_eq!(reply.value.status_code, inspect.state.exit_code as i64);
                assert_eq!(reply.value.error.is_some(), inspect.state.exit_code == 1);
            }
            WaitStep::AskAgainAfter(_) => assert_ne!(inspect.state.status, "exited"),
        }
    }
}

#[test]
fn create_request_becomes_job_config() {
    let request = ContainerCreateRequest {
        image: "busybox".to_string(),
        env: vec!["A=1".to_string()],
        cmd: Some(vec!["echo".to_string()]),
        entrypoint: None,
        working_dir: Some("/w".to_string()),
        labels: vec![("k".to_string(), "v".to_string())],
        host_config: None,
    };
    let config = plan_create(request, "0123456789ab".to_string()).unwrap();
    assert_eq!(config.container_id, "0123456789ab");
    assert_eq!(config.image, "busybox");
    assert_eq!(config.env, vec!["A=1".to_string()]);
    assert_eq!(config.cmd, Some(vec!["echo".to_string()]));
    assert_eq!(config.entrypoint, None);
    assert_eq!(config.working_dir, Some("/w".to_string()));
    assert_eq!(config.labels, vec![("k".to_string(), "v".to_string())]);
    let reply = handle_create("0123456789ab".to_string());
    assert_eq!(reply.status, 201);
    assert_eq!(reply.value.id, "0123456789ab");
    assert!(reply.value.warnings.is_empty());
}
