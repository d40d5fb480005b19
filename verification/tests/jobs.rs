use socket_swap::jobs::{
    parse_env, parse_env_entry, EnvVar, JobConfigBuilder, JobConfigBuilderError, JobManager,
};
use socket_swap::containers::handle_inspect;
use socket_swap::snapshot::{ContainerSnapshot, EnvEntry, JobSnapshot};

fn mock_job_manager() -> JobManager {
    JobManager::new(
        "default".to_string(),
        300,
        3600,
        "500m".to_string(),
        "512Mi".to_string(),
        "100m".to_string(),
        "128Mi".to_string(),
    )
}

fn label<'a>(labels: &'a [(String, String)], key: &str) -> Option<&'a String> {
    labels.iter().rev().find(|(k, _)| k == key).map(|(_, v)| v)
}

#[test]
fn test_build_job_basic() {
    let manager = mock_job_manager();
    let container_id = "test-container";
    let image = "nginx:latest";
    let env = vec!["FOO=BAR".to_string(), "INVALID".to_string()];

    let config = JobConfigBuilder::default()
        .container_id(container_id.to_string())
        .image(image.to_string())
        .env(env)
        .build()
        .expect("Failed to build JobConfig");

    let job = manager.build_job(config);

    assert_eq!(job.name, "ss-test-container".to_string());
    assert_eq!(job.ttl_seconds_after_finished, 300);
    assert_eq!(job.backoff_limit, 0);
    assert_eq!(job.active_deadline_seconds, 3600);
    assert_eq!(job.restart_policy, "Never");

    let container = &job.container;
    assert_eq!(container.name, "task");
    assert_eq!(container.image, image.to_string());

    let env_vars = &container.env;
    assert_eq!(env_vars.len(), 1);
    assert_eq!(env_vars[0].name, "FOO");
    assert_eq!(env_vars[0].value, "BAR".to_string());

    assert_eq!(label(&job.labels, "socket-shim"), Some(&"true".to_string()));
    assert_eq!(label(&job.labels, "container-id"), Some(&container_id.to_string()));
    assert_eq!(container.cpu_limit, "500m");
    assert_eq!(container.memory_limit, "512Mi");
    assert_eq!(container.cpu_request, "100m");
    assert_eq!(container.memory_request, "128Mi");
}

#[test]
fn test_build_job_long_name() {
    let manager = mock_job_manager();
    let container_id = "tool-structure-0.0.96-1d4239-f56ff6d5-fbdd-46bb-ba40-62976b1c3a";

    let config = JobConfigBuilder::default()
        .container_id(container_id.to_string())
        .image("busybox".to_string())
        .build()
        .expect("Failed to build JobConfig for long name test");

    let job = manager.build_job(config);
    let job_name = job.name.clone();

    assert!(job_name.len() <= 63);
    assert!(job_name.starts_with("ss-tool-structure-0.0.96-1d4239-"));

    let label_id = label(&job.labels, "container-id")
        .expect("Job should have container-id label")
        .clone();
    assert!(label_id.len() <= 63);
}

#[test]
fn test_build_job_with_commands() {
    let manager = mock_job_manager();
    let cmd = vec!["arg1".to_string(), "arg2".to_string()];
    let entrypoint = vec!["/bin/sh".to_string(), "-c".to_string()];
    let working_dir = "/app".to_string();

    let config = JobConfigBuilder::default()
        .container_id("test".to_string())
        .image("image".to_string())
        .cmd(Some(cmd.clone()))
        .entrypoint(Some(entrypoint.clone()))
        .working_dir(Some(working_dir.clone()))
        .build()
        .expect("Failed to build JobConfig with commands");

    let job = manager.build_job(config);

    let container = &job.container;
    assert_eq!(container.args, Some(cmd));
    assert_eq!(container.command, Some(entrypoint));
    assert_eq!(container.working_dir, Some(working_dir));
}

#[test]
fn test_extract_container_id() {
    let manager = mock_job_manager();
    let labels = vec![("container-id".to_string(), "my-id".to_string())];

    let job = JobSnapshot {
        name: None,
        creation_timestamp: None,
        labels: Some(labels),
        first_container: None,
        status: None,
    };

    assert_eq!(manager.extract_container_id(&job), Some("my-id".to_string()));
}

#[test]
fn extract_container_id_without_label() {
    let manager = mock_job_manager();
    let job = JobSnapshot {
        name: None,
        creation_timestamp: None,
        labels: Some(vec![("other".to_string(), "x".to_string())]),
        first_container: None,
        status: None,
    };
    assert_eq!(manager.extract_container_id(&job), None);
    let bare = JobSnapshot { labels: None, ..job };
    assert_eq!(manager.extract_container_id(&bare), None);
}

#[test]
fn built_job_round_trips_container_id() {
    let manager = mock_job_manager();
    let config = JobConfigBuilder::default()
        .container_id("0123456789ab".to_string())
        .image("busybox".to_string())
        .build()
        .unwrap();
    let job = manager.build_job(config);
    let snapshot = JobSnapshot {
        name: Some(job.name.clone()),
        creation_timestamp: None,
        labels: Some(job.labels.clone()),
        first_container: None,
        status: None,
    };
    assert_eq!(manager.extract_container_id(&snapshot), Some("0123456789ab".to_string()));
}

#[test]
fn user_labels_are_merged_and_win() {
    let manager = mock_job_manager();
    let config = JobConfigBuilder::default()
        .container_id("abc".to_string())
        .image("busybox".to_string())
        .labels(vec![
            ("team".to_string(), "a".to_string()),
            ("socket-shim".to_string(), "false".to_string()),
            ("team".to_string(), "b".to_string()),
        ])
        .build()
        .unwrap();
    let job = manager.build_job(config);
    assert_eq!(job.labels.len(), 3);
    assert_eq!(label(&job.labels, "team"), Some(&"b".to_string()));
    assert_eq!(label(&job.labels, "socket-shim"), Some(&"false".to_string()));
    assert_eq!(label(&job.labels, "container-id"), Some(&"abc".to_string()));
    let keys: Vec<&String> = job.labels.iter().map(|(k, _)| k).collect();
    for (i, k) in keys.iter().enumerate() {
        assert!(!keys[i + 1..].contains(k));
    }
}

#[test]
fn long_id_label_is_cut_to_63_bytes() {
    let manager = mock_job_manager();
    let id = "c".repeat(70);
    let config = JobConfigBuilder::default()
        .container_id(id.clone())
        .image("busybox".to_string())
        .build()
        .unwrap();
    let job = manager.build_job(config);
    assert_eq!(label(&job.labels, "container-id"), Some(&"c".repeat(63)));
}

#[test]
fn label_cut_keeps_whole_characters() {
    let manager = mock_job_manager();
    let id = format!("{}é{}", "a".repeat(62), "z".repeat(5));
    let config = JobConfigBuilder::default()
        .container_id(id.clone())
        .image("busybox".to_string())
        .build()
        .unwrap();
    let job = manager.build_job(config);
    assert_eq!(label(&job.labels, "container-id"), Some(&"a".repeat(62)));
    assert!(job.name.len() <= 63);
    assert_eq!(job.name, manager.sanitize_name(&id));
}

#[test]
fn builder_reports_missing_fields() {
    let err = JobConfigBuilder::default().image("x".to_string()).build().unwrap_err();
    assert_eq!(err, JobConfigBuilderError::UninitializedField("container_id".to_string()));
    assert_eq!(err.message(), "`container_id` must be initialized");
    let err = JobConfigBuilder::default().container_id("x".to_string()).build().unwrap_err();
    assert_eq!(err, JobConfigBuilderError::UninitializedField("image".to_string()));
}

#[test]
fn builder_defaults() {
    let config = JobConfigBuilder::default()
        .container_id("id".to_string())
        .image("img".to_string())
        .build()
        .unwrap();
    assert!(config.env.is_empty());
    assert_eq!(config.cmd, None);
    assert_eq!(config.entrypoint, None);
    assert_eq!(config.working_dir, None);
    assert!(config.labels.is_empty());
}

#[test]
fn env_entries_split_at_first_equals() {
    assert_eq!(
        parse_env_entry("A=b=c"),
        Some(EnvVar { name: "A".to_string(), value: "b=c".to_string() })
    );
    assert_eq!(
        parse_env_entry("=v"),
        Some(EnvVar { name: "".to_string(), value: "v".to_string() })
    );
    assert_eq!(
        parse_env_entry("K="),
        Some(EnvVar { name: "K".to_string(), value: "".to_string() })
    );
    assert_eq!(parse_env_entry("NOEQ"), None);
    assert_eq!(
        parse_env_entry("é=ü"),
        Some(EnvVar { name: "é".to_string(), value: "ü".to_string() })
    );
    let vars = parse_env(&vec!["X=1".to_string(), "bad".to_string(), "Y=2".to_string()]);
    assert_eq!(vars.len(), 2);
    assert_eq!(vars[1].name, "Y");
}

#[test]
fn job_container_reports_logs_on_failure() {
    let config = JobConfigBuilder::default()
        .container_id("t".to_string())
        .image("busybox".to_string())
        .build()
        .unwrap();
    let job = mock_job_manager().build_job(config);
    assert_eq!(job.container.termination_message_policy, "FallbackToLogsOnError");
    assert_eq!(job.container.name, "task");
    assert_eq!(job.restart_policy, "Never");
    assert_eq!(job.backoff_limit, 0);
}

#[test]
fn inspect_shows_what_the_container_was_created_with() {
    let config = JobConfigBuilder::default()
        .container_id("abc123".to_string())
        .image("busybox".to_string())
        .env(vec!["A=1".to_string(), "B=x=y".to_string()])
        .cmd(Some(vec!["echo".to_string(), "hi".to_string()]))
        .labels(vec![("team".to_string(), "x".to_string())])
        .build()
        .unwrap();
    let manifest = mock_job_manager().build_job(config.clone());
    let snapshot = JobSnapshot {
        name: Some(manifest.name.clone()),
        creation_timestamp: None,
        labels: Some(manifest.labels.clone()),
        first_container: Some(ContainerSnapshot {
            image: Some(manifest.container.image.clone()),
            args: manifest.container.args.clone(),
            env: Some(
                manifest
                    .container
                    .env
                    .iter()
                    .map(|e| EnvEntry { name: e.name.clone(), value: Some(e.value.clone()) })
                    .collect(),
            ),
        }),
        status: None,
    };
    let v = handle_inspect("abc123".to_string(), &snapshot).value;
    assert_eq!(v.config.image, "busybox");
    assert_eq!(v.config.cmd, vec!["echo".to_string(), "hi".to_string()]);
    assert_eq!(v.args, v.config.cmd);
    assert_eq!(v.config.env, config.env);
    assert_eq!(v.name, "/ss-abc123");
    assert_eq!(v.state.status, "created");
    assert!(!v.state.running);
    let mut labels = v.config.labels.clone();
    labels.sort();
    assert_eq!(
        labels,
        vec![
            ("container-id".to_string(), "abc123".to_string()),
            ("socket-shim".to_string(), "true".to_string()),
            ("team".to_string(), "x".to_string()),
        ]
    );
}
