use socket_swap::config::Config;

fn vars(pairs: &[(&str, &str)]) -> Vec<(String, String)> {
    pairs.iter().map(|(k, v)| (k.to_string(), v.to_string())).collect()
}

#[test]
fn defaults_without_variables() {
    let c = Config::from_vars(&vec![]);
    assert_eq!(c.socket_path, "/var/run/docker.sock");
    assert_eq!(c.tcp_addr, None);
    assert_eq!(c.namespace, "default");
    assert_eq!(c.ttl_seconds_after_finished, 0);
    assert_eq!(c.active_deadline_seconds, 3600);
    assert_eq!(c.default_cpu_limit, "500m");
    assert_eq!(c.default_memory_limit, "512Mi");
    assert_eq!(c.default_cpu_request, "100m");
    assert_eq!(c.default_memory_request, "128Mi");
}

#[test]
fn variables_override_defaults() {
    let c = Config::from_vars(&vars(&[
        ("DOCKER_SOCKET_PATH", "/tmp/d.sock"),
        ("DOCKER_TCP_ADDR", "0.0.0.0:2375"),
        ("KUBE_NAMESPACE", "jobs"),
        ("JOB_TTL_SECONDS", "600"),
        ("JOB_ACTIVE_DEADLINE_SECONDS", "-5"),
        ("DEFAULT_CPU_LIMIT", "1"),
        ("DEFAULT_MEMORY_LIMIT", "1Gi"),
        ("DEFAULT_CPU_REQUEST", "250m"),
        ("DEFAULT_MEMORY_REQUEST", "256Mi"),
    ]));
    assert_eq!(c.socket_path, "/tmp/d.sock");
    assert_eq!(c.tcp_addr, Some("0.0.0.0:2375".to_string()));
    assert_eq!(c.namespace, "jobs");
    assert_eq!(c.ttl_seconds_after_finished, 600);
    assert_eq!(c.active_deadline_seconds, -5);
    assert_eq!(c.default_cpu_limit, "1");
    assert_eq!(c.default_memory_limit, "1Gi");
    assert_eq!(c.default_cpu_request, "250m");
    assert_eq!(c.default_memory_request, "256Mi");
}

#[test]
fn bad_numbers_fall_back() {
    let c = Config::from_vars(&vars(&[
        ("JOB_TTL_SECONDS", "3000000000"),
        ("JOB_ACTIVE_DEADLINE_SECONDS", "soon"),
    ]));
    assert_eq!(c.ttl_seconds_after_finished, 0);
    assert_eq!(c.active_deadline_seconds, 3600);
}

#[test]
fn later_variable_wins() {
    let c = Config::from_vars(&vars(&[("KUBE_NAMESPACE", "a"), ("KUBE_NAMESPACE", "b")]));
    assert_eq!(c.namespace, "b");
}
