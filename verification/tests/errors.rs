use socket_swap::error::{container_not_found, Error};
use socket_swap::pods::{job_name_of, managed_jobs_selector, pod_name_of, pod_selector, select_pod};
use socket_swap::snapshot::{JobSnapshot, PodSnapshot};

#[test]
fn error_messages() {
    let cases = [
        (Error::Io("e".to_string()), "IO error: e"),
        (Error::Kube("e".to_string()), "Kubernetes error: e"),
        (Error::Hyper("e".to_string()), "Hyper error: e"),
        (Error::Json("e".to_string()), "JSON error: e"),
        (Error::NotFound("e".to_string()), "Not found: e"),
        (Error::BadRequest("e".to_string()), "Bad request: e"),
        (Error::Internal("e".to_string()), "Internal error: e"),
    ];
    for (e, text) in cases {
        assert_eq!(e.message(), text);
    }
}

#[test]
fn missing_container() {
    let e = container_not_found("abc");
    assert_eq!(e, Error::NotFound("Container abc not found".to_string()));
    assert_eq!(e.message(), "Not found: Container abc not found");
}

#[test]
fn pod_lookup() {
    let job = JobSnapshot {
        name: Some("ss-abc".to_string()),
        creation_timestamp: None,
        labels: None,
        first_container: None,
        status: None,
    };
    let name = job_name_of(&job).unwrap();
    assert_eq!(pod_selector(&name), "job-name=ss-abc");
    assert_eq!(managed_jobs_selector(), "socket-shim=true");
    assert_eq!(
        job_name_of(&JobSnapshot { name: None, ..job }),
        Err(Error::Internal("Job has no name".to_string()))
    );
    let pods = vec![PodSnapshot { name: Some("p1".to_string()) }, PodSnapshot { name: None }];
    let pod = select_pod(&name, pods).unwrap();
    assert_eq!(pod_name_of(&pod), Ok("p1".to_string()));
    assert_eq!(
        select_pod(&name, vec![]),
        Err(Error::NotFound("No pod found for job ss-abc".to_string()))
    );
    assert_eq!(
        pod_name_of(&PodSnapshot { name: None }),
        Err(Error::Internal("Pod has no name".to_string()))
    );
}

#[test]
fn missing_pod() {
    assert_eq!(
        socket_swap::error::pod_not_found("p1"),
        Error::NotFound("Pod p1 not found".to_string())
    );
}
