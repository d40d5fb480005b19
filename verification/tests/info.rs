use socket_swap::info::{
    handle_image_create, handle_image_inspect, handle_ping, handle_version,
    handle_volume_inspect,
};

#[test]
fn test_handle_ping() {
    let response = handle_ping();
    assert_eq!(response.status, 200);
    assert_eq!(response.body, b"OK".to_vec());
    assert_eq!(response.content_type, Some("text/plain".to_string()));
}

#[test]
fn test_handle_version() {
    let response = handle_version("0.1.0", "linux", "x86_64");
    assert_eq!(response.status, 200);
    let version = response.value;
    assert_eq!(version.api_version, "1.41");
    assert!(version.version.contains("socket-swap"));
    assert_eq!(version.version, "socket-swap 0.1.0");
    assert_eq!(version.os, "linux");
    assert_eq!(version.arch, "x86_64");
    assert_eq!(version.go_version, "go1.19");
    assert_eq!(version.build_time, "2024-01-01T00:00:00.000000000+00:00");
}

#[test]
fn test_handle_image_create() {
    let response = handle_image_create();
    assert_eq!(response.status, 200);
    let json: serde_json::Value = serde_json::from_slice(&response.body).unwrap();
    assert_eq!(json["status"], "Image is up to date");
    assert_eq!(response.content_type, Some("application/json".to_string()));
}

#[test]
fn test_handle_image_inspect() {
    let image_name = "busybox:latest";
    let response = handle_image_inspect(image_name.to_string());
    assert_eq!(response.status, 200);
    assert_eq!(response.value.repo_tags[0], image_name);
    assert!(response.value.id.starts_with("sha256:"));
    assert_eq!(response.value.id, "sha256:busybox:latest");
}

#[test]
fn test_handle_volume_inspect() {
    let volume_name = "test-volume";
    let response = handle_volume_inspect(volume_name.to_string());
    assert_eq!(response.status, 200);
    assert_eq!(response.value.name, volume_name);
    assert_eq!(response.value.driver, "local");
    assert!(response.value.mountpoint.contains(volume_name));
    assert_eq!(response.value.mountpoint, "/var/lib/docker/volumes/test-volume/_data");
    assert_eq!(response.value.scope, "local");
}
