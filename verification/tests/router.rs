use socket_swap::router::{extract_container_id, parse_tail_param, route_request, Route};

#[test]
fn info_routes() {
    assert_eq!(route_request("GET", "/_ping", ""), Route::Ping);
    assert_eq!(route_request("GET", "/v1.41/_ping", ""), Route::Ping);
    assert_eq!(route_request("GET", "/v1.40/version", ""), Route::Version);
    assert_eq!(route_request("GET", "/v1.39/version", ""), Route::Version);
    assert_eq!(route_request("POST", "/v1.41/containers/create", "name=x"), Route::Create);
}

#[test]
fn container_routes() {
    assert_eq!(
        route_request("POST", "/v1.41/containers/abc/start", ""),
        Route::Start("abc".to_string())
    );
    assert_eq!(route_request("POST", "/containers/abc/stop", "t=5"), Route::Stop("abc".to_string()));
    assert_eq!(route_request("DELETE", "/containers/abc", "force=1"), Route::Delete("abc".to_string()));
    assert_eq!(route_request("GET", "/containers/abc/json", ""), Route::Inspect("abc".to_string()));
    assert_eq!(route_request("POST", "/containers/abc/wait", ""), Route::Wait("abc".to_string()));
}

#[test]
fn logs_route_reads_query() {
    assert_eq!(
        route_request("GET", "/v1.41/containers/abc/logs", "stdout=1&follow=1&tail=10"),
        Route::Logs { container_id: "abc".to_string(), follow: true, tail: Some(10) }
    );
    assert_eq!(
        route_request("GET", "/containers/abc/logs", "tail=all&follow=false"),
        Route::Logs { container_id: "abc".to_string(), follow: false, tail: None }
    );
    assert_eq!(
        route_request("GET", "/containers/abc/logs", "follow=true"),
        Route::Logs { container_id: "abc".to_string(), follow: true, tail: None }
    );
}

#[test]
fn image_and_volume_routes() {
    assert_eq!(route_request("POST", "/v1.41/images/create", "fromImage=busybox"), Route::ImageCreate);
    assert_eq!(
        route_request("GET", "/v1.41/images/busybox:latest/json", ""),
        Route::ImageInspect("busybox:latest".to_string())
    );
    assert_eq!(
        route_request("GET", "/images/library/busybox:latest/json", ""),
        Route::ImageInspect("library/busybox:latest".to_string())
    );
    assert_eq!(
        route_request("GET", "/images/ghcr.io/org/app:1/json", ""),
        Route::ImageInspect("ghcr.io/org/app:1".to_string())
    );
    assert_eq!(route_request("GET", "/volumes/data", ""), Route::VolumeInspect("data".to_string()));
}

#[test]
fn malformed_image_and_volume_paths_are_not_served() {
    for path in ["/images/json", "/v1.41/images/json", "/images//json", "/images/a//json", "/images//a/json", "/volumes/", "/volumes/a/b"] {
        assert_eq!(
            route_request("GET", path, ""),
            Route::NotImplemented(format!(
                "Endpoint not implemented: GET {}",
                path.trim_start_matches("/v1.41")
            ))
        );
    }
}

#[test]
fn unknown_routes() {
    assert_eq!(
        route_request("GET", "/v1.41/info", ""),
        Route::NotImplemented("Endpoint not implemented: GET /info".to_string())
    );
    assert_eq!(
        route_request("PUT", "/containers/abc/start", ""),
        Route::NotImplemented("Endpoint not implemented: PUT /containers/abc/start".to_string())
    );
    assert_eq!(
        route_request("get", "/_ping", ""),
        Route::NotImplemented("Endpoint not implemented: get /_ping".to_string())
    );
}

#[test]
fn route_order_prefers_earlier_rules() {
    // POST /containers/{id}/json is not a start, stop or wait: not implemented
    assert!(matches!(route_request("POST", "/containers/a/json", ""), Route::NotImplemented(_)));
    // DELETE takes everything after the prefix
    assert_eq!(
        route_request("DELETE", "/containers/a/json", ""),
        Route::Delete("a/json".to_string())
    );
}

#[test]
fn container_ids_trim_repeated_affixes() {
    assert_eq!(extract_container_id("/containers/abc/start", "/start"), "abc");
    assert_eq!(extract_container_id("/containers//containers/abc/start/start", "/start"), "abc");
    assert_eq!(extract_container_id("/other/abc", "/start"), "/other/abc");
    assert_eq!(extract_container_id("/containers/abc", ""), "abc");
    assert_eq!(extract_container_id("/containers/é/json", "/json"), "é");
}

#[test]
fn tail_parameter() {
    assert_eq!(parse_tail_param("tail=5"), Some(5));
    assert_eq!(parse_tail_param("follow=1&tail=+7"), Some(7));
    assert_eq!(parse_tail_param("tail=-3"), Some(-3));
    assert_eq!(parse_tail_param("tail=x&tail=4"), Some(4));
    assert_eq!(parse_tail_param("tail=all"), None);
    assert_eq!(parse_tail_param("tail="), None);
    assert_eq!(parse_tail_param("tail=-"), None);
    assert_eq!(parse_tail_param(""), None);
    assert_eq!(parse_tail_param("xtail=5"), None);
    assert_eq!(parse_tail_param("tail=9223372036854775807"), Some(i64::MAX));
    assert_eq!(parse_tail_param("tail=-9223372036854775808"), Some(i64::MIN));
    assert_eq!(parse_tail_param("tail=9223372036854775808"), None);
    assert_eq!(parse_tail_param("tail=99999999999999999999999&tail=1"), Some(1));
}

#[test]
fn container_path_round_trip() {
    for id in ["abc", "0123456789ab", "x.y-z"] {
        for (method, suffix) in [("POST", "/start"), ("POST", "/stop"), ("GET", "/json"), ("POST", "/wait")] {
            let path = format!("/v1.41/containers/{}{}", id, suffix);
            let expected = match suffix {
                "/start" => Route::Start(id.to_string()),
                "/stop" => Route::Stop(id.to_string()),
                "/json" => Route::Inspect(id.to_string()),
                _ => Route::Wait(id.to_string()),
            };
            assert_eq!(route_request(method, &path, ""), expected);
            assert_eq!(extract_container_id(&format!("/containers/{}{}", id, suffix), suffix), id);
        }
    }
}
