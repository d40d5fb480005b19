//! The endpoints that answer without asking Kubernetes anything.

use vstd::prelude::*;
use vstd::utf8::*;
use vstd::string::*;
use crate::text::{owned, push_all};
use crate::types::{ImageInspect, JsonReply, Reply, VersionResponse, VolumeInspect};

verus! {

fn literal_bytes(s: &str) -> (b: Vec<u8>)
    ensures
        b@ == encode_utf8(s@),
{
    let mut b: Vec<u8> = Vec::new();
    push_all(&mut b, s.as_bytes());
    b
}

/// The answer to `GET /_ping`: `OK` as plain text.
pub fn handle_ping() -> (reply: Reply)
    ensures
        reply.status == 200,
        reply.content_type matches Some(t) && t@ == "text/plain"@,
        reply.body@ == seq![79u8, 75u8],
{
    let body = literal_bytes("OK");
    proof {
        reveal_strlit("OK");
        crate::text::lemma_encode_ascii("OK"@);
        assert(body@ =~= seq![79u8, 75u8]);
    }
    Reply { status: 200, content_type: Some(owned("text/plain")), body }
}

/// The answer to `GET /version`; the shim reports Docker API version 1.41.
/// `package_version`, `os` and `arch` are those of the running program.
pub fn handle_version(package_version: &str, os: &str, arch: &str) -> (reply: JsonReply<
    VersionResponse,
>)
    ensures
        reply.status == 200,
        reply.value.version@ == "socket-swap "@ + package_version@,
        reply.value.api_version@ == "1.41"@,
        reply.value.git_commit@ == "unknown"@,
        reply.value.go_version@ == "go1.19"@,
        reply.value.os@ == os@,
        reply.value.arch@ == arch@,
        reply.value.kernel_version@ == "unknown"@,
        reply.value.build_time@ == "2024-01-01T00:00:00.000000000+00:00"@,
{
    let mut version = owned("socket-swap ");
    version.append(package_version);
    JsonReply {
        status: 200,
        value: VersionResponse {
            version,
            api_version: owned("1.41"),
            git_commit: owned("unknown"),
            go_version: owned("go1.19"),
            os: owned(os),
            arch: owned(arch),
            kernel_version: owned("unknown"),
            build_time: owned("2024-01-01T00:00:00.000000000+00:00"),
        },
    }
}

/// The answer to `POST /images/create`: images are pulled by Kubernetes when
/// a Job starts, so the pull is reported done.
pub fn handle_image_create() -> (reply: Reply)
    ensures
        reply.status == 200,
        reply.content_type matches Some(t) && t@ == "application/json"@,
        reply.body@ == encode_utf8("{\"status\":\"Image is up to date\"}"@),
{
    Reply {
        status: 200,
        content_type: Some(owned("application/json")),
        body: literal_bytes("{\"status\":\"Image is up to date\"}"),
    }
}

/// The answer to `GET /images/{name}/json`: the image is reported present,
/// with an id made from its name.
pub fn handle_image_inspect(image_name: String) -> (reply: JsonReply<ImageInspect>)
    ensures
        reply.status == 200,
        reply.value.id@ == "sha256:"@ + image_name@,
        reply.value.repo_tags@ == seq![image_name],
{
    let mut id = owned("sha256:");
    id.append(image_name.as_str());
    let mut repo_tags: Vec<String> = Vec::new();
    repo_tags.push(image_name);
    assert(repo_tags@ =~= seq![image_name]);
    JsonReply { status: 200, value: ImageInspect { id, repo_tags } }
}

/// The answer to `GET /volumes/{name}`: the volume is reported as a local one.
pub fn handle_volume_inspect(name: String) -> (reply: JsonReply<VolumeInspect>)
    ensures
        reply.status == 200,
        reply.value.name == name,
        reply.value.driver@ == "local"@,
        reply.value.mountpoint@ == "/var/lib/docker/volumes/"@ + name@ + "/_data"@,
        reply.value.scope@ == "local"@,
{
    let mut mountpoint = owned("/var/lib/docker/volumes/");
    mountpoint.append(name.as_str());
    mountpoint.append("/_data");
    JsonReply {
        status: 200,
        value: VolumeInspect {
            name,
            driver: owned("local"),
            mountpoint,
            scope: owned("local"),
        },
    }
}

} // verus!
