//! Properties that hold across the library's functions.

use vstd::prelude::*;
use vstd::utf8::*;
use vstd::string::*;
use crate::cleanup::{CLEANUP_INTERVAL_SECS, cleanup_action_of, marked_pending, CleanupAction};
use crate::containers::{
    docker_state, env_texts, is_positive, inspect_args, inspect_env, inspect_image, inspect_labels, job_finished,
    strings_view, text_or, wait_outcome, wait_poll_ms,
};
use crate::jobs::{
    base_labels, env_bytes, env_split, is_first_index, label_id_bytes, parsed_env, strings_bytes,
    JobConfig, JobManager, JobManifest,
};
use crate::labels::{label_map, labels_over, lemma_labels_over_suffix};
use crate::numbers::{all_digits, decimal_value, digits_value, is_digit, parse_i32_value, parse_i64_value};
use vstd::arithmetic::power::pow;
use crate::ids::{hex_run, uuid_container_id};
use crate::names::hex_digit;
use crate::config::{i32_setting, i64_setting, text_setting, var_value};
use crate::logs::{chunk_text, frames_of_lines, lines_from, strip_cr, text_lines};
use crate::multiplex::{StreamType, be32, be32_value, line_payload, log_frame};
use crate::names::{
    ascii_bytes, checksum_suffix, crc32_ieee, lemma_hex_lower_len, name_prefix, pow16,
    sanitized_name_bytes,
};
use crate::router::{
    contains, container_id_in, follow_of_query, ends_with, image_name_in, is_image_name, is_segment, route_kind,
    volume_name_in, starts_with, strip_version, tail_from, tail_of_query,
    tail_value, trim_end, trim_start, RouteKind,
};
use crate::snapshot::{EnvEntry, JobSnapshot, JobStatusSnapshot};
use crate::text::{
    boundary_at_most, lemma_boundary_at_most, lemma_boundary_at_most_ascii, lemma_encode_ascii,
    lemma_encode_utf8_concat,
};

verus! {

proof fn lemma_be32_value(n: u32)
    ensures
        be32(n).len() == 4,
        be32_value(be32(n)) == n,
{
    let b0 = (n >> 24u32) & 0xffu32;
    let b1 = (n >> 16u32) & 0xffu32;
    let b2 = (n >> 8u32) & 0xffu32;
    let b3 = n & 0xffu32;
    assert(b0 < 256 && b1 < 256 && b2 < 256 && b3 < 256) by (bit_vector)
        requires
            b0 == (n >> 24u32) & 0xffu32,
            b1 == (n >> 16u32) & 0xffu32,
            b2 == (n >> 8u32) & 0xffu32,
            b3 == n & 0xffu32,
    ;
    assert(b0 * 0x100_0000 + b1 * 0x1_0000 + b2 * 0x100 + b3 == n) by (bit_vector)
        requires
            b0 == (n >> 24u32) & 0xffu32,
            b1 == (n >> 16u32) & 0xffu32,
            b2 == (n >> 8u32) & 0xffu32,
            b3 == n & 0xffu32,
    ;
}

/// A frame is the stream's byte, three zero bytes, the payload's length as a
/// big-endian 32-bit number, then the payload itself.
pub proof fn law_frame_layout(stream: StreamType, data: Seq<u8>)
    requires
        data.len() < 0x1_0000_0000,
    ensures
        log_frame(stream, data).len() == data.len() + 8,
        log_frame(stream, data)[0] == stream.header_byte(),
        log_frame(stream, data)[1] == 0 && log_frame(stream, data)[2] == 0 && log_frame(
            stream,
            data,
        )[3] == 0,
        be32_value(log_frame(stream, data).subrange(4, 8)) == data.len(),
        log_frame(stream, data).skip(8) == data,
{
    let n = (data.len() as nat) as u32;
    lemma_be32_value(n);
    let f = log_frame(stream, data);
    assert(f.subrange(4, 8) =~= be32(n));
    assert(f.skip(8) =~= data);
}

/// The payload of a log line always ends with a newline, and a payload is
/// its own payload: the newline is added at most once.
pub proof fn law_line_payload_newline(line: Seq<u8>)
    ensures
        line_payload(line).len() > 0,
        line_payload(line).last() == 10u8,
        line_payload(line_payload(line)) == line_payload(line),
        line_payload(line) == line || line_payload(line) == line.push(10u8),
        line.len() > 0 && line.last() == 10u8 ==> line_payload(line) == line,
        !(line.len() > 0 && line.last() == 10u8) ==> line_payload(line) == line.push(10u8),
{
}

proof fn lemma_encode_last_byte(s: Seq<char>)
    requires
        s.len() > 0,
    ensures
        encode_utf8(s).len() > 0,
        encode_utf8(s).last() == 10u8 ==> s.last() == '\n',
        encode_utf8(s).last() == 13u8 ==> s.last() == '\r',
{
    let init = s.drop_last();
    let c = s.last();
    assert(init + seq![c] =~= s);
    lemma_encode_utf8_concat(init, seq![c]);
    reveal_with_fuel(encode_utf8, 2);
    assert(seq![c].drop_first() =~= Seq::<char>::empty());
    let v = c as u32;
    char_is_scalar(c);
    let e = encode_scalar(v);
    assert(encode_utf8(seq![c]) =~= e);
    if has_width_1_encoding(v) {
        assert((v & 0x7Fu32) as u8 == v as u8 && (v as u8) as u32 == v) by (bit_vector)
            requires
                v <= 0x7Fu32,
        ;
        char_u32_cast(c, v);
    } else {
        assert(0x80u8 | ((v & 0x3Fu32) as u8) >= 0x80u8) by (bit_vector);
    }
}

/// A log line that does not end with a newline is sent exactly as the same
/// line with a newline appended.
pub proof fn law_log_line_newline_optional(stream: StreamType, line: Seq<char>)
    requires
        line.len() == 0 || line.last() != '\n',
    ensures
        log_frame(stream, line_payload(encode_utf8(line))) == log_frame(
            stream,
            line_payload(encode_utf8(line + seq!['\n'])),
        ),
{
    lemma_encode_utf8_concat(line, seq!['\n']);
    crate::text::lemma_encode_ascii(seq!['\n']);
    assert(encode_utf8(seq!['\n']) =~= seq![10u8]);
    if line.len() > 0 {
        lemma_encode_last_byte(line);
    }
    assert(encode_utf8(line + seq!['\n']) =~= encode_utf8(line).push(10u8));
}

proof fn lemma_lines_from_newline_appended(b: Seq<u8>, start: int, i: int)
    requires
        0 <= start <= i <= b.len(),
        start < b.len(),
        b.last() != 10u8,
        b.last() != 13u8,
    ensures
        lines_from(b.push(10u8), start, i) == lines_from(b, start, i),
    decreases b.len() - i,
{
    let c = b.push(10u8);
    if i == b.len() {
        assert(c.subrange(start, i) =~= b.subrange(start, b.len() as int));
        assert(lines_from(c, i + 1, i + 1) == Seq::<Seq<u8>>::empty());
        assert(seq![strip_cr(c.subrange(start, i))] + Seq::<Seq<u8>>::empty() =~= seq![
            b.subrange(start, b.len() as int),
        ]);
    } else {
        assert(c[i] == b[i]);
        if b[i] == 10u8 {
            assert(i + 1 < b.len());
            lemma_lines_from_newline_appended(b, i + 1, i + 1);
            assert(c.subrange(start, i) =~= b.subrange(start, i));
        } else {
            lemma_lines_from_newline_appended(b, start, i + 1);
        }
    }
}

/// The final line ending of logs is optional: logs that end with neither a
/// newline nor a carriage return are sent exactly as the same logs with a
/// newline appended.
pub proof fn law_log_text_final_newline_optional(stream: StreamType, b: Seq<u8>)
    requires
        b.len() > 0,
        b.last() != 10u8,
        b.last() != 13u8,
    ensures
        frames_of_lines(stream, text_lines(b.push(10u8))) == frames_of_lines(stream, text_lines(b)),
{
    lemma_lines_from_newline_appended(b, 0, 0);
}

/// Every container id has a Job name, at most 63 bytes long and beginning
/// with `ss-`. The name of a short id is `ss-` and the id. That of a long
/// one is `ss-`, the id cut at a character boundary after at most 52 bytes, a
/// dash and at most seven checksum digits; for an ASCII id the cut is after
/// exactly 52 bytes, and with a checksum of seven or more digits the name is
/// 63 bytes long.
pub proof fn law_name_shape(id: Seq<char>)
    ensures
        ({
            let b = encode_utf8(id);
            let name = sanitized_name_bytes(b);
            let cut = boundary_at_most(b, 52);
            &&& name.len() <= 63
            &&& name.take(3) == name_prefix()
            &&& b.len() + 3 <= 63 ==> name == name_prefix() + b
            &&& b.len() + 3 > 63 ==> {
                &&& 0 <= cut <= 52
                &&& is_char_boundary(b, cut)
                &&& name.take(3 + cut) == name_prefix() + b.take(cut)
                &&& name[3 + cut] == 45u8
                &&& name.skip(4 + cut) == ascii_bytes(checksum_suffix(crc32_ieee(b)))
                &&& is_ascii_chars(id) ==> cut == 52
                &&& is_ascii_chars(id) && crc32_ieee(b) >= 0x100_0000 ==> name.len() == 63
            }
        }),
{
    let b = encode_utf8(id);
    let name = sanitized_name_bytes(b);
    encode_utf8_valid_utf8(id);
    if b.len() + 3 > 63 {
        let cut = boundary_at_most(b, 52);
        lemma_boundary_at_most(b, 52);
        let sfx = ascii_bytes(checksum_suffix(crc32_ieee(b)));
        assert(name =~= name_prefix() + b.take(cut) + seq![45u8] + sfx);
        assert(name.take(3 + cut) =~= name_prefix() + b.take(cut));
        assert(name.skip(4 + cut) =~= sfx);
        assert(name.take(3) =~= name_prefix());
        if is_ascii_chars(id) {
            is_ascii_chars_encode_utf8(id);
            assert forall|i: int| 0 <= i < b.len() implies b[i] < 0x80 by {
                lemma_encode_ascii(id);
            }
            lemma_boundary_at_most_ascii(b, 52);
            if crc32_ieee(b) >= 0x100_0000 {
                lemma_hex_lower_len(crc32_ieee(b) as nat, 6);
                reveal_with_fuel(pow16, 7);
            }
        }
    } else {
        assert((name_prefix() + b).take(3) =~= name_prefix());
    }
}

/// Distinct short container ids get distinct Job names.
pub proof fn law_short_names_distinct(a: Seq<u8>, b: Seq<u8>)
    requires
        a.len() + 3 <= 63,
        b.len() + 3 <= 63,
        a != b,
    ensures
        sanitized_name_bytes(a) != sanitized_name_bytes(b),
{
    if sanitized_name_bytes(a) == sanitized_name_bytes(b) {
        assert((name_prefix() + a).skip(3) =~= a);
        assert((name_prefix() + b).skip(3) =~= b);
    }
}

/// Two strings whose UTF-8 bytes are the Job name of the same id are the same
/// string: the name a Job is created under is the name it is looked up and
/// deleted under.
pub proof fn law_job_name_agrees(created: Seq<char>, looked_up: Seq<char>, id: Seq<u8>)
    requires
        encode_utf8(created) == sanitized_name_bytes(id),
        encode_utf8(looked_up) == sanitized_name_bytes(id),
    ensures
        created == looked_up,
{
    encode_utf8_decode_utf8(created);
    encode_utf8_decode_utf8(looked_up);
}

/// Unless the container's own labels set them, a Job is labelled
/// `socket-shim=true` and `container-id=<id>`; the label value is the id cut
/// to at most 63 bytes at a character boundary, so for an id of at most 63
/// bytes it gives the id back.
pub proof fn law_job_labels_round_trip(id: Seq<char>, user: Seq<(String, String)>)
    requires
        forall|i: int| 0 <= i < user.len() ==> user[i].0@ != "container-id"@ && user[i].0@
            != "socket-shim"@,
    ensures
        ({
            let m = labels_over(base_labels(decode_utf8(label_id_bytes(encode_utf8(id)))), user);
            &&& m.contains_key("socket-shim"@)
            &&& m["socket-shim"@] == "true"@
            &&& m.contains_key("container-id"@)
            &&& m["container-id"@] == decode_utf8(label_id_bytes(encode_utf8(id)))
            &&& encode_utf8(id).len() <= 63 ==> m["container-id"@] == id
            &&& label_id_bytes(encode_utf8(id)).len() <= 63
            &&& encode_utf8(id).take(label_id_bytes(encode_utf8(id)).len() as int)
                == label_id_bytes(encode_utf8(id))
        }),
{
    encode_utf8_valid_utf8(id);
    lemma_boundary_at_most(encode_utf8(id), 63);
    assert(encode_utf8(id).take(encode_utf8(id).len() as int) =~= encode_utf8(id));
    let base = base_labels(decode_utf8(label_id_bytes(encode_utf8(id))));
    lemma_labels_over_suffix(base, user, 0, "container-id"@);
    lemma_labels_over_suffix(base, user, 0, "socket-shim"@);
    assert(user.take(0) =~= Seq::<(String, String)>::empty());
    reveal_strlit("container-id");
    reveal_strlit("socket-shim");
    assert("container-id"@ != "socket-shim"@) by {
        assert("container-id"@.len() != "socket-shim"@.len());
    }
    encode_utf8_decode_utf8(id);
}

/// Waiting for a container answers exactly when inspecting it shows the
/// container exited, and then reports the exit code that inspecting shows,
/// with an error exactly when that code is 1.
pub proof fn law_wait_agrees_with_inspect(status: Option<JobStatusSnapshot>)
    ensures
        job_finished(status) <==> docker_state(status).0 == "exited"@,
        job_finished(status) ==> wait_outcome(status).0 == docker_state(status).2 as i64,
        job_finished(status) ==> (wait_outcome(status).1 <==> docker_state(status).2 == 1),
{
    reveal_strlit("exited");
    reveal_strlit("running");
    reveal_strlit("created");
    assert("exited"@ != "running"@) by {
        assert("exited"@.len() != "running"@.len());
    }
    assert("exited"@ != "created"@) by {
        assert("exited"@[0] != "created"@[0]);
    }
}

/// A request under an API version prefix is routed as the same request
/// without it.
pub proof fn law_version_prefix_stripped(method: Seq<char>, path: Seq<char>)
    requires
        !starts_with(path, "/v1.41"@),
        !starts_with(path, "/v1.40"@),
        !starts_with(path, "/v1.39"@),
    ensures
        strip_version(path) == path,
        strip_version("/v1.41"@ + path) == path,
        strip_version("/v1.40"@ + path) == path,
        strip_version("/v1.39"@ + path) == path,
        route_kind(method, strip_version("/v1.41"@ + path)) == route_kind(method, strip_version(path)),
        route_kind(method, strip_version("/v1.40"@ + path)) == route_kind(method, strip_version(path)),
        route_kind(method, strip_version("/v1.39"@ + path)) == route_kind(method, strip_version(path)),
{
    reveal_strlit("/v1.41");
    reveal_strlit("/v1.40");
    reveal_strlit("/v1.39");
    let v41 = "/v1.41"@;
    let v40 = "/v1.40"@;
    let v39 = "/v1.39"@;
    assert((v41 + path).take(6) =~= v41);
    assert((v41 + path).skip(6) =~= path);
    assert((v40 + path).take(6) =~= v40);
    assert((v40 + path).skip(6) =~= path);
    assert((v39 + path).take(6) =~= v39);
    assert((v39 + path).skip(6) =~= path);
    assert((v40 + path).take(6) != v41) by {
        assert((v40 + path).take(6)[5] != v41[5]);
    }
    assert((v39 + path).take(6) != v41) by {
        assert((v39 + path).take(6)[4] != v41[4]);
    }
    assert((v39 + path).take(6) != v40) by {
        assert((v39 + path).take(6)[4] != v40[4]);
    }
}

/// The id read from a container path is the id the path was made from, for
/// an id without `/` and a suffix that begins with `/`.
pub proof fn law_container_path_round_trip(id: Seq<char>, suffix: Seq<char>)
    requires
        id.len() > 0,
        forall|i: int| 0 <= i < id.len() ==> id[i] != '/',
        suffix.len() > 0,
        suffix[0] == '/',
    ensures
        container_id_in("/containers/"@ + id + suffix, suffix) == id,
{
    reveal_strlit("/containers/");
    let c = "/containers/"@;
    let whole = c + id + suffix;
    assert(whole.take(c.len() as int) =~= c);
    assert(whole.skip(c.len() as int) =~= id + suffix);
    assert(!starts_with(id + suffix, c)) by {
        assert((id + suffix)[0] == id[0]);
        assert(c[0] == '/');
        if starts_with(id + suffix, c) {
            assert((id + suffix).take(c.len() as int)[0] == c[0]);
        }
    }
    assert(trim_start(id + suffix, c) == id + suffix);
    assert(trim_start(whole, c) == id + suffix);
    assert((id + suffix).skip((id + suffix).len() - suffix.len()) =~= suffix);
    assert((id + suffix).take((id + suffix).len() - suffix.len()) =~= id);
    assert(!ends_with(id, suffix)) by {
        if ends_with(id, suffix) {
            assert(id.skip(id.len() - suffix.len())[0] == suffix[0]);
            assert(id[id.len() - suffix.len()] == '/');
        }
    }
    assert(trim_end(id, suffix) == id);
}

/// A path under `/containers/` whose last part begins with a slash is none of the
/// fixed paths.
proof fn lemma_container_path_shape(id: Seq<char>, sfx: Seq<char>)
    requires
        id.len() > 0,
        forall|i: int| 0 <= i < id.len() ==> id[i] != '/',
        sfx.len() >= 5,
        sfx[0] == '/',
    ensures
        starts_with("/containers/"@ + id + sfx, "/containers/"@),
        ends_with("/containers/"@ + id + sfx, sfx),
        "/containers/"@ + id + sfx != "/containers/create"@,
        "/containers/"@ + id + sfx != "/_ping"@,
        "/containers/"@ + id + sfx != "/version"@,
{
    reveal_strlit("/_ping");
    reveal_strlit("/version");
    reveal_strlit("/containers/");
    reveal_strlit("/containers/create");
    let c = "/containers/"@;
    let n = id.len();
    let p = c + id + sfx;
    assert(p.take(c.len() as int) =~= c);
    assert(p.skip(p.len() - sfx.len()) =~= sfx);
    assert(p[(12 + n) as int] == '/');
    if p.len() == "/containers/create"@.len() {
        assert("/containers/create"@[(12 + n) as int] != '/');
    }
    assert(p.len() != "/_ping"@.len());
    assert(p.len() != "/version"@.len());
}

/// The container endpoints are told apart by method and last part of the path,
/// whatever the container's name, as long as it holds no slash.
pub proof fn law_container_routes(id: Seq<char>)
    requires
        id.len() > 0,
        forall|i: int| 0 <= i < id.len() ==> id[i] != '/',
    ensures
        route_kind("POST"@, "/containers/"@ + id + "/start"@) == RouteKind::Start,
        route_kind("POST"@, "/containers/"@ + id + "/stop"@) == RouteKind::Stop,
        route_kind("GET"@, "/containers/"@ + id + "/json"@) == RouteKind::Inspect,
        route_kind("GET"@, "/containers/"@ + id + "/logs"@) == RouteKind::Logs,
        route_kind("POST"@, "/containers/"@ + id + "/wait"@) == RouteKind::Wait,
{
    reveal_strlit("POST");
    reveal_strlit("GET");
    reveal_strlit("DELETE");
    reveal_strlit("/start");
    reveal_strlit("/stop");
    reveal_strlit("/json");
    reveal_strlit("/logs");
    reveal_strlit("/wait");
    let c = "/containers/"@;
    assert("GET"@ != "POST"@) by {
        assert("GET"@.len() != "POST"@.len());
    }
    assert("GET"@ != "DELETE"@) by {
        assert("GET"@.len() != "DELETE"@.len());
    }
    assert("POST"@ != "DELETE"@) by {
        assert("POST"@.len() != "DELETE"@.len());
    }
    lemma_container_path_shape(id, "/start"@);
    lemma_container_path_shape(id, "/stop"@);
    lemma_container_path_shape(id, "/json"@);
    lemma_container_path_shape(id, "/logs"@);
    lemma_container_path_shape(id, "/wait"@);
    let stop = c + id + "/stop"@;
    let logs = c + id + "/logs"@;
    let wait = c + id + "/wait"@;
    assert(!ends_with(stop, "/start"@)) by {
        if ends_with(stop, "/start"@) {
            assert(stop.skip(stop.len() - 6)[0] == stop[stop.len() - 6]);
        }
    }
    assert(!ends_with(wait, "/start"@)) by {
        if ends_with(wait, "/start"@) {
            assert(wait.skip(wait.len() - 6)[0] == wait[wait.len() - 6]);
        }
    }
    assert(!ends_with(wait, "/stop"@)) by {
        if ends_with(wait, "/stop"@) {
            assert(wait.skip(wait.len() - 5)[1] == wait[wait.len() - 4]);
        }
    }
    assert(!ends_with(logs, "/json"@)) by {
        if ends_with(logs, "/json"@) {
            assert(logs.skip(logs.len() - 5)[1] == logs[logs.len() - 4]);
        }
    }
}

/// `job` is the Job `m` as Kubernetes gives it back before it runs: the same
/// name, the same labels as a map, one container with the same image,
/// arguments and environment, and no status yet.
pub open spec fn reads_back_as(job: JobSnapshot, m: JobManifest) -> bool {
    &&& job.name == Some(m.name)
    &&& job.labels matches Some(l) && label_map(l@) == label_map(m.labels@)
    &&& job.first_container matches Some(c) && c.image == Some(m.container.image) && c.args
        == m.container.args && (c.env matches Some(e) && e@.len() == m.container.env@.len() && (
    forall|i: int|
        0 <= i < e@.len() ==> #[trigger] e@[i].name == m.container.env@[i].name && e@[i].value
            == Some(m.container.env@[i].value)))
    &&& job.status is None
}

proof fn lemma_first_index(b: Seq<u8>, x: u8, j: int)
    requires
        0 <= j < b.len(),
        b[j] == x,
    ensures
        exists|i: int| is_first_index(b, x, i),
    decreases j,
{
    if forall|k: int| 0 <= k < j ==> b[k] != x {
        assert(is_first_index(b, x, j));
    } else {
        let k = choose|k: int| 0 <= k < j && b[k] == x;
        lemma_first_index(b, x, k);
    }
}

/// The UTF-8 bytes of a text that holds `=` split at their first `=`, and
/// are the two parts joined by that `=`.
proof fn lemma_env_split_of_text(s: Seq<char>)
    requires
        s.contains('='),
    ensures
        env_split(encode_utf8(s)) matches Some((n, v)) && encode_utf8(s) == n + seq![61u8] + v,
{
    let k = choose|k: int| 0 <= k < s.len() && s[k] == '=';
    let a = s.take(k);
    let c = s.subrange(k, k + 1);
    let d = s.skip(k + 1);
    assert(s =~= a + c + d);
    assert(c =~= seq!['=']);
    lemma_encode_ascii(c);
    assert(encode_utf8(c) =~= seq![61u8]);
    lemma_encode_utf8_concat(a, c);
    lemma_encode_utf8_concat(a + c, d);
    let b = encode_utf8(s);
    assert(b[encode_utf8(a).len() as int] == 61u8);
    lemma_first_index(b, 61u8, encode_utf8(a).len() as int);
    let i = choose|i: int| is_first_index(b, 61u8, i);
    assert(b =~= b.take(i) + seq![61u8] + b.skip(i + 1));
}

proof fn lemma_parsed_env_all(bs: Seq<Seq<u8>>)
    requires
        forall|i: int| 0 <= i < bs.len() ==> #[trigger] env_split(bs[i]) is Some,
    ensures
        parsed_env(bs).len() == bs.len(),
        forall|i: int| 0 <= i < bs.len() ==> #[trigger] parsed_env(bs)[i] == env_split(bs[i])->0,
    decreases bs.len(),
{
    if bs.len() > 0 {
        let r = bs.drop_last();
        assert forall|i: int| 0 <= i < r.len() implies #[trigger] env_split(r[i]) is Some by {
            assert(r[i] == bs[i]);
        }
        lemma_parsed_env_all(r);
        assert(env_split(bs[bs.len() - 1]) is Some);
        assert forall|i: int| 0 <= i < bs.len() implies #[trigger] parsed_env(bs)[i] == env_split(
            bs[i],
        )->0 by {
            if i < bs.len() - 1 {
                assert(r[i] == bs[i]);
            }
        }
    }
}

proof fn lemma_env_texts_all(es: Seq<EnvEntry>)
    requires
        forall|i: int| 0 <= i < es.len() ==> (#[trigger] es[i]).value is Some,
    ensures
        env_texts(es).len() == es.len(),
        forall|i: int|
            0 <= i < es.len() ==> #[trigger] env_texts(es)[i] == es[i].name@ + "="@
                + es[i].value->0@,
    decreases es.len(),
{
    if es.len() > 0 {
        let r = es.drop_last();
        assert forall|i: int| 0 <= i < r.len() implies (#[trigger] r[i]).value is Some by {
            assert(r[i] == es[i]);
        }
        lemma_env_texts_all(r);
        assert(es[es.len() - 1].value is Some);
        assert forall|i: int| 0 <= i < es.len() implies #[trigger] env_texts(es)[i] == es[i].name@
            + "="@ + es[i].value->0@ by {
            if i < es.len() - 1 {
                assert(r[i] == es[i]);
            }
        }
    }
}

/// Inspecting a container right after it was created shows what it was
/// created with: the image, the command as arguments, the environment
/// entries (when each is `NAME=VALUE`), the Job's name, the Job's labels, and
/// the state `created`, not running.
pub proof fn law_inspect_shows_created_job(
    manager: JobManager,
    config: JobConfig,
    m: JobManifest,
    job: JobSnapshot,
)
    requires
        manager.is_job_for(config, m),
        reads_back_as(job, m),
        forall|i: int| 0 <= i < config.env@.len() ==> (#[trigger] config.env@[i])@.contains('='),
    ensures
        inspect_image(job) == config.image@,
        inspect_args(job) == (match config.cmd {
            Some(c) => c@,
            None => Seq::<String>::empty(),
        }),
        inspect_env(job) == strings_view(config.env@),
        text_or(job.name, "unknown"@) == m.name@,
        encode_utf8(m.name@) == sanitized_name_bytes(encode_utf8(config.container_id@)),
        label_map(inspect_labels(job)) == labels_over(
            base_labels(decode_utf8(label_id_bytes(encode_utf8(config.container_id@)))),
            config.labels@,
        ),
        docker_state(job.status).0 == "created"@,
        !docker_state(job.status).1,
{
    let c = job.first_container->0;
    let e = c.env->0;
    let vs = m.container.env@;
    let bs = strings_bytes(config.env@);
    assert forall|i: int| 0 <= i < bs.len() implies #[trigger] env_split(bs[i]) is Some by {
        assert(bs[i] == encode_utf8(config.env@[i]@));
        lemma_env_split_of_text(config.env@[i]@);
    }
    lemma_parsed_env_all(bs);
    assert(env_bytes(vs) == parsed_env(bs));
    assert(vs.len() == env_bytes(vs).len());
    assert forall|i: int| 0 <= i < e@.len() implies (#[trigger] e@[i]).value is Some by {
        assert(e@[i].name == vs[i].name);
        assert(e@[i].value == Some(vs[i].value));
    }
    lemma_env_texts_all(e@);
    reveal_strlit("=");
    assert("="@ =~= seq!['=']);
    lemma_encode_ascii(seq!['=']);
    assert(encode_utf8(seq!['=']) =~= seq![61u8]);
    let texts = env_texts(e@);
    let want = strings_view(config.env@);
    assert forall|i: int| 0 <= i < texts.len() implies #[trigger] texts[i] == want[i] by {
        let t = config.env@[i]@;
        assert(bs[i] == encode_utf8(t));
        lemma_env_split_of_text(t);
        assert(env_bytes(vs)[i] == (encode_utf8(vs[i].name@), encode_utf8(vs[i].value@)));
        assert(parsed_env(bs)[i] == env_split(bs[i])->0);
        assert(e@[i].name == vs[i].name);
        assert(e@[i].value == Some(vs[i].value));
        lemma_encode_utf8_concat(vs[i].name@, seq!['=']);
        lemma_encode_utf8_concat(vs[i].name@ + seq!['='], vs[i].value@);
        assert(encode_utf8(texts[i]) == encode_utf8(t));
        encode_utf8_decode_utf8(texts[i]);
        encode_utf8_decode_utf8(t);
    }
    assert(texts =~= want);
    reveal_strlit("created");
}

/// The cleanup sweep deletes only finished Jobs and leaves none of them
/// behind for good: a Job that has not finished is never deleted, a finished
/// Job is never skipped, and a failed Job that one sweep marks is deleted by
/// the next one.
pub proof fn law_cleanup_sweeps(job: JobSnapshot, marked: JobSnapshot)
    ensures
        !job_finished(job.status) ==> cleanup_action_of(job) == CleanupAction::Skip,
        job_finished(job.status) ==> cleanup_action_of(job) != CleanupAction::Skip,
        cleanup_action_of(job) == CleanupAction::MarkPendingCleanup && marked.status == job.status
            && marked_pending(marked) ==> cleanup_action_of(marked) == CleanupAction::Delete,
{
}

proof fn lemma_tail_scan_plain(q: Seq<char>, start: int, i: int, k: int)
    requires
        0 <= start <= i <= k <= q.len(),
        forall|j: int| i <= j < k ==> q[j] != '&',
    ensures
        tail_from(q, start, i) == tail_from(q, start, k),
    decreases k - i,
{
    if i < k {
        lemma_tail_scan_plain(q, start, i + 1, k);
    }
}

proof fn lemma_tail_shift(p: Seq<char>, r: Seq<char>, s: int, i: int)
    requires
        0 <= s <= i <= r.len(),
    ensures
        tail_from(p + r, p.len() + s, p.len() + i) == tail_from(r, s, i),
    decreases r.len() - i,
{
    let q = p + r;
    let m = p.len() as int;
    if i >= r.len() {
        assert(q.subrange(m + s, q.len() as int) =~= r.subrange(s, r.len() as int));
    } else {
        assert(q[m + i] == r[i]);
        if r[i] == '&' {
            assert(q.subrange(m + s, m + i) =~= r.subrange(s, i));
            lemma_tail_shift(p, r, i + 1, i + 1);
        } else {
            lemma_tail_shift(p, r, s, i + 1);
        }
    }
}

/// The `tail` of a query is read from its parameters in order: a query made
/// of a first parameter `q1`, `&` and the rest `q2` has the tail of `q1` when
/// `q1` is a `tail=N` parameter with `N` an `i64`, and the tail of `q2`
/// otherwise; and a query of one parameter has that parameter's tail.
pub proof fn law_tail_reads_parameters_in_order(q1: Seq<char>, q2: Seq<char>)
    requires
        forall|j: int| 0 <= j < q1.len() ==> q1[j] != '&',
    ensures
        tail_of_query(q1) == tail_value(q1),
        tail_of_query(q1 + "&"@ + q2) == (if tail_value(q1) is Some {
            tail_value(q1)
        } else {
            tail_of_query(q2)
        }),
{
    reveal_strlit("&");
    assert("&"@ =~= seq!['&']);
    let n1 = q1.len() as int;
    lemma_tail_scan_plain(q1, 0, 0, n1);
    assert(q1.subrange(0, n1) =~= q1);
    let p = q1 + "&"@;
    let q = p + q2;
    assert(q1 + "&"@ + q2 == q);
    assert forall|j: int| 0 <= j < n1 implies q[j] != '&' by {
        assert(q[j] == q1[j]);
    }
    lemma_tail_scan_plain(q, 0, 0, n1);
    assert(q[n1] == '&');
    assert(q.subrange(0, n1) =~= q1);
    lemma_tail_shift(p, q2, 0, 0);
}

/// A `tail=N` parameter gives `N` only when it begins with `tail=`.
pub proof fn law_tail_value_needs_key(param: Seq<char>)
    ensures
        tail_value(param) is Some ==> starts_with(param, "tail="@),
{
}

/// The Docker state of a container, by the counts of its Job: a container
/// is running exactly when its status is `running`, which is when its Job
/// has neither succeeded nor failed and has an active Pod; a Job that
/// succeeded exits with 0, one that failed (and did not succeed) with 1, and
/// a Job that has not finished reports exit code 0. Once the Job has started
/// (it succeeded, failed or is active), the start time is the Job's; once
/// it has finished, the finish time is the Job's completion time; otherwise
/// those times are empty.
pub proof fn law_docker_state_by_job_counts(status: Option<JobStatusSnapshot>)
    ensures
        docker_state(status).1 <==> docker_state(status).0 == "running"@,
        job_finished(status) ==> !docker_state(status).1,
        docker_state(status).1 <==> (status matches Some(st) && !is_positive(st.succeeded)
            && !is_positive(st.failed) && is_positive(st.active)),
        docker_state(status).2 == 1 <==> (status matches Some(st) && !is_positive(st.succeeded)
            && is_positive(st.failed)),
        docker_state(status).2 == 0 || docker_state(status).2 == 1,
        status matches Some(st) ==> ((is_positive(st.succeeded) || is_positive(st.failed)
            || is_positive(st.active)) ==> docker_state(status).3 == (match st.start_time {
            Some(t) => t@,
            None => Seq::<char>::empty(),
        })),
        status matches Some(st) ==> ((is_positive(st.succeeded) || is_positive(st.failed))
            ==> docker_state(status).4 == (match st.completion_time {
            Some(t) => t@,
            None => Seq::<char>::empty(),
        })),
        !job_finished(status) ==> docker_state(status).4.len() == 0,
        (status matches Some(st) && (is_positive(st.succeeded) || is_positive(st.failed)
            || is_positive(st.active))) || docker_state(status).3.len() == 0,
        docker_state(status).0 == "created"@ <==> !(status matches Some(st) && (is_positive(
            st.succeeded,
        ) || is_positive(st.failed) || is_positive(st.active))),
{
    reveal_strlit("exited");
    reveal_strlit("running");
    reveal_strlit("created");
    assert("exited"@ != "running"@) by {
        assert("exited"@.len() != "running"@.len());
    }
    assert("created"@ != "running"@) by {
        assert("created"@[0] != "running"@[0]);
    }
    assert("exited"@ != "created"@) by {
        assert("exited"@[0] != "created"@[0]);
    }
}

/// A followed log chunk that is valid UTF-8 is sent as it is, whatever
/// characters it holds; only a chunk that is not valid UTF-8 is sent as an
/// empty line.
pub proof fn law_chunk_text_keeps_valid_text(chunk: Seq<u8>)
    ensures
        valid_utf8(chunk) ==> chunk_text(chunk) == chunk,
        !valid_utf8(chunk) ==> chunk_text(chunk).len() == 0,
{
}

/// The text of every string is sent as it is when followed.
pub proof fn law_followed_text_sent_whole(s: Seq<char>)
    ensures
        chunk_text(encode_utf8(s)) == encode_utf8(s),
{
    encode_utf8_valid_utf8(s);
}

/// What a sweep does with a Job depends on its state first: a Job that
/// succeeded is deleted at once, whatever its labels; a Job that failed is
/// deleted only once it carries the pending-cleanup mark, and marked
/// otherwise; any other Job is left alone, whatever its labels.
pub proof fn law_cleanup_by_state(job: JobSnapshot)
    ensures
        job.status matches Some(st) && is_positive(st.succeeded) ==> cleanup_action_of(job)
            == CleanupAction::Delete,
        job.status matches Some(st) && !is_positive(st.succeeded) && is_positive(st.failed) ==> (
        cleanup_action_of(job) == CleanupAction::Delete <==> marked_pending(job)),
        job.status matches Some(st) && !is_positive(st.succeeded) && is_positive(st.failed) ==> (
        cleanup_action_of(job) == CleanupAction::MarkPendingCleanup <==> !marked_pending(job)),
        cleanup_action_of(job) == CleanupAction::Skip <==> !job_finished(job.status),
        cleanup_action_of(job) == CleanupAction::MarkPendingCleanup ==> !marked_pending(job),
{
}

/// A list of pairs stands for the map in which a key is present exactly when
/// some pair has it, with the value of the last pair that has it.
pub proof fn law_label_map_last_pair_wins(s: Seq<(String, String)>, k: Seq<char>, i: int)
    ensures
        label_map(s).contains_key(k) <==> exists|j: int| 0 <= j < s.len() && #[trigger] s[j].0@ == k,
        0 <= i < s.len() && s[i].0@ == k && (forall|j: int| i < j < s.len() ==> s[j].0@ != k)
            ==> label_map(s).contains_key(k) && label_map(s)[k] == s[i].1@,
    decreases s.len(),
{
    if s.len() > 0 {
        let r = s.drop_last();
        law_label_map_last_pair_wins(r, k, i);
        assert(label_map(s) == label_map(r).insert(s.last().0@, s.last().1@));
        if label_map(r).contains_key(k) {
            let j = choose|j: int| 0 <= j < r.len() && #[trigger] r[j].0@ == k;
            assert(s[j] == r[j]);
        }
        if exists|j: int| 0 <= j < s.len() && #[trigger] s[j].0@ == k {
            let j = choose|j: int| 0 <= j < s.len() && #[trigger] s[j].0@ == k;
            if j < r.len() {
                assert(r[j] == s[j]);
            }
        }
        if 0 <= i < s.len() && s[i].0@ == k && (forall|j: int| i < j < s.len() ==> s[j].0@ != k) {
            if i < r.len() {
                assert(r[i] == s[i]);
                assert forall|j: int| i < j < r.len() implies r[j].0@ != k by {
                    assert(r[j] == s[j]);
                }
            }
        }
    }
}

/// A setting whose variable is not set has its default; one that is set has
/// the value of the last variable of that name.
pub proof fn law_settings_from_last_variable(
    vars: Seq<(String, String)>,
    name: Seq<char>,
    default: Seq<char>,
    i: int,
)
    ensures
        (forall|j: int| 0 <= j < vars.len() ==> #[trigger] vars[j].0@ != name) ==> {
            &&& var_value(vars, name) is None
            &&& text_setting(vars, name, default) == default
            &&& forall|d: i32| #[trigger] i32_setting(vars, name, d) == d
            &&& forall|d: i64| #[trigger] i64_setting(vars, name, d) == d
        },
        0 <= i < vars.len() && vars[i].0@ == name && (forall|j: int|
            i < j < vars.len() ==> vars[j].0@ != name) ==> var_value(vars, name) == Some(
            vars[i].1@,
        ) && text_setting(vars, name, default) == vars[i].1@,
{
    law_label_map_last_pair_wins(vars, name, i);
}

/// The key of the parameter that was looked for occurs in any text made by
/// putting it between two others.
pub proof fn law_contains_infix(a: Seq<char>, p: Seq<char>, b: Seq<char>)
    ensures
        contains(a + p + b, p),
{
    let s = a + p + b;
    assert(s.subrange(a.len() as int, (a.len() + p.len()) as int) =~= p);
}

/// A text holds `p` exactly when `p` occurs in it at some position.
pub proof fn law_contains_means_occurs(s: Seq<char>, p: Seq<char>, i: int)
    ensures
        0 <= i && i + p.len() <= s.len() && (forall|j: int| 0 <= j < p.len() ==> s[i + j] == p[j])
            ==> contains(s, p),
        contains(s, p) ==> p.len() <= s.len(),
{
    if 0 <= i && i + p.len() <= s.len() && (forall|j: int| 0 <= j < p.len() ==> s[i + j] == p[j]) {
        assert(s.subrange(i, i + p.len()) =~= p);
    }
}

proof fn lemma_multiple_plus_one(a: int, n: int)
    requires
        n > 0,
        a % n == 0 || a == -n,
    ensures
        (a + n) % n == 0,
{
    if a == -n {
        assert(0int % n == 0) by (nonlinear_arith)
            requires
                n > 0,
        ;
    } else {
        assert((a + n) % n == 0) by (nonlinear_arith)
            requires
                a % n == 0,
                n > 0,
        ;
    }
}

/// Trimming a non-empty `p` from the start leaves a suffix of the text that
/// no longer begins with `p`, and every removed part is a copy of `p`.
pub proof fn law_trim_start(s: Seq<char>, p: Seq<char>)
    requires
        p.len() > 0,
    ensures
        !starts_with(trim_start(s, p), p),
        trim_start(s, p).len() <= s.len(),
        s.skip(s.len() - trim_start(s, p).len()) == trim_start(s, p),
        (s.len() - trim_start(s, p).len()) % (p.len() as int) == 0,
        starts_with(s, p) ==> trim_start(s, p) == trim_start(s.skip(p.len() as int), p),
        !starts_with(s, p) ==> trim_start(s, p) == s,
    decreases s.len(),
{
    if starts_with(s, p) {
        let r = s.skip(p.len() as int);
        law_trim_start(r, p);
        let t = trim_start(s, p);
        assert(s.skip(s.len() - t.len()) =~= r.skip(r.len() - t.len()));
        lemma_multiple_plus_one(r.len() - t.len(), p.len() as int);
        assert((s.len() - t.len()) == (r.len() - t.len()) + p.len());
    } else {
        assert(s.skip(0) =~= s);
        lemma_multiple_plus_one(-(p.len() as int), p.len() as int);
    }
}

/// Trimming a non-empty `p` from the end leaves a prefix of the text that no
/// longer ends with `p`.
pub proof fn law_trim_end(s: Seq<char>, p: Seq<char>)
    requires
        p.len() > 0,
    ensures
        !ends_with(trim_end(s, p), p),
        trim_end(s, p).len() <= s.len(),
        s.take(trim_end(s, p).len() as int) == trim_end(s, p),
        (s.len() - trim_end(s, p).len()) % (p.len() as int) == 0,
        !ends_with(s, p) ==> trim_end(s, p) == s,
    decreases s.len(),
{
    if ends_with(s, p) {
        let r = s.take(s.len() - p.len());
        law_trim_end(r, p);
        let t = trim_end(s, p);
        assert(s.take(t.len() as int) =~= r.take(t.len() as int));
        lemma_multiple_plus_one(r.len() - t.len(), p.len() as int);
        assert((s.len() - t.len()) == (r.len() - t.len()) + p.len());
    } else {
        assert(s.take(s.len() as int) =~= s);
        lemma_multiple_plus_one(-(p.len() as int), p.len() as int);
    }
}

/// An image reference is read back from its inspect path, and any name read
/// from a path is a reference: `/images/{name}/json` names `name` exactly
/// when `name` is not empty and neither begins nor ends with `/`.
pub proof fn law_image_path_round_trip(name: Seq<char>)
    ensures
        image_name_in("/images/"@ + name + "/json"@) == (if is_image_name(name) {
            Some(name)
        } else {
            None
        }),
{
    reveal_strlit("/images/");
    reveal_strlit("/json");
    let p = "/images/"@ + name + "/json"@;
    assert(p.take(8) =~= "/images/"@);
    assert(p.skip(p.len() - 5) =~= "/json"@);
    assert(p.subrange(8, p.len() - 5) =~= name);
}

/// A volume is read back from its inspect path: `/volumes/{name}` names
/// `name` exactly when it is one non-empty part without `/`.
pub proof fn law_volume_path_round_trip(name: Seq<char>)
    ensures
        volume_name_in("/volumes/"@ + name) == (if is_segment(name) {
            Some(name)
        } else {
            None
        }),
        is_segment(name) <==> name.len() > 0 && !name.contains('/'),
{
    reveal_strlit("/volumes/");
    let p = "/volumes/"@ + name;
    assert(p.take(9) =~= "/volumes/"@);
    assert(p.skip(9) =~= name);
}

proof fn lemma_lines_scan_plain(b: Seq<u8>, start: int, i: int, k: int)
    requires
        0 <= start <= i <= k <= b.len(),
        forall|j: int| i <= j < k ==> b[j] != 10u8,
    ensures
        lines_from(b, start, i) == lines_from(b, start, k),
    decreases k - i,
{
    if i < k {
        lemma_lines_scan_plain(b, start, i + 1, k);
    }
}

proof fn lemma_lines_shift(p: Seq<u8>, r: Seq<u8>, s: int, i: int)
    requires
        0 <= s <= i <= r.len(),
    ensures
        lines_from(p + r, p.len() + s, p.len() + i) == lines_from(r, s, i),
    decreases r.len() - i,
{
    let q = p + r;
    let m = p.len() as int;
    if i >= r.len() {
        assert(q.subrange(m + s, q.len() as int) =~= r.subrange(s, r.len() as int));
    } else {
        assert(q[m + i] == r[i]);
        if r[i] == 10u8 {
            assert(q.subrange(m + s, m + i) =~= r.subrange(s, i));
            lemma_lines_shift(p, r, i + 1, i + 1);
        } else {
            lemma_lines_shift(p, r, s, i + 1);
        }
    }
}

proof fn lemma_lines_have_no_newline(b: Seq<u8>, start: int, i: int)
    requires
        0 <= start <= i <= b.len(),
        forall|j: int| start <= j < i ==> b[j] != 10u8,
    ensures
        forall|k: int| 0 <= k < lines_from(b, start, i).len() ==> !(#[trigger] lines_from(
            b,
            start,
            i,
        )[k]).contains(10u8),
    decreases b.len() - i,
{
    let ls = lines_from(b, start, i);
    if i >= b.len() {
        if start >= b.len() {
            assert(ls.len() == 0);
        } else {
            let l = b.subrange(start, b.len() as int);
            assert(ls =~= seq![l]);
            assert forall|k: int| 0 <= k < ls.len() implies !(#[trigger] ls[k]).contains(10u8) by {
                if l.contains(10u8) {
                    let j = choose|j: int| 0 <= j < l.len() && l[j] == 10u8;
                    assert(b[start + j] == l[j]);
                }
            }
        }
    } else if b[i] == 10u8 {
        lemma_lines_have_no_newline(b, i + 1, i + 1);
        let l = b.subrange(start, i);
        let c = strip_cr(l);
        let rest = lines_from(b, i + 1, i + 1);
        assert(ls == seq![c] + rest);
        assert forall|k: int| 0 <= k < ls.len() implies !(#[trigger] ls[k]).contains(10u8) by {
            if k == 0 {
                if c.contains(10u8) {
                    let j = choose|j: int| 0 <= j < c.len() && c[j] == 10u8;
                    assert(c[j] == l[j]);
                    assert(b[start + j] == l[j]);
                }
            } else {
                assert(ls[k] == rest[k - 1]);
            }
        }
    } else {
        lemma_lines_have_no_newline(b, start, i + 1);
        assert(ls == lines_from(b, start, i + 1));
    }
}

/// Logs read at once are cut at each newline, in order: the logs `a`, a
/// newline and the rest `b` (with no newline in `a`) give the line `a`,
/// without a carriage return that ends it, and then the lines of `b`; logs
/// with no newline are one line, or none when empty; and no line holds a
/// newline.
pub proof fn law_text_lines_split_at_newlines(a: Seq<u8>, b: Seq<u8>)
    requires
        !a.contains(10u8),
    ensures
        text_lines(a + seq![10u8] + b) == seq![strip_cr(a)] + text_lines(b),
        text_lines(a) == (if a.len() == 0 {
            Seq::<Seq<u8>>::empty()
        } else {
            seq![a]
        }),
        forall|k: int|
            0 <= k < text_lines(b).len() ==> !(#[trigger] text_lines(b)[k]).contains(10u8),
{
    let n = a.len() as int;
    assert forall|j: int| 0 <= j < n implies a[j] != 10u8 by {
        if a[j] == 10u8 {
            assert(a.contains(10u8));
        }
    }
    lemma_lines_scan_plain(a, 0, 0, n);
    if n > 0 {
        assert(lines_from(a, 0, n) =~= seq![a.subrange(0, n)]);
        assert(a.subrange(0, n) =~= a);
    }
    let p = a + seq![10u8];
    let q = p + b;
    assert(a + seq![10u8] + b == q);
    assert forall|j: int| 0 <= j < n implies q[j] != 10u8 by {
        assert(q[j] == a[j]);
    }
    lemma_lines_scan_plain(q, 0, 0, n);
    assert(q[n] == 10u8);
    assert(q.subrange(0, n) =~= a);
    lemma_lines_shift(p, b, 0, 0);
    lemma_lines_have_no_newline(b, 0, 0);
}

/// A carriage return is dropped only when it ends the line.
pub proof fn law_strip_cr(line: Seq<u8>)
    ensures
        line.len() > 0 && line.last() == 13u8 ==> strip_cr(line).push(13u8) == line,
        !(line.len() > 0 && line.last() == 13u8) ==> strip_cr(line) == line,
{
    if line.len() > 0 && line.last() == 13u8 {
        assert(line.drop_last().push(13u8) =~= line);
    }
}

/// The frames of two runs of lines are the frames of the first run followed
/// by those of the second; one line gives one frame.
pub proof fn law_frames_of_lines_concat(stream: StreamType, a: Seq<Seq<u8>>, b: Seq<Seq<u8>>)
    ensures
        frames_of_lines(stream, a + b) == frames_of_lines(stream, a) + frames_of_lines(stream, b),
        forall|x: Seq<u8>| #[trigger] frames_of_lines(stream, seq![x]) == log_frame(
            stream,
            line_payload(x),
        ),
    decreases a.len(),
{
    assert forall|x: Seq<u8>| #[trigger] frames_of_lines(stream, seq![x]) == log_frame(
        stream,
        line_payload(x),
    ) by {
        assert(seq![x].drop_first() =~= Seq::<Seq<u8>>::empty());
        assert(frames_of_lines(stream, Seq::<Seq<u8>>::empty()) == Seq::<u8>::empty());
        assert(seq![x][0] == x);
        assert(log_frame(stream, line_payload(x)) + Seq::<u8>::empty() =~= log_frame(
            stream,
            line_payload(x),
        ));
    }
    if a.len() == 0 {
        assert(a + b =~= b);
        assert(Seq::<u8>::empty() + frames_of_lines(stream, b) =~= frames_of_lines(stream, b));
    } else {
        law_frames_of_lines_concat(stream, a.drop_first(), b);
        assert((a + b).drop_first() =~= a.drop_first() + b);
        assert((a + b)[0] == a[0]);
        assert(frames_of_lines(stream, a + b) =~= frames_of_lines(stream, a) + frames_of_lines(
            stream,
            b,
        ));
    }
}

/// A Docker environment entry splits at its first `=`: the name holds no
/// `=`, and the name, `=` and the value give the entry back; an entry without
/// `=` does not split.
pub proof fn law_env_split_at_first_equals(b: Seq<u8>)
    ensures
        env_split(b) is None <==> !b.contains(61u8),
        env_split(b) matches Some((n, v)) ==> b == n + seq![61u8] + v && !n.contains(61u8),
{
    if b.contains(61u8) {
        let j = choose|j: int| 0 <= j < b.len() && b[j] == 61u8;
        lemma_first_index(b, 61u8, j);
    }
    if env_split(b) is Some {
        let i = choose|i: int| is_first_index(b, 61u8, i);
        assert(b =~= b.take(i) + seq![61u8] + b.skip(i + 1));
        assert(b.contains(61u8)) by {
            assert(b[i] == 61u8);
        }
        if b.take(i).contains(61u8) {
            let k = choose|k: int| 0 <= k < b.take(i).len() && b.take(i)[k] == 61u8;
            assert(b[k] == 61u8);
        }
    }
}

/// Environment entries are parsed one by one, in order: the variables of two
/// runs of entries are those of the first run followed by those of the
/// second, and one entry gives its split, or nothing when it has no `=`.
pub proof fn law_parsed_env_concat(a: Seq<Seq<u8>>, b: Seq<Seq<u8>>)
    ensures
        parsed_env(a + b) == parsed_env(a) + parsed_env(b),
        forall|e: Seq<u8>| #[trigger] parsed_env(seq![e]) == (match env_split(e) {
            Some(p) => seq![p],
            None => Seq::<(Seq<u8>, Seq<u8>)>::empty(),
        }),
    decreases b.len(),
{
    assert forall|e: Seq<u8>| #[trigger] parsed_env(seq![e]) == (match env_split(e) {
        Some(p) => seq![p],
        None => Seq::<(Seq<u8>, Seq<u8>)>::empty(),
    }) by {
        assert(seq![e].drop_last() =~= Seq::<Seq<u8>>::empty());
        assert(parsed_env(Seq::<Seq<u8>>::empty()) == Seq::<(Seq<u8>, Seq<u8>)>::empty());
        assert(seq![e].last() == e);
        if env_split(e) is Some {
            assert(Seq::<(Seq<u8>, Seq<u8>)>::empty().push(env_split(e)->0) =~= seq![
                env_split(e)->0,
            ]);
        }
    }
    if b.len() == 0 {
        assert(a + b =~= a);
        assert(parsed_env(a) + Seq::<(Seq<u8>, Seq<u8>)>::empty() =~= parsed_env(a));
    } else {
        law_parsed_env_concat(a, b.drop_last());
        assert((a + b).drop_last() =~= a + b.drop_last());
        assert((a + b).last() == b.last());
        match env_split(b.last()) {
            Some(p) => {
                assert(parsed_env(a + b) =~= parsed_env(a) + parsed_env(b));
            },
            None => {},
        }
    }
}

/// The environment shown by inspect is built entry by entry, in order: the
/// texts of two runs of entries are those of the first run followed by those
/// of the second; an entry with a value shows as `NAME=VALUE` and one without
/// is not shown.
pub proof fn law_env_texts_concat(a: Seq<EnvEntry>, b: Seq<EnvEntry>)
    ensures
        env_texts(a + b) == env_texts(a) + env_texts(b),
        forall|e: EnvEntry| #[trigger] env_texts(seq![e]) == (match e.value {
            Some(v) => seq![e.name@ + "="@ + v@],
            None => Seq::<Seq<char>>::empty(),
        }),
    decreases b.len(),
{
    assert forall|e: EnvEntry| #[trigger] env_texts(seq![e]) == (match e.value {
        Some(v) => seq![e.name@ + "="@ + v@],
        None => Seq::<Seq<char>>::empty(),
    }) by {
        assert(seq![e].drop_last() =~= Seq::<EnvEntry>::empty());
        assert(env_texts(Seq::<EnvEntry>::empty()) == Seq::<Seq<char>>::empty());
        assert(seq![e].last() == e);
        match e.value {
            Some(v) => {
                assert(Seq::<Seq<char>>::empty().push(e.name@ + "="@ + v@) =~= seq![
                    e.name@ + "="@ + v@,
                ]);
            },
            None => {},
        }
    }
    if b.len() == 0 {
        assert(a + b =~= a);
        assert(env_texts(a) + Seq::<Seq<char>>::empty() =~= env_texts(a));
    } else {
        law_env_texts_concat(a, b.drop_last());
        assert((a + b).drop_last() =~= a + b.drop_last());
        assert((a + b).last() == b.last());
        match b.last().value {
            Some(v) => {
                assert(env_texts(a + b) =~= env_texts(a) + env_texts(b));
            },
            None => {},
        }
    }
}

/// Decimal digits are read positionally: the digits `a` then `b` are worth
/// `a` times ten to the number of digits of `b`, plus `b`; and a run of `n`
/// digits is worth less than ten to the `n`.
pub proof fn law_digits_value_positional(a: Seq<char>, b: Seq<char>)
    requires
        all_digits(a),
        all_digits(b),
    ensures
        digits_value(a + b) == digits_value(a) * pow(10, b.len()) + digits_value(b),
        0 <= digits_value(b) < pow(10, b.len()),
    decreases b.len(),
{
    if b.len() == 0 {
        assert(a + b =~= a);
        assert(pow(10, 0) == 1) by {
            reveal(pow);
        }
    } else {
        let r = b.drop_last();
        assert(all_digits(r)) by {
            assert forall|i: int| 0 <= i < r.len() implies is_digit(#[trigger] r[i]) by {
                assert(r[i] == b[i]);
            }
        }
        law_digits_value_positional(a, r);
        assert((a + b).drop_last() =~= a + r);
        assert((a + b).last() == b.last());
        assert(is_digit(b[b.len() - 1]));
        let d = b.last() as int - 48;
        assert(0 <= d <= 9);
        assert(pow(10, b.len()) == 10 * pow(10, r.len())) by {
            reveal(pow);
        }
        let x = digits_value(a);
        let y = digits_value(r);
        let p = pow(10, r.len());
        assert((x * p + y) * 10 + d == x * (10 * p) + (y * 10 + d)) by (nonlinear_arith);
        assert(y * 10 + d < 10 * p) by (nonlinear_arith)
            requires
                0 <= y < p,
                0 <= d <= 9,
        ;
        assert(0 <= y * 10 + d) by (nonlinear_arith)
            requires
                0 <= y,
                0 <= d,
        ;
    }
}

/// A decimal number is an optional sign and one or more digits: `-` negates
/// the value of the digits, `+` or no sign keeps it, and anything else (an
/// empty text, a sign alone, a non-digit) is no number. The number types
/// take exactly the values that fit them.
pub proof fn law_decimal_sign_and_digits(d: Seq<char>, s: Seq<char>)
    requires
        d.len() > 0,
        all_digits(d),
    ensures
        decimal_value(d) == Some(digits_value(d)),
        decimal_value(seq!['-'] + d) == Some(-digits_value(d)),
        decimal_value(seq!['+'] + d) == Some(digits_value(d)),
        decimal_value(Seq::<char>::empty()) is None,
        decimal_value(seq!['-']) is None,
        decimal_value(seq!['+']) is None,
        (exists|i: int| 0 < i < s.len() && !is_digit(#[trigger] s[i])) ==> decimal_value(s) is None,
        s.len() > 0 && !is_digit(s[0]) && s[0] != '-' && s[0] != '+' ==> decimal_value(s) is None,
        decimal_value(s) matches Some(v) ==> (parse_i64_value(s) == (if i64::MIN <= v <= i64::MAX {
            Some(v as i64)
        } else {
            None
        }) && parse_i32_value(s) == (if i32::MIN <= v <= i32::MAX {
            Some(v as i32)
        } else {
            None
        })),
        decimal_value(s) is None ==> parse_i64_value(s) is None && parse_i32_value(s) is None,
{
    assert(!is_digit('-') && !is_digit('+'));
    assert((seq!['-'] + d).skip(1) =~= d);
    assert((seq!['+'] + d).skip(1) =~= d);
    assert(seq!['-'].skip(1) =~= Seq::<char>::empty());
    assert(seq!['+'].skip(1) =~= Seq::<char>::empty());
    if exists|i: int| 0 < i < s.len() && !is_digit(#[trigger] s[i]) {
        let i = choose|i: int| 0 < i < s.len() && !is_digit(#[trigger] s[i]);
        if s[0] == '-' || s[0] == '+' {
            assert(s.skip(1)[i - 1] == s[i]);
        }
    }
}

/// A `tail=N` parameter gives the `i64` that `N` reads as, if any.
pub proof fn law_tail_value_reads_number(n: Seq<char>)
    ensures
        tail_value("tail="@ + n) == parse_i64_value(n),
{
    reveal_strlit("tail=");
    let p = "tail="@ + n;
    assert(p.take(5) =~= "tail="@);
    assert(p.skip(5) =~= n);
}

/// Docker's stream numbers: stdout frames carry 1 and stderr frames 2.
pub proof fn law_stream_header_bytes()
    ensures
        StreamType::Stdout.header_byte() == 1,
        StreamType::Stderr.header_byte() == 2,
{
}

proof fn lemma_hex_run_digits(b: Seq<u8>)
    ensures
        hex_run(b).len() == 2 * b.len(),
        forall|k: int|
            0 <= k < b.len() ==> hex_run(b)[2 * k] == hex_digit((#[trigger] b[k] / 16) as nat)
                && hex_run(b)[2 * k + 1] == hex_digit((b[k] % 16) as nat),
    decreases b.len(),
{
    if b.len() > 0 {
        let r = b.drop_last();
        lemma_hex_run_digits(r);
        assert forall|k: int| 0 <= k < b.len() implies hex_run(b)[2 * k] == hex_digit(
            (#[trigger] b[k] / 16) as nat,
        ) && hex_run(b)[2 * k + 1] == hex_digit((b[k] % 16) as nat) by {
            if k < r.len() {
                assert(r[k] == b[k]);
            }
        }
    }
}

/// A container id is the lower-case hexadecimal text of the first six bytes
/// of its UUID, two digits per byte, high half first.
pub proof fn law_container_id_digits(b: Seq<u8>)
    requires
        b.len() == 16,
    ensures
        uuid_container_id(b).len() == 12,
        forall|k: int|
            0 <= k < 6 ==> uuid_container_id(b)[2 * k] == hex_digit((#[trigger] b[k] / 16) as nat)
                && uuid_container_id(b)[2 * k + 1] == hex_digit((b[k] % 16) as nat),
{
    let h1 = b.subrange(0, 4);
    let h2 = b.subrange(4, 6);
    lemma_hex_run_digits(h1);
    lemma_hex_run_digits(h2);
    let id = uuid_container_id(b);
    assert forall|k: int| 0 <= k < 6 implies id[2 * k] == hex_digit((#[trigger] b[k] / 16) as nat)
        && id[2 * k + 1] == hex_digit((b[k] % 16) as nat) by {
        if k < 4 {
            assert(h1[k] == b[k]);
        } else {
            assert(h2[k - 4] == b[k]);
            assert(id[2 * k] == hex_run(h2)[2 * (k - 4)]);
            assert(id[2 * k + 1] == hex_run(h2)[2 * (k - 4) + 1]);
        }
    }
}

/// The fixed endpoints: `GET /_ping`, `GET /version`, `POST
/// /containers/create` and `POST /images/create`; `DELETE` under
/// `/containers/` removes a container; a method other than `GET`, `POST` and
/// `DELETE` is served nowhere.
pub proof fn law_fixed_routes(m: Seq<char>, p: Seq<char>, id: Seq<char>)
    ensures
        route_kind("GET"@, "/_ping"@) == RouteKind::Ping,
        route_kind("GET"@, "/version"@) == RouteKind::Version,
        route_kind("POST"@, "/containers/create"@) == RouteKind::Create,
        route_kind("POST"@, "/images/create"@) == RouteKind::ImageCreate,
        route_kind("DELETE"@, "/containers/"@ + id) == RouteKind::Delete,
        m != "GET"@ && m != "POST"@ && m != "DELETE"@ ==> route_kind(m, p)
            == RouteKind::NotImplemented,
{
    reveal_strlit("GET");
    reveal_strlit("POST");
    reveal_strlit("DELETE");
    reveal_strlit("/_ping");
    reveal_strlit("/version");
    reveal_strlit("/containers/create");
    reveal_strlit("/containers/");
    reveal_strlit("/images/create");
    assert("GET"@ != "POST"@) by {
        assert("GET"@.len() != "POST"@.len());
    }
    assert("GET"@ != "DELETE"@) by {
        assert("GET"@.len() != "DELETE"@.len());
    }
    assert("POST"@ != "DELETE"@) by {
        assert("POST"@.len() != "DELETE"@.len());
    }
    assert("/images/create"@ != "/containers/create"@) by {
        assert("/images/create"@.len() != "/containers/create"@.len());
    }
    let d = "/containers/"@ + id;
    assert(d.take(12) =~= "/containers/"@);
    let ic = "/images/create"@;
    assert(!starts_with(ic, "/containers/"@)) by {
        assert(ic.take(12)[1] != "/containers/"@[1]);
    }
}

/// A logs query asks to follow when `follow=true` or `follow=1` occurs in
/// it anywhere, and never when `follow=` does not occur in it.
pub proof fn law_follow_of_query(a: Seq<char>, b: Seq<char>, q: Seq<char>)
    ensures
        follow_of_query(a + "follow=true"@ + b),
        follow_of_query(a + "follow=1"@ + b),
        !contains(q, "follow="@) ==> !follow_of_query(q),
{
    law_contains_infix(a, "follow=true"@, b);
    law_contains_infix(a, "follow=1"@, b);
    reveal_strlit("follow=");
    reveal_strlit("follow=true");
    reveal_strlit("follow=1");
    let k = "follow="@;
    if contains(q, "follow=true"@) {
        let i = choose|i: int| 0 <= i && i + "follow=true"@.len() <= q.len()
            && #[trigger] q.subrange(i, i + "follow=true"@.len()) == "follow=true"@;
        assert(q.subrange(i, i + k.len()) =~= k) by {
            assert forall|j: int| 0 <= j < k.len() implies q.subrange(i, i + k.len())[j] == k[j] by {
                assert(q.subrange(i, i + "follow=true"@.len())[j] == "follow=true"@[j]);
            }
        }
    }
    if contains(q, "follow=1"@) {
        let i = choose|i: int| 0 <= i && i + "follow=1"@.len() <= q.len()
            && #[trigger] q.subrange(i, i + "follow=1"@.len()) == "follow=1"@;
        assert(q.subrange(i, i + k.len()) =~= k) by {
            assert forall|j: int| 0 <= j < k.len() implies q.subrange(i, i + k.len())[j] == k[j] by {
                assert(q.subrange(i, i + "follow=1"@.len())[j] == "follow=1"@[j]);
            }
        }
    }
}

/// The loops the library drives pause between rounds: a wait looks at an
/// unfinished Job again only after a pause, and sweeps are a minute apart.
pub proof fn law_loops_pause()
    ensures
        wait_poll_ms() > 0,
        CLEANUP_INTERVAL_SECS == 60,
{
}

} // verus!
