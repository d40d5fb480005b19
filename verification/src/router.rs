//! Which endpoint a request is for.
//!
//! A leading API version (`/v1.41`, `/v1.40` or `/v1.39`) is dropped from the
//! path; then the method and path pick the endpoint, in a fixed order.

use vstd::prelude::*;
use vstd::string::*;
use crate::numbers::{parse_i64_chars, parse_i64_value};
use crate::text::{chars_of, owned, str_eq};

verus! {

/// `s` begins with `p`.
pub open spec fn starts_with(s: Seq<char>, p: Seq<char>) -> bool {
    p.len() <= s.len() && s.take(p.len() as int) == p
}

/// `s` ends with `p`.
pub open spec fn ends_with(s: Seq<char>, p: Seq<char>) -> bool {
    p.len() <= s.len() && s.skip(s.len() - p.len()) == p
}

/// `p` occurs somewhere in `s`.
pub open spec fn contains(s: Seq<char>, p: Seq<char>) -> bool {
    exists|i: int| 0 <= i && i + p.len() <= s.len() && #[trigger] s.subrange(i, i + p.len()) == p
}

/// `s` with every leading copy of `p` removed, as `trim_start_matches` does.
pub open spec fn trim_start(s: Seq<char>, p: Seq<char>) -> Seq<char>
    decreases s.len(),
{
    if p.len() > 0 && starts_with(s, p) {
        trim_start(s.skip(p.len() as int), p)
    } else {
        s
    }
}

/// `s` with every trailing copy of `p` removed, as `trim_end_matches` does.
pub open spec fn trim_end(s: Seq<char>, p: Seq<char>) -> Seq<char>
    decreases s.len(),
{
    if p.len() > 0 && ends_with(s, p) {
        trim_end(s.take(s.len() - p.len()), p)
    } else {
        s
    }
}

/// The path without a leading API version.
pub open spec fn strip_version(path: Seq<char>) -> Seq<char> {
    if starts_with(path, "/v1.41"@) {
        path.skip("/v1.41"@.len() as int)
    } else if starts_with(path, "/v1.40"@) {
        path.skip("/v1.40"@.len() as int)
    } else if starts_with(path, "/v1.39"@) {
        path.skip("/v1.39"@.len() as int)
    } else {
        path
    }
}

/// The container id in a container path with the given suffix.
pub open spec fn container_id_in(path: Seq<char>, suffix: Seq<char>) -> Seq<char> {
    trim_end(trim_start(path, "/containers/"@), suffix)
}

/// The value of the first `tail=` parameter that holds an `i64`, scanning
/// the parameters of `q` from position `i`, the current one having started
/// at `start`.
pub open spec fn tail_from(q: Seq<char>, start: int, i: int) -> Option<i64>
    decreases q.len() - i,
{
    if i >= q.len() {
        tail_value(q.subrange(start, q.len() as int))
    } else if q[i] == '&' {
        match tail_value(q.subrange(start, i)) {
            Some(v) => Some(v),
            None => tail_from(q, i + 1, i + 1),
        }
    } else {
        tail_from(q, start, i + 1)
    }
}

/// The number a query parameter gives as `tail=N`, if it is one.
pub open spec fn tail_value(param: Seq<char>) -> Option<i64> {
    if starts_with(param, "tail="@) {
        parse_i64_value(param.skip("tail="@.len() as int))
    } else {
        None
    }
}

/// Whether a logs query asks to follow: it holds `follow=true` or `follow=1`.
pub open spec fn follow_of_query(q: Seq<char>) -> bool {
    contains(q, "follow=true"@) || contains(q, "follow=1"@)
}

/// The `tail` of a query: the first parameter `tail=N` whose `N` is an `i64`.
pub open spec fn tail_of_query(q: Seq<char>) -> Option<i64> {
    tail_from(q, 0, 0)
}

/// One part of a path: not empty and without `/`.
pub open spec fn is_segment(s: Seq<char>) -> bool {
    s.len() > 0 && forall|i: int| 0 <= i < s.len() ==> s[i] != '/'
}

/// An image reference: not empty, and neither beginning nor ending with `/`
/// (it may hold `/` inside, as `library/busybox` does).
pub open spec fn is_image_name(s: Seq<char>) -> bool {
    s.len() > 0 && s[0] != '/' && s.last() != '/'
}

/// The image named in a path `/images/{name}/json`, if the path is one.
pub open spec fn image_name_in(p: Seq<char>) -> Option<Seq<char>> {
    if starts_with(p, "/images/"@) && ends_with(p, "/json"@) && p.len() >= 14 && is_image_name(
        p.subrange(8, p.len() - 5),
    ) {
        Some(p.subrange(8, p.len() - 5))
    } else {
        None
    }
}

/// The volume named in a path `/volumes/{name}`, if the path is one.
pub open spec fn volume_name_in(p: Seq<char>) -> Option<Seq<char>> {
    if starts_with(p, "/volumes/"@) && is_segment(p.skip(9)) {
        Some(p.skip(9))
    } else {
        None
    }
}

/// The endpoints the shim serves.
#[derive(Debug, Clone, Copy, PartialEq, Eq)]
pub enum RouteKind {
    Ping,
    Version,
    Create,
    Start,
    Stop,
    Delete,
    Inspect,
    Logs,
    Wait,
    ImageCreate,
    ImageInspect,
    VolumeInspect,
    NotImplemented,
}

/// The endpoint for a method and a path without API version.
pub open spec fn route_kind(m: Seq<char>, p: Seq<char>) -> RouteKind {
    let c = "/containers/"@;
    if m == "GET"@ && p == "/_ping"@ {
        RouteKind::Ping
    } else if m == "GET"@ && p == "/version"@ {
        RouteKind::Version
    } else if m == "POST"@ && p == "/containers/create"@ {
        RouteKind::Create
    } else if m == "POST"@ && starts_with(p, c) && ends_with(p, "/start"@) {
        RouteKind::Start
    } else if m == "POST"@ && starts_with(p, c) && ends_with(p, "/stop"@) {
        RouteKind::Stop
    } else if m == "DELETE"@ && starts_with(p, c) {
        RouteKind::Delete
    } else if m == "GET"@ && starts_with(p, c) && ends_with(p, "/json"@) {
        RouteKind::Inspect
    } else if m == "GET"@ && starts_with(p, c) && ends_with(p, "/logs"@) {
        RouteKind::Logs
    } else if m == "POST"@ && starts_with(p, c) && ends_with(p, "/wait"@) {
        RouteKind::Wait
    } else if m == "POST"@ && p == "/images/create"@ {
        RouteKind::ImageCreate
    } else if m == "GET"@ && image_name_in(p) is Some {
        RouteKind::ImageInspect
    } else if m == "GET"@ && volume_name_in(p) is Some {
        RouteKind::VolumeInspect
    } else {
        RouteKind::NotImplemented
    }
}

/// The endpoint of a request, with what it needs from the path and query.
#[derive(Debug, Clone, PartialEq, Eq)]
pub enum Route {
    Ping,
    Version,
    Create,
    Start(String),
    Stop(String),
    Delete(String),
    Inspect(String),
    Logs { container_id: String, follow: bool, tail: Option<i64> },
    Wait(String),
    ImageCreate,
    ImageInspect(String),
    VolumeInspect(String),
    /// An endpoint the shim does not serve; it holds the error message.
    NotImplemented(String),
}

impl Route {
    /// The endpoint of the route.
    pub open spec fn kind(self) -> RouteKind {
        match self {
            Route::Ping => RouteKind::Ping,
            Route::Version => RouteKind::Version,
            Route::Create => RouteKind::Create,
            Route::Start(_) => RouteKind::Start,
            Route::Stop(_) => RouteKind::Stop,
            Route::Delete(_) => RouteKind::Delete,
            Route::Inspect(_) => RouteKind::Inspect,
            Route::Logs { .. } => RouteKind::Logs,
            Route::Wait(_) => RouteKind::Wait,
            Route::ImageCreate => RouteKind::ImageCreate,
            Route::ImageInspect(_) => RouteKind::ImageInspect,
            Route::VolumeInspect(_) => RouteKind::VolumeInspect,
            Route::NotImplemented(_) => RouteKind::NotImplemented,
        }
    }
}

fn window_starts_with(s: &Vec<char>, from: usize, to: usize, p: &Vec<char>) -> (b: bool)
    requires
        from <= to <= s@.len(),
    ensures
        b == starts_with(s@.subrange(from as int, to as int), p@),
{
    let ghost w = s@.subrange(from as int, to as int);
    if p.len() > to - from {
        return false;
    }
    let mut i: usize = 0;
    while i < p.len()
        invariant
            from <= to <= s@.len(),
            p@.len() <= to - from,
            w == s@.subrange(from as int, to as int),
            i <= p@.len(),
            forall|j: int| 0 <= j < i ==> w[j] == p@[j],
        decreases p@.len() - i,
    {
        if s[from + i] != p[i] {
            assert(w.take(p@.len() as int)[i as int] != p@[i as int]);
            return false;
        }
        i = i + 1;
    }
    assert(w.take(p@.len() as int) =~= p@);
    true
}

fn window_ends_with(s: &Vec<char>, from: usize, to: usize, p: &Vec<char>) -> (b: bool)
    requires
        from <= to <= s@.len(),
    ensures
        b == ends_with(s@.subrange(from as int, to as int), p@),
{
    let ghost w = s@.subrange(from as int, to as int);
    if p.len() > to - from {
        return false;
    }
    let start = to - p.len();
    let mut i: usize = 0;
    while i < p.len()
        invariant
            from <= start <= to <= s@.len(),
            start + p@.len() == to,
            w == s@.subrange(from as int, to as int),
            i <= p@.len(),
            forall|j: int| 0 <= j < i ==> w[start - from + j] == p@[j],
        decreases p@.len() - i,
    {
        if s[start + i] != p[i] {
            assert(w.skip(w.len() - p@.len())[i as int] != p@[i as int]);
            return false;
        }
        i = i + 1;
    }
    assert(w.skip(w.len() - p@.len()) =~= p@);
    true
}

fn window_eq(s: &Vec<char>, from: usize, to: usize, p: &Vec<char>) -> (b: bool)
    requires
        from <= to <= s@.len(),
    ensures
        b == (s@.subrange(from as int, to as int) == p@),
{
    if p.len() != to - from {
        return false;
    }
    let r = window_starts_with(s, from, to, p);
    assert(s@.subrange(from as int, to as int).take(p@.len() as int) =~= s@.subrange(
        from as int,
        to as int,
    ));
    r
}

fn trim_start_window(s: &Vec<char>, from: usize, to: usize, p: &Vec<char>) -> (r: usize)
    requires
        from <= to <= s@.len(),
    ensures
        from <= r <= to,
        s@.subrange(r as int, to as int) == trim_start(s@.subrange(from as int, to as int), p@),
{
    let mut r = from;
    if p.len() == 0 {
        return r;
    }
    while window_starts_with(s, r, to, p)
        invariant
            from <= r <= to <= s@.len(),
            p@.len() > 0,
            trim_start(s@.subrange(r as int, to as int), p@) == trim_start(
                s@.subrange(from as int, to as int),
                p@,
            ),
        decreases to - r,
    {
        assert(s@.subrange(r as int, to as int).skip(p@.len() as int) =~= s@.subrange(
            r + p@.len(),
            to as int,
        ));
        r = r + p.len();
    }
    r
}

fn trim_end_window(s: &Vec<char>, from: usize, to: usize, p: &Vec<char>) -> (r: usize)
    requires
        from <= to <= s@.len(),
    ensures
        from <= r <= to,
        s@.subrange(from as int, r as int) == trim_end(s@.subrange(from as int, to as int), p@),
{
    let mut r = to;
    if p.len() == 0 {
        return r;
    }
    while window_ends_with(s, from, r, p)
        invariant
            from <= r <= to <= s@.len(),
            p@.len() > 0,
            trim_end(s@.subrange(from as int, r as int), p@) == trim_end(
                s@.subrange(from as int, to as int),
                p@,
            ),
        decreases r - from,
    {
        assert(s@.subrange(from as int, r as int).take(r - from - p@.len()) =~= s@.subrange(
            from as int,
            r - p@.len(),
        ));
        r = r - p.len();
    }
    r
}

fn contains_chars(s: &Vec<char>, p: &Vec<char>) -> (b: bool)
    ensures
        b == contains(s@, p@),
{
    if p.len() == 0 {
        assert(s@.subrange(0, 0 + p@.len() as int) =~= p@);
        return true;
    }
    if p.len() > s.len() {
        return false;
    }
    let mut i: usize = 0;
    while i <= s.len() - p.len()
        invariant
            1 <= p@.len() <= s@.len(),
            forall|j: int| 0 <= j < i ==> #[trigger] s@.subrange(j, j + p@.len()) != p@,
        decreases s@.len() - i,
    {
        if window_eq(s, i, i + p.len(), p) {
            return true;
        }
        i = i + 1;
    }
    false
}

/// The container id in a container path: the path without its leading
/// `/containers/` and without its trailing `suffix`, each removed as often
/// as it occurs.
pub fn extract_container_id(path: &str, suffix: &str) -> (id: String)
    ensures
        id@ == container_id_in(path@, suffix@),
{
    let pc = chars_of(path);
    let sc = chars_of(suffix);
    let prefix = chars_of("/containers/");
    let n = pc.len();
    let a = trim_start_window(&pc, 0, n, &prefix);
    let b = trim_end_window(&pc, a, n, &sc);
    proof {
        assert(pc@.subrange(0, n as int) =~= path@);
    }
    owned(path.substring_char(a, b))
}

/// The value of the first `tail=N` parameter of a query whose `N` is an
/// `i64`, as the log endpoint reads it.
pub fn parse_tail_param(query: &str) -> (tail: Option<i64>)
    ensures
        tail == tail_of_query(query@),
{
    let q = chars_of(query);
    let key = chars_of("tail=");
    let n = q.len();
    let mut start: usize = 0;
    let mut i: usize = 0;
    while i < n
        invariant
            start <= i <= n == q@.len(),
            key@ == "tail="@,
            q@ == query@,
            tail_from(q@, start as int, i as int) == tail_from(q@, 0, 0),
        decreases n - i,
    {
        if q[i] == '&' {
            let v = segment_tail(&q, start, i, &key);
            if v.is_some() {
                return v;
            }
            start = i + 1;
        }
        i = i + 1;
    }
    segment_tail(&q, start, n, &key)
}

fn segment_tail(q: &Vec<char>, start: usize, end: usize, key: &Vec<char>) -> (v: Option<i64>)
    requires
        start <= end <= q@.len(),
        key@ == "tail="@,
    ensures
        v == tail_value(q@.subrange(start as int, end as int)),
{
    if window_starts_with(q, start, end, key) {
        proof {
            assert(q@.subrange(start as int, end as int).skip(key@.len() as int) =~= q@.subrange(
                start + key@.len(),
                end as int,
            ));
        }
        parse_i64_chars(q, start + key.len(), end)
    } else {
        None
    }
}

fn not_implemented_message(method: &str, path: &str, from: usize) -> (m: String)
    requires
        from <= path@.len(),
    ensures
        m@ == "Endpoint not implemented: "@ + method@ + " "@ + path@.skip(from as int),
{
    let mut m = owned("Endpoint not implemented: ");
    m.append(method);
    m.append(" ");
    m.append(path.substring_char(from, path.unicode_len()));
    assert(path@.subrange(from as int, path@.len() as int) =~= path@.skip(from as int));
    m
}

/// The endpoint of a request with the given method, path and query.
pub fn route_request(method: &str, path: &str, query: &str) -> (route: Route)
    ensures
        ({
            let p = strip_version(path@);
            &&& route.kind() == route_kind(method@, p)
            &&& route matches Route::Start(id) ==> id@ == container_id_in(p, "/start"@)
            &&& route matches Route::Stop(id) ==> id@ == container_id_in(p, "/stop"@)
            &&& route matches Route::Delete(id) ==> id@ == trim_start(p, "/containers/"@)
            &&& route matches Route::Inspect(id) ==> id@ == container_id_in(p, "/json"@)
            &&& route matches Route::Logs { container_id, follow, tail } ==> container_id@
                == container_id_in(p, "/logs"@) && follow == follow_of_query(query@) && tail
                == tail_of_query(query@)
            &&& route matches Route::Wait(id) ==> id@ == container_id_in(p, "/wait"@)
            &&& route matches Route::ImageInspect(name) ==> image_name_in(p) == Some(name@)
            &&& route matches Route::VolumeInspect(name) ==> volume_name_in(p) == Some(name@)
            &&& route matches Route::NotImplemented(m) ==> m@ == "Endpoint not implemented: "@
                + method@ + " "@ + p
        }),
{
    let pc = chars_of(path);
    let n = pc.len();
    let v41 = chars_of("/v1.41");
    let v40 = chars_of("/v1.40");
    let v39 = chars_of("/v1.39");
    proof {
        assert(pc@.subrange(0, n as int) =~= path@);
    }
    let from: usize = if window_starts_with(&pc, 0, n, &v41) {
        v41.len()
    } else if window_starts_with(&pc, 0, n, &v40) {
        v40.len()
    } else if window_starts_with(&pc, 0, n, &v39) {
        v39.len()
    } else {
        0
    };
    let ghost p = strip_version(path@);
    proof {
        assert(pc@.subrange(from as int, n as int) =~= p);
    }
    let containers = chars_of("/containers/");
    let is_get = str_eq(method, "GET");
    let is_post = str_eq(method, "POST");
    let is_delete = str_eq(method, "DELETE");
    let in_containers = window_starts_with(&pc, from, n, &containers);
    let start_sfx = chars_of("/start");
    let stop_sfx = chars_of("/stop");
    let json_sfx = chars_of("/json");
    let logs_sfx = chars_of("/logs");
    let wait_sfx = chars_of("/wait");
    if is_get && window_eq(&pc, from, n, &chars_of("/_ping")) {
        Route::Ping
    } else if is_get && window_eq(&pc, from, n, &chars_of("/version")) {
        Route::Version
    } else if is_post && window_eq(&pc, from, n, &chars_of("/containers/create")) {
        Route::Create
    } else if is_post && in_containers && window_ends_with(&pc, from, n, &start_sfx) {
        Route::Start(container_id_at(path, &pc, from, &containers, &start_sfx))
    } else if is_post && in_containers && window_ends_with(&pc, from, n, &stop_sfx) {
        Route::Stop(container_id_at(path, &pc, from, &containers, &stop_sfx))
    } else if is_delete && in_containers {
        let a = trim_start_window(&pc, from, n, &containers);
        Route::Delete(owned(path.substring_char(a, n)))
    } else if is_get && in_containers && window_ends_with(&pc, from, n, &json_sfx) {
        Route::Inspect(container_id_at(path, &pc, from, &containers, &json_sfx))
    } else if is_get && in_containers && window_ends_with(&pc, from, n, &logs_sfx) {
        let container_id = container_id_at(path, &pc, from, &containers, &logs_sfx);
        let qc = chars_of(query);
        let follow = contains_chars(&qc, &chars_of("follow=true")) || contains_chars(
            &qc,
            &chars_of("follow=1"),
        );
        let tail = parse_tail_param(query);
        Route::Logs { container_id, follow, tail }
    } else if is_post && in_containers && window_ends_with(&pc, from, n, &wait_sfx) {
        Route::Wait(container_id_at(path, &pc, from, &containers, &wait_sfx))
    } else if is_post && window_eq(&pc, from, n, &chars_of("/images/create")) {
        Route::ImageCreate
    } else if is_get && image_path(&pc, from) {
        proof {
            assert(p.subrange(8, p.len() - 5) =~= pc@.subrange(from + 8, n - 5));
        }
        Route::ImageInspect(owned(path.substring_char(from + 8, n - 5)))
    } else if is_get && volume_path(&pc, from) {
        proof {
            assert(p.skip(9) =~= pc@.subrange(from + 9, n as int));
        }
        Route::VolumeInspect(owned(path.substring_char(from + 9, n)))
    } else {
        Route::NotImplemented(not_implemented_message(method, path, from))
    }
}

fn segment_window(s: &Vec<char>, from: usize, to: usize) -> (b: bool)
    requires
        from <= to <= s@.len(),
    ensures
        b == is_segment(s@.subrange(from as int, to as int)),
{
    if from == to {
        return false;
    }
    let mut i = from;
    while i < to
        invariant
            from <= i <= to <= s@.len(),
            forall|j: int| from <= j < i ==> s@[j] != '/',
        decreases to - i,
    {
        if s[i] == '/' {
            assert(s@.subrange(from as int, to as int)[i - from] == '/');
            return false;
        }
        i = i + 1;
    }
    true
}

fn image_path(pc: &Vec<char>, from: usize) -> (b: bool)
    requires
        from <= pc@.len(),
    ensures
        b <==> image_name_in(pc@.subrange(from as int, pc@.len() as int)) is Some,
        b ==> pc@.len() - from >= 14,
{
    let n = pc.len();
    let ghost p = pc@.subrange(from as int, n as int);
    let images = chars_of("/images/");
    let json = chars_of("/json");
    proof {
        reveal_strlit("/images/");
        reveal_strlit("/json");
    }
    if n - from >= 14 && window_starts_with(pc, from, n, &images) && window_ends_with(
        pc,
        from,
        n,
        &json,
    ) {
        assert(p.subrange(8, p.len() - 5) =~= pc@.subrange(from + 8, n - 5));
        pc[from + 8] != '/' && pc[n - 6] != '/'
    } else {
        false
    }
}

fn volume_path(pc: &Vec<char>, from: usize) -> (b: bool)
    requires
        from <= pc@.len(),
    ensures
        b <==> volume_name_in(pc@.subrange(from as int, pc@.len() as int)) is Some,
        b ==> pc@.len() - from >= 9,
{
    let n = pc.len();
    let ghost p = pc@.subrange(from as int, n as int);
    let volumes = chars_of("/volumes/");
    proof {
        reveal_strlit("/volumes/");
    }
    if window_starts_with(pc, from, n, &volumes) {
        let r = segment_window(pc, from + 9, n);
        assert(p.skip(9) =~= pc@.subrange(from + 9, n as int));
        r
    } else {
        false
    }
}

fn container_id_at(
    path: &str,
    pc: &Vec<char>,
    from: usize,
    prefix: &Vec<char>,
    suffix: &Vec<char>,
) -> (id: String)
    requires
        pc@ == path@,
        from <= pc@.len(),
    ensures
        id@ == trim_end(trim_start(pc@.subrange(from as int, pc@.len() as int), prefix@), suffix@),
{
    let n = pc.len();
    let a = trim_start_window(pc, from, n, prefix);
    let b = trim_end_window(pc, a, n, suffix);
    owned(path.substring_char(a, b))
}

} // verus!
