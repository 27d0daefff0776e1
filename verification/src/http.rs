//! The little of HTTP that the sensor reads: method, path and host of a
//! request, status of a response.

use vstd::prelude::*;
use crate::bytes::{copied, copy_bytes_bounded, first_where, first_where_unique, overwrite};
use crate::common::{HOST_LEN, METHOD_LEN, PATH_LEN};
use crate::maps::TLS_SCRATCH_LEN;

verus! {

/// How far into a request a Host header may begin.
pub const HOST_SCAN_LEN: usize = 400;

/// Whether a byte is a space.
pub open spec fn is_space(b: u8) -> bool {
    b == 0x20
}

/// Whether a byte ends a line.
pub open spec fn is_line_end(b: u8) -> bool {
    b == 0x0d || b == 0x0a
}

/// The smaller of two numbers.
pub open spec fn least(a: int, b: int) -> int {
    if a <= b {
        a
    } else {
        b
    }
}

/// Whether `s` begins with these three bytes.
pub open spec fn begins_with(s: Seq<u8>, a: u8, b: u8, c: u8) -> bool {
    s[0] == a && s[1] == b && s[2] == c
}

/// Whether `s` begins as a request does: GET, POST, PUT, DELETE, PATCH, HEAD
/// or OPTIONS, told by the first three letters.
pub open spec fn looks_like_request(s: Seq<u8>) -> bool {
    &&& s.len() >= 4
    &&& {
        ||| begins_with(s, 0x47, 0x45, 0x54)
        ||| begins_with(s, 0x50, 0x4f, 0x53)
        ||| begins_with(s, 0x50, 0x55, 0x54)
        ||| begins_with(s, 0x44, 0x45, 0x4c)
        ||| begins_with(s, 0x50, 0x41, 0x54)
        ||| begins_with(s, 0x48, 0x45, 0x41)
        ||| begins_with(s, 0x4f, 0x50, 0x54)
    }
}

/// Where the first space of a request stands, `s.len()` if none is found.
pub open spec fn first_space(s: Seq<u8>) -> int {
    let limit = least(s.len() as int, TLS_SCRATCH_LEN as int);
    let found = first_where(s, 0, limit, |b: u8| is_space(b));
    if found < limit {
        found
    } else {
        s.len() as int
    }
}

/// The method of a request: what stands before the first space, cut to seven
/// bytes; the first seven bytes where there is no space.
pub open spec fn request_method(s: Seq<u8>) -> Seq<u8> {
    if first_space(s) == s.len() {
        s.take(least(7, s.len() as int))
    } else {
        s.take(least(7, first_space(s)))
    }
}

/// The path of a request: what stands between the first space and the next,
/// cut to the room for a path.
pub open spec fn request_path(s: Seq<u8>) -> Seq<u8> {
    let start = first_space(s) + 1;
    if start >= s.len() {
        seq![]
    } else {
        let limit = least(start + PATH_LEN, s.len() as int);
        s.subrange(start, first_where(s, start, limit, |b: u8| is_space(b)))
    }
}

/// Whether a Host header begins at `i`: "host: " in letters of either case.
pub open spec fn host_header_at(s: Seq<u8>, i: int) -> bool {
    &&& (s[i] == 0x48 || s[i] == 0x68)
    &&& (s[i + 1] == 0x6f || s[i + 1] == 0x4f)
    &&& (s[i + 2] == 0x73 || s[i + 2] == 0x53)
    &&& (s[i + 3] == 0x74 || s[i + 3] == 0x54)
    &&& s[i + 4] == 0x3a
    &&& s[i + 5] == 0x20
}

/// The first place at or behind `i`, among those looked at, where a Host
/// header begins.
pub open spec fn find_host_header(s: Seq<u8>, i: int) -> Option<int>
    decreases HOST_SCAN_LEN - i,
{
    if i >= HOST_SCAN_LEN || i + 6 > s.len() {
        None
    } else if host_header_at(s, i) {
        Some(i)
    } else {
        find_host_header(s, i + 1)
    }
}

/// The value of the first Host header, up to the end of its line and cut to
/// the room for a host.
pub open spec fn request_host(s: Seq<u8>) -> Seq<u8> {
    match find_host_header(s, 0) {
        Some(i) => {
            let start = i + 6;
            let limit = least(start + HOST_LEN, s.len() as int);
            s.subrange(start, first_where(s, start, limit, |b: u8| is_line_end(b)))
        },
        None => seq![],
    }
}

/// Finds the first byte of `s` in `from..to` that is a space, or with
/// `line_end` set, that ends a line; `to` if there is none.
fn find_end(s: &[u8], from: usize, to: usize, line_end: bool) -> (r: usize)
    requires
        from <= to <= s@.len(),
    ensures
        from <= r <= to,
        !line_end ==> r == first_where(s@, from as int, to as int, |b: u8| is_space(b)),
        line_end ==> r == first_where(s@, from as int, to as int, |b: u8| is_line_end(b)),
{
    let mut i: usize = from;
    while i < to
        invariant
            from <= i <= to <= s@.len(),
            first_where(s@, from as int, to as int, |b: u8| is_space(b)) == first_where(
                s@,
                i as int,
                to as int,
                |b: u8| is_space(b),
            ) || line_end,
            first_where(s@, from as int, to as int, |b: u8| is_line_end(b)) == first_where(
                s@,
                i as int,
                to as int,
                |b: u8| is_line_end(b),
            ) || !line_end,
        decreases to - i,
    {
        let c = s[i];
        if !line_end && c == 0x20 {
            return i;
        }
        if line_end && (c == 0x0d || c == 0x0a) {
            return i;
        }
        i = i + 1;
    }
    i
}

fn min_len(a: usize, b: usize) -> (r: usize)
    ensures
        r == least(a as int, b as int),
{
    if a <= b {
        a
    } else {
        b
    }
}

/// Finds the first Host header.
fn search_host_header(s: &[u8]) -> (r: Option<usize>)
    ensures
        match r {
            Some(i) => find_host_header(s@, 0) == Some(i as int) && i + 6 <= s@.len(),
            None => find_host_header(s@, 0) is None,
        },
{
    let len = s.len();
    let mut i: usize = 0;
    while i < HOST_SCAN_LEN && 6 <= len && i <= len - 6
        invariant
            len == s@.len(),
            i <= HOST_SCAN_LEN,
            find_host_header(s@, 0) == find_host_header(s@, i as int),
        decreases HOST_SCAN_LEN - i,
    {
        if (s[i] == 0x48 || s[i] == 0x68) && (s[i + 1] == 0x6f || s[i + 1] == 0x4f) && (s[i + 2]
            == 0x73 || s[i + 2] == 0x53) && (s[i + 3] == 0x74 || s[i + 3] == 0x54) && s[i + 4]
            == 0x3a && s[i + 5] == 0x20 {
            return Some(i);
        }
        i = i + 1;
    }
    None
}

fn is_request(buf: &[u8]) -> (r: bool)
    ensures
        r == looks_like_request(buf@),
{
    if buf.len() < 4 {
        return false;
    }
    let (a, b, c) = (buf[0], buf[1], buf[2]);
    (a == 0x47 && b == 0x45 && c == 0x54) || (a == 0x50 && b == 0x4f && c == 0x53) || (a == 0x50
        && b == 0x55 && c == 0x54) || (a == 0x44 && b == 0x45 && c == 0x4c) || (a == 0x50 && b
        == 0x41 && c == 0x54) || (a == 0x48 && b == 0x45 && c == 0x41) || (a == 0x4f && b == 0x50
        && c == 0x54)
}

/// Reads method, path and host of the request in `buf`, each to the front of
/// its field, whose other bytes stay. Returns 1 if `buf` looks like a request,
/// else 0; then no field changes.
pub fn parse_http_request(
    buf: &[u8],
    host_out: &mut [u8; HOST_LEN],
    method_out: &mut [u8; METHOD_LEN],
    path_out: &mut [u8; PATH_LEN],
) -> (has_http: u8)
    ensures
        has_http == if looks_like_request(buf@) {
            1u8
        } else {
            0u8
        },
        looks_like_request(buf@) ==> {
            &&& final(method_out)@ == overwrite(old(method_out)@, request_method(buf@))
            &&& final(path_out)@ == overwrite(old(path_out)@, request_path(buf@))
            &&& final(host_out)@ == overwrite(old(host_out)@, request_host(buf@))
        },
        !looks_like_request(buf@) ==> {
            &&& final(method_out)@ == old(method_out)@
            &&& final(path_out)@ == old(path_out)@
            &&& final(host_out)@ == old(host_out)@
        },
{
    if !is_request(buf) {
        return 0;
    }
    let len = buf.len();
    let limit = min_len(len, TLS_SCRATCH_LEN);
    let found = find_end(buf, 0, limit, false);
    let space = if found < limit {
        found
    } else {
        len
    };
    assert(space == first_space(buf@));
    let method_end = if space == len {
        7
    } else {
        min_len(space, 7)
    };
    copy_bytes_bounded(method_out, buf, 0, method_end);
    assert(copied(buf@, 0, method_end as int, METHOD_LEN as int) =~= request_method(buf@));

    if space < len && space + 1 < len {
        let start = space + 1;
        let room = if PATH_LEN <= len - start {
            start + PATH_LEN
        } else {
            len
        };
        let end = find_end(buf, start, room, false);
        copy_bytes_bounded(path_out, buf, start, end - start);
        assert(copied(buf@, start as int, end - start, PATH_LEN as int) =~= request_path(buf@));
    } else {
        assert(path_out@ =~= overwrite(path_out@, request_path(buf@)));
    }

    match search_host_header(buf) {
        Some(at) => {
            let start = at + 6;
            let room = if HOST_LEN <= len - start {
                start + HOST_LEN
            } else {
                len
            };
            let end = find_end(buf, start, room, true);
            copy_bytes_bounded(host_out, buf, start, end - start);
            assert(copied(buf@, start as int, end - start, HOST_LEN as int) =~= request_host(buf@));
        },
        None => {
            assert(host_out@ =~= overwrite(host_out@, request_host(buf@)));
        },
    }
    1
}

/// Whether a byte is a decimal digit.
pub open spec fn is_digit(b: u8) -> bool {
    0x30 <= b <= 0x39
}

/// The status of the response in `s`: the three digits behind the first space
/// that follows "HTTP/"; 0 if `s` is no response or has no such digits.
pub open spec fn response_status(s: Seq<u8>) -> int {
    let limit = least(s.len() as int, TLS_SCRATCH_LEN as int);
    let space = first_where(s, 5, limit, |b: u8| is_space(b));
    let at = space + 1;
    if s.len() < 12 || s[0] != 0x48 || s[1] != 0x54 || s[2] != 0x54 || s[3] != 0x50 || s[4] != 0x2f
        {
        0
    } else if space >= limit || at + 3 > s.len() {
        0
    } else if is_digit(s[at]) && is_digit(s[at + 1]) && is_digit(s[at + 2]) {
        (s[at] - 0x30) * 100 + (s[at + 1] - 0x30) * 10 + (s[at + 2] - 0x30)
    } else {
        0
    }
}

/// Reads the status code of the response in `buf`, 0 if there is none.
pub fn parse_http_status(buf: &[u8]) -> (status: u16)
    ensures
        status == response_status(buf@),
{
    let len = buf.len();
    if len < 12 || buf[0] != 0x48 || buf[1] != 0x54 || buf[2] != 0x54 || buf[3] != 0x50 || buf[4]
        != 0x2f {
        return 0;
    }
    let limit = min_len(len, TLS_SCRATCH_LEN);
    let space = find_end(buf, 5, limit, false);
    if space >= limit || 3 > len - space - 1 {
        return 0;
    }
    let at = space + 1;
    let (a, b, c) = (buf[at], buf[at + 1], buf[at + 2]);
    if a < 0x30 || a > 0x39 || b < 0x30 || b > 0x39 || c < 0x30 || c > 0x39 {
        return 0;
    }
    ((a - 0x30) as u16) * 100 + ((b - 0x30) as u16) * 10 + ((c - 0x30) as u16)
}

/// A request with a Host header: `METHOD PATH ...`, whatever stands before
/// the header, and whatever follows its line.
pub open spec fn request_text(
    method: Seq<u8>,
    path: Seq<u8>,
    before: Seq<u8>,
    host: Seq<u8>,
    after: Seq<u8>,
) -> Seq<u8> {
    method + seq![0x20u8] + path + seq![0x20u8] + before + seq![
        0x48u8,
        0x6fu8,
        0x73u8,
        0x74u8,
        0x3au8,
        0x20u8,
    ] + host + seq![0x0du8, 0x0au8] + after
}

/// Where the Host header of [`request_text`] begins.
pub open spec fn host_header_place(method: Seq<u8>, path: Seq<u8>, before: Seq<u8>) -> int {
    method.len() as int + 1 + path.len() + 1 + before.len()
}

proof fn find_host_header_unique(s: Seq<u8>, from: int, k: int)
    requires
        0 <= from <= k < HOST_SCAN_LEN,
        k + 6 <= s.len(),
        host_header_at(s, k),
        forall|i: int| from <= i < k ==> !#[trigger] host_header_at(s, i),
    ensures
        find_host_header(s, from) == Some(k),
    decreases k - from,
{
    if from < k {
        find_host_header_unique(s, from + 1, k);
    }
}

/// Method, path and host of a request that fits the fields are the ones that
/// the client wrote.
pub proof fn request_parts_are_found(
    method: Seq<u8>,
    path: Seq<u8>,
    before: Seq<u8>,
    host: Seq<u8>,
    after: Seq<u8>,
)
    requires
        method.len() <= 7,
        path.len() <= PATH_LEN,
        host.len() <= HOST_LEN,
        forall|i: int| 0 <= i < method.len() ==> !is_space(#[trigger] method[i]),
        forall|i: int| 0 <= i < path.len() ==> !is_space(#[trigger] path[i]),
        forall|i: int| 0 <= i < host.len() ==> !is_line_end(#[trigger] host[i]),
        host_header_place(method, path, before) < HOST_SCAN_LEN,
        forall|i: int|
            0 <= i < host_header_place(method, path, before) ==> !#[trigger] host_header_at(
                request_text(method, path, before, host, after),
                i,
            ),
    ensures
        request_method(request_text(method, path, before, host, after)) == method,
        request_path(request_text(method, path, before, host, after)) == path,
        request_host(request_text(method, path, before, host, after)) == host,
{
    let s = request_text(method, path, before, host, after);
    let space = |b: u8| is_space(b);
    let m = method.len() as int;
    let limit = least(s.len() as int, TLS_SCRATCH_LEN as int);
    assert(s[m] == 0x20);
    assert forall|i: int| 0 <= i < m implies !space(#[trigger] s[i]) by {
        assert(s[i] == method[i]);
    }
    first_where_unique(s, 0, limit, space, m);
    assert(first_space(s) == m);
    assert(request_method(s) =~= method);

    let start = m + 1;
    let stop = start + path.len();
    let path_limit = least(start + PATH_LEN, s.len() as int);
    assert(s[stop] == 0x20);
    assert forall|i: int| start <= i < stop implies !space(#[trigger] s[i]) by {
        assert(s[i] == path[i - start]);
    }
    first_where_unique(s, start, path_limit, space, stop);
    assert(request_path(s) =~= path);

    let at = host_header_place(method, path, before);
    assert(host_header_at(s, at));
    find_host_header_unique(s, 0, at);
    let line_end = |b: u8| is_line_end(b);
    let value = at + 6;
    let end = value + host.len();
    let host_limit = least(value + HOST_LEN, s.len() as int);
    assert(s[end] == 0x0d);
    assert forall|i: int| value <= i < end implies !line_end(#[trigger] s[i]) by {
        assert(s[i] == host[i - value]);
    }
    first_where_unique(s, value, host_limit, line_end, end);
    assert(request_host(s) =~= host);
}

/// The status code that a server writes is the one found.
pub proof fn response_status_is_found(
    version: Seq<u8>,
    a: u8,
    b: u8,
    c: u8,
    rest: Seq<u8>,
)
    requires
        is_digit(a),
        is_digit(b),
        is_digit(c),
        forall|i: int| 0 <= i < version.len() ==> !is_space(#[trigger] version[i]),
        5 + version.len() < TLS_SCRATCH_LEN,
        version.len() + rest.len() >= 3,
    ensures
        response_status(
            seq![0x48u8, 0x54u8, 0x54u8, 0x50u8, 0x2fu8] + version + seq![0x20u8, a, b, c] + rest,
        ) == (a - 0x30) * 100 + (b - 0x30) * 10 + (c - 0x30),
{
    let s = seq![0x48u8, 0x54u8, 0x54u8, 0x50u8, 0x2fu8] + version + seq![0x20u8, a, b, c] + rest;
    let space = |x: u8| is_space(x);
    let k = 5 + version.len() as int;
    assert(s[k] == 0x20);
    assert forall|i: int| 5 <= i < k implies !space(#[trigger] s[i]) by {
        assert(s[i] == version[i - 5]);
    }
    first_where_unique(s, 5, least(s.len() as int, TLS_SCRATCH_LEN as int), space, k);
}

/// A status has at most three digits.
pub proof fn response_status_has_three_digits(s: Seq<u8>)
    ensures
        0 <= response_status(s) <= 999,
{
}

} // verus!
