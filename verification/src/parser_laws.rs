//! What the parsers find in bytes that a client or a server wrote, whatever
//! stands around them and however long the buffer is.

use vstd::prelude::*;
use crate::bytes::{copied, first_where, first_where_is_least, first_where_unique, overwrite};
use crate::client_hello::{extensions_span, scan_extensions, server_name_span, sni};
use crate::http::{
    find_host_header, first_space, is_line_end, is_space, looks_like_request, request_host,
    request_method, request_path, request_text, response_status,
};
use crate::maps::{FlowKey, FlowState};
use crate::tcp_lifecycle::close_event;
use crate::tls::{shows_tls, window, wrote_row};

verus! {

/// `s` begins with the first three letters of `name`.
pub open spec fn begins_like(s: Seq<u8>, name: Seq<char>) -> bool {
    s.len() >= 3 && s[0] == name[0] as u8 && s[1] == name[1] as u8 && s[2] == name[2] as u8
}

/// `name` is a method that the sensor knows.
pub open spec fn is_known_method(name: Seq<char>) -> bool {
    name == "GET"@ || name == "POST"@ || name == "PUT"@ || name == "DELETE"@ || name == "PATCH"@
        || name == "HEAD"@ || name == "OPTIONS"@
}

/// The letters of a name, one byte each.
pub open spec fn letters(name: Seq<char>) -> Seq<u8> {
    name.map_values(|c: char| c as u8)
}

proof fn reveal_methods()
    ensures
        "GET"@ == seq!['G', 'E', 'T'],
        "POST"@ == seq!['P', 'O', 'S', 'T'],
        "PUT"@ == seq!['P', 'U', 'T'],
        "DELETE"@ == seq!['D', 'E', 'L', 'E', 'T', 'E'],
        "PATCH"@ == seq!['P', 'A', 'T', 'C', 'H'],
        "HEAD"@ == seq!['H', 'E', 'A', 'D'],
        "OPTIONS"@ == seq!['O', 'P', 'T', 'I', 'O', 'N', 'S'],
{
    reveal_strlit("GET");
    reveal_strlit("POST");
    reveal_strlit("PUT");
    reveal_strlit("DELETE");
    reveal_strlit("PATCH");
    reveal_strlit("HEAD");
    reveal_strlit("OPTIONS");
    assert("GET"@ =~= seq!['G', 'E', 'T']);
    assert("POST"@ =~= seq!['P', 'O', 'S', 'T']);
    assert("PUT"@ =~= seq!['P', 'U', 'T']);
    assert("DELETE"@ =~= seq!['D', 'E', 'L', 'E', 'T', 'E']);
    assert("PATCH"@ =~= seq!['P', 'A', 'T', 'C', 'H']);
    assert("HEAD"@ =~= seq!['H', 'E', 'A', 'D']);
    assert("OPTIONS"@ =~= seq!['O', 'P', 'T', 'I', 'O', 'N', 'S']);
}

/// Bytes are taken for a request exactly if there are four or more and they
/// begin like a known method, however many there are.
pub proof fn requests_are_told_by_their_method(s: Seq<u8>)
    ensures
        looks_like_request(s) <==> s.len() >= 4 && exists|name: Seq<char>|
            is_known_method(name) && #[trigger] begins_like(s, name),
{
    reveal_methods();
    if s.len() >= 4 && looks_like_request(s) {
        assert(begins_like(s, "GET"@) || begins_like(s, "POST"@) || begins_like(s, "PUT"@)
            || begins_like(s, "DELETE"@) || begins_like(s, "PATCH"@) || begins_like(s, "HEAD"@)
            || begins_like(s, "OPTIONS"@));
    }
}

/// A request with a known method is recognised in every buffer that holds its
/// first four bytes, also one that cuts it short.
pub proof fn cut_request_is_recognised(
    method: Seq<char>,
    path: Seq<u8>,
    before: Seq<u8>,
    host: Seq<u8>,
    after: Seq<u8>,
    n: int,
)
    requires
        is_known_method(method),
        4 <= n <= request_text(letters(method), path, before, host, after).len(),
    ensures
        looks_like_request(request_text(letters(method), path, before, host, after).take(n)),
{
    reveal_methods();
    let s = request_text(letters(method), path, before, host, after);
    let cut = s.take(n);
    assert(letters(method).len() == method.len());
    assert(cut[0] == s[0] && s[0] == letters(method)[0]);
    assert(cut[1] == s[1] && s[1] == letters(method)[1]);
    assert(cut[2] == s[2] && s[2] == letters(method)[2]);
    assert(begins_like(cut, method));
    requests_are_told_by_their_method(cut);
}

/// No space stands in `s` before `k`, and one stands there, within the bytes
/// that are looked at.
pub open spec fn first_space_at(s: Seq<u8>, k: int) -> bool {
    &&& 0 <= k < s.len() && k < 512
    &&& s[k] == 0x20
    &&& forall|i: int| 0 <= i < k ==> #[trigger] s[i] != 0x20
}

/// `r` stands in `s` at `from`, holds none of the bytes that `stop` tells, and
/// goes as far as it can: up to such a byte, the end of `s`, or 256 bytes.
pub open spec fn runs_from(s: Seq<u8>, from: int, r: Seq<u8>, stop: spec_fn(u8) -> bool) -> bool {
    &&& from + r.len() <= s.len()
    &&& r.len() <= 256
    &&& r == s.subrange(from, from + r.len())
    &&& forall|i: int| 0 <= i < r.len() ==> !stop(#[trigger] r[i])
    &&& r.len() == 256 || from + r.len() == s.len() || stop(s[from + r.len()])
}

/// The method ends at the first space, and is cut to seven bytes; the path runs
/// from behind that space up to the next one.
pub proof fn request_line_is_split_at_spaces(s: Seq<u8>, k: int)
    requires
        first_space_at(s, k),
    ensures
        request_method(s) == s.take(
            if k < 7 {
                k
            } else {
                7
            },
        ),
        runs_from(s, k + 1, request_path(s), |b: u8| b == 0x20),
{
    let limit = if s.len() <= 512 {
        s.len() as int
    } else {
        512
    };
    let space = |b: u8| is_space(b);
    first_where_unique(s, 0, limit, space, k);
    assert(first_space(s) == k);
    let start = k + 1;
    let r = request_path(s);
    if start < s.len() {
        let end = if start + 256 <= s.len() {
            start + 256
        } else {
            s.len() as int
        };
        first_where_is_least(s, start, end, space);
        let stop = first_where(s, start, end, space);
        assert(r == s.subrange(start, stop));
        assert forall|i: int| 0 <= i < r.len() implies #[trigger] r[i] != 0x20 by {
            assert(r[i] == s[start + i]);
            assert(!space(s[start + i]));
        }
        if stop < end {
            assert(space(s[stop]));
        }
    } else {
        assert(r =~= s.subrange(start, start));
    }
}

/// Where no space is found, the method is what stands in front, cut to seven
/// bytes, and there is no path.
pub proof fn request_line_without_a_space(s: Seq<u8>)
    requires
        s.len() >= 7,
        forall|i: int| 0 <= i < s.len() && i < 512 ==> #[trigger] s[i] != 0x20,
    ensures
        request_method(s) == s.take(7),
        request_path(s).len() == 0,
{
    let limit = if s.len() <= 512 {
        s.len() as int
    } else {
        512
    };
    let space = |b: u8| is_space(b);
    first_where_is_least(s, 0, limit, space);
    let found = first_where(s, 0, limit, space);
    if found < limit {
        assert(space(s[found]));
        assert(s[found] != 0x20);
    }
}

/// "host: " stands in `s` at `i`, in letters of either case.
pub open spec fn host_stands_at(s: Seq<u8>, i: int) -> bool {
    &&& 0 <= i && i + 6 <= s.len()
    &&& s[i] == 'h' as u8 || s[i] == 'H' as u8
    &&& s[i + 1] == 'o' as u8 || s[i + 1] == 'O' as u8
    &&& s[i + 2] == 's' as u8 || s[i + 2] == 'S' as u8
    &&& s[i + 3] == 't' as u8 || s[i + 3] == 'T' as u8
    &&& s[i + 4] == ':' as u8
    &&& s[i + 5] == ' ' as u8
}

proof fn host_search(s: Seq<u8>, from: int, k: int)
    requires
        0 <= from <= k <= 400,
        k < 400 ==> host_stands_at(s, k),
        forall|i: int| from <= i < k ==> !#[trigger] host_stands_at(s, i),
    ensures
        find_host_header(s, from) == if k < 400 {
            Some(k)
        } else {
            None
        },
    decreases k - from,
{
    if from < k && from + 6 <= s.len() {
        assert(!host_stands_at(s, from));
        host_search(s, from + 1, k);
    }
}

/// The host is what stands behind the first Host header that begins among the
/// first four hundred bytes, up to the end of its line.
pub proof fn host_is_behind_its_header(s: Seq<u8>, k: int)
    requires
        0 <= k < 400,
        host_stands_at(s, k),
        forall|i: int| 0 <= i < k ==> !#[trigger] host_stands_at(s, i),
    ensures
        runs_from(s, k + 6, request_host(s), |b: u8| b == 0x0d || b == 0x0a),
{
    host_search(s, 0, k);
    let line_end = |b: u8| is_line_end(b);
    let start = k + 6;
    let end = if start + 256 <= s.len() {
        start + 256
    } else {
        s.len() as int
    };
    first_where_is_least(s, start, end, line_end);
    let stop = first_where(s, start, end, line_end);
    let r = request_host(s);
    assert(r == s.subrange(start, stop));
    assert forall|i: int| 0 <= i < r.len() implies !(r[i] == 0x0d || #[trigger] r[i] == 0x0a) by {
        assert(r[i] == s[start + i]);
        assert(!line_end(s[start + i]));
    }
    if stop < end {
        assert(line_end(s[stop]));
    }
}

/// Without a Host header among the first four hundred bytes there is no host.
pub proof fn no_header_gives_no_host(s: Seq<u8>)
    requires
        forall|i: int| 0 <= i < 400 ==> !#[trigger] host_stands_at(s, i),
    ensures
        request_host(s).len() == 0,
{
    host_search(s, 0, 400);
}

/// `field` holds `text` at its front and zeros behind.
pub open spec fn holds_text(field: Seq<u8>, text: Seq<u8>) -> bool {
    &&& text.len() <= field.len()
    &&& forall|i: int|
        0 <= i < field.len() ==> #[trigger] field[i] == if i < text.len() {
            text[i]
        } else {
            0
        }
}

/// A request that a client writes through its TLS library is reported with its
/// method, path and host, if the part that is looked at holds them, however
/// much follows.
pub proof fn written_request_is_reported(
    method: Seq<char>,
    path: Seq<u8>,
    before: Seq<u8>,
    host: Seq<u8>,
    after: Seq<u8>,
    len: u32,
    ts_ns: u64,
    write_now: u64,
    pre: FlowState,
    post: FlowState,
    key: FlowKey,
    now: u64,
)
    requires
        is_known_method(method),
        path.len() <= 256 && host.len() <= 256,
        forall|i: int| 0 <= i < path.len() ==> #[trigger] path[i] != 0x20,
        forall|i: int| 0 <= i < host.len() ==> #[trigger] host[i] != 0x0d && host[i] != 0x0a,
        ({
            let s = request_text(letters(method), path, before, host, after);
            let at = method.len() + path.len() + before.len() + 2;
            &&& len == s.len()
            &&& at < 400
            &&& at + 6 + host.len() < 512
            &&& forall|i: int| 0 <= i < at ==> !#[trigger] host_stands_at(s, i)
            &&& wrote_row(pre, s.take(window(len) as int), ts_ns, write_now, post)
        }),
        holds_text(pre.http_method@, seq![]),
        holds_text(pre.http_path@, seq![]),
        holds_text(pre.http_host@, seq![]),
    ensures
        ({
            let e = close_event(key, post, now);
            &&& e.has_http == 1
            &&& holds_text(e.http_method@, letters(method))
            &&& holds_text(e.http_path@, path)
            &&& holds_text(e.http_host@, host)
        }),
{
    reveal_methods();
    let m = letters(method);
    let s = request_text(m, path, before, host, after);
    let n = window(len) as int;
    assert(n == if s.len() <= 512 {
        s.len() as int
    } else {
        512
    });
    let w = s.take(n);
    let k = m.len() as int;
    let at = k + path.len() + before.len() + 2;
    cut_request_is_recognised(method, path, before, host, after, n);
    assert forall|i: int| 0 <= i < k implies #[trigger] w[i] != 0x20 by {
        assert(w[i] == m[i]);
    }
    assert(w[k] == s[k] && s[k] == 0x20);
    request_line_is_split_at_spaces(w, k);
    assert(request_method(w) =~= m);
    let p = request_path(w);
    assert(p =~= path) by {
        let stop = k + 1 + path.len();
        assert(w[stop] == s[stop] && s[stop] == 0x20);
        assert forall|i: int| 0 <= i < path.len() implies w[k + 1 + i] == #[trigger] path[i] by {
            assert(s[k + 1 + i] == path[i]);
        }
        if p.len() < path.len() {
            assert(w[k + 1 + p.len()] == path[p.len() as int]);
        }
        if p.len() > path.len() {
            assert(p[path.len() as int] == w[stop]);
        }
    }
    assert forall|i: int| 0 <= i < at implies !#[trigger] host_stands_at(w, i) by {
        if host_stands_at(w, i) {
            assert(w[i] == s[i] && w[i + 1] == s[i + 1] && w[i + 2] == s[i + 2] && w[i + 3] == s[i
                + 3] && w[i + 4] == s[i + 4] && w[i + 5] == s[i + 5]);
            assert(host_stands_at(s, i));
        }
    }
    assert(host_stands_at(w, at)) by {
        assert(w[at] == s[at] && w[at + 1] == s[at + 1] && w[at + 2] == s[at + 2] && w[at + 3]
            == s[at + 3] && w[at + 4] == s[at + 4] && w[at + 5] == s[at + 5]);
        assert(s[at] == 0x48 && s[at + 1] == 0x6f && s[at + 2] == 0x73 && s[at + 3] == 0x74 && s[at
            + 4] == 0x3a && s[at + 5] == 0x20);
    }
    host_is_behind_its_header(w, at);
    let h = request_host(w);
    assert(h =~= host) by {
        let value = at + 6;
        let stop = value + host.len();
        assert(w[stop] == s[stop] && s[stop] == 0x0d);
        assert forall|i: int| 0 <= i < host.len() implies w[value + i] == #[trigger] host[i] by {
            assert(s[value + i] == host[i]);
        }
        if h.len() < host.len() {
            assert(w[value + h.len()] == host[h.len() as int]);
        }
        if h.len() > host.len() {
            assert(h[host.len() as int] == w[stop]);
        }
    }
}

/// What follows a copied text in its field stays: of a field that is written to
/// again, only the front changes.
pub proof fn fields_are_written_in_place(field: Seq<u8>, text: Seq<u8>, i: int)
    requires
        text.len() <= field.len(),
        0 <= i < field.len(),
    ensures
        overwrite(field, text).len() == field.len(),
        overwrite(field, text)[i] == if i < text.len() {
            text[i]
        } else {
            field[i]
        },
{
}

/// A copy takes as many bytes as were asked for, as there is room for, and as
/// there are.
pub proof fn copies_stay_in_bounds(src: Seq<u8>, start: int, cnt: int, room: int)
    requires
        0 <= start && 0 <= cnt && 0 <= room,
    ensures
        ({
            let r = copied(src, start, cnt, room);
            &&& r.len() <= cnt && r.len() <= room
            &&& r.len() == cnt || r.len() == room || start + r.len() >= src.len()
            &&& forall|i: int| 0 <= i < r.len() ==> start + i < src.len() && #[trigger] r[i]
                == src[start + i]
        }),
{
}

/// `s` begins like a response, its first space behind "HTTP/" stands at `k`,
/// and three digits follow.
pub open spec fn has_status_behind(s: Seq<u8>, k: int) -> bool {
    &&& s.len() >= 12
    &&& s[0] == 'H' as u8 && s[1] == 'T' as u8 && s[2] == 'T' as u8 && s[3] == 'P' as u8 && s[4]
        == '/' as u8
    &&& 5 <= k < 512 && k + 3 < s.len()
    &&& s[k] == 0x20
    &&& forall|i: int| 5 <= i < k ==> #[trigger] s[i] != 0x20
    &&& '0' as u8 <= s[k + 1] <= '9' as u8
    &&& '0' as u8 <= s[k + 2] <= '9' as u8
    &&& '0' as u8 <= s[k + 3] <= '9' as u8
}

/// The status of a response is the number that its three digits spell, however
/// long the response is; what is no such response has none.
pub proof fn status_is_what_the_digits_spell(s: Seq<u8>)
    ensures
        forall|k: int| #[trigger]
            has_status_behind(s, k) ==> response_status(s) == (s[k + 1] - '0' as u8) * 100 + (s[k
                + 2] - '0' as u8) * 10 + (s[k + 3] - '0' as u8),
        (forall|k: int| !#[trigger] has_status_behind(s, k)) ==> response_status(s) == 0,
{
    let limit = if s.len() <= 512 {
        s.len() as int
    } else {
        512
    };
    let space = |b: u8| is_space(b);
    assert forall|k: int| #[trigger] has_status_behind(s, k) implies response_status(s) == (s[k + 1]
        - '0' as u8) * 100 + (s[k + 2] - '0' as u8) * 10 + (s[k + 3] - '0' as u8) by {
        first_where_unique(s, 5, limit, space, k);
    }
    if s.len() >= 12 && (forall|k: int| !#[trigger] has_status_behind(s, k)) {
        let k = first_where(s, 5, limit, space);
        first_where_is_least(s, 5, limit, space);
        if k < limit {
            assert(space(s[k]));
            assert forall|i: int| 5 <= i < k implies #[trigger] s[i] != 0x20 by {
                assert(!space(s[i]));
            }
            assert(!has_status_behind(s, k));
        }
    }
}

/// The two bytes at `i` are the number `n`, the high byte first.
pub open spec fn number_at(s: Seq<u8>, i: int, n: int) -> bool {
    0 <= i && i + 2 <= s.len() && s[i] == n / 256 && s[i + 1] == n % 256
}

/// A ClientHello stands at the front of `s` with a session id of `a` bytes,
/// cipher suites of `c`, compression methods of `m` and extensions of `x`.
pub open spec fn is_hello(s: Seq<u8>, a: int, c: int, m: int, x: int) -> bool {
    &&& s.len() >= 44 && 0 <= a < 256 && 0 <= c < 65536 && 0 <= m < 256 && 0 <= x < 65536
    &&& s[0] == 0x16 && s[1] == 3 && s[5] == 1
    &&& 5 + s[3] * 256 + s[4] <= s.len()
    &&& s[43] == a
    &&& number_at(s, 44 + a, c)
    &&& 46 + a + c < s.len() && s[46 + a + c] == m
    &&& number_at(s, 47 + a + c + m, x)
    &&& 49 + a + c + m + x <= s.len()
}

/// The extensions of a ClientHello stand behind its session id, cipher suites
/// and compression methods, whatever their lengths are.
pub proof fn extensions_stand_behind_the_lists(s: Seq<u8>, a: int, c: int, m: int, x: int)
    requires
        is_hello(s, a, c, m, x),
    ensures
        extensions_span(s) == Some((49 + a + c + m, 49 + a + c + m + x)),
{
}

/// What has no extensions to look at is no ClientHello.
pub proof fn extensions_are_those_of_a_hello(s: Seq<u8>)
    ensures
        extensions_span(s) is Some ==> exists|a: int, c: int, m: int, x: int|
            is_hello(s, a, c, m, x),
{
    if extensions_span(s) is Some {
        let a = s[43] as int;
        let c = s[44 + a] * 256 + s[45 + a];
        let m = s[46 + a + c] as int;
        let x = s[47 + a + c + m] * 256 + s[48 + a + c + m];
        assert(is_hello(s, a, c, m, x));
    }
}

/// The body of a server_name extension, `len` bytes at `p`, names a host of `n`
/// bytes first; others may follow.
pub open spec fn names_host(s: Seq<u8>, p: int, len: int, n: int) -> bool {
    &&& 0 <= p && 0 < n <= 256 && 5 + n <= len && p + len <= s.len()
    &&& 3 <= s[p] * 256 + s[p + 1] <= len - 2
    &&& s[p + 2] == 0
    &&& number_at(s, p + 3, n)
}

/// The first host of a server_name extension is the one that it names.
pub proof fn first_host_is_named(s: Seq<u8>, p: int, len: int)
    requires
        0 <= p && p + len <= s.len(),
    ensures
        forall|n: int| #[trigger]
            names_host(s, p, len, n) ==> server_name_span(s, p, len) == Some((p + 5, n)),
        server_name_span(s, p, len) is Some ==> exists|n: int| names_host(s, p, len, n),
{
    if server_name_span(s, p, len) is Some {
        let n = s[p + 3] * 256 + s[p + 4];
        assert(names_host(s, p, len, n));
    }
}

/// An extension stands in `s` at `p`, before `end`: its number and the length
/// of its body.
pub open spec fn extension_at(s: Seq<u8>, p: int, end: int, number: int, len: int) -> bool {
    &&& 0 <= number < 65536 && 0 <= len < 65536
    &&& number_at(s, p, number) && number_at(s, p + 2, len)
    &&& p + 4 + len <= end <= s.len()
}

/// Extensions are gone through one by one: a server_name that names a host ends
/// the search, and any other extension is passed over, whatever its length.
pub proof fn extensions_are_gone_through(
    s: Seq<u8>,
    p: int,
    end: int,
    number: int,
    len: int,
    left: nat,
)
    requires
        extension_at(s, p, end, number, len),
        left > 0,
    ensures
        forall|n: int| #[trigger]
            names_host(s, p + 4, len, n) && number == 0 ==> scan_extensions(s, p, end, left)
                == Some((p + 9, n)),
        (number != 0 || forall|n: int| !#[trigger] names_host(s, p + 4, len, n))
            ==> scan_extensions(s, p, end, left) == scan_extensions(
            s,
            p + 4 + len,
            end,
            (left - 1) as nat,
        ),
{
    first_host_is_named(s, p + 4, len);
    if number == 0 && server_name_span(s, p + 4, len) is Some {
        let body = p + 4;
        let n = choose|n: int| #[trigger] names_host(s, body, len, n);
        assert(names_host(s, p + 4, len, n));
    }
}

/// The search ends without a name where no extension fits any more, and after
/// as many as are looked at.
pub proof fn search_ends(s: Seq<u8>, p: int, end: int, left: nat)
    requires
        0 <= p && end <= s.len(),
        left == 0 || forall|number: int, len: int| !#[trigger] extension_at(s, p, end, number, len),
    ensures
        scan_extensions(s, p, end, left) is None,
{
    if left > 0 && p + 4 <= end {
        let number = s[p] * 256 + s[p + 1];
        let len = s[p + 2] * 256 + s[p + 3];
        assert(!extension_at(s, p, end, number, len));
    }
}

/// The name is looked for in all the extensions of the ClientHello, up to
/// forty-eight of them, and is the bytes that stand where it was found.
pub proof fn name_is_looked_for_in_the_extensions(s: Seq<u8>, a: int, c: int, m: int, x: int)
    requires
        is_hello(s, a, c, m, x),
    ensures
        ({
            let start = 49 + a + c + m;
            match scan_extensions(s, start, start + x, 48) {
                Some((at, n)) => sni(s) == Some(s.subrange(at, at + n)),
                None => sni(s) is None,
            }
        }),
{
    extensions_stand_behind_the_lists(s, a, c, m, x);
}

/// A name is found only in a ClientHello.
pub proof fn names_are_found_in_hellos_alone(s: Seq<u8>)
    ensures
        sni(s) is Some ==> exists|a: int, c: int, m: int, x: int| is_hello(s, a, c, m, x),
{
    extensions_are_those_of_a_hello(s);
}

/// Written bytes show TLS exactly if they name a server, or begin as the record
/// of a ClientHello does, however many there are.
pub proof fn tls_is_told_by_its_record(s: Seq<u8>)
    ensures
        sni(s) is Some ==> shows_tls(s),
        s.len() >= 6 && s[0] == 0x16 && s[5] == 1 ==> shows_tls(s),
        shows_tls(s) ==> s.len() >= 6 && s[0] == 0x16 && s[5] == 1,
{
    if sni(s) is Some {
        names_are_found_in_hellos_alone(s);
    }
}

/// Of a buffer, all is looked at up to 512 bytes.
pub proof fn window_is_the_front(len: u32)
    ensures
        window(len) <= len && window(len) <= 512,
        window(len) == len || window(len) == 512,
{
}

} // verus!
