//! What holds of userspace: which flows are reported, what is found out about
//! them, and where libraries are looked for.

use vstd::prelude::*;
use vstd::string::*;
use vstd::utf8::{
    encode_utf8, encode_utf8_decode_utf8, encode_utf8_valid_utf8, is_char_boundary,
};
use crate::common::FlowEvent;
use crate::enricher::{
    cgroup_text, command_line, is_enriched, is_public, k8s_names, lacks_cgroup, octet,
    parent_line, parent_pid, shown_bytes, spoken_protocol, usual_protocol, EnrichedFlow,
    ProcFiles,
};
use crate::filter::{listed_numbers, listed_pids, listed_ports, numbers_among, EventFilter};
use crate::k8s::{cgroup_path, container_of, k8s_identity, last_filled, pod_of};
use crate::numbers::parse_number;
use crate::output_laws::{field_tells, told_text_is_read};
use crate::text::{
    contains, equals, first_char_is, lines, split, split_at_sep, split_of_one, stands_at,
    strip_all, trim, words,
};
use crate::text_laws::{
    encoding_goes_on, text_is_cut_between_characters, text_is_not_cut_inside_a_character,
};

verus! {

/// A flow is reported exactly if it lasted the least duration, goes from or to one of
/// the ports if any are given, has retransmits if those are asked for, and its chain is a
/// multiple of the sample rate.
pub proof fn reported_flows_satisfy_the_filter(filter: EventFilter, e: FlowEvent)
    ensures
        filter.accepts(e) <==> {
            &&& e.duration_ns >= filter.min_duration_ms * 1_000_000
            &&& filter.port_filter@.len() > 0 ==> exists|i: int|
                0 <= i < filter.port_filter@.len() && (#[trigger] filter.port_filter@[i]
                    == e.src_port || filter.port_filter@[i] == e.dst_port)
            &&& filter.retransmits_only ==> e.retransmit_count != 0
            &&& filter.sample_rate > 1 ==> exists|k: int|
                e.chain_id == #[trigger] (k * filter.sample_rate)
        },
{
    let ports = filter.port_filter@;
    assert(e.duration_ns / 1_000_000 >= filter.min_duration_ms <==> e.duration_ns
        >= filter.min_duration_ms * 1_000_000);
    if ports.len() > 0 {
        if ports.contains(e.src_port) {
            let i = choose|i: int| 0 <= i < ports.len() && ports[i] == e.src_port;
            assert(ports[i] == e.src_port);
        }
        if ports.contains(e.dst_port) {
            let i = choose|i: int| 0 <= i < ports.len() && ports[i] == e.dst_port;
            assert(ports[i] == e.dst_port);
        }
    }
    if filter.sample_rate > 1 {
        let n = filter.sample_rate as int;
        let c = e.chain_id as int;
        if c % n == 0 {
            vstd::arithmetic::div_mod::lemma_fundamental_div_mod(c, n);
            let k = c / n;
            assert(c == k * n) by (nonlinear_arith)
                requires
                    c == n * (c / n) + c % n,
                    c % n == 0,
                    k == c / n,
            ;
            assert(c == k * filter.sample_rate);
        }
        if exists|k: int| e.chain_id == #[trigger] (k * filter.sample_rate) {
            let k = choose|k: int| e.chain_id == #[trigger] (k * filter.sample_rate);
            vstd::arithmetic::div_mod::lemma_mod_multiples_basic(k, n);
        }
    }
}

/// A piece of a list gives its number, white space around it aside; a piece that is no
/// number up to the limit gives none.
pub open spec fn gives(piece: Seq<char>, max: int) -> Seq<int> {
    match parse_number(trim(piece), max) {
        Some(n) => seq![n],
        None => seq![],
    }
}

proof fn numbers_go_on(first: Seq<char>, rest: Seq<Seq<char>>, max: int)
    ensures
        numbers_among(seq![first] + rest, max) == gives(first, max) + numbers_among(rest, max),
    decreases rest.len(),
{
    let all = seq![first] + rest;
    if rest.len() == 0 {
        reveal_with_fuel(numbers_among, 2);
        assert(all.drop_last() =~= rest);
        assert(all.last() == first);
        assert(numbers_among(all, max) =~= gives(first, max) + numbers_among(rest, max));
    } else {
        numbers_go_on(first, rest.drop_last(), max);
        assert(all.drop_last() =~= seq![first] + rest.drop_last());
        assert(all.last() == rest.last());
        assert(numbers_among(all, max) =~= gives(first, max) + numbers_among(rest, max));
    }
}

proof fn listed_piece_by_piece(piece: Seq<char>, rest: Seq<char>, max: int)
    requires
        !piece.contains(','),
    ensures
        listed_numbers(piece + seq![','] + rest, max) == gives(piece, max) + listed_numbers(
            rest,
            max,
        ),
        listed_numbers(piece, max) == gives(piece, max),
{
    split_at_sep(piece, ',', rest);
    split_of_one(piece, ',');
    numbers_go_on(piece, split(rest, ','), max);
    numbers_go_on(piece, seq![], max);
    assert(seq![piece] + Seq::<Seq<char>>::empty() =~= seq![piece]);
    assert(gives(piece, max) + numbers_among(seq![], max) =~= gives(piece, max));
}

/// Ports and process ids are read piece by piece, from comma to comma; ports go up to
/// 65535, process ids up to 4294967295.
pub proof fn lists_are_read_piece_by_piece(piece: Seq<char>, rest: Seq<char>)
    requires
        !piece.contains(','),
    ensures
        listed_ports(piece + ","@ + rest) == gives(piece, 65535) + listed_ports(rest),
        listed_ports(piece) == gives(piece, 65535),
        listed_pids(piece + ","@ + rest) == gives(piece, 4294967295) + listed_pids(rest),
        listed_pids(piece) == gives(piece, 4294967295),
{
    reveal_strlit(",");
    assert(","@ =~= seq![',']);
    listed_piece_by_piece(piece, rest, 65535);
    listed_piece_by_piece(piece, rest, 4294967295);
}

/// The number of an address, its first byte highest.
pub open spec fn address_number(a: u8, b: u8, c: u8, d: u8) -> int {
    a * 0x100_0000 + b * 0x1_0000 + c * 0x100 + d
}

/// The number of an address lies in a block that is not public: 10/8, 172.16/12,
/// 192.168/16, 127/8, 169.254/16, 192.0.2/24, 198.51.100/24, 203.0.113/24, and the
/// first and the last of all.
pub open spec fn is_in_special_block(n: int) -> bool {
    ||| 0x0a00_0000 <= n <= 0x0aff_ffff
    ||| 0xac10_0000 <= n <= 0xac1f_ffff
    ||| 0xc0a8_0000 <= n <= 0xc0a8_ffff
    ||| 0x7f00_0000 <= n <= 0x7fff_ffff
    ||| 0xa9fe_0000 <= n <= 0xa9fe_ffff
    ||| 0xc000_0200 <= n <= 0xc000_02ff
    ||| 0xc633_6400 <= n <= 0xc633_64ff
    ||| 0xcb00_7100 <= n <= 0xcb00_71ff
    ||| n == 0
    ||| n == 0xffff_ffff
}

/// An address is public exactly if it lies in none of the blocks that are not.
pub proof fn public_addresses_lie_outside_the_blocks(a: u8, b: u8, c: u8, d: u8)
    ensures
        is_public(a, b, c, d) <==> !is_in_special_block(address_number(a, b, c, d)),
{
}

/// The bytes of an address are written lowest first.
pub proof fn octets_make_up_the_address(ip: u32)
    ensures
        ip == octet(ip, 0) + 0x100 * octet(ip, 1) + 0x1_0000 * octet(ip, 2) + 0x100_0000 * octet(
            ip,
            3,
        ),
{
}

/// The protocol that usually answers at a port, and nothing for other ports.
pub proof fn ports_stand_for_protocols(port: u16)
    ensures
        port == 80 ==> usual_protocol(port) == Some("HTTP"@),
        port == 443 ==> usual_protocol(port) == Some("HTTPS"@),
        port == 8080 ==> usual_protocol(port) == Some("HTTP-alt"@),
        port == 8443 ==> usual_protocol(port) == Some("HTTPS-alt"@),
        port == 22 ==> usual_protocol(port) == Some("SSH"@),
        port == 25 || port == 465 || port == 587 ==> usual_protocol(port) == Some("SMTP"@),
        port == 53 ==> usual_protocol(port) == Some("DNS"@),
        port == 5432 ==> usual_protocol(port) == Some("PostgreSQL"@),
        port == 3306 ==> usual_protocol(port) == Some("MySQL"@),
        port == 6379 ==> usual_protocol(port) == Some("Redis"@),
        port == 9200 || port == 9300 ==> usual_protocol(port) == Some("Elasticsearch"@),
        port == 2055 ==> usual_protocol(port) == Some("NetFlow"@),
        port == 4739 ==> usual_protocol(port) == Some("IPFIX"@),
        port == 6343 ==> usual_protocol(port) == Some("sFlow"@),
        port == 9092 ==> usual_protocol(port) == Some("Kafka"@),
        port == 2181 ==> usual_protocol(port) == Some("ZooKeeper"@),
        port == 50051 ==> usual_protocol(port) == Some("gRPC"@),
        usual_protocol(port) is Some <==> seq![
            22u16,
            25,
            53,
            80,
            443,
            465,
            587,
            2055,
            2181,
            3306,
            4739,
            5432,
            6343,
            6379,
            8080,
            8443,
            9092,
            9200,
            9300,
            50051,
        ].contains(port),
{
    let known = seq![
        22u16,
        25,
        53,
        80,
        443,
        465,
        587,
        2055,
        2181,
        3306,
        4739,
        5432,
        6343,
        6379,
        8080,
        8443,
        9092,
        9200,
        9300,
        50051,
    ];
    assert(known[0] == 22 && known[1] == 25 && known[2] == 53 && known[3] == 80 && known[4] == 443
        && known[5] == 465 && known[6] == 587 && known[7] == 2055 && known[8] == 2181 && known[9]
        == 3306 && known[10] == 4739 && known[11] == 5432 && known[12] == 6343 && known[13] == 6379
        && known[14] == 8080 && known[15] == 8443 && known[16] == 9092 && known[17] == 9200
        && known[18] == 9300 && known[19] == 50051);
}

proof fn first_parent_line(list: Seq<Seq<char>>, i: int)
    requires
        0 <= i <= list.len(),
        forall|j: int| 0 <= j < i ==> !stands_at(#[trigger] list[j], "PPid:"@, 0),
        i < list.len() ==> stands_at(list[i], "PPid:"@, 0),
    ensures
        parent_line(list) == if i < list.len() {
            Some(list[i])
        } else {
            None
        },
    decreases i,
{
    if i > 0 {
        let rest = list.drop_first();
        assert(!stands_at(list[0], "PPid:"@, 0));
        assert forall|j: int| 0 <= j < i - 1 implies !stands_at(
            #[trigger] rest[j],
            "PPid:"@,
            0,
        ) by {
            assert(rest[j] == list[j + 1]);
        }
        first_parent_line(rest, i - 1);
    }
}

/// The parent of a process is the second word of the first line of its status file that
/// begins with `PPid:`, and unknown if there is no such line or the word is no number.
pub proof fn parent_is_on_its_line(status: Seq<char>, i: int)
    requires
        0 <= i <= lines(status).len(),
        forall|j: int| 0 <= j < i ==> !stands_at(#[trigger] lines(status)[j], "PPid:"@, 0),
        i < lines(status).len() ==> stands_at(lines(status)[i], "PPid:"@, 0),
    ensures
        i == lines(status).len() ==> parent_pid(status) is None,
        i < lines(status).len() && words(lines(status)[i]).len() < 2 ==> parent_pid(status) is None,
        i < lines(status).len() && words(lines(status)[i]).len() >= 2 ==> parent_pid(status)
            == parse_number(words(lines(status)[i])[1], 0xffff_ffff),
{
    first_parent_line(lines(status), i);
}

/// A command line is its bytes as characters, with spaces for the NUL bytes that part its
/// words, and no white space at either end.
pub proof fn commands_are_their_bytes(bytes: Seq<u8>, shown: Seq<char>)
    requires
        shown.len() == bytes.len(),
        forall|i: int|
            0 <= i < bytes.len() ==> #[trigger] shown[i] == if bytes[i] == 0 {
                ' '
            } else {
                bytes[i] as char
            },
    ensures
        command_line(bytes) == trim(shown),
{
    assert(shown_bytes(bytes) =~= shown);
}

/// A line of a cgroup file names the path behind its second colon; a line without two
/// colons names itself if it is a path, and nothing otherwise.
pub proof fn path_is_behind_the_second_colon(a: Seq<char>, b: Seq<char>, path: Seq<char>)
    requires
        !a.contains(':'),
        !b.contains(':'),
    ensures
        cgroup_path(a + ":"@ + b + ":"@ + path) == Some(path),
        a.len() > 0 && a[0] == '/' ==> cgroup_path(a) == Some(a) && cgroup_path(a + ":"@ + b)
            == Some(a + ":"@ + b),
        a.len() == 0 || a[0] != '/' ==> cgroup_path(a) is None && cgroup_path(a + ":"@ + b) is None,
{
    reveal_strlit(":");
    assert(":"@ =~= seq![':']);
    let colon = equals(':');
    let (h, c) = (a.len() as int, b.len() as int);
    let line = a + ":"@ + b + ":"@ + path;
    assert forall|i: int| 0 <= i < h implies !colon(#[trigger] line[i]) by {
        assert(line[i] == a[i]);
    }
    first_char_is(line, 0, colon, h);
    assert forall|i: int| h + 1 <= i < h + 1 + c implies !colon(#[trigger] line[i]) by {
        assert(line[i] == b[i - h - 1]);
    }
    first_char_is(line, h + 1, colon, h + 1 + c);
    assert(line.skip(h + c + 2) =~= path);
    assert forall|i: int| 0 <= i < h implies !colon(#[trigger] a[i]) by {}
    first_char_is(a, 0, colon, h);
    let one = a + ":"@ + b;
    assert forall|i: int| 0 <= i < h implies !colon(#[trigger] one[i]) by {
        assert(one[i] == a[i]);
    }
    first_char_is(one, 0, colon, h);
    assert forall|i: int| h + 1 <= i < one.len() implies !colon(#[trigger] one[i]) by {
        assert(one[i] == b[i - h - 1]);
    }
    first_char_is(one, h + 1, colon, one.len() as int);
    if h > 0 {
        assert(one[0] == a[0]);
    }
}

/// The pod of a path is its first segment that begins with `pod`, without that.
pub proof fn pod_is_the_first_segment_that_says_so(segments: Seq<Seq<char>>, i: int)
    requires
        0 <= i <= segments.len(),
        forall|j: int| 0 <= j < i ==> !stands_at(#[trigger] segments[j], "pod"@, 0),
        i < segments.len() ==> stands_at(segments[i], "pod"@, 0),
    ensures
        i < segments.len() ==> pod_of(segments) == Some(strip_all(segments[i], "pod"@)),
        i == segments.len() ==> pod_of(segments) is None,
    decreases i,
{
    if i > 0 {
        let rest = segments.drop_first();
        assert(!stands_at(segments[0], "pod"@, 0));
        assert forall|j: int| 0 <= j < i - 1 implies !stands_at(#[trigger] rest[j], "pod"@, 0) by {
            assert(rest[j] == segments[j + 1]);
        }
        pod_is_the_first_segment_that_says_so(rest, i - 1);
    }
}

/// The last segment of a path is the last that is not empty.
pub proof fn last_segment_is_not_empty(segments: Seq<Seq<char>>, i: int)
    requires
        -1 <= i < segments.len(),
        i >= 0 ==> segments[i].len() > 0,
        forall|j: int| i < j < segments.len() ==> (#[trigger] segments[j]).len() == 0,
    ensures
        i >= 0 ==> last_filled(segments) == segments[i],
        i == -1 ==> last_filled(segments).len() == 0,
    decreases segments.len(),
{
    if segments.len() > 0 && segments.last().len() == 0 {
        let less = segments.drop_last();
        assert(i < less.len());
        assert forall|j: int| i < j < less.len() implies (#[trigger] less[j]).len() == 0 by {
            assert(less[j] == segments[j]);
        }
        last_segment_is_not_empty(less, i);
    }
}

/// A container's id is cut to its first twelve bytes; what is shorter is no id, and
/// neither is what would be cut inside a character.
pub proof fn container_ids_are_cut_to_twelve_bytes(front: Seq<char>, c: char, rest: Seq<char>)
    ensures
        encode_utf8(front).len() == 12 ==> container_of(front + rest) == Some(front),
        encode_utf8(rest).len() < 12 ==> container_of(rest) is None,
        encode_utf8(front).len() < 12 < encode_utf8(front + seq![c]).len() ==> container_of(
            front + (seq![c] + rest),
        ) is None,
{
    if encode_utf8(front).len() < 12 < encode_utf8(front + seq![c]).len() {
        text_is_not_cut_inside_a_character(front, c, rest, 12);
    }
    encoding_goes_on(front, rest);
    if encode_utf8(front).len() == 12 {
        let whole = encode_utf8(front + rest);
        assert(whole.subrange(0, 12) =~= encode_utf8(front));
        encode_utf8_decode_utf8(front);
        encode_utf8_valid_utf8(front);
        encode_utf8_valid_utf8(rest);
        encode_utf8_valid_utf8(front + rest);
        assert(is_char_boundary(whole, 12)) by {
            text_is_cut_between_characters(front, rest);
        }
    }
}

/// The identity in a cgroup file is that of the first line that names a pod: a line
/// counts if its path is one of Kubernetes, by its name, and has a segment for a pod.
pub proof fn first_line_with_a_pod_counts(list: Seq<Seq<char>>, i: int)
    requires
        0 <= i < list.len(),
        forall|j: int|
            0 <= j < i ==> (cgroup_path(#[trigger] list[j]) is None || !contains(
                cgroup_path(list[j])->0,
                "kubepods"@,
            ) || pod_of(split(cgroup_path(list[j])->0, '/')) is None),
        cgroup_path(list[i]) is Some,
        contains(cgroup_path(list[i])->0, "kubepods"@),
        pod_of(split(cgroup_path(list[i])->0, '/')) is Some,
    ensures
        k8s_identity(list) == Some(
            (
                pod_of(split(cgroup_path(list[i])->0, '/'))->0,
                container_of(last_filled(split(cgroup_path(list[i])->0, '/'))),
            ),
        ),
    decreases i,
{
    if i > 0 {
        let rest = list.drop_first();
        assert(cgroup_path(list[0]) is None || !contains(cgroup_path(list[0])->0, "kubepods"@)
            || pod_of(split(cgroup_path(list[0])->0, '/')) is None);
        assert forall|j: int| 0 <= j < i - 1 implies (cgroup_path(#[trigger] rest[j]) is None
            || !contains(cgroup_path(rest[j])->0, "kubepods"@) || pod_of(
            split(cgroup_path(rest[j])->0, '/'),
        ) is None) by {
            assert(rest[j] == list[j + 1]);
        }
        first_line_with_a_pod_counts(rest, i - 1);
    }
}

/// A cgroup file none of whose lines names a pod gives no identity.
pub proof fn no_line_with_a_pod_gives_no_identity(list: Seq<Seq<char>>)
    requires
        forall|j: int|
            0 <= j < list.len() ==> (cgroup_path(#[trigger] list[j]) is None || !contains(
                cgroup_path(list[j])->0,
                "kubepods"@,
            ) || pod_of(split(cgroup_path(list[j])->0, '/')) is None),
    ensures
        k8s_identity(list) is None,
    decreases list.len(),
{
    if list.len() > 0 {
        let rest = list.drop_first();
        assert(cgroup_path(list[0]) is None || !contains(cgroup_path(list[0])->0, "kubepods"@)
            || pod_of(split(cgroup_path(list[0])->0, '/')) is None);
        assert forall|j: int| 0 <= j < rest.len() implies (cgroup_path(#[trigger] rest[j]) is None
            || !contains(cgroup_path(rest[j])->0, "kubepods"@) || pod_of(
            split(cgroup_path(rest[j])->0, '/'),
        ) is None) by {
            assert(rest[j] == list[j + 1]);
        }
        no_line_with_a_pod_gives_no_identity(rest);
    }
}

/// What is found out about a flow: its process from the process's files, and what it
/// speaks, by what was seen before what the port says.
pub proof fn flow_is_told_with_its_process(
    event: FlowEvent,
    files: ProcFiles,
    r: EnrichedFlow,
)
    requires
        is_enriched(event, files, r),
    ensures
        r.event == event,
        files.status is None ==> r.ppid is None,
        files.status is Some && r.ppid is Some ==> parent_pid(files.status->0@) == Some(
            r.ppid->0 as int,
        ),
        files.status is Some && r.ppid is None ==> parent_pid(files.status->0@) is None,
        files.exe is None <==> r.exe_path is None,
        files.exe is Some ==> r.exe_path->0@ == files.exe->0@,
        files.cmdline is None <==> r.cmdline is None,
        files.cmdline is Some ==> r.cmdline->0@ == command_line(files.cmdline->0@),
        r.dst_hostname is None && r.dst_asn is None && r.dst_org is None,
        event.has_http == 1 ==> r.protocol_guess is Some && r.protocol_guess->0@ == "HTTP"@,
        event.has_http != 1 && event.has_tls == 1 ==> r.protocol_guess is Some
            && r.protocol_guess->0@ == "TLS"@,
        event.has_http != 1 && event.has_tls != 1 ==> (r.protocol_guess is Some
            <==> usual_protocol(event.dst_port) is Some) && (r.protocol_guess is Some
            ==> usual_protocol(event.dst_port) == Some(r.protocol_guess->0@)),
{
    assert(spoken_protocol(event) == crate::enricher::opt_view(r.protocol_guess));
}

/// A flow is external exactly if it goes to a public address.
pub proof fn external_flows_go_to_public_addresses(
    event: FlowEvent,
    files: ProcFiles,
    r: EnrichedFlow,
    a: u8,
    b: u8,
    c: u8,
    d: u8,
)
    requires
        is_enriched(event, files, r),
        event.dst_ip == a + 0x100 * b + 0x1_0000 * c + 0x100_0000 * d,
    ensures
        r.is_external <==> !is_in_special_block(address_number(a, b, c, d)),
{
    let ip = event.dst_ip;
    octets_make_up_the_address(ip);
    public_addresses_lie_outside_the_blocks(a, b, c, d);
    assert(octet(ip, 0) == a && octet(ip, 1) == b && octet(ip, 2) == c && octet(ip, 3) == d);
}

/// A flow's Kubernetes identity is that of the cgroup which the event names, else of the
/// process's cgroup file, else there is none. The namespace is in neither.
pub proof fn flow_is_told_with_its_pod(
    event: FlowEvent,
    files: ProcFiles,
    r: EnrichedFlow,
    own: Seq<char>,
    used: Seq<char>,
)
    requires
        is_enriched(event, files, r),
        field_tells(event.cgroup@, own),
        own.len() > 0 ==> used == own,
        own.len() == 0 && files.cgroup is Some ==> used == files.cgroup->0@,
        own.len() == 0 && files.cgroup is None ==> used.len() == 0,
    ensures
        lacks_cgroup(event) <==> own.len() == 0,
        k8s_identity(lines(used)) is None ==> r.k8s_pod is None && r.k8s_namespace is None
            && r.k8s_container is None,
        k8s_identity(lines(used)) is Some ==> {
            let (pod, container) = k8s_identity(lines(used))->0;
            &&& r.k8s_pod is Some && r.k8s_pod->0@ == pod
            &&& r.k8s_namespace is Some && r.k8s_namespace->0@ == "unknown"@
            &&& container is Some <==> r.k8s_container is Some
            &&& container is Some ==> r.k8s_container->0@ == container->0
        },
{
    told_text_is_read(event.cgroup@, own);
    assert(cgroup_text(event, files.cgroup) =~= used);
    assert(k8s_names(used) == k8s_names(cgroup_text(event, files.cgroup)));
}

} // verus!
