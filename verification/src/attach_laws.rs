//! What is attached and where, and what becomes of an item of the ring buffer.

use vstd::prelude::*;
use vstd::string::*;
use vstd::utf8::{encode_utf8, is_ascii_chars, is_ascii_chars_encode_utf8};
use crate::common::FlowEvent;
use crate::enricher::EnrichedFlow;
use crate::filter::EventFilter;
use crate::json::{json_of, object_view};
use crate::loader::{
    attach_table, copied, counted, is_json, is_report, is_taken, is_test_event, object_path,
    stored, Report,
};
use crate::numbers::parse_number;
use crate::output_laws::field_holds;
use crate::printer::{lines_view, pretty};
use crate::text::{contains, first_standing, lines, stands_at, trim, words};
use crate::text_laws::search_gives_the_first_place;
use crate::tls_attach::{
    answered, are_findings, finds_libssl, interesting_names, is_first_there, is_interesting,
    is_no_finding, ldconfig_path, ldconfig_paths, libssl_places, maps_path, maps_paths, none_there,
    LibsslNotFound, ProcEntry,
};
use crate::wire::holds_event;

verus! {

proof fn arrow_is_found(a: Seq<char>, b: Seq<char>, from: int)
    requires
        0 <= from <= a.len(),
        forall|i: int| from <= i < a.len() ==> !stands_at(a, "=>"@, i),
    ensures
        first_standing(a + "=>"@ + b, "=>"@, from) == a.len(),
        first_standing(a, "=>"@, from) == a.len(),
{
    reveal_strlit("=>");
    let pat = "=>"@;
    let line = a + pat + b;
    let n = a.len() as int;
    assert(line.subrange(n, n + 2) =~= pat);
    assert(stands_at(line, pat, n));
    assert forall|i: int| from <= i < n implies !stands_at(line, pat, i) by {
        if stands_at(line, pat, i) {
            assert(line.subrange(i, i + 2)[0] == pat[0] && line.subrange(i, i + 2)[1] == pat[1]);
            if i + 2 <= n {
                assert(a.subrange(i, i + 2) =~= line.subrange(i, i + 2));
                assert(stands_at(a, pat, i));
            } else {
                assert(line[i + 1] == '=');
            }
        }
    }
    search_gives_the_first_place(line, pat, from);
    let found = first_standing(line, pat, from);
    assert(found <= n);
    assert(found >= n);
    search_gives_the_first_place(a, pat, from);
    if first_standing(a, pat, from) < n {
        assert(stands_at(a, pat, first_standing(a, pat, from)));
    }
}

proof fn arrow_behind(front: Seq<char>, s: Seq<char>, from: int)
    requires
        0 <= from <= s.len(),
    ensures
        first_standing(front + s, "=>"@, front.len() + from) == front.len() + first_standing(
            s,
            "=>"@,
            from,
        ),
    decreases s.len() - from,
{
    reveal_strlit("=>");
    let whole = front + s;
    let n = front.len() as int;
    if from < s.len() {
        if from + 2 <= s.len() {
            assert(whole.subrange(n + from, n + from + 2) =~= s.subrange(from, from + 2));
        }
        assert(stands_at(whole, "=>"@, n + from) == stands_at(s, "=>"@, from));
        if !stands_at(s, "=>"@, from) {
            arrow_behind(front, s, from + 1);
        }
    }
}

/// No arrow stands in a text.
pub open spec fn has_no_arrow(s: Seq<char>) -> bool {
    forall|i: int| 0 <= i < s.len() ==> !#[trigger] stands_at(s, "=>"@, i)
}

/// A line of ldconfig's listing that speaks of libssl gives the path behind its arrow,
/// white space around it aside, up to a second arrow if there is one; a line without an
/// arrow, or of another library, gives none.
pub proof fn listed_path_is_behind_the_arrow(name: Seq<char>, path: Seq<char>, rest: Seq<char>)
    requires
        has_no_arrow(name),
        has_no_arrow(path),
    ensures
        contains(name + "=>"@ + path, "libssl.so"@) ==> ldconfig_path(name + "=>"@ + path) == Some(
            trim(path),
        ),
        contains(name + "=>"@ + (path + "=>"@ + rest), "libssl.so"@) ==> ldconfig_path(
            name + "=>"@ + (path + "=>"@ + rest),
        ) == Some(trim(path)),
        ldconfig_path(name) is None,
        !contains(rest, "libssl.so"@) ==> ldconfig_path(rest) is None,
{
    reveal_strlit("=>");
    let pat = "=>"@;
    let n = name.len() as int;
    let one = name + pat + path;
    arrow_is_found(name, path, 0);
    arrow_is_found(path, rest, 0);
    assert(one =~= (name + pat) + path);
    arrow_behind(name + pat, path, 0);
    assert(one.subrange(n + 2, n + 2 + path.len()) =~= path);
    let two = name + pat + (path + pat + rest);
    arrow_is_found(name, path + pat + rest, 0);
    arrow_behind(name + pat, path + pat + rest, 0);
    assert(two.subrange(n + 2, n + 2 + path.len()) =~= path);
}

/// The paths out of ldconfig's listing, and those out of a maps file, come line by line,
/// in order.
pub proof fn paths_come_line_by_line(front: Seq<Seq<char>>, line: Seq<char>)
    ensures
        ldconfig_path(line) is Some ==> ldconfig_paths(front.push(line)) == ldconfig_paths(
            front,
        ).push(ldconfig_path(line)->0),
        ldconfig_path(line) is None ==> ldconfig_paths(front.push(line)) == ldconfig_paths(front),
        maps_path(line) is Some ==> maps_paths(front.push(line)) == maps_paths(front).push(
            maps_path(line)->0,
        ),
        maps_path(line) is None ==> maps_paths(front.push(line)) == maps_paths(front),
        ldconfig_paths(seq![]).len() == 0,
        maps_paths(seq![]).len() == 0,
{
    assert(front.push(line).drop_last() =~= front);
}

/// A line of a maps file that speaks of libssl gives its last word.
pub proof fn mapped_path_is_the_last_word(line: Seq<char>)
    ensures
        contains(line, "libssl"@) && words(line).len() > 0 ==> maps_path(line) == Some(
            words(line)[words(line).len() - 1],
        ),
        !contains(line, "libssl"@) || words(line).len() == 0 ==> maps_path(line) is None,
{
}

/// libssl is looked for where ldconfig lists it, then where distributions keep it.
pub proof fn libssl_is_looked_for_in_order(text: Seq<char>)
    ensures
        ({
            let known = seq![
                "/usr/lib/x86_64-linux-gnu/libssl.so.3"@,
                "/usr/lib/x86_64-linux-gnu/libssl.so.1.1"@,
                "/usr/lib/aarch64-linux-gnu/libssl.so.3"@,
                "/lib/x86_64-linux-gnu/libssl.so.3"@,
                "/usr/lib64/libssl.so.3"@,
                "/usr/lib/libssl.so.3"@,
            ];
            &&& libssl_places(None) == known
            &&& libssl_places(Some(text)) == ldconfig_paths(lines(text)) + known
        }),
{
}

/// `is_there` answers by what is there.
pub open spec fn answers_by<F: Fn(&str) -> bool>(
    is_there: F,
    there: spec_fn(Seq<char>) -> bool,
) -> bool {
    forall|p: &str, answer: bool|
        #[trigger] call_ensures(is_there, (p,), answer) ==> answer == there(p@)
}

proof fn answers_are_true<F: Fn(&str) -> bool>(
    is_there: F,
    there: spec_fn(Seq<char>) -> bool,
    path: Seq<char>,
    answer: bool,
)
    requires
        answers_by(is_there, there),
        answered(is_there, path, answer),
    ensures
        there(path) == answer,
{
    let p = choose|p: &str| p@ == path && #[trigger] call_ensures(is_there, (p,), answer);
    assert(p@ == path);
}

/// Of several paths the first one that is there is taken, and none only if none is.
pub proof fn first_path_that_is_there_is_taken<F: Fn(&str) -> bool>(
    is_there: F,
    there: spec_fn(Seq<char>) -> bool,
    paths: Seq<Seq<char>>,
    path: Seq<char>,
)
    requires
        answers_by(is_there, there),
    ensures
        is_first_there(is_there, paths, path) ==> there(path) && exists|i: int|
            0 <= i < paths.len() && paths[i] == path && forall|j: int|
                0 <= j < i ==> !there(#[trigger] paths[j]),
        none_there(is_there, paths) ==> forall|j: int|
            0 <= j < paths.len() ==> !there(#[trigger] paths[j]),
{
    if is_first_there(is_there, paths, path) {
        let i = choose|i: int|
            0 <= i < paths.len() && #[trigger] paths[i] == path && answered(is_there, path, true)
                && forall|j: int| 0 <= j < i ==> answered(is_there, #[trigger] paths[j], false);
        answers_are_true(is_there, there, path, true);
        assert forall|j: int| 0 <= j < i implies !there(#[trigger] paths[j]) by {
            answers_are_true(is_there, there, paths[j], false);
        }
        assert(paths[i] == path);
    }
    if none_there(is_there, paths) {
        assert forall|j: int| 0 <= j < paths.len() implies !there(#[trigger] paths[j]) by {
            answers_are_true(is_there, there, paths[j], false);
        }
    }
}

/// libssl is found if it is at one of its places, at the first of these, and reported
/// missing only if it is at none.
pub proof fn libssl_is_found_if_it_is_there<F: Fn(&str) -> bool>(
    is_there: F,
    there: spec_fn(Seq<char>) -> bool,
    listing: Option<&str>,
    places: Seq<Seq<char>>,
    r: Result<String, LibsslNotFound>,
)
    requires
        answers_by(is_there, there),
        listing is Some ==> places == libssl_places(Some(listing->0@)),
        listing is None ==> places == libssl_places(None),
        finds_libssl(is_there, listing, r),
    ensures
        r is Ok <==> exists|i: int| 0 <= i < places.len() && there(#[trigger] places[i]),
        r is Ok ==> there(r->Ok_0@) && exists|i: int|
            0 <= i < places.len() && places[i] == r->Ok_0@ && forall|j: int|
                0 <= j < i ==> !there(#[trigger] places[j]),
{
    if r is Ok {
        first_path_that_is_there_is_taken(is_there, there, places, r->Ok_0@);
    } else {
        first_path_that_is_there_is_taken(is_there, there, places, seq![]);
    }
}

/// A process is of interest exactly if one of these names stands in its own.
pub proof fn interesting_processes_are_told_by_name(comm: Seq<char>)
    ensures
        is_interesting(comm) <==> {
            ||| contains(comm, "envoy"@)
            ||| contains(comm, "nginx"@)
            ||| contains(comm, "squid"@)
            ||| contains(comm, "haproxy"@)
            ||| contains(comm, "python3"@)
            ||| contains(comm, "python"@)
            ||| contains(comm, "node"@)
            ||| contains(comm, "java"@)
            ||| contains(comm, "curl"@)
            ||| contains(comm, "wget"@)
        },
{
    let names = interesting_names();
    assert(names[0] == "envoy"@ && names[1] == "nginx"@ && names[2] == "squid"@ && names[3]
        == "haproxy"@ && names[4] == "python3"@ && names[5] == "python"@ && names[6] == "node"@
        && names[7] == "java"@ && names[8] == "curl"@ && names[9] == "wget"@);
}

/// What a found process tells: an entry has its id as its name and its name in the comm
/// file, is of interest, and its maps file gives the library.
pub open spec fn is_told_by<F: Fn(&str) -> bool>(
    is_there: F,
    entry: ProcEntry,
    found: (u32, String, String),
) -> bool {
    &&& parse_number(entry.name@, 0xffff_ffff) == Some(found.0 as int)
    &&& entry.comm is Some && found.1@ == trim(entry.comm->0@) && is_interesting(found.1@)
    &&& entry.maps is Some && is_first_there(
        is_there,
        maps_paths(lines(entry.maps->0@)),
        found.2@,
    )
}

/// Every process that is found stands in the proc file system, and is told by its entry.
pub proof fn found_processes_are_those_of_entries<F: Fn(&str) -> bool>(
    is_there: F,
    entries: Seq<ProcEntry>,
    found: Seq<(u32, String, String)>,
    k: int,
)
    requires
        are_findings(is_there, entries, found),
        0 <= k < found.len(),
    ensures
        exists|i: int|
            0 <= i < entries.len() && is_told_by(is_there, #[trigger] entries[i], found[k]),
    decreases entries.len(),
{
    let less = entries.drop_last();
    let e = entries.last();
    if is_no_finding(is_there, e) && are_findings(is_there, less, found) {
        found_processes_are_those_of_entries(is_there, less, found, k);
        let i = choose|i: int|
            0 <= i < less.len() && is_told_by(is_there, #[trigger] less[i], found[k]);
        assert(entries[i] == less[i]);
    } else if k == found.len() - 1 {
        assert(is_told_by(is_there, entries[entries.len() - 1], found[k]));
    } else {
        let fewer = found.drop_last();
        found_processes_are_those_of_entries(is_there, less, fewer, k);
        let i = choose|i: int|
            0 <= i < less.len() && is_told_by(is_there, #[trigger] less[i], fewer[k]);
        assert(entries[i] == less[i] && fewer[k] == found[k]);
    }
}

/// Every entry of a process of interest whose maps file names a library that is there is
/// found.
pub proof fn processes_of_interest_are_found<F: Fn(&str) -> bool>(
    is_there: F,
    entries: Seq<ProcEntry>,
    found: Seq<(u32, String, String)>,
    i: int,
)
    requires
        are_findings(is_there, entries, found),
        0 <= i < entries.len(),
        parse_number(entries[i].name@, 0xffff_ffff) is Some,
        entries[i].comm is Some && is_interesting(trim(entries[i].comm->0@)),
        entries[i].maps is Some && !none_there(
            is_there,
            maps_paths(lines(entries[i].maps->0@)),
        ),
    ensures
        exists|k: int|
            0 <= k < found.len() && is_told_by(is_there, entries[i], #[trigger] found[k]),
    decreases entries.len(),
{
    let less = entries.drop_last();
    let e = entries.last();
    let fewer = found.drop_last();
    if i == entries.len() - 1 {
        assert(!is_no_finding(is_there, e));
        assert(is_told_by(is_there, entries[i], found[found.len() - 1]));
    } else {
        assert(less[i] == entries[i]);
        if is_no_finding(is_there, e) && are_findings(is_there, less, found) {
            processes_of_interest_are_found(is_there, less, found, i);
        } else {
            processes_of_interest_are_found(is_there, less, fewer, i);
            let k = choose|k: int|
                0 <= k < fewer.len() && is_told_by(is_there, less[i], #[trigger] fewer[k]);
            assert(found[k] == fewer[k]);
        }
    }
}

/// At most one process is found for each entry, and entries that follow each other give
/// what each of them gives, in order.
pub proof fn findings_come_in_order<F: Fn(&str) -> bool>(
    is_there: F,
    entries: Seq<ProcEntry>,
    found: Seq<(u32, String, String)>,
    n: int,
)
    requires
        are_findings(is_there, entries, found),
        0 <= n <= entries.len(),
    ensures
        found.len() <= entries.len(),
        exists|k: int|
            0 <= k <= found.len() && are_findings(
                is_there,
                entries.take(n),
                #[trigger] found.take(k),
            ),
    decreases entries.len(),
{
    let less = entries.drop_last();
    let fewer = found.drop_last();
    if n == entries.len() {
        assert(entries.take(n) =~= entries);
        assert(found.take(found.len() as int) =~= found);
        if entries.len() > 0 {
            if is_no_finding(is_there, entries.last()) && are_findings(is_there, less, found) {
                findings_come_in_order(is_there, less, found, n - 1);
            } else {
                findings_come_in_order(is_there, less, fewer, n - 1);
            }
        }
    } else {
        assert(entries.take(n) =~= less.take(n));
        if is_no_finding(is_there, entries.last()) && are_findings(is_there, less, found) {
            findings_come_in_order(is_there, less, found, n);
        } else {
            findings_come_in_order(is_there, less, fewer, n);
            let k = choose|k: int|
                0 <= k <= fewer.len() && are_findings(
                    is_there,
                    less.take(n),
                    #[trigger] fewer.take(k),
                );
            assert(fewer.take(k) =~= found.take(k));
        }
    }
}

/// Seventeen programs are attached, each to the kernel function that it watches.
pub proof fn programs_watch_their_functions()
    ensures
        ({
            let t = attach_table();
            &&& t.len() == 17
            &&& t.take(7) == seq![
                ("tcp_connect"@, "tcp_connect"@),
                ("inet_csk_accept"@, "inet_csk_accept"@),
                ("tcp_close"@, "tcp_close"@),
                ("tcp_send_active_reset"@, "tcp_send_active_reset"@),
                ("tcp_sendmsg"@, "tcp_sendmsg"@),
                ("tcp_recvmsg_entry"@, "tcp_recvmsg"@),
                ("tcp_recvmsg"@, "tcp_recvmsg"@),
            ]
            &&& t.subrange(7, 11) == seq![
                ("tcp_rcv_established"@, "tcp_rcv_established"@),
                ("tcp_enter_cwr"@, "tcp_enter_cwr"@),
                ("tcp_enter_loss"@, "tcp_enter_loss"@),
                ("tcp_enter_recovery"@, "tcp_enter_recovery"@),
            ]
            &&& t.subrange(11, 17) == seq![
                ("tcp_retransmit_skb"@, "tcp_retransmit_skb"@),
                ("tcp_send_loss_probe"@, "tcp_send_loss_probe"@),
                ("tcp_fast_retransmit"@, "tcp_retransmit_timer"@),
                ("tcp_sacktag"@, "tcp_sacktag_write_queue"@),
                ("on_new_task"@, "wake_up_new_task"@),
                ("on_exit"@, "do_exit"@),
            ]
        }),
{
}

/// The object with the programs is looked for below the daemon's directory, with one
/// slash between them.
pub proof fn object_is_below_the_directory(dir: Seq<char>)
    ensures
        ({
            let rel =
                "../flow-sensor-ebpf/target/bpfel-unknown-none/release/libflow_sensor_ebpf.so"@;
            &&& object_path(seq![]) == rel
            &&& object_path(dir + "/"@) == dir + "/"@ + rel
            &&& dir.len() > 0 && dir.last() != '/' ==> object_path(dir) == dir + "/"@ + rel
        }),
{
    reveal_strlit("/");
    assert((dir + "/"@).last() == '/');
}

/// An item is reported exactly if it holds an event that the filter accepts, and it is
/// then that event; it counts if it is as long as an event is.
pub proof fn items_are_reported_by_the_filter(
    item: Seq<u8>,
    filter: EventFilter,
    r: Option<FlowEvent>,
    e: FlowEvent,
    before: u64,
)
    requires
        is_taken(item, filter, r),
        holds_event(item, e),
    ensures
        filter.accepts(e) ==> r == Some(e),
        !filter.accepts(e) ==> r is None,
        item.len() >= 1144,
        before < 0xffff_ffff_ffff_ffff ==> counted(item, before) == before + 1,
        before == 0xffff_ffff_ffff_ffff ==> counted(item, before) == 0,
{
    if r is Some {
        crate::wire::event_bytes_determine_event(item, e, r->0);
    }
}

/// A short item is no event: it is not reported and does not count.
pub proof fn short_items_are_passed_over(
    item: Seq<u8>,
    filter: EventFilter,
    r: Option<FlowEvent>,
    before: u64,
)
    requires
        is_taken(item, filter, r),
        item.len() < 1144,
    ensures
        r is None,
        counted(item, before) == before,
{
}

/// A flow is reported as an object in the formats `json` and `jsonl`, as lines in all
/// others.
pub proof fn format_decides_the_report(flow: EnrichedFlow, format: Seq<char>, r: Report)
    requires
        is_report(flow, format, r),
    ensures
        is_json(format) <==> format == "json"@ || format == "jsonl"@,
        format == "json"@ || format == "jsonl"@ ==> r is Json && object_view(r->Json_0@)
            == json_of(flow),
        format != "json"@ && format != "jsonl"@ ==> r is Pretty && lines_view(r->Pretty_0@)
            == pretty(flow),
{
}

/// What is stored in a field stands at its front; what would take its last byte is cut
/// off, and the rest of the field stays.
pub proof fn texts_are_stored_at_the_front(src: Seq<u8>, dst: Seq<u8>, i: int)
    requires
        0 <= i < dst.len(),
    ensures
        copied(dst, src).len() == dst.len(),
        i < src.len() && i < dst.len() - 1 ==> copied(dst, src)[i] == src[i],
        i >= src.len() || i == dst.len() - 1 ==> copied(dst, src)[i] == dst[i],
        stored(src, dst.len()).len() == dst.len(),
        i < src.len() && i < dst.len() - 1 ==> stored(src, dst.len())[i] == src[i],
        i >= src.len() || i == dst.len() - 1 ==> stored(src, dst.len())[i] == 0,
{
}

/// A text of ASCII characters without a NUL that is shorter than the field is stored whole.
pub proof fn short_texts_are_stored_whole(text: Seq<char>, len: nat)
    requires
        is_ascii_chars(text),
        !text.contains('\0'),
        text.len() < len,
    ensures
        field_holds(stored(encode_utf8(text), len), text),
{
    is_ascii_chars_encode_utf8(text);
    let b = encode_utf8(text);
    assert forall|i: int| 0 <= i < b.len() implies #[trigger] b[i] != 0 by {
        assert(text[i] as u8 == b[i]);
        assert(text[i] != '\0');
    }
    let field = stored(b, len);
    let rest = field.skip(b.len() as int + 1);
    assert(field =~= b + seq![0u8] + rest);
}

/// The event that shows the output: an API client's request over TLS, which was answered,
/// with three retransmits and a clean close.
pub proof fn test_event_shows_a_request(e: FlowEvent, pid: u32)
    requires
        is_test_event(e, pid),
    ensures
        e.pid == pid,
        e.ppid == 0,
        e.uid == 0,
        e.gid == 0,
        e.src_ip == 0x0a00_0132,
        e.dst_ip == 0x6812_1401,
        e.src_port == 54821,
        e.dst_port == 443,
        e.bytes_sent == 1240,
        e.bytes_recv == 48200,
        e.pkts_sent == 12,
        e.pkts_recv == 38,
        e.srtt_us_min == 1800,
        e.srtt_us_max == 4200,
        e.srtt_us_final == 2100,
        e.rttvar_us_max == 800,
        e.retransmit_count == 3,
        e.retransmit_bytes == 2480,
        e.retransmit_rto_count == 1,
        e.retransmit_fast_count == 2,
        e.retransmit_tlp_count == 0,
        e.sack_blocks_received == 2,
        e.cwnd_min == 10,
        e.cwnd_max == 32,
        e.ecn_signals == 0,
        e.http_status == 200,
        e.has_tls == 1,
        e.has_http == 1,
        e.connect_ts_ns == 0,
        e.first_byte_ts_ns == 0,
        e.first_recv_ts_ns == 0,
        e.close_ts_ns == 0,
        e.duration_ns == 1_500_000_000,
        e.time_to_first_byte_ns == 13_200_000,
        e.tls_handshake_ns == 12_400_000,
        e.app_response_time_ns == 48_200_000,
        e.congestion_state_final == 0,
        e.chain_id == 0,
        e.parent_chain_id == 0,
        e.chain_depth == 0,
        e.protocol == 6,
        e.direction == 1,
        e.close_reason == 1,
        field_holds(e.comm@, "python3"@),
        field_holds(e.cgroup@, ""@),
        field_holds(e.tls_sni@, "api.bigpanda.io"@),
        field_holds(e.http_host@, "api.bigpanda.io"@),
        field_holds(e.http_method@, "POST"@),
        field_holds(e.http_path@, "/api/v2/alerts"@),
{
    reveal_strlit("python3");
    reveal_strlit("");
    reveal_strlit("api.bigpanda.io");
    reveal_strlit("POST");
    reveal_strlit("/api/v2/alerts");
    assert(encode_utf8(""@) =~= seq![]);
    short_texts_are_stored_whole("python3"@, 16);
    short_texts_are_stored_whole(""@, 128);
    short_texts_are_stored_whole("api.bigpanda.io"@, 256);
    short_texts_are_stored_whole("POST"@, 8);
    short_texts_are_stored_whole("/api/v2/alerts"@, 256);
}

} // verus!
