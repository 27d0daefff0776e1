//! What the loader attaches, and what the event loop does with what comes.

use vstd::prelude::*;
use vstd::string::*;
use vstd::utf8::encode_utf8;
use crate::common::{
    CloseReason, FlowDirection, FlowEvent, CGROUP_LEN, COMM_LEN, HOST_LEN, IPPROTO_TCP, METHOD_LEN,
    PATH_LEN,
};
use crate::enricher::EnrichedFlow;
use crate::filter::EventFilter;
use crate::json::{json_of, object_view, print_json, JsonValue};
use crate::maps::{FlowKey, FlowState};
use crate::printer::{flow_cuts_cleanly, lines_view, pretty, print_pretty, Piece};
use crate::tcp_lifecycle::{close_event, close_event_is_read_back};
use crate::text::same_text;
use crate::wire::{event_bytes_determine_event, holds_event, read_flow_event, FLOW_EVENT_LEN};

verus! {

/// Where the object with the kernel-side programs is built, seen from the
/// directory of the daemon.
pub open spec fn object_file() -> Seq<char> {
    "../flow-sensor-ebpf/target/bpfel-unknown-none/release/libflow_sensor_ebpf.so"@
}

/// A relative path, seen from a directory.
pub open spec fn path_under(dir: Seq<char>, rel: Seq<char>) -> Seq<char> {
    if dir.len() == 0 {
        rel
    } else if dir.last() == '/' {
        dir + rel
    } else {
        dir + "/"@ + rel
    }
}

/// The path of the object with the kernel-side programs.
pub open spec fn object_path(manifest_dir: Seq<char>) -> Seq<char> {
    path_under(manifest_dir, object_file())
}

/// Gives the path of the object with the kernel-side programs.
pub fn ebpf_object_path(manifest_dir: &str) -> (r: String)
    ensures
        r@ == object_path(manifest_dir@),
{
    let n = manifest_dir.unicode_len();
    let mut r = manifest_dir.to_owned();
    if n > 0 && manifest_dir.get_char(n - 1) != '/' {
        r.append("/");
    }
    r.append("../flow-sensor-ebpf/target/bpfel-unknown-none/release/libflow_sensor_ebpf.so");
    assert(r@ =~= path_under(manifest_dir@, object_file()));
    r
}

/// The kernel-side programs that are attached, all of them, each with the
/// kernel function that it watches. A receive is watched at its entry, where
/// the socket is remembered, and at its return, where the bytes are counted.
pub open spec fn attach_table() -> Seq<(Seq<char>, Seq<char>)> {
    seq![
        ("tcp_connect"@, "tcp_connect"@),
        ("inet_csk_accept"@, "inet_csk_accept"@),
        ("tcp_close"@, "tcp_close"@),
        ("tcp_send_active_reset"@, "tcp_send_active_reset"@),
        ("tcp_sendmsg"@, "tcp_sendmsg"@),
        ("tcp_recvmsg_entry"@, "tcp_recvmsg"@),
        ("tcp_recvmsg"@, "tcp_recvmsg"@),
        ("tcp_rcv_established"@, "tcp_rcv_established"@),
        ("tcp_enter_cwr"@, "tcp_enter_cwr"@),
        ("tcp_enter_loss"@, "tcp_enter_loss"@),
        ("tcp_enter_recovery"@, "tcp_enter_recovery"@),
        ("tcp_retransmit_skb"@, "tcp_retransmit_skb"@),
        ("tcp_send_loss_probe"@, "tcp_send_loss_probe"@),
        ("tcp_fast_retransmit"@, "tcp_retransmit_timer"@),
        ("tcp_sacktag"@, "tcp_sacktag_write_queue"@),
        ("on_new_task"@, "wake_up_new_task"@),
        ("on_exit"@, "do_exit"@),
    ]
}

/// What pairs of texts spell.
pub open spec fn pair_views(v: Seq<(&'static str, &'static str)>) -> Seq<(Seq<char>, Seq<char>)> {
    v.map_values(|p: (&'static str, &'static str)| (p.0@, p.1@))
}

fn put_point(
    out: &mut Vec<(&'static str, &'static str)>,
    program: &'static str,
    kernel_fn: &'static str,
)
    ensures
        pair_views(final(out)@) == pair_views(old(out)@).push((program@, kernel_fn@)),
{
    out.push((program, kernel_fn));
    assert(pair_views(out@) =~= pair_views(old(out)@).push((program@, kernel_fn@)));
}

/// Lists the kernel-side programs to attach, each with the kernel function
/// that it watches, in the order in which they are attached.
pub fn attach_points() -> (r: Vec<(&'static str, &'static str)>)
    ensures
        pair_views(r@) == attach_table(),
{
    let mut r: Vec<(&'static str, &'static str)> = Vec::new();
    put_point(&mut r, "tcp_connect", "tcp_connect");
    put_point(&mut r, "inet_csk_accept", "inet_csk_accept");
    put_point(&mut r, "tcp_close", "tcp_close");
    put_point(&mut r, "tcp_send_active_reset", "tcp_send_active_reset");
    put_point(&mut r, "tcp_sendmsg", "tcp_sendmsg");
    put_point(&mut r, "tcp_recvmsg_entry", "tcp_recvmsg");
    put_point(&mut r, "tcp_recvmsg", "tcp_recvmsg");
    put_point(&mut r, "tcp_rcv_established", "tcp_rcv_established");
    put_point(&mut r, "tcp_enter_cwr", "tcp_enter_cwr");
    put_point(&mut r, "tcp_enter_loss", "tcp_enter_loss");
    put_point(&mut r, "tcp_enter_recovery", "tcp_enter_recovery");
    put_point(&mut r, "tcp_retransmit_skb", "tcp_retransmit_skb");
    put_point(&mut r, "tcp_send_loss_probe", "tcp_send_loss_probe");
    put_point(&mut r, "tcp_fast_retransmit", "tcp_retransmit_timer");
    put_point(&mut r, "tcp_sacktag", "tcp_sacktag_write_queue");
    put_point(&mut r, "on_new_task", "wake_up_new_task");
    put_point(&mut r, "on_exit", "do_exit");
    assert(pair_views(r@) =~= attach_table());
    r
}

/// `r` is the event in an item of the ring buffer, if it holds one that the
/// filter accepts.
pub open spec fn is_taken(item: Seq<u8>, filter: EventFilter, r: Option<FlowEvent>) -> bool {
    &&& r matches Some(e) ==> holds_event(item, e) && filter.accepts(e)
    &&& forall|e: FlowEvent|
        #[trigger] holds_event(item, e) ==> (r == Some(e) <==> filter.accepts(e))
}

/// How many events have come once an item of the ring buffer has.
pub open spec fn counted(item: Seq<u8>, before: u64) -> int {
    if item.len() >= FLOW_EVENT_LEN {
        (before + 1) % 0x1_0000_0000_0000_0000
    } else {
        before as int
    }
}

/// What the event loop makes of an item of the ring buffer: the event that is
/// to be reported, if there is one. Every item that holds an event is counted.
pub fn take_item(item: &[u8], filter: &EventFilter, count: &mut u64) -> (r: Option<FlowEvent>)
    ensures
        is_taken(item@, *filter, r),
        *final(count) == counted(item@, *old(count)),
{
    match read_flow_event(item) {
        Some(event) => {
            *count = count.wrapping_add(1);
            proof {
                assert forall|e: FlowEvent| #[trigger] holds_event(item@, e) implies e == event by {
                    event_bytes_determine_event(item@, e, event);
                }
            }
            if filter.matches(&event) {
                Some(event)
            } else {
                None
            }
        },
        None => None,
    }
}

/// A connection whose close was written to the ring buffer is reported exactly
/// if the filter accepts its event, and then with that event.
pub proof fn closed_flow_is_reported(
    item: Seq<u8>,
    key: FlowKey,
    st: FlowState,
    now: u64,
    filter: EventFilter,
    r: Option<FlowEvent>,
)
    requires
        holds_event(item, close_event(key, st, now)),
        is_taken(item, filter, r),
    ensures
        r == if filter.accepts(close_event(key, st, now)) {
            Some(close_event(key, st, now))
        } else {
            None
        },
{
    if let Some(e) = r {
        close_event_is_read_back(item, key, st, now, e);
    }
}

/// Whether a format is one of JSON.
pub open spec fn is_json(format: Seq<char>) -> bool {
    format == "json"@ || format == "jsonl"@
}

/// What is to be printed of a flow.
pub enum Report {
    /// The members of an object, for one line.
    Json(Vec<(&'static str, JsonValue)>),
    /// Lines.
    Pretty(Vec<Vec<Piece>>),
}

/// Whether a format is one of JSON.
pub fn is_json_format(format: &str) -> (r: bool)
    ensures
        r == is_json(format@),
{
    same_text(format, "json") || same_text(format, "jsonl")
}

/// `r` is what is to be printed of a flow: an object in the JSON formats, lines
/// in all others.
pub open spec fn is_report(flow: EnrichedFlow, format: Seq<char>, r: Report) -> bool {
    &&& is_json(format) ==> (r matches Report::Json(members) && object_view(members@) == json_of(
        flow,
    ))
    &&& !is_json(format) ==> (r matches Report::Pretty(lines) && lines_view(lines@) == pretty(flow))
}

/// Gives what is to be printed of a flow: an object in the JSON formats, lines
/// in all others.
pub fn report(flow: &EnrichedFlow, format: &str) -> (r: Report)
    requires
        !is_json(format@) ==> flow_cuts_cleanly(*flow),
    ensures
        is_report(*flow, format@, r),
{
    if is_json_format(format) {
        Report::Json(print_json(flow))
    } else {
        Report::Pretty(print_pretty(flow))
    }
}

/// How much of `src` goes into a field of `len` bytes, whose last byte stays
/// free.
pub open spec fn stored_len(src: Seq<u8>, len: nat) -> int {
    if src.len() < len {
        src.len() as int
    } else if len == 0 {
        0
    } else {
        len - 1
    }
}

/// A field of `len` bytes with `src` in it, and NUL bytes behind.
pub open spec fn stored(src: Seq<u8>, len: nat) -> Seq<u8> {
    Seq::new(
        len,
        |i: int|
            if i < stored_len(src, len) {
                src[i]
            } else {
                0u8
            },
    )
}

/// A field with `src` copied to its front, short of its last byte.
pub open spec fn copied(dst: Seq<u8>, src: Seq<u8>) -> Seq<u8> {
    src.take(stored_len(src, dst.len())) + dst.skip(stored_len(src, dst.len()))
}

/// Copies `src` to the front of a field, short of its last byte.
pub fn copy_str(dst: &mut [u8], src: &[u8])
    ensures
        final(dst)@ == copied(old(dst)@, src@),
{
    let size = dst.len();
    let len: usize = if src.len() < size {
        src.len()
    } else if size == 0 {
        0
    } else {
        size - 1
    };
    let ghost start = dst@;
    let mut i: usize = 0;
    while i < len
        invariant
            i <= len <= src@.len(),
            len <= size == start.len(),
            dst@ =~= src@.take(i as int) + start.skip(i as int),
        decreases len - i,
    {
        dst[i] = src[i];
        i = i + 1;
    }
}

/// The event that shows the output without a kernel: one flow of an API
/// client that was retransmitted to and closed cleanly.
pub open spec fn is_test_event(e: FlowEvent, pid: u32) -> bool {
    &&& e.pid == pid
    &&& e.ppid == 0u32
    &&& e.uid == 0u32
    &&& e.gid == 0u32
    &&& e.comm@ == stored(encode_utf8("python3"@), COMM_LEN as nat)
    &&& e.cgroup@ == stored(seq![], CGROUP_LEN as nat)
    &&& e.src_ip == 0x0a00_0132u32
    &&& e.dst_ip == 0x6812_1401u32
    &&& e.src_port == 54821u16
    &&& e.dst_port == 443u16
    &&& e.protocol == IPPROTO_TCP
    &&& e.direction == FlowDirection::Outbound.code()
    &&& e.bytes_sent == 1240u64
    &&& e.bytes_recv == 48200u64
    &&& e.pkts_sent == 12u64
    &&& e.pkts_recv == 38u64
    &&& e.srtt_us_min == 1800u32
    &&& e.srtt_us_max == 4200u32
    &&& e.srtt_us_final == 2100u32
    &&& e.rttvar_us_max == 800u32
    &&& e.retransmit_count == 3u32
    &&& e.retransmit_bytes == 2480u64
    &&& e.retransmit_rto_count == 1u32
    &&& e.retransmit_fast_count == 2u32
    &&& e.retransmit_tlp_count == 0u32
    &&& e.sack_blocks_received == 2u32
    &&& e.cwnd_min == 10u32
    &&& e.cwnd_max == 32u32
    &&& e.ecn_signals == 0u32
    &&& e.tls_sni@ == stored(encode_utf8("api.bigpanda.io"@), HOST_LEN as nat)
    &&& e.http_host@ == stored(encode_utf8("api.bigpanda.io"@), HOST_LEN as nat)
    &&& e.http_method@ == stored(encode_utf8("POST"@), METHOD_LEN as nat)
    &&& e.http_path@ == stored(encode_utf8("/api/v2/alerts"@), PATH_LEN as nat)
    &&& e.http_status == 200u16
    &&& e.has_tls == 1u8
    &&& e.has_http == 1u8
    &&& e.connect_ts_ns == 0u64
    &&& e.first_byte_ts_ns == 0u64
    &&& e.first_recv_ts_ns == 0u64
    &&& e.close_ts_ns == 0u64
    &&& e.duration_ns == 1_500_000_000u64
    &&& e.time_to_first_byte_ns == 13_200_000u64
    &&& e.tls_handshake_ns == 12_400_000u64
    &&& e.app_response_time_ns == 48_200_000u64
    &&& e.close_reason == CloseReason::Clean.code()
    &&& e.congestion_state_final == 0u8
    &&& e.chain_id == 0u64
    &&& e.parent_chain_id == 0u64
    &&& e.chain_depth == 0u32
}

/// Makes the event that shows the output without a kernel.
pub fn make_test_event(pid: u32) -> (r: FlowEvent)
    ensures
        is_test_event(r, pid),
{
    let mut e = FlowEvent {
        pid,
        ppid: 0,
        uid: 0,
        gid: 0,
        comm: [0u8; COMM_LEN],
        cgroup: [0u8; CGROUP_LEN],
        src_ip: 0x0a00_0132,
        dst_ip: 0x6812_1401,
        src_port: 54821,
        dst_port: 443,
        protocol: IPPROTO_TCP,
        direction: FlowDirection::Outbound.code(),
        bytes_sent: 1240,
        bytes_recv: 48200,
        pkts_sent: 12,
        pkts_recv: 38,
        srtt_us_min: 1800,
        srtt_us_max: 4200,
        srtt_us_final: 2100,
        rttvar_us_max: 800,
        retransmit_count: 3,
        retransmit_bytes: 2480,
        retransmit_rto_count: 1,
        retransmit_fast_count: 2,
        retransmit_tlp_count: 0,
        sack_blocks_received: 2,
        cwnd_min: 10,
        cwnd_max: 32,
        ecn_signals: 0,
        tls_sni: [0u8; HOST_LEN],
        http_host: [0u8; HOST_LEN],
        http_method: [0u8; METHOD_LEN],
        http_path: [0u8; PATH_LEN],
        http_status: 200,
        has_tls: 1,
        has_http: 1,
        connect_ts_ns: 0,
        first_byte_ts_ns: 0,
        first_recv_ts_ns: 0,
        close_ts_ns: 0,
        duration_ns: 1_500_000_000,
        time_to_first_byte_ns: 13_200_000,
        tls_handshake_ns: 12_400_000,
        app_response_time_ns: 48_200_000,
        close_reason: CloseReason::Clean.code(),
        congestion_state_final: 0,
        chain_id: 0,
        parent_chain_id: 0,
        chain_depth: 0,
    };
    copy_str(&mut e.comm, "python3".as_bytes());
    copy_str(&mut e.tls_sni, "api.bigpanda.io".as_bytes());
    copy_str(&mut e.http_host, "api.bigpanda.io".as_bytes());
    copy_str(&mut e.http_method, "POST".as_bytes());
    copy_str(&mut e.http_path, "/api/v2/alerts".as_bytes());
    proof {
        assert(e.cgroup@ =~= stored(seq![], CGROUP_LEN as nat));
        assert(e.comm@ =~= stored(encode_utf8("python3"@), COMM_LEN as nat));
        assert(e.tls_sni@ =~= stored(encode_utf8("api.bigpanda.io"@), HOST_LEN as nat));
        assert(e.http_host@ =~= stored(encode_utf8("api.bigpanda.io"@), HOST_LEN as nat));
        assert(e.http_method@ =~= stored(encode_utf8("POST"@), METHOD_LEN as nat));
        assert(e.http_path@ =~= stored(encode_utf8("/api/v2/alerts"@), PATH_LEN as nat));
    }
    e
}

} // verus!
