//! What each thing that happens to a connection changes in its row, whatever
//! the row holds, and what a close tells of it.

use vstd::prelude::*;
use crate::bytes::overwrite;
use crate::client_hello::sni;
use crate::http::{looks_like_request, request_host, request_method, request_path};
use crate::kernel_laws::is_one_more;
use crate::maps::{FlowKey, FlowState};
use crate::report_laws::is_time_between;
use crate::retransmit::{hooked_row, retransmitted_row, sacked_row, RetransmitHook};
use crate::tcp_lifecycle::{close_event, received_row, reset_row, sent_row};
use crate::tcp_quality::{acked_row, ecn_row, AckSample};
use crate::tls::{answered_row, shows_tls, wrote_row};

verus! {

/// The sum of two counts, as far as 64 bits reach.
pub open spec fn is_sum(sum: u64, a: u64, b: u64) -> bool {
    sum == if a + b <= 0xffff_ffff_ffff_ffff {
        a + b
    } else {
        0xffff_ffff_ffff_ffff
    }
}

/// A time is stamped once: the first stamp stays.
pub open spec fn is_stamped_once(after: u64, before: u64, now: u64) -> bool {
    &&& before == 0 ==> after == now
    &&& before != 0 ==> after == before
}

/// A send adds its bytes and one packet, and stamps the first; nothing else changes.
pub proof fn send_adds_to_the_row(st: FlowState, size: u64, now: u64)
    ensures
        ({
            let r = sent_row(st, size, now);
            &&& is_sum(r.bytes_sent, st.bytes_sent, size)
            &&& is_sum(r.pkts_sent, st.pkts_sent, 1)
            &&& is_stamped_once(r.first_byte_ts_ns, st.first_byte_ts_ns, now)
            &&& r == (FlowState {
                bytes_sent: r.bytes_sent,
                pkts_sent: r.pkts_sent,
                first_byte_ts_ns: r.first_byte_ts_ns,
                ..st
            })
        }),
{
}

/// A receive adds its bytes and one packet, and stamps the first; nothing else changes.
pub proof fn receive_adds_to_the_row(st: FlowState, bytes: u64, now: u64)
    ensures
        ({
            let r = received_row(st, bytes, now);
            &&& is_sum(r.bytes_recv, st.bytes_recv, bytes)
            &&& is_sum(r.pkts_recv, st.pkts_recv, 1)
            &&& is_stamped_once(r.first_recv_ts_ns, st.first_recv_ts_ns, now)
            &&& r == (FlowState {
                bytes_recv: r.bytes_recv,
                pkts_recv: r.pkts_recv,
                first_recv_ts_ns: r.first_recv_ts_ns,
                ..st
            })
        }),
{
}

/// `m` is the smaller of two numbers.
pub open spec fn is_smaller_of(m: u32, a: u32, b: u32) -> bool {
    (m == a || m == b) && m <= a && m <= b
}

/// `m` is the larger of two numbers.
pub open spec fn is_larger_of(m: u32, a: u32, b: u32) -> bool {
    (m == a || m == b) && m >= a && m >= b
}

/// An ACK moves the extremes of round-trip time, jitter and window, and sets the last
/// round-trip time and the congestion state; without a round-trip time it leaves these
/// alone. Nothing else changes.
pub proof fn ack_moves_the_extremes(st: FlowState, sample: AckSample, state: u8)
    ensures
        ({
            let r = acked_row(st, sample, state);
            &&& sample.srtt_us > 0 ==> {
                &&& is_smaller_of(r.srtt_us_min, st.srtt_us_min, sample.srtt_us)
                &&& is_larger_of(r.srtt_us_max, st.srtt_us_max, sample.srtt_us)
                &&& r.srtt_us_last == sample.srtt_us
            }
            &&& sample.srtt_us == 0 ==> {
                &&& r.srtt_us_min == st.srtt_us_min
                &&& r.srtt_us_max == st.srtt_us_max
                &&& r.srtt_us_last == st.srtt_us_last
            }
            &&& is_larger_of(r.rttvar_us_max, st.rttvar_us_max, sample.rttvar_us)
            &&& is_smaller_of(r.cwnd_min, st.cwnd_min, sample.cwnd)
            &&& is_larger_of(r.cwnd_max, st.cwnd_max, sample.cwnd)
            &&& r.congestion_state_final == state
            &&& r == (FlowState {
                srtt_us_min: r.srtt_us_min,
                srtt_us_max: r.srtt_us_max,
                srtt_us_last: r.srtt_us_last,
                rttvar_us_max: r.rttvar_us_max,
                cwnd_min: r.cwnd_min,
                cwnd_max: r.cwnd_max,
                congestion_state_final: r.congestion_state_final,
                ..st
            })
        }),
{
}

/// A congestion signal and a SACK block count once each, a RST and a status are noted;
/// nothing else changes.
pub proof fn signals_change_one_field_each(st: FlowState, status: u16)
    ensures
        is_one_more(ecn_row(st).ecn_signals, st.ecn_signals),
        ecn_row(st) == (FlowState { ecn_signals: ecn_row(st).ecn_signals, ..st }),
        is_one_more(sacked_row(st).sack_blocks_received, st.sack_blocks_received),
        sacked_row(st) == (FlowState {
            sack_blocks_received: sacked_row(st).sack_blocks_received,
            ..st
        }),
        reset_row(st) == (FlowState { close_reason: 2, ..st }),
        answered_row(st, status) == (FlowState { http_status: status, ..st }),
{
}

/// A retransmit is counted by the hook that sees it first. The hook for every retransmit
/// takes back a claim in place of counting.
pub proof fn retransmit_is_counted_or_unclaimed(
    st: FlowState,
    hook: RetransmitHook,
    in_flight: u64,
)
    ensures
        ({
            let r = hooked_row(st, hook, in_flight);
            let counted = retransmitted_row(st, hook.reason(), in_flight);
            &&& hook == RetransmitHook::Every && st.retransmit_claimed == 1 ==> r == (FlowState {
                retransmit_claimed: 0,
                ..st
            })
            &&& hook == RetransmitHook::Every && st.retransmit_claimed != 1 ==> r == counted
            &&& hook != RetransmitHook::Every ==> r == (FlowState {
                retransmit_claimed: 1,
                ..counted
            })
        }),
{
}

/// Written bytes that show TLS or HTTP are noted: the flags are set, the times are
/// stamped once, and the texts are written to the front of their fields; nothing else
/// changes.
pub proof fn write_notes_what_it_shows(
    pre: FlowState,
    buf: Seq<u8>,
    ts_ns: u64,
    now: u64,
    post: FlowState,
)
    requires
        wrote_row(pre, buf, ts_ns, now, post),
    ensures
        shows_tls(buf) ==> post.has_tls == 1 && is_stamped_once(
            post.tls_ready_ts_ns,
            pre.tls_ready_ts_ns,
            now,
        ),
        !shows_tls(buf) ==> post.has_tls == pre.has_tls && post.tls_ready_ts_ns
            == pre.tls_ready_ts_ns,
        looks_like_request(buf) ==> post.has_http == 1,
        !looks_like_request(buf) ==> post.has_http == pre.has_http,
        shows_tls(buf) || looks_like_request(buf) ==> is_stamped_once(
            post.ssl_write_ts_ns,
            pre.ssl_write_ts_ns,
            ts_ns,
        ),
        !shows_tls(buf) && !looks_like_request(buf) ==> post.ssl_write_ts_ns
            == pre.ssl_write_ts_ns,
        sni(buf) is Some ==> post.tls_sni@ == overwrite(pre.tls_sni@, sni(buf)->0),
        sni(buf) is None ==> post.tls_sni@ == pre.tls_sni@,
        looks_like_request(buf) ==> {
            &&& post.http_method@ == overwrite(pre.http_method@, request_method(buf))
            &&& post.http_path@ == overwrite(pre.http_path@, request_path(buf))
            &&& post.http_host@ == overwrite(pre.http_host@, request_host(buf))
        },
        !looks_like_request(buf) ==> {
            &&& post.http_method@ == pre.http_method@
            &&& post.http_path@ == pre.http_path@
            &&& post.http_host@ == pre.http_host@
        },
        post == (FlowState {
            tls_sni: post.tls_sni,
            http_host: post.http_host,
            http_method: post.http_method,
            http_path: post.http_path,
            has_tls: post.has_tls,
            has_http: post.has_http,
            tls_ready_ts_ns: post.tls_ready_ts_ns,
            ssl_write_ts_ns: post.ssl_write_ts_ns,
            ..pre
        }),
{
}

/// A close tells who owned the connection, which one it was and how much moved on it.
pub proof fn close_tells_the_owner(key: FlowKey, st: FlowState, now: u64)
    ensures
        ({
            let e = close_event(key, st, now);
            &&& e.pid == st.pid && e.ppid == st.ppid && e.uid == st.uid && e.gid == st.gid
            &&& e.comm == st.comm && e.cgroup == st.cgroup
            &&& e.src_ip == key.src_ip && e.dst_ip == key.dst_ip
            &&& e.src_port == key.src_port && e.dst_port == key.dst_port
            &&& e.protocol == key.protocol && e.direction == st.direction
            &&& e.bytes_sent == st.bytes_sent && e.bytes_recv == st.bytes_recv
            &&& e.pkts_sent == st.pkts_sent && e.pkts_recv == st.pkts_recv
            &&& e.chain_id == st.chain_id && e.parent_chain_id == st.parent_chain_id
            &&& e.chain_depth == st.chain_depth
        }),
{
}

/// A close tells the quality of the connection; a least value that was never measured is
/// told as 0.
pub proof fn close_tells_the_quality(key: FlowKey, st: FlowState, now: u64)
    ensures
        ({
            let e = close_event(key, st, now);
            &&& st.srtt_us_min == 0xffff_ffff ==> e.srtt_us_min == 0
            &&& st.srtt_us_min != 0xffff_ffff ==> e.srtt_us_min == st.srtt_us_min
            &&& e.srtt_us_max == st.srtt_us_max && e.srtt_us_final == st.srtt_us_last
            &&& e.rttvar_us_max == st.rttvar_us_max
            &&& e.retransmit_count == st.retransmit_count
            &&& e.retransmit_bytes == st.retransmit_bytes
            &&& e.retransmit_rto_count == st.retransmit_rto_count
            &&& e.retransmit_fast_count == st.retransmit_fast_count
            &&& e.retransmit_tlp_count == st.retransmit_tlp_count
            &&& e.sack_blocks_received == st.sack_blocks_received
            &&& st.cwnd_min == 0xffff_ffff ==> e.cwnd_min == 0
            &&& st.cwnd_min != 0xffff_ffff ==> e.cwnd_min == st.cwnd_min
            &&& e.cwnd_max == st.cwnd_max && e.ecn_signals == st.ecn_signals
            &&& e.congestion_state_final == st.congestion_state_final
        }),
{
}

/// A close tells what was seen of TLS and HTTP.
pub proof fn close_tells_the_application(key: FlowKey, st: FlowState, now: u64)
    ensures
        ({
            let e = close_event(key, st, now);
            &&& e.tls_sni == st.tls_sni && e.http_host == st.http_host
            &&& e.http_method == st.http_method && e.http_path == st.http_path
            &&& e.http_status == st.http_status
            &&& e.has_tls == st.has_tls && e.has_http == st.has_http
        }),
{
}

/// A close tells when things happened and how long they took, a time that runs backwards
/// as nothing, and why the connection closed: by a RST if one was noted, else by this
/// host.
pub proof fn close_tells_the_times(key: FlowKey, st: FlowState, now: u64)
    ensures
        ({
            let e = close_event(key, st, now);
            let secured = st.tls_ready_ts_ns > 0;
            let answered = st.first_recv_ts_ns > 0 && st.ssl_write_ts_ns > 0;
            &&& e.connect_ts_ns == st.connect_ts_ns && e.close_ts_ns == now
            &&& e.first_byte_ts_ns == st.first_byte_ts_ns
            &&& e.first_recv_ts_ns == st.first_recv_ts_ns
            &&& is_time_between(e.duration_ns, st.connect_ts_ns, now)
            &&& is_time_between(e.time_to_first_byte_ns, st.connect_ts_ns, st.first_byte_ts_ns)
            &&& secured ==> is_time_between(
                e.tls_handshake_ns,
                st.connect_ts_ns,
                st.tls_ready_ts_ns,
            )
            &&& !secured ==> e.tls_handshake_ns == 0
            &&& answered ==> is_time_between(
                e.app_response_time_ns,
                st.ssl_write_ts_ns,
                st.first_recv_ts_ns,
            )
            &&& !answered ==> e.app_response_time_ns == 0
            &&& st.close_reason == 2 ==> e.close_reason == 2
            &&& st.close_reason != 2 ==> e.close_reason == 4
        }),
{
}

} // verus!
