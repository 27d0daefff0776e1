//! What the event of a close reports, told from what happened to the
//! connection between its opening and its close.

use vstd::prelude::*;
use crate::client_hello::sni;
use crate::flow_laws::{
    first_received, first_sent, first_shown, history, history_prefix, is_greatest, is_latest,
    is_least, measured_jitters, measured_rtts, measured_windows, op_shows_http, op_shows_tls,
    protocols_are_reported, quality_covers_every_ack, receives,
    response_time_is_of_the_first_exchange,
    first_byte_is_the_first, reset_is_reported, sends, total_received, total_sent, volume_adds_up,
    RowOp,
};
use crate::http::{looks_like_request, request_host, request_method, request_path};
use crate::maps::{FlowKey, FlowState};
use crate::retransmit::RetransmitHook;
use crate::tcp_lifecycle::{close_event, Opener};
use crate::tls::shows_tls;

verus! {

/// `v` is `n`, or the largest 32-bit number if `n` is larger.
pub open spec fn counts32(v: u32, n: int) -> bool {
    v == n || (v == 0xffff_ffff && n > 0xffff_ffff)
}

/// `v` is `n`, or the largest 64-bit number if `n` is larger.
pub open spec fn counts64(v: u64, n: int) -> bool {
    v == n || (v == 0xffff_ffff_ffff_ffff && n > 0xffff_ffff_ffff_ffff)
}

/// Who opened the connection, between which ends, in which direction and in
/// which chain.
pub proof fn close_reports_who_and_where(
    direction: u8,
    opener: Opener,
    rows: Seq<FlowState>,
    ops: Seq<RowOp>,
    key: FlowKey,
    now: u64,
    pid: u32,
    tid: u32,
    uid: u32,
    gid: u32,
)
    requires
        history(direction, opener, rows, ops),
        opener.pid_tgid == pid * 0x1_0000_0000 + tid,
        opener.uid_gid == gid * 0x1_0000_0000 + uid,
    ensures
        ({
            let e = close_event(key, rows.last(), now);
            &&& e.pid == pid && e.uid == uid && e.gid == gid && e.ppid == 0
            &&& opener.comm is Ok ==> e.comm == opener.comm->Ok_0
            &&& opener.comm is Err ==> forall|i: int| 0 <= i < 16 ==> #[trigger] e.comm@[i] == 0
            &&& forall|i: int| 0 <= i < 128 ==> #[trigger] e.cgroup@[i] == 0
            &&& e.src_ip == key.src_ip && e.dst_ip == key.dst_ip
            &&& e.src_port == key.src_port && e.dst_port == key.dst_port
            &&& e.protocol == key.protocol && e.direction == direction
            &&& opener.causal matches Some(ctx) ==> e.chain_id == ctx.chain_id && e.parent_chain_id
                == ctx.parent_chain_id && e.chain_depth == ctx.depth
            &&& opener.causal is None ==> e.chain_id == opener.now && e.parent_chain_id == 0
                && e.chain_depth == 0
        }),
    decreases ops.len(),
{
    if ops.len() > 0 {
        history_prefix(direction, opener, rows, ops);
        close_reports_who_and_where(
            direction,
            opener,
            rows.drop_last(),
            ops.drop_last(),
            key,
            now,
            pid,
            tid,
            uid,
            gid,
        );
        let before = close_event(key, rows.drop_last().last(), now);
        let e = close_event(key, rows.last(), now);
        assert(e.comm@ == before.comm@ && e.cgroup@ == before.cgroup@);
    } else {
        let e = close_event(key, rows.last(), now);
        assert(opener.pid_tgid as int / 0x1_0000_0000 == pid);
        assert(opener.uid_gid as int % 0x1_0000_0000 == uid);
        assert(opener.uid_gid as int / 0x1_0000_0000 == gid);
        assert(e.pid == pid);
        assert(e.uid == uid);
        assert(e.gid == gid);
        assert(opener.comm is Ok ==> e.comm == opener.comm->Ok_0);
        assert(opener.comm is Err ==> forall|i: int| 0 <= i < 16 ==> #[trigger] e.comm@[i] == 0);
        assert(forall|i: int| 0 <= i < 128 ==> #[trigger] e.cgroup@[i] == 0);
    }
}

/// The volume that is reported: the sum of what was sent and received, and how
/// often.
pub proof fn close_reports_the_volume(
    direction: u8,
    opener: Opener,
    rows: Seq<FlowState>,
    ops: Seq<RowOp>,
    key: FlowKey,
    now: u64,
)
    requires
        history(direction, opener, rows, ops),
    ensures
        ({
            let e = close_event(key, rows.last(), now);
            &&& counts64(e.bytes_sent, total_sent(ops))
            &&& counts64(e.bytes_recv, total_received(ops))
            &&& counts64(e.pkts_sent, sends(ops))
            &&& counts64(e.pkts_recv, receives(ops))
        }),
{
    volume_adds_up(direction, opener, rows, ops);
}

/// The quality that is reported: the extremes and the last of all that ACKs
/// measured, 0 where nothing was measured.
pub proof fn close_reports_the_quality(
    direction: u8,
    opener: Opener,
    rows: Seq<FlowState>,
    ops: Seq<RowOp>,
    key: FlowKey,
    now: u64,
)
    requires
        history(direction, opener, rows, ops),
    ensures
        ({
            let e = close_event(key, rows.last(), now);
            let all_ones = 0xffff_ffffu32;
            &&& is_least(e.srtt_us_min, measured_rtts(ops), 0) || (e.srtt_us_min == 0 && is_least(
                all_ones,
                measured_rtts(ops),
                0,
            ))
            &&& is_greatest(e.srtt_us_max, measured_rtts(ops), 0)
            &&& is_latest(e.srtt_us_final, measured_rtts(ops), 0)
            &&& is_greatest(e.rttvar_us_max, measured_jitters(ops), 0)
            &&& is_least(e.cwnd_min, measured_windows(ops), 0) || (e.cwnd_min == 0 && is_least(
                all_ones,
                measured_windows(ops),
                0,
            ))
            &&& is_greatest(e.cwnd_max, measured_windows(ops), 0)
        }),
{
    quality_covers_every_ack(direction, opener, rows, ops);
}

/// Whether the hook for every retransmit has yet to see one that was claimed.
pub open spec fn claim_stands(ops: Seq<RowOp>) -> bool
    decreases ops.len(),
{
    ops.len() > 0 && match ops.last() {
        RowOp::Retransmitted { hook: RetransmitHook::Every, .. } => false,
        RowOp::Retransmitted { .. } => true,
        _ => claim_stands(ops.drop_last()),
    }
}

/// How many retransmits this hook was the first to see.
pub open spec fn first_seen_by(ops: Seq<RowOp>, hook: RetransmitHook) -> int
    decreases ops.len(),
{
    if ops.len() == 0 {
        0
    } else {
        let before = first_seen_by(ops.drop_last(), hook);
        match ops.last() {
            RowOp::Retransmitted { hook: h, .. } => if h == hook && !(h == RetransmitHook::Every
                && claim_stands(ops.drop_last())) {
                before + 1
            } else {
                before
            },
            _ => before,
        }
    }
}

/// The bytes that were in flight at the retransmits, each counted once.
pub open spec fn bytes_at_retransmits(ops: Seq<RowOp>) -> int
    decreases ops.len(),
{
    if ops.len() == 0 {
        0
    } else {
        let before = bytes_at_retransmits(ops.drop_last());
        match ops.last() {
            RowOp::Retransmitted { hook, in_flight } => if hook == RetransmitHook::Every
                && claim_stands(ops.drop_last()) {
                before
            } else {
                before + in_flight
            },
            _ => before,
        }
    }
}

proof fn retransmits_are_not_negative(ops: Seq<RowOp>)
    ensures
        first_seen_by(ops, RetransmitHook::Every) >= 0,
        first_seen_by(ops, RetransmitHook::Fast) >= 0,
        first_seen_by(ops, RetransmitHook::LossProbe) >= 0,
        bytes_at_retransmits(ops) >= 0,
    decreases ops.len(),
{
    if ops.len() > 0 {
        retransmits_are_not_negative(ops.drop_last());
    }
}

/// The retransmits that are reported: as timeouts those that the hook for every
/// retransmit saw first, as fast ones and as probes those of the hooks for them.
pub proof fn close_reports_the_retransmits(
    direction: u8,
    opener: Opener,
    rows: Seq<FlowState>,
    ops: Seq<RowOp>,
    key: FlowKey,
    now: u64,
)
    requires
        history(direction, opener, rows, ops),
    ensures
        ({
            let e = close_event(key, rows.last(), now);
            let timeouts = first_seen_by(ops, RetransmitHook::Every);
            let fast = first_seen_by(ops, RetransmitHook::Fast);
            let probes = first_seen_by(ops, RetransmitHook::LossProbe);
            &&& counts32(e.retransmit_rto_count, timeouts)
            &&& counts32(e.retransmit_fast_count, fast)
            &&& counts32(e.retransmit_tlp_count, probes)
            &&& counts32(e.retransmit_count, timeouts + fast + probes)
            &&& counts64(e.retransmit_bytes, bytes_at_retransmits(ops))
        }),
        (rows.last().retransmit_claimed == 1) == claim_stands(ops),
    decreases ops.len(),
{
    if ops.len() > 0 {
        history_prefix(direction, opener, rows, ops);
        close_reports_the_retransmits(
            direction,
            opener,
            rows.drop_last(),
            ops.drop_last(),
            key,
            now,
        );
        retransmits_are_not_negative(ops.drop_last());
    }
}

/// How often a SACK block was received.
pub open spec fn sacks(ops: Seq<RowOp>) -> int
    decreases ops.len(),
{
    if ops.len() == 0 {
        0
    } else {
        sacks(ops.drop_last()) + if ops.last() is Sacked {
            1int
        } else {
            0
        }
    }
}

/// How often the network signalled congestion.
pub open spec fn ecn_marks(ops: Seq<RowOp>) -> int
    decreases ops.len(),
{
    if ops.len() == 0 {
        0
    } else {
        ecn_marks(ops.drop_last()) + if ops.last() is Ecn {
            1int
        } else {
            0
        }
    }
}

/// The congestion state that was seen last: 4 on entering loss recovery, 3 on
/// entering fast recovery, and on an ACK what the socket says; 0 before any.
pub open spec fn last_congestion(ops: Seq<RowOp>) -> u8
    decreases ops.len(),
{
    if ops.len() == 0 {
        0
    } else {
        match ops.last() {
            RowOp::EnteredLoss => 4,
            RowOp::EnteredRecovery => 3,
            RowOp::Acked { ca_state, .. } => ca_state,
            _ => last_congestion(ops.drop_last()),
        }
    }
}

/// The status that was read last, 0 before any.
pub open spec fn last_status(ops: Seq<RowOp>) -> u16
    decreases ops.len(),
{
    if ops.len() == 0 {
        0
    } else {
        match ops.last() {
            RowOp::Answered { status } => status,
            _ => last_status(ops.drop_last()),
        }
    }
}

/// The congestion signals, the last congestion state and the last status that
/// are reported.
pub proof fn close_reports_the_signals(
    direction: u8,
    opener: Opener,
    rows: Seq<FlowState>,
    ops: Seq<RowOp>,
    key: FlowKey,
    now: u64,
)
    requires
        history(direction, opener, rows, ops),
    ensures
        ({
            let e = close_event(key, rows.last(), now);
            &&& counts32(e.sack_blocks_received, sacks(ops))
            &&& counts32(e.ecn_signals, ecn_marks(ops))
            &&& e.congestion_state_final == last_congestion(ops)
            &&& e.http_status == last_status(ops)
        }),
    decreases ops.len(),
{
    if ops.len() > 0 {
        history_prefix(direction, opener, rows, ops);
        close_reports_the_signals(direction, opener, rows.drop_last(), ops.drop_last(), key, now);
    }
}

/// When the first write that showed TLS was looked at, 0 if there was none.
pub open spec fn first_secured(ops: Seq<RowOp>) -> u64
    decreases ops.len(),
{
    if ops.len() == 0 {
        0
    } else {
        let before = first_secured(ops.drop_last());
        match ops.last() {
            RowOp::TlsWrote { buf, now, .. } => if before == 0 && shows_tls(buf) {
                now
            } else {
                before
            },
            _ => before,
        }
    }
}

proof fn securing_is_stamped(direction: u8, opener: Opener, rows: Seq<FlowState>, ops: Seq<RowOp>)
    requires
        history(direction, opener, rows, ops),
    ensures
        rows.last().tls_ready_ts_ns == first_secured(ops),
        rows.last().first_recv_ts_ns == first_received(ops),
        rows.last().connect_ts_ns == opener.now,
    decreases ops.len(),
{
    if ops.len() > 0 {
        history_prefix(direction, opener, rows, ops);
        securing_is_stamped(direction, opener, rows.drop_last(), ops.drop_last());
    }
}

/// `span` is the time from `a` to `b`, nothing if `b` lies before.
pub open spec fn is_time_between(span: u64, a: u64, b: u64) -> bool {
    span == if a <= b {
        b - a
    } else {
        0
    }
}

/// The times that are reported.
pub proof fn close_reports_the_times(
    direction: u8,
    opener: Opener,
    rows: Seq<FlowState>,
    ops: Seq<RowOp>,
    key: FlowKey,
    now: u64,
)
    requires
        history(direction, opener, rows, ops),
    ensures
        ({
            let e = close_event(key, rows.last(), now);
            &&& e.connect_ts_ns == opener.now
            &&& e.close_ts_ns == now
            &&& e.first_byte_ts_ns == first_sent(ops)
            &&& e.first_recv_ts_ns == first_received(ops)
            &&& is_time_between(e.duration_ns, opener.now, now)
            &&& is_time_between(e.time_to_first_byte_ns, opener.now, first_sent(ops))
            &&& is_time_between(e.tls_handshake_ns, opener.now, first_secured(ops))
            &&& first_shown(ops) > 0 && first_received(ops) > 0 ==> is_time_between(
                e.app_response_time_ns,
                first_shown(ops),
                first_received(ops),
            )
            &&& first_shown(ops) == 0 || first_received(ops) == 0 ==> e.app_response_time_ns == 0
        }),
{
    securing_is_stamped(direction, opener, rows, ops);
    first_byte_is_the_first(direction, opener, rows, ops);
    response_time_is_of_the_first_exchange(direction, opener, rows, ops, key, now);
}

/// A field of `len` bytes that texts were written into: at each place the byte of
/// the last text that reached so far, 0 where none did.
pub open spec fn written_over(field: Seq<u8>, text: Seq<u8>) -> Seq<u8> {
    Seq::new(
        field.len(),
        |i: int|
            if i < text.len() {
                text[i]
            } else {
                field[i]
            },
    )
}

/// The texts that writes put into a field of `len` bytes, `of` giving the text
/// of a write, if it has one.
pub open spec fn texts_written(
    ops: Seq<RowOp>,
    len: nat,
    of: spec_fn(Seq<u8>) -> Option<Seq<u8>>,
) -> Seq<u8>
    decreases ops.len(),
{
    if ops.len() == 0 {
        Seq::new(len, |i: int| 0u8)
    } else {
        let before = texts_written(ops.drop_last(), len, of);
        match ops.last() {
            RowOp::TlsWrote { buf, .. } => match of(buf) {
                Some(text) => written_over(before, text),
                None => before,
            },
            _ => before,
        }
    }
}

/// The server name of a write.
pub open spec fn names_server() -> spec_fn(Seq<u8>) -> Option<Seq<u8>> {
    |buf: Seq<u8>| sni(buf)
}

/// The method of a write.
pub open spec fn gives_method() -> spec_fn(Seq<u8>) -> Option<Seq<u8>> {
    |buf: Seq<u8>|
        if looks_like_request(buf) {
            Some(request_method(buf))
        } else {
            None
        }
}

/// The path of a write.
pub open spec fn gives_path() -> spec_fn(Seq<u8>) -> Option<Seq<u8>> {
    |buf: Seq<u8>|
        if looks_like_request(buf) {
            Some(request_path(buf))
        } else {
            None
        }
}

/// The host of a write.
pub open spec fn gives_host() -> spec_fn(Seq<u8>) -> Option<Seq<u8>> {
    |buf: Seq<u8>|
        if looks_like_request(buf) {
            Some(request_host(buf))
        } else {
            None
        }
}

/// What was written through a TLS library and is reported: the server name, and
/// method, path and host of requests, each in the field for it.
pub proof fn close_reports_what_was_written(
    direction: u8,
    opener: Opener,
    rows: Seq<FlowState>,
    ops: Seq<RowOp>,
    key: FlowKey,
    now: u64,
)
    requires
        history(direction, opener, rows, ops),
    ensures
        ({
            let e = close_event(key, rows.last(), now);
            &&& e.tls_sni@ == texts_written(ops, 256, names_server())
            &&& e.http_method@ == texts_written(ops, 8, gives_method())
            &&& e.http_path@ == texts_written(ops, 256, gives_path())
            &&& e.http_host@ == texts_written(ops, 256, gives_host())
        }),
    decreases ops.len(),
{
    if ops.len() > 0 {
        history_prefix(direction, opener, rows, ops);
        let before = rows.drop_last();
        close_reports_what_was_written(direction, opener, before, ops.drop_last(), key, now);
        if let RowOp::TlsWrote { buf, .. } = ops.last() {
            crate::client_hello::sni_lies_in_the_buffer(buf);
        }
        let e = close_event(key, rows.last(), now);
        assert(e.tls_sni@ =~= texts_written(ops, 256, names_server()));
        assert(e.http_method@ =~= texts_written(ops, 8, gives_method()));
        assert(e.http_path@ =~= texts_written(ops, 256, gives_path()));
        assert(e.http_host@ =~= texts_written(ops, 256, gives_host()));
    } else {
        let e = close_event(key, rows.last(), now);
        assert(e.tls_sni@ =~= texts_written(ops, 256, names_server()));
        assert(e.http_method@ =~= texts_written(ops, 8, gives_method()));
        assert(e.http_path@ =~= texts_written(ops, 256, gives_path()));
        assert(e.http_host@ =~= texts_written(ops, 256, gives_host()));
    }
}

/// TLS and HTTP are reported exactly if a write showed them, and a reset exactly
/// if one was sent.
pub proof fn close_reports_what_was_seen(
    direction: u8,
    opener: Opener,
    rows: Seq<FlowState>,
    ops: Seq<RowOp>,
    key: FlowKey,
    now: u64,
)
    requires
        history(direction, opener, rows, ops),
    ensures
        ({
            let e = close_event(key, rows.last(), now);
            &&& e.has_tls == 1 || e.has_tls == 0
            &&& e.has_http == 1 || e.has_http == 0
            &&& e.has_tls == 1 <==> exists|i: int|
                0 <= i < ops.len() && (#[trigger] ops[i] matches RowOp::TlsWrote { buf, .. }
                    && shows_tls(buf))
            &&& e.has_http == 1 <==> exists|i: int|
                0 <= i < ops.len() && (#[trigger] ops[i] matches RowOp::TlsWrote { buf, .. }
                    && looks_like_request(buf))
            &&& e.close_reason == 2 || e.close_reason == 4
            &&& e.close_reason == 2 <==> ops.contains(RowOp::Reset)
        }),
{
    protocols_are_reported(direction, opener, rows, ops);
    reset_is_reported(direction, opener, rows, ops, key, now);
    let e = close_event(key, rows.last(), now);
    if e.has_tls == 1 {
        let i = choose|i: int| 0 <= i < ops.len() && op_shows_tls(#[trigger] ops[i]);
        assert(op_shows_tls(ops[i]));
    }
    if e.has_http == 1 {
        let i = choose|i: int| 0 <= i < ops.len() && op_shows_http(#[trigger] ops[i]);
        assert(op_shows_http(ops[i]));
    }
    assert forall|i: int|
        0 <= i < ops.len() && (#[trigger] ops[i] matches RowOp::TlsWrote { buf, .. } && shows_tls(
            buf,
        )) implies op_shows_tls(ops[i]) by {}
    assert forall|i: int|
        0 <= i < ops.len() && (#[trigger] ops[i] matches RowOp::TlsWrote { buf, .. }
            && looks_like_request(buf)) implies op_shows_http(ops[i]) by {}
}

} // verus!
