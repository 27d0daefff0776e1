//! What holds of every connection, whatever happens to it between its opening
//! and its close.

use vstd::prelude::*;
use vstd::utf8::{decode_utf8, valid_utf8};
use crate::bytes::{first_where_unique, overwrite};
use crate::client_hello::{client_hello_gives_its_name, ClientHello};
use crate::common::{CloseReason, FlowEvent, HOST_LEN};
use crate::field_text::{nul_at, terminated_field_text};
use crate::http::looks_like_request;
use crate::maps::{FlowKey, FlowState};
use crate::retransmit::{hooked_row, sacked_row, RetransmitHook};
use crate::tcp_lifecycle::{
    after_room, after_row, close_event, new_row, received_row, reset_row, sent_row, CloseStep,
    Opener,
};
use crate::tcp_quality::{acked_row, ecn_row, lossy_row, recovering_row, AckSample};
use crate::tls::{answered_row, shows_tls, wrote_row};

verus! {

/// Something that happens to an open connection.
pub enum RowOp {
    Sent { size: u64, now: u64 },
    Received { bytes: u64, now: u64 },
    Acked { sample: AckSample, ca_state: u8 },
    Ecn,
    EnteredLoss,
    EnteredRecovery,
    Retransmitted { hook: RetransmitHook, in_flight: u64 },
    Sacked,
    Reset,
    TlsWrote { buf: Seq<u8>, ts_ns: u64, now: u64 },
    Answered { status: u16 },
}

/// `post` is the row `pre` after `op`.
pub open spec fn step(pre: FlowState, op: RowOp, post: FlowState) -> bool {
    match op {
        RowOp::Sent { size, now } => post == sent_row(pre, size, now),
        RowOp::Received { bytes, now } => post == received_row(pre, bytes, now),
        RowOp::Acked { sample, ca_state } => post == acked_row(pre, sample, ca_state),
        RowOp::Ecn => post == ecn_row(pre),
        RowOp::EnteredLoss => post == lossy_row(pre),
        RowOp::EnteredRecovery => post == recovering_row(pre),
        RowOp::Retransmitted { hook, in_flight } => post == hooked_row(pre, hook, in_flight),
        RowOp::Sacked => post == sacked_row(pre),
        RowOp::Reset => post == reset_row(pre),
        RowOp::TlsWrote { buf, ts_ns, now } => wrote_row(pre, buf, ts_ns, now, post),
        RowOp::Answered { status } => post == answered_row(pre, status),
    }
}

/// `rows` are the states of one connection's row, from its opening on, with
/// `ops` between them.
pub open spec fn history(direction: u8, opener: Opener, rows: Seq<FlowState>, ops: Seq<RowOp>) -> bool {
    &&& rows.len() == ops.len() + 1
    &&& rows[0] == new_row(direction, opener)
    &&& forall|i: int| 0 <= i < ops.len() ==> #[trigger] step(rows[i], ops[i], rows[i + 1])
}

/// A history without its last operation.
pub proof fn history_prefix(direction: u8, opener: Opener, rows: Seq<FlowState>, ops: Seq<RowOp>)
    requires
        history(direction, opener, rows, ops),
        ops.len() > 0,
    ensures
        history(direction, opener, rows.drop_last(), ops.drop_last()),
        step(rows.drop_last().last(), ops.last(), rows.last()),
{
    let n = ops.len() - 1;
    assert(step(rows[n], ops[n], rows[n + 1]));
    assert forall|i: int| 0 <= i < ops.drop_last().len() implies #[trigger] step(
        rows.drop_last()[i],
        ops.drop_last()[i],
        rows.drop_last()[i + 1],
    ) by {
        assert(step(rows[i], ops[i], rows[i + 1]));
    }
}

/// Who opened a connection, when, and in which chain never changes.
pub proof fn identity_stays(direction: u8, opener: Opener, rows: Seq<FlowState>, ops: Seq<RowOp>)
    requires
        history(direction, opener, rows, ops),
    ensures
        ({
            let first = rows[0];
            let last = rows.last();
            &&& last.pid == first.pid
            &&& last.uid == first.uid
            &&& last.gid == first.gid
            &&& last.comm == first.comm
            &&& last.direction == direction
            &&& last.connect_ts_ns == opener.now
            &&& last.chain_id == first.chain_id
            &&& last.parent_chain_id == first.parent_chain_id
            &&& last.chain_depth == first.chain_depth
        }),
    decreases ops.len(),
{
    if ops.len() > 0 {
        history_prefix(direction, opener, rows, ops);
        identity_stays(direction, opener, rows.drop_last(), ops.drop_last());
    }
}

/// Every retransmit is counted under exactly one reason: the total is the sum
/// of the three, held at the counter's limit.
pub proof fn retransmits_add_up(
    direction: u8,
    opener: Opener,
    rows: Seq<FlowState>,
    ops: Seq<RowOp>,
)
    requires
        history(direction, opener, rows, ops),
    ensures
        ({
            let st = rows.last();
            let sum = st.retransmit_rto_count + st.retransmit_fast_count + st.retransmit_tlp_count;
            st.retransmit_count == if sum <= u32::MAX {
                sum
            } else {
                u32::MAX as int
            }
        }),
    decreases ops.len(),
{
    if ops.len() > 0 {
        history_prefix(direction, opener, rows, ops);
        retransmits_add_up(direction, opener, rows.drop_last(), ops.drop_last());
    }
}

/// The reported RTTs are in order, and so are the congestion windows.
pub proof fn extremes_are_in_order(
    direction: u8,
    opener: Opener,
    rows: Seq<FlowState>,
    ops: Seq<RowOp>,
    key: FlowKey,
    now: u64,
)
    requires
        history(direction, opener, rows, ops),
    ensures
        ({
            let e = close_event(key, rows.last(), now);
            e.srtt_us_min <= e.srtt_us_final <= e.srtt_us_max && e.cwnd_min <= e.cwnd_max
        }),
{
    extremes_bracket_the_last(direction, opener, rows, ops);
}

proof fn extremes_bracket_the_last(
    direction: u8,
    opener: Opener,
    rows: Seq<FlowState>,
    ops: Seq<RowOp>,
)
    requires
        history(direction, opener, rows, ops),
    ensures
        ({
            let st = rows.last();
            &&& (st.srtt_us_min == u32::MAX && st.srtt_us_last == 0 && st.srtt_us_max == 0)
                || st.srtt_us_min <= st.srtt_us_last <= st.srtt_us_max
            &&& (st.cwnd_min == u32::MAX && st.cwnd_max == 0) || st.cwnd_min <= st.cwnd_max
        }),
    decreases ops.len(),
{
    if ops.len() > 0 {
        history_prefix(direction, opener, rows, ops);
        extremes_bracket_the_last(direction, opener, rows.drop_last(), ops.drop_last());
    }
}

/// The RTTs that ACKs measured, in order. An RTT of 0 is no measurement.
pub open spec fn measured_rtts(ops: Seq<RowOp>) -> Seq<u32>
    decreases ops.len(),
{
    if ops.len() == 0 {
        seq![]
    } else {
        let before = measured_rtts(ops.drop_last());
        match ops.last() {
            RowOp::Acked { sample, .. } if sample.srtt_us > 0 => before.push(sample.srtt_us),
            _ => before,
        }
    }
}

/// The RTT variances that ACKs came with, in order.
pub open spec fn measured_jitters(ops: Seq<RowOp>) -> Seq<u32>
    decreases ops.len(),
{
    if ops.len() == 0 {
        seq![]
    } else {
        let before = measured_jitters(ops.drop_last());
        match ops.last() {
            RowOp::Acked { sample, .. } => before.push(sample.rttvar_us),
            _ => before,
        }
    }
}

/// The congestion windows that ACKs came with, in order.
pub open spec fn measured_windows(ops: Seq<RowOp>) -> Seq<u32>
    decreases ops.len(),
{
    if ops.len() == 0 {
        seq![]
    } else {
        let before = measured_windows(ops.drop_last());
        match ops.last() {
            RowOp::Acked { sample, .. } => before.push(sample.cwnd),
            _ => before,
        }
    }
}

/// `m` is the least of `values`, `none` if there are none.
pub open spec fn is_least(m: u32, values: Seq<u32>, none: u32) -> bool {
    if values.len() == 0 {
        m == none
    } else {
        values.contains(m) && forall|i: int| 0 <= i < values.len() ==> m <= #[trigger] values[i]
    }
}

/// `m` is the greatest of `values`, `none` if there are none.
pub open spec fn is_greatest(m: u32, values: Seq<u32>, none: u32) -> bool {
    if values.len() == 0 {
        m == none
    } else {
        values.contains(m) && forall|i: int| 0 <= i < values.len() ==> #[trigger] values[i] <= m
    }
}

/// `m` is the last of `values`, `none` if there are none.
pub open spec fn is_latest(m: u32, values: Seq<u32>, none: u32) -> bool {
    m == if values.len() == 0 {
        none
    } else {
        values.last()
    }
}

proof fn least_with_one_more(m: u32, values: Seq<u32>, v: u32)
    requires
        is_least(m, values, u32::MAX),
    ensures
        is_least(
            if v < m {
                v
            } else {
                m
            },
            values.push(v),
            u32::MAX,
        ),
{
    let more = values.push(v);
    assert(more[values.len() as int] == v);
    if v >= m && values.len() > 0 {
        let i = choose|i: int| 0 <= i < values.len() && values[i] == m;
        assert(more[i] == m);
    }
}

proof fn greatest_with_one_more(m: u32, values: Seq<u32>, v: u32)
    requires
        is_greatest(m, values, 0),
    ensures
        is_greatest(
            if v > m {
                v
            } else {
                m
            },
            values.push(v),
            0,
        ),
{
    let more = values.push(v);
    assert(more[values.len() as int] == v);
    if v <= m && values.len() > 0 {
        let i = choose|i: int| 0 <= i < values.len() && values[i] == m;
        assert(more[i] == m);
    }
}

/// Every ACK counts: over the life of a connection, the least, greatest and
/// last RTT are those of all that were measured, the peak jitter is the
/// greatest of all, and so are the congestion windows the extremes of all.
pub proof fn quality_covers_every_ack(
    direction: u8,
    opener: Opener,
    rows: Seq<FlowState>,
    ops: Seq<RowOp>,
)
    requires
        history(direction, opener, rows, ops),
    ensures
        is_least(rows.last().srtt_us_min, measured_rtts(ops), u32::MAX),
        is_greatest(rows.last().srtt_us_max, measured_rtts(ops), 0),
        is_latest(rows.last().srtt_us_last, measured_rtts(ops), 0),
        is_greatest(rows.last().rttvar_us_max, measured_jitters(ops), 0),
        is_least(rows.last().cwnd_min, measured_windows(ops), u32::MAX),
        is_greatest(rows.last().cwnd_max, measured_windows(ops), 0),
    decreases ops.len(),
{
    if ops.len() > 0 {
        let before = ops.drop_last();
        let st = rows.drop_last().last();
        history_prefix(direction, opener, rows, ops);
        quality_covers_every_ack(direction, opener, rows.drop_last(), before);
        if let RowOp::Acked { sample, .. } = ops.last() {
            least_with_one_more(st.srtt_us_min, measured_rtts(before), sample.srtt_us);
            greatest_with_one_more(st.srtt_us_max, measured_rtts(before), sample.srtt_us);
            greatest_with_one_more(st.rttvar_us_max, measured_jitters(before), sample.rttvar_us);
            least_with_one_more(st.cwnd_min, measured_windows(before), sample.cwnd);
            greatest_with_one_more(st.cwnd_max, measured_windows(before), sample.cwnd);
        }
    }
}

/// The bytes that were sent, all in all.
pub open spec fn total_sent(ops: Seq<RowOp>) -> int
    decreases ops.len(),
{
    if ops.len() == 0 {
        0
    } else {
        total_sent(ops.drop_last()) + match ops.last() {
            RowOp::Sent { size, .. } => size as int,
            _ => 0,
        }
    }
}

/// The bytes that were received, all in all.
pub open spec fn total_received(ops: Seq<RowOp>) -> int
    decreases ops.len(),
{
    if ops.len() == 0 {
        0
    } else {
        total_received(ops.drop_last()) + match ops.last() {
            RowOp::Received { bytes, .. } => bytes as int,
            _ => 0,
        }
    }
}

/// How often something was sent.
pub open spec fn sends(ops: Seq<RowOp>) -> int
    decreases ops.len(),
{
    if ops.len() == 0 {
        0
    } else {
        sends(ops.drop_last()) + if ops.last() is Sent {
            1int
        } else {
            0
        }
    }
}

/// How often something was received.
pub open spec fn receives(ops: Seq<RowOp>) -> int
    decreases ops.len(),
{
    if ops.len() == 0 {
        0
    } else {
        receives(ops.drop_last()) + if ops.last() is Received {
            1int
        } else {
            0
        }
    }
}

/// `n`, held at the largest 64-bit number.
pub open spec fn held64(n: int) -> int {
    if n <= u64::MAX {
        n
    } else {
        u64::MAX as int
    }
}

proof fn totals_are_not_negative(ops: Seq<RowOp>)
    ensures
        total_sent(ops) >= 0,
        total_received(ops) >= 0,
        sends(ops) >= 0,
        receives(ops) >= 0,
    decreases ops.len(),
{
    if ops.len() > 0 {
        totals_are_not_negative(ops.drop_last());
    }
}

/// The volume that is reported is the sum of what was sent and received, held
/// at the counters' limit.
pub proof fn volume_adds_up(direction: u8, opener: Opener, rows: Seq<FlowState>, ops: Seq<RowOp>)
    requires
        history(direction, opener, rows, ops),
    ensures
        rows.last().bytes_sent == held64(total_sent(ops)),
        rows.last().bytes_recv == held64(total_received(ops)),
        rows.last().pkts_sent == held64(sends(ops)),
        rows.last().pkts_recv == held64(receives(ops)),
    decreases ops.len(),
{
    if ops.len() > 0 {
        history_prefix(direction, opener, rows, ops);
        volume_adds_up(direction, opener, rows.drop_last(), ops.drop_last());
        totals_are_not_negative(ops.drop_last());
    }
}

/// A close is reported as a reset exactly if a RST was sent before, and else
/// as a close by this host.
pub proof fn reset_is_reported(
    direction: u8,
    opener: Opener,
    rows: Seq<FlowState>,
    ops: Seq<RowOp>,
    key: FlowKey,
    now: u64,
)
    requires
        history(direction, opener, rows, ops),
    ensures
        close_event(key, rows.last(), now).close_reason == if ops.contains(RowOp::Reset) {
            CloseReason::Reset.code()
        } else {
            CloseReason::LocalClose.code()
        },
{
    reset_is_noted(direction, opener, rows, ops);
}

proof fn reset_is_noted(direction: u8, opener: Opener, rows: Seq<FlowState>, ops: Seq<RowOp>)
    requires
        history(direction, opener, rows, ops),
    ensures
        rows.last().close_reason == if ops.contains(RowOp::Reset) {
            CloseReason::Reset.code()
        } else {
            CloseReason::Unknown.code()
        },
    decreases ops.len(),
{
    if ops.len() > 0 {
        history_prefix(direction, opener, rows, ops);
        reset_is_noted(direction, opener, rows.drop_last(), ops.drop_last());
        let n = ops.len() - 1;
        if ops.drop_last().contains(RowOp::Reset) {
            let i = choose|i: int| 0 <= i < n && ops.drop_last()[i] == RowOp::Reset;
            assert(ops[i] == RowOp::Reset);
        }
        if ops.contains(RowOp::Reset) && ops[n] != RowOp::Reset {
            let i = choose|i: int| 0 <= i < ops.len() && ops[i] == RowOp::Reset;
            assert(ops.drop_last()[i] == RowOp::Reset);
        }
    }
}

/// Whether this is a write that shows TLS.
pub open spec fn op_shows_tls(op: RowOp) -> bool {
    op matches RowOp::TlsWrote { buf, .. } && shows_tls(buf)
}

/// Whether this is a write that shows HTTP.
pub open spec fn op_shows_http(op: RowOp) -> bool {
    op matches RowOp::TlsWrote { buf, .. } && looks_like_request(buf)
}

/// TLS is reported exactly if a write showed it, and HTTP likewise.
pub proof fn protocols_are_reported(
    direction: u8,
    opener: Opener,
    rows: Seq<FlowState>,
    ops: Seq<RowOp>,
)
    requires
        history(direction, opener, rows, ops),
    ensures
        rows.last().has_tls == if exists|i: int| 0 <= i < ops.len() && op_shows_tls(#[trigger] ops[i]) {
            1u8
        } else {
            0u8
        },
        rows.last().has_http == if exists|i: int|
            0 <= i < ops.len() && op_shows_http(#[trigger] ops[i]) {
            1u8
        } else {
            0u8
        },
    decreases ops.len(),
{
    if ops.len() > 0 {
        history_prefix(direction, opener, rows, ops);
        protocols_are_reported(direction, opener, rows.drop_last(), ops.drop_last());
        let n = ops.len() - 1;
        let before = ops.drop_last();
        assert(forall|i: int| 0 <= i < n ==> before[i] == #[trigger] ops[i]);
        assert(forall|i: int| 0 <= i < n ==> #[trigger] before[i] == ops[i]);
        assert(ops[n] == ops.last());
    }
}

/// The time at which an operation took place lies between `from` and `to`, as
/// far as it has one.
pub open spec fn happens_within(op: RowOp, from: u64, to: u64) -> bool {
    match op {
        RowOp::Sent { now, .. } => from <= now <= to,
        RowOp::Received { now, .. } => from <= now <= to,
        RowOp::TlsWrote { ts_ns, now, .. } => from <= ts_ns <= to && from <= now <= to,
        _ => true,
    }
}

proof fn stamps_lie_within(
    direction: u8,
    opener: Opener,
    rows: Seq<FlowState>,
    ops: Seq<RowOp>,
    close: u64,
)
    requires
        history(direction, opener, rows, ops),
        forall|i: int| 0 <= i < ops.len() ==> happens_within(#[trigger] ops[i], opener.now, close),
    ensures
        ({
            let st = rows.last();
            &&& st.first_byte_ts_ns == 0 || opener.now <= st.first_byte_ts_ns <= close
            &&& st.first_recv_ts_ns == 0 || opener.now <= st.first_recv_ts_ns <= close
            &&& st.tls_ready_ts_ns == 0 || opener.now <= st.tls_ready_ts_ns <= close
            &&& st.ssl_write_ts_ns == 0 || opener.now <= st.ssl_write_ts_ns <= close
        }),
    decreases ops.len(),
{
    if ops.len() > 0 {
        history_prefix(direction, opener, rows, ops);
        assert forall|i: int| 0 <= i < ops.drop_last().len() implies happens_within(
            #[trigger] ops.drop_last()[i],
            opener.now,
            close,
        ) by {
            assert(ops.drop_last()[i] == ops[i]);
        }
        stamps_lie_within(direction, opener, rows.drop_last(), ops.drop_last(), close);
        assert(happens_within(ops[ops.len() - 1], opener.now, close));
    }
}

/// On a clock that does not run backwards, no part of a connection that is
/// reported took longer than the connection.
pub proof fn timings_fit_the_duration(
    direction: u8,
    opener: Opener,
    rows: Seq<FlowState>,
    ops: Seq<RowOp>,
    key: FlowKey,
    close: u64,
)
    requires
        history(direction, opener, rows, ops),
        opener.now <= close,
        forall|i: int| 0 <= i < ops.len() ==> happens_within(#[trigger] ops[i], opener.now, close),
    ensures
        ({
            let e = close_event(key, rows.last(), close);
            &&& e.duration_ns == close - opener.now
            &&& e.time_to_first_byte_ns <= e.duration_ns
            &&& e.tls_handshake_ns <= e.duration_ns
            &&& e.app_response_time_ns <= e.duration_ns
        }),
{
    stamps_lie_within(direction, opener, rows, ops, close);
    identity_stays(direction, opener, rows, ops);
}

/// When the first bytes were sent, 0 if none were.
pub open spec fn first_sent(ops: Seq<RowOp>) -> u64
    decreases ops.len(),
{
    if ops.len() == 0 {
        0
    } else {
        let before = first_sent(ops.drop_last());
        match ops.last() {
            RowOp::Sent { now, .. } => if before == 0 {
                now
            } else {
                before
            },
            _ => before,
        }
    }
}

/// The time to the first byte runs from the opening to the first send; later
/// sends do not change it.
pub proof fn first_byte_is_the_first(
    direction: u8,
    opener: Opener,
    rows: Seq<FlowState>,
    ops: Seq<RowOp>,
)
    requires
        history(direction, opener, rows, ops),
    ensures
        rows.last().first_byte_ts_ns == first_sent(ops),
    decreases ops.len(),
{
    if ops.len() > 0 {
        history_prefix(direction, opener, rows, ops);
        first_byte_is_the_first(direction, opener, rows.drop_last(), ops.drop_last());
    }
}

/// When the first write that showed TLS or HTTP began, 0 if there was none.
pub open spec fn first_shown(ops: Seq<RowOp>) -> u64
    decreases ops.len(),
{
    if ops.len() == 0 {
        0
    } else {
        let before = first_shown(ops.drop_last());
        match ops.last() {
            RowOp::TlsWrote { buf, ts_ns, .. } => if before == 0 && (shows_tls(buf)
                || looks_like_request(buf)) {
                ts_ns
            } else {
                before
            },
            _ => before,
        }
    }
}

/// When the first bytes were received, 0 if none were.
pub open spec fn first_received(ops: Seq<RowOp>) -> u64
    decreases ops.len(),
{
    if ops.len() == 0 {
        0
    } else {
        let before = first_received(ops.drop_last());
        match ops.last() {
            RowOp::Received { now, .. } => if before == 0 {
                now
            } else {
                before
            },
            _ => before,
        }
    }
}

proof fn exchange_is_stamped(
    direction: u8,
    opener: Opener,
    rows: Seq<FlowState>,
    ops: Seq<RowOp>,
)
    requires
        history(direction, opener, rows, ops),
    ensures
        rows.last().ssl_write_ts_ns == first_shown(ops),
        rows.last().first_recv_ts_ns == first_received(ops),
    decreases ops.len(),
{
    if ops.len() > 0 {
        history_prefix(direction, opener, rows, ops);
        exchange_is_stamped(direction, opener, rows.drop_last(), ops.drop_last());
    }
}

/// The response time runs from the first write to the first read back; later
/// writes and reads do not change it.
pub proof fn response_time_is_of_the_first_exchange(
    direction: u8,
    opener: Opener,
    rows: Seq<FlowState>,
    ops: Seq<RowOp>,
    key: FlowKey,
    close: u64,
)
    requires
        history(direction, opener, rows, ops),
    ensures
        close_event(key, rows.last(), close).app_response_time_ns == if 0 < first_shown(ops)
            <= first_received(ops) {
            (first_received(ops) - first_shown(ops)) as u64
        } else {
            0
        },
{
    exchange_is_stamped(direction, opener, rows, ops);
}

/// The server name that a client puts into its ClientHello is the one that
/// the connection's report shows, if no name was known before: a name without
/// NUL bytes that leaves room for one.
pub proof fn server_name_is_reported(
    hello: ClientHello,
    rest: Seq<u8>,
    ts_ns: u64,
    write_now: u64,
    pre: FlowState,
    post: FlowState,
    key: FlowKey,
    now: u64,
)
    requires
        hello.valid(),
        hello.name.len() < HOST_LEN,
        forall|i: int| 0 <= i < hello.name.len() ==> #[trigger] hello.name[i] != 0,
        valid_utf8(hello.name),
        forall|i: int| 0 <= i < HOST_LEN ==> #[trigger] pre.tls_sni@[i] == 0,
        wrote_row(pre, hello.bytes() + rest, ts_ns, write_now, post),
    ensures
        terminated_field_text(close_event(key, post, now).tls_sni@) == decode_utf8(hello.name),
        close_event(key, post, now).has_tls == 1,
{
    client_hello_gives_its_name(hello, rest);
    let field = post.tls_sni@;
    let n = hello.name.len() as int;
    assert(field == overwrite(pre.tls_sni@, hello.name));
    assert(field.len() == HOST_LEN);
    assert(field[n] == pre.tls_sni@[n]);
    let zero = |x: u8| x == 0;
    assert forall|i: int| 0 <= i < n implies !zero(#[trigger] field[i]) by {
        assert(field[i] == hello.name[i]);
    }
    first_where_unique(field, 0, field.len() as int, zero, n);
    assert(nul_at(field) == n);
    assert(field.take(n) =~= hello.name);
}

/// What the teardown of the connection under `key` does: the flow table
/// afterwards, the event that is sent, if one is, and what the probe ends with.
/// `room` is whether the ring buffer has room for an event.
pub open spec fn torn_down(
    table: Map<FlowKey, FlowState>,
    key: FlowKey,
    room: bool,
    now: u64,
) -> (Map<FlowKey, FlowState>, Option<FlowEvent>, Result<u32, i64>) {
    match after_row(table.contains_key(key)) {
        CloseStep::Reserve => match after_room(room) {
            CloseStep::Report => (
                table.remove(key),
                Some(close_event(key, table[key], now)),
                Ok(0),
            ),
            CloseStep::Done(outcome) => (table, None, outcome),
            _ => (table, None, Ok(0)),
        },
        CloseStep::Done(outcome) => (table, None, outcome),
        _ => (table, None, Ok(0)),
    }
}

/// A close that finds a row and room sends the event of that row, and removes
/// the row and no other.
pub proof fn close_reports_and_removes(
    table: Map<FlowKey, FlowState>,
    key: FlowKey,
    now: u64,
)
    requires
        table.contains_key(key),
    ensures
        torn_down(table, key, true, now).1 == Some(close_event(key, table[key], now)),
        !torn_down(table, key, true, now).0.contains_key(key),
        forall|other: FlowKey|
            other != key ==> known_row(torn_down(table, key, true, now).0, other)
                == #[trigger] known_row(table, other),
{
}

/// The row under a key, if there is one.
pub open spec fn known_row(table: Map<FlowKey, FlowState>, key: FlowKey) -> Option<FlowState> {
    if table.contains_key(key) {
        Some(table[key])
    } else {
        None
    }
}

/// Once a connection was reported, closing it again sends and changes nothing.
pub proof fn second_close_does_nothing(
    table: Map<FlowKey, FlowState>,
    key: FlowKey,
    room: bool,
    now: u64,
    room_then: bool,
    then: u64,
)
    requires
        torn_down(table, key, room, now).1 is Some,
    ensures
        ({
            let after = torn_down(table, key, room, now).0;
            torn_down(after, key, room_then, then) == (
                after,
                None::<FlowEvent>,
                Ok::<u32, i64>(0),
            )
        }),
{
}

/// Without room in the ring buffer nothing is sent and nothing is removed.
pub proof fn close_without_room_does_nothing(
    table: Map<FlowKey, FlowState>,
    key: FlowKey,
    now: u64,
)
    ensures
        torn_down(table, key, false, now) == (table, None::<FlowEvent>, Ok::<u32, i64>(0)),
{
}

/// Something that happens to the flow table.
pub enum TableOp {
    /// A connection was opened.
    Opened { key: FlowKey, row: FlowState },
    /// Something happened to an open connection.
    Changed { key: FlowKey, row: FlowState },
    /// The kernel evicted a row under memory pressure.
    Evicted { key: FlowKey },
    /// A connection was torn down.
    Closed { key: FlowKey, room: bool, now: u64 },
}

/// The flow table after these operations, which begin with an empty one.
pub open spec fn table_after(ops: Seq<TableOp>) -> Map<FlowKey, FlowState>
    decreases ops.len(),
{
    if ops.len() == 0 {
        Map::empty()
    } else {
        let table = table_after(ops.drop_last());
        match ops.last() {
            TableOp::Opened { key, row } => table.insert(key, row),
            TableOp::Changed { key, row } => if table.contains_key(key) {
                table.insert(key, row)
            } else {
                table
            },
            TableOp::Evicted { key } => table.remove(key),
            TableOp::Closed { key, room, now } => torn_down(table, key, room, now).0,
        }
    }
}

/// How many connections were opened under `key`.
pub open spec fn openings(ops: Seq<TableOp>, key: FlowKey) -> int
    decreases ops.len(),
{
    if ops.len() == 0 {
        0
    } else {
        openings(ops.drop_last(), key) + match ops.last() {
            TableOp::Opened { key: opened, .. } if opened == key => 1int,
            _ => 0int,
        }
    }
}

/// How many events were sent for connections under `key`.
pub open spec fn reports(ops: Seq<TableOp>, key: FlowKey) -> int
    decreases ops.len(),
{
    if ops.len() == 0 {
        0
    } else {
        reports(ops.drop_last(), key) + match ops.last() {
            TableOp::Closed { key: closed, room, now } if closed == key && torn_down(
                table_after(ops.drop_last()),
                closed,
                room,
                now,
            ).1 is Some => 1int,
            _ => 0int,
        }
    }
}

/// No connection is reported twice: whatever happens to the flow table, no more
/// events are sent for a key than connections were opened under it, and a
/// connection that is still in the table has not been reported.
pub proof fn one_event_per_connection(ops: Seq<TableOp>, key: FlowKey)
    ensures
        reports(ops, key) <= openings(ops, key),
        table_after(ops).contains_key(key) ==> reports(ops, key) < openings(ops, key),
    decreases ops.len(),
{
    if ops.len() > 0 {
        one_event_per_connection(ops.drop_last(), key);
    }
}

} // verus!
