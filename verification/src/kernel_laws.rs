//! What the probes make of what they read, for every value that can be read.

use vstd::prelude::*;
use crate::causal::{task_started, TASK_PID_OFFSET};
use crate::common::{
    close_reason_of, CloseReason, CongestionState, FlowDirection, RetransmitReason,
};
use crate::enricher::{dotted, octet};
use crate::http::response_status;
use crate::maps::{CausalCtx, FlowKey, FlowState, SslArgs};
use crate::numbers::decimal;
use crate::retransmit::{flight_read, retransmitted_row, RetransmitHook};
use crate::sock::{
    hook_key, outcome_of, sk_key, sock_key, status_of, tcp_key, AddressReads, SockField,
};
use crate::tcp_lifecycle::{
    accept_step, after_key, after_return, after_room, after_row, after_sock, connect_step,
    key_step, new_row, opened, opened_row, send_target, Accepted, CloseStep, OpenStep, Opener,
    RecvStep,
};
use crate::tcp_quality::{
    ack_of, acked_row, lossy_row, recorded_row, recovering_row, sample_of, AckReads, AckSample,
};
use crate::tls::{
    after_call, after_read_args, after_read_flow, after_write_args, after_write_flow,
    after_write_row, entry_args, SslStep,
};

verus! {

/// `b` holds `n`, the low byte first.
pub open spec fn holds32(b: Seq<u8>, n: int) -> bool {
    &&& b.len() == 4
    &&& n == b[0] + 256 * b[1] + 65536 * b[2] + 16777216 * b[3]
}

proof fn octets_are_the_bytes(ip: u32, b: Seq<u8>)
    requires
        holds32(b, ip as int),
    ensures
        octet(ip, 0) == b[0] && octet(ip, 1) == b[1],
        octet(ip, 2) == b[2] && octet(ip, 3) == b[3],
{
    let (b0, b1, b2, b3) = (b[0] as int, b[1] as int, b[2] as int, b[3] as int);
    let n = ip as int;
    assert(n / 256 == b1 + 256 * b2 + 65536 * b3);
    assert(n / 65536 == b2 + 256 * b3);
    assert(n / 16777216 == b3);
}

/// An address is written with the bytes that hold it, in order, in decimal and with
/// dots between them.
pub proof fn address_is_written_byte_by_byte(ip: u32, b: Seq<u8>)
    requires
        holds32(b, ip as int),
    ensures
        dotted(ip) == decimal(b[0] as nat) + seq!['.'] + decimal(b[1] as nat) + seq!['.'] + decimal(
            b[2] as nat,
        ) + seq!['.'] + decimal(b[3] as nat),
{
    octets_are_the_bytes(ip, b);
}

/// The key of a socket has the addresses and ports that stand in it.
pub proof fn key_is_what_the_socket_holds(
    reads: AddressReads,
    src: [u8; 4],
    dst: [u8; 4],
    sport: [u8; 2],
    dport: [u8; 2],
)
    requires
        reads.src_ip == Ok::<[u8; 4], i64>(src),
        reads.dst_ip == Ok::<[u8; 4], i64>(dst),
        reads.src_port == Ok::<[u8; 2], i64>(sport),
        reads.dst_port == Ok::<[u8; 2], i64>(dport),
    ensures
        sk_key(reads) is Ok,
        ({
            let key = sk_key(reads)->Ok_0;
            &&& sock_key(reads) == Some(key)
            &&& tcp_key(Some(reads)) == Ok::<FlowKey, i64>(key)
            &&& hook_key(Some(reads)) == Ok::<FlowKey, i64>(key)
            &&& holds32(src@, key.src_ip as int)
            &&& holds32(dst@, key.dst_ip as int)
            &&& key.src_port == sport@[0] * 256 + sport@[1]
            &&& key.dst_port == dport@[0] * 256 + dport@[1]
            &&& key.protocol == 6
            &&& forall|i: int| 0 <= i < 3 ==> #[trigger] key._pad@[i] == 0
        }),
{
    let key = sk_key(reads)->Ok_0;
    assert(src@.len() == 4 && dst@.len() == 4);
    assert(holds32(src@, key.src_ip as int));
    assert(holds32(dst@, key.dst_ip as int));
}

/// A socket that cannot be read gives no key, but the error of the first read
/// that failed.
pub proof fn unread_socket_gives_an_error(reads: AddressReads)
    ensures
        reads.dst_ip matches Err(e) ==> sk_key(reads) == Err::<FlowKey, i64>(e),
        reads.dst_ip is Ok ==> (reads.src_ip matches Err(e) ==> sk_key(reads) == Err::<
            FlowKey,
            i64,
        >(e)),
        reads.dst_ip is Ok && reads.src_ip is Ok ==> (reads.dst_port matches Err(e) ==> sk_key(
            reads,
        ) == Err::<FlowKey, i64>(e)),
        reads.dst_ip is Ok && reads.src_ip is Ok && reads.dst_port is Ok ==> (
        reads.src_port matches Err(e) ==> sk_key(reads) == Err::<FlowKey, i64>(e)),
        sk_key(reads) is Err ==> sock_key(reads) is None && tcp_key(Some(reads)) == Err::<
            FlowKey,
            i64,
        >(-1i64),
        hook_key(None) == Err::<FlowKey, i64>(-1i64),
        tcp_key(None) == Err::<FlowKey, i64>(-1i64),
        hook_key(Some(reads)) == sk_key(reads),
{
}

/// What an ACK tells: the smoothed RTT, which the kernel keeps times eight, the
/// variance, which it keeps times four, and the congestion window.
pub proof fn ack_tells_what_the_socket_holds(
    reads: AckReads,
    srtt: [u8; 4],
    rttvar: [u8; 4],
    cwnd: [u8; 4],
    rtt: int,
    k: int,
    jitter: int,
    l: int,
    segments: int,
)
    requires
        reads.srtt == Ok::<[u8; 4], i64>(srtt),
        reads.rttvar == Ok::<[u8; 4], i64>(rttvar),
        reads.cwnd == Ok::<[u8; 4], i64>(cwnd),
        holds32(srtt@, 8 * rtt + k) && 0 <= k < 8,
        holds32(rttvar@, 4 * jitter + l) && 0 <= l < 4,
        holds32(cwnd@, segments),
        sk_key(reads.addresses) is Ok,
    ensures
        ack_of(Some(reads)) is Ok,
        ack_of(Some(reads))->Ok_0.0 == sk_key(reads.addresses)->Ok_0,
        ack_of(Some(reads))->Ok_0.1.srtt_us == rtt,
        ack_of(Some(reads))->Ok_0.1.rttvar_us == jitter,
        ack_of(Some(reads))->Ok_0.1.cwnd == segments,
        ack_of(Some(reads))->Ok_0.1 == sample_of(reads),
{
}

/// An ACK whose socket cannot be read ends with the error of the first read that
/// failed, those of its quality before those of its key.
pub proof fn unread_ack_gives_an_error(reads: AckReads)
    ensures
        ack_of(None) is Err && ack_of(None)->Err_0 == -1,
        reads.srtt matches Err(e) ==> ack_of(Some(reads)) is Err && ack_of(Some(reads))->Err_0 == e,
        reads.srtt is Ok ==> (reads.rttvar matches Err(e) ==> ack_of(Some(reads)) is Err && ack_of(
            Some(reads),
        )->Err_0 == e),
        reads.srtt is Ok && reads.rttvar is Ok ==> (reads.cwnd matches Err(e) ==> ack_of(
            Some(reads),
        ) is Err && ack_of(Some(reads))->Err_0 == e),
        reads.srtt is Ok && reads.rttvar is Ok && reads.cwnd is Ok ==> (sk_key(
            reads.addresses,
        ) matches Err(e) ==> ack_of(Some(reads)) is Err && ack_of(Some(reads))->Err_0 == e),
{
}

/// The congestion avoidance state is the byte that was read, 0 if none was; loss and
/// fast recovery have their own. Nothing else of the row changes with a state.
pub proof fn congestion_state_is_what_was_read(
    st: FlowState,
    sample: AckSample,
    b: [u8; 1],
    e: i64,
)
    ensures
        recorded_row(st, sample, Ok(b)) == acked_row(st, sample, b@[0]),
        recorded_row(st, sample, Ok(b)).congestion_state_final == b@[0],
        recorded_row(st, sample, Err(e)) == acked_row(st, sample, 0),
        recorded_row(st, sample, Err(e)).congestion_state_final == 0,
        lossy_row(st) == (FlowState { congestion_state_final: 4, ..st }),
        recovering_row(st) == (FlowState { congestion_state_final: 3, ..st }),
{
}

/// The bytes in flight are those between the sequence numbers that were read, also
/// where the numbers wrapped around; a number that could not be read counts as 0.
pub proof fn flight_is_between_the_numbers_read(
    una: [u8; 4],
    nxt: [u8; 4],
    first: int,
    n: int,
    e: i64,
)
    requires
        0 <= n < 0x1_0000_0000,
        holds32(una@, first),
        holds32(nxt@, (first + n) % 0x1_0000_0000),
    ensures
        flight_read(Ok(una), Ok(nxt)) == n,
        flight_read(Err(e), Ok(una)) == first,
        first > 0 ==> flight_read(Ok(una), Err(e)) == 0x1_0000_0000 - first,
        first == 0 ==> flight_read(Ok(una), Err(e)) == 0,
        flight_read(Err(e), Err(e)) == 0,
{
}

/// What a probe answers the kernel, and how one ends that ends with a table
/// operation.
pub proof fn probes_answer_with_their_outcome(n: u32, e: i64)
    ensures
        status_of(Ok(n)) == n,
        status_of(Err(e)) == 0,
        outcome_of(Ok(())) == Ok::<u32, i64>(0),
        outcome_of(Err(e)) == Err::<u32, i64>(e),
{
}

/// Connect, accept and close go on with the key of a socket that can be read, and
/// end where there is none.
pub proof fn hooks_go_on_with_the_key(reads: AddressReads)
    ensures
        match sock_key(reads) {
            Some(key) => {
                &&& connect_step(Some(reads)) == OpenStep::Insert(key)
                &&& accept_step(Accepted::Sock(reads)) == OpenStep::Insert(key)
                &&& key_step(Some(reads)) == CloseStep::FindRow(key)
                &&& after_key(reads) == RecvStep::FindRow(key)
            },
            None => {
                &&& connect_step(Some(reads)) == OpenStep::Done(Err(-1i64))
                &&& accept_step(Accepted::Sock(reads)) == OpenStep::Done(Err(-1i64))
                &&& key_step(Some(reads)) == CloseStep::Done(Err(-1i64))
                &&& after_key(reads) == RecvStep::ForgetSock
            },
        },
        connect_step(None) == OpenStep::Done(Err(-1i64)),
        accept_step(Accepted::Unavailable) == OpenStep::Done(Err(-1i64)),
        accept_step(Accepted::Null) == OpenStep::Done(Ok(0u32)),
        key_step(None) == CloseStep::Done(Err(-1i64)),
{
}

/// A close goes on from the row to the ring buffer and from there to the report,
/// and ends where there is no row or no room.
pub proof fn close_goes_on_to_the_report()
    ensures
        after_row(true) is Reserve,
        after_room(true) is Report,
        after_row(false) == CloseStep::Done(Ok(0u32)),
        after_room(false) == CloseStep::Done(Ok(0u32)),
{
}

/// A send counts the bytes that the call was handed, whatever their number, on
/// the connection of its socket.
pub proof fn send_counts_what_was_handed(reads: AddressReads, size: u64)
    ensures
        match sock_key(reads) {
            Some(key) => send_target(Some(reads), Some(size)) == Ok::<(FlowKey, u64), i64>(
                (key, size),
            ),
            None => send_target(Some(reads), Some(size)) == Err::<(FlowKey, u64), i64>(-1i64),
        },
        send_target(None, Some(size)) == Err::<(FlowKey, u64), i64>(-1i64),
        send_target(Some(reads), None) == Err::<(FlowKey, u64), i64>(-1i64),
        send_target(None, None) == Err::<(FlowKey, u64), i64>(-1i64),
{
}

/// A receive counts the bytes that the call returned, if there are any, whatever
/// their number, on the socket that it was entered with.
pub proof fn receive_counts_what_was_returned(n: i64, addr: u64)
    ensures
        n > 0 ==> (after_return(Some(n)) matches RecvStep::FindSock(m) && m == n),
        n <= 0 ==> after_return(Some(n)) is ForgetSock,
        after_return(None) is ForgetSock,
        after_sock(Some(addr)) == RecvStep::ReadKey(addr),
        after_sock(None) is Done,
{
}

/// A row is filled for a connection whose row could be put into the table and
/// found there, and its thread is tied to it exactly if it goes out.
pub proof fn opening_fills_the_row(
    row: FlowState,
    e: i64,
    found: bool,
    direction: FlowDirection,
    opener: Opener,
)
    ensures
        opened(Ok(()), true, direction).outcome == Ok::<u32, i64>(0),
        opened(Ok(()), false, direction).outcome == Err::<u32, i64>(-1i64),
        opened(Err(e), found, direction).outcome == Err::<u32, i64>(e),
        opened(Ok(()), true, direction).map_thread <==> direction is Outbound,
        !opened(Ok(()), false, direction).map_thread,
        !opened(Err(e), found, direction).map_thread,
        opened_row(row, Err(e), direction, opener) == row,
        opened_row(row, Ok(()), direction, opener).direction == match direction {
            FlowDirection::Unknown => 0u8,
            FlowDirection::Outbound => 1u8,
            FlowDirection::Inbound => 2u8,
        },
        opened_row(row, Ok(()), direction, opener) == new_row(
            opened_row(row, Ok(()), direction, opener).direction,
            opener,
        ),
{
}

/// The arguments of a TLS library call are kept as they are from its entry on.
pub proof fn call_arguments_are_kept(buf_ptr: u64, len: u32, now: u64)
    ensures
        entry_args(Some(buf_ptr), Some(len), now) matches Ok(args) && args.buf_ptr == buf_ptr
            && args.len == len && args.ts_ns == now && args._pad == 0,
        entry_args(None, Some(len), now) == Err::<SslArgs, i64>(-1i64),
        entry_args(Some(buf_ptr), None, now) == Err::<SslArgs, i64>(-1i64),
        entry_args(None, None, now) == Err::<SslArgs, i64>(-1i64),
{
}

/// A TLS library call that moved bytes is followed up, whatever their number; one
/// that failed is forgotten.
pub proof fn calls_that_moved_bytes_are_followed_up(n: i32)
    ensures
        n > 0 ==> (after_call(Some(n)) matches SslStep::TakeArgs(m) && m == n),
        n <= 0 ==> after_call(Some(n)) is ForgetArgs,
        after_call(None) is Done,
{
}

/// Of what a write was handed, and of what a read gave, the front is looked at, up
/// to 512 bytes, at the address that the call was handed.
pub proof fn buffers_are_read_from_the_front(args: SslArgs, key: FlowKey, moved: u32)
    ensures
        after_write_args(Some(args)) is FindFlow,
        after_write_args(None) is Done,
        after_write_flow(Some(key)) == SslStep::FindRow(key),
        after_write_flow(None) is Done,
        after_write_row(true, args) matches SslStep::ReadBuffer { addr, len } && addr
            == args.buf_ptr && len <= args.len && len <= 512 && (len == args.len || len == 512),
        after_write_row(false, args) is Done,
        after_read_args(Some(args), moved) matches SslStep::ReadBuffer { addr, len } && addr
            == args.buf_ptr && len <= moved && len <= 512 && (len == moved || len == 512),
        after_read_args(None, moved) is Done,
{
}

/// A response with a status is noted on the connection of the thread that read it.
pub proof fn responses_are_followed_up(key: FlowKey, buf: Seq<u8>)
    ensures
        response_status(buf) != 0 ==> (after_read_flow(
            Some(key),
            buf,
        ) matches SslStep::FindRowForStatus { key: k, status } && k == key && status
            == response_status(buf)),
        response_status(buf) == 0 ==> after_read_flow(Some(key), buf) is Done,
        after_read_flow(None, buf) is Done,
{
    crate::http::response_status_has_three_digits(buf);
}

/// A task that starts another one without a chain of its own begins one: named by
/// the time, with the process as its origin.
pub proof fn chain_begins_with_its_origin(
    pid: u32,
    tid: u32,
    chain_now: u64,
    origin_now: u64,
    parent_pid_tgid: u64,
    child: [u8; 4],
    child_pid: u32,
    e: i64,
)
    requires
        parent_pid_tgid == pid * 0x1_0000_0000 + tid,
        holds32(child@, child_pid as int),
    ensures
        task_started(parent_pid_tgid, None, chain_now, origin_now, None) is Err,
        task_started(parent_pid_tgid, None, chain_now, origin_now, Some(Err(e))) matches Ok(task)
            && task.pid_tgid == 0,
        task_started(parent_pid_tgid, None, chain_now, origin_now, Some(Ok(child))) is Ok,
        ({
            let task = task_started(
                parent_pid_tgid,
                None,
                chain_now,
                origin_now,
                Some(Ok(child)),
            )->Ok_0;
            &&& task.pid_tgid == child_pid * 0x1_0000_0000 + child_pid
            &&& task.parent matches Some((key, own)) && {
                &&& key == parent_pid_tgid
                &&& own.chain_id == chain_now && own.parent_chain_id == 0 && own.depth == 0
                &&& own.origin_pid == pid && own.origin_ts_ns == origin_now
                &&& task.ctx.chain_id == chain_now && task.ctx.parent_chain_id == chain_now
                &&& task.ctx.depth == 1
                &&& task.ctx.origin_pid == pid && task.ctx.origin_ts_ns == origin_now
            }
        }),
{
    assert(parent_pid_tgid as int / 0x1_0000_0000 == pid);
}

/// A task that has a chain hands it on, one level deeper, and keeps its own context.
pub proof fn chain_is_handed_on(
    ctx: CausalCtx,
    parent_pid_tgid: u64,
    chain_now: u64,
    origin_now: u64,
    child: [u8; 4],
    child_pid: u32,
    e: i64,
)
    requires
        holds32(child@, child_pid as int),
    ensures
        task_started(parent_pid_tgid, Some(ctx), chain_now, origin_now, None) is Err,
        task_started(parent_pid_tgid, Some(ctx), chain_now, origin_now, Some(Err(e))) matches Ok(
            task,
        ) && task.pid_tgid == 0,
        task_started(parent_pid_tgid, Some(ctx), chain_now, origin_now, Some(Ok(child))) is Ok,
        ({
            let task = task_started(
                parent_pid_tgid,
                Some(ctx),
                chain_now,
                origin_now,
                Some(Ok(child)),
            )->Ok_0;
            &&& task.parent is None
            &&& task.pid_tgid == child_pid * 0x1_0000_0000 + child_pid
            &&& task.ctx.chain_id == ctx.chain_id && task.ctx.parent_chain_id == ctx.chain_id
            &&& ctx.depth < 0xffff_ffff ==> task.ctx.depth == ctx.depth + 1
            &&& ctx.depth == 0xffff_ffff ==> task.ctx.depth == 0
            &&& task.ctx.origin_pid == ctx.origin_pid && task.ctx.origin_ts_ns == ctx.origin_ts_ns
        }),
{
}

/// The numbers that stand for reasons, states and directions in events and in
/// the kernel.
pub proof fn codes_are_those_of_the_kernel()
    ensures
        CongestionState::Open.code() == 0,
        CongestionState::Disorder.code() == 1,
        CongestionState::Cwr.code() == 2,
        CongestionState::Recovery.code() == 3,
        CongestionState::Loss.code() == 4,
        RetransmitReason::Unknown.code() == 0,
        RetransmitReason::Rto.code() == 1,
        RetransmitReason::FastRetransmit.code() == 2,
        RetransmitReason::Sack.code() == 3,
        RetransmitReason::Tlp.code() == 4,
        FlowDirection::Unknown.code() == 0,
        FlowDirection::Outbound.code() == 1,
        FlowDirection::Inbound.code() == 2,
        CloseReason::Unknown.code() == 0,
        CloseReason::Clean.code() == 1,
        CloseReason::Reset.code() == 2,
        CloseReason::Timeout.code() == 3,
        CloseReason::LocalClose.code() == 4,
{
}

/// Where the kernel keeps what is read of a socket and of a task.
pub proof fn offsets_are_those_of_the_kernel()
    ensures
        SockField::DstAddr.offset() == 0x0,
        SockField::SrcAddr.offset() == 0x4,
        SockField::DstPort.offset() == 0xa,
        SockField::SrcPort.offset() == 0xc,
        SockField::CaState.offset() == 0x164,
        SockField::SndUna.offset() == 0x188,
        SockField::SndNxt.offset() == 0x18c,
        SockField::SndCwnd.offset() == 0x1ac,
        SockField::SrttUs.offset() == 0x1e0,
        SockField::RttvarUs.offset() == 0x1e4,
        TASK_PID_OFFSET == 0x560,
{
}

/// A retransmit that nobody has claimed is a timeout; the other hooks see tail loss
/// probes and fast retransmits.
pub proof fn hooks_stand_for_reasons()
    ensures
        RetransmitHook::Every.reason() == RetransmitReason::Rto,
        RetransmitHook::LossProbe.reason() == RetransmitReason::Tlp,
        RetransmitHook::Fast.reason() == RetransmitReason::FastRetransmit,
{
}

/// One more, as far as 32 bits reach.
pub open spec fn is_one_more(after: u32, before: u32) -> bool {
    after == if before < 0xffff_ffff {
        before + 1
    } else {
        0xffff_ffff
    }
}

/// A retransmit counts once, with the bytes in flight, and once under its own reason if
/// that is a timeout, a fast retransmit or a tail loss probe.
pub proof fn retransmits_count_under_their_reason(
    st: FlowState,
    reason: RetransmitReason,
    in_flight: u64,
)
    ensures
        ({
            let r = retransmitted_row(st, reason, in_flight);
            &&& is_one_more(r.retransmit_count, st.retransmit_count)
            &&& r.retransmit_bytes == if st.retransmit_bytes + in_flight < 0x1_0000_0000_0000_0000 {
                st.retransmit_bytes + in_flight
            } else {
                0xffff_ffff_ffff_ffff
            }
            &&& reason == RetransmitReason::Rto ==> is_one_more(
                r.retransmit_rto_count,
                st.retransmit_rto_count,
            )
            &&& reason == RetransmitReason::FastRetransmit ==> is_one_more(
                r.retransmit_fast_count,
                st.retransmit_fast_count,
            )
            &&& reason == RetransmitReason::Tlp ==> is_one_more(
                r.retransmit_tlp_count,
                st.retransmit_tlp_count,
            )
            &&& reason != RetransmitReason::Rto ==> r.retransmit_rto_count
                == st.retransmit_rto_count
            &&& reason != RetransmitReason::FastRetransmit ==> r.retransmit_fast_count
                == st.retransmit_fast_count
            &&& reason != RetransmitReason::Tlp ==> r.retransmit_tlp_count
                == st.retransmit_tlp_count
            &&& r == (FlowState {
                retransmit_count: r.retransmit_count,
                retransmit_bytes: r.retransmit_bytes,
                retransmit_rto_count: r.retransmit_rto_count,
                retransmit_fast_count: r.retransmit_fast_count,
                retransmit_tlp_count: r.retransmit_tlp_count,
                ..st
            })
        }),
{
}

/// A number stands for the close reason that has it, and for `Unknown` if none has.
pub proof fn close_reasons_are_told_by_their_numbers(n: u8)
    ensures
        close_reason_of(n) is Clean <==> n == 1,
        close_reason_of(n) is Reset <==> n == 2,
        close_reason_of(n) is Timeout <==> n == 3,
        close_reason_of(n) is LocalClose <==> n == 4,
        close_reason_of(n) is Unknown <==> n == 0 || n > 4,
{
}

} // verus!
