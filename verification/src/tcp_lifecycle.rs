//! The life of a connection: opened by connect or accept, counted while bytes
//! move, and reported when it closes.
//!
//! The kernel side reads sockets, tables and the clock; what is done with the
//! values is decided here.

use vstd::prelude::*;
use crate::common::{
    CloseReason, FlowDirection, FlowEvent, CGROUP_LEN, COMM_LEN, HOST_LEN, METHOD_LEN,
    PATH_LEN,
};
use crate::maps::{CausalCtx, FlowKey, FlowState};
use crate::sock::{
    all_read, flow_key_from_sock, key_of, tcp_hook_key, AddressReads, NO_SOCKET,
};
use crate::wire::{
    application_at, congestion_at, ending_at, event_bytes_determine_event, holds_event,
    identity_at, is_padding, loss_at, network_at, put_bytes, put_u16, put_u32, put_u64, put_u8,
    quality_at, same_outside, timing_at, volume_at, FLOW_EVENT_LEN,
};

verus! {

/// `a + b`, held at the largest 64-bit number.
pub open spec fn sat_add64(a: u64, b: u64) -> u64 {
    if a + b > u64::MAX {
        u64::MAX
    } else {
        (a + b) as u64
    }
}

/// `a + b`, held at the largest 32-bit number.
pub open spec fn sat_add32(a: u32, b: u32) -> u32 {
    if a + b > u32::MAX {
        u32::MAX
    } else {
        (a + b) as u32
    }
}

/// `a - b`, held at 0.
pub open spec fn sat_sub64(a: u64, b: u64) -> u64 {
    if a < b {
        0
    } else {
        (a - b) as u64
    }
}

/// `stamp` if something was stamped before, else `now`.
pub open spec fn first_stamp(stamp: u64, now: u64) -> u64 {
    if stamp == 0 {
        now
    } else {
        stamp
    }
}

/// What the kernel tells of the thread that opens a connection.
#[derive(Debug, Clone, Copy)]
pub struct Opener {
    /// Process id in the upper half, thread id in the lower.
    pub pid_tgid: u64,
    /// Group id in the upper half, user id in the lower.
    pub uid_gid: u64,
    /// The clock, in nanoseconds.
    pub now: u64,
    /// The process name, or the error of asking for it.
    pub comm: Result<[u8; COMM_LEN], i64>,
    /// The thread's causal context, if it has one.
    pub causal: Option<CausalCtx>,
}

/// The row of a connection that `opener` has just opened.
///
/// Without a causal context the connection starts a chain of its own, named
/// by the time.
pub open spec fn new_row(direction: u8, opener: Opener) -> FlowState {
    FlowState {
        pid: (opener.pid_tgid / 0x1_0000_0000) as u32,
        ppid: 0,
        uid: (opener.uid_gid % 0x1_0000_0000) as u32,
        gid: (opener.uid_gid / 0x1_0000_0000) as u32,
        comm: match opener.comm {
            Ok(comm) => comm,
            Err(_) => [0u8; COMM_LEN],
        },
        cgroup: [0u8; CGROUP_LEN],
        direction,
        bytes_sent: 0,
        bytes_recv: 0,
        pkts_sent: 0,
        pkts_recv: 0,
        srtt_us_min: u32::MAX,
        srtt_us_max: 0,
        srtt_us_last: 0,
        rttvar_us_max: 0,
        cwnd_min: u32::MAX,
        cwnd_max: 0,
        ecn_signals: 0,
        retransmit_count: 0,
        retransmit_bytes: 0,
        retransmit_rto_count: 0,
        retransmit_fast_count: 0,
        retransmit_tlp_count: 0,
        sack_blocks_received: 0,
        retransmit_claimed: 0,
        tls_sni: [0u8; HOST_LEN],
        http_host: [0u8; HOST_LEN],
        http_method: [0u8; METHOD_LEN],
        http_path: [0u8; PATH_LEN],
        http_status: 0,
        has_tls: 0,
        has_http: 0,
        ssl_write_ts_ns: 0,
        connect_ts_ns: opener.now,
        first_byte_ts_ns: 0,
        first_recv_ts_ns: 0,
        tls_ready_ts_ns: 0,
        chain_id: match opener.causal {
            Some(ctx) => ctx.chain_id,
            None => opener.now,
        },
        parent_chain_id: match opener.causal {
            Some(ctx) => ctx.parent_chain_id,
            None => 0,
        },
        chain_depth: match opener.causal {
            Some(ctx) => ctx.depth,
            None => 0,
        },
        congestion_state_final: 0,
        close_reason: CloseReason::Unknown.code(),
    }
}

/// Fills the row of a connection that has just been opened, in place.
pub fn fill_new_flow_state(st: &mut FlowState, direction: u8, opener: &Opener)
    ensures
        *final(st) == new_row(direction, *opener),
{
    st.pid = (opener.pid_tgid / 0x1_0000_0000) as u32;
    st.ppid = 0;
    st.uid = (opener.uid_gid % 0x1_0000_0000) as u32;
    st.gid = (opener.uid_gid / 0x1_0000_0000) as u32;
    st.comm = match opener.comm {
        Ok(comm) => comm,
        Err(_) => [0u8; COMM_LEN],
    };
    st.cgroup = [0u8; CGROUP_LEN];
    st.direction = direction;
    st.bytes_sent = 0;
    st.bytes_recv = 0;
    st.pkts_sent = 0;
    st.pkts_recv = 0;
    st.srtt_us_min = u32::MAX;
    st.srtt_us_max = 0;
    st.srtt_us_last = 0;
    st.rttvar_us_max = 0;
    st.cwnd_min = u32::MAX;
    st.cwnd_max = 0;
    st.ecn_signals = 0;
    st.retransmit_count = 0;
    st.retransmit_bytes = 0;
    st.retransmit_rto_count = 0;
    st.retransmit_fast_count = 0;
    st.retransmit_tlp_count = 0;
    st.sack_blocks_received = 0;
    st.retransmit_claimed = 0;
    st.tls_sni = [0u8; HOST_LEN];
    st.http_host = [0u8; HOST_LEN];
    st.http_method = [0u8; METHOD_LEN];
    st.http_path = [0u8; PATH_LEN];
    st.http_status = 0;
    st.has_tls = 0;
    st.has_http = 0;
    st.ssl_write_ts_ns = 0;
    st.connect_ts_ns = opener.now;
    st.first_byte_ts_ns = 0;
    st.first_recv_ts_ns = 0;
    st.tls_ready_ts_ns = 0;
    match opener.causal {
        Some(ctx) => {
            st.chain_id = ctx.chain_id;
            st.parent_chain_id = ctx.parent_chain_id;
            st.chain_depth = ctx.depth;
        },
        None => {
            st.chain_id = opener.now;
            st.parent_chain_id = 0;
            st.chain_depth = 0;
        },
    }
    st.congestion_state_final = 0;
    st.close_reason = CloseReason::Unknown.code();
}

/// What a hook that opens a connection does next.
#[derive(Debug, Clone, Copy)]
pub enum OpenStep {
    /// Put an empty row under this key.
    Insert(FlowKey),
    /// Nothing more: the probe ends with this.
    Done(Result<u32, i64>),
}

/// What a connect does next.
pub open spec fn connect_step(sock: Option<AddressReads>) -> OpenStep {
    match sock {
        Some(reads) if all_read(reads) => OpenStep::Insert(key_of(reads)),
        _ => OpenStep::Done(Err(NO_SOCKET)),
    }
}

/// A process called connect(): an outbound connection begins.
pub fn handle_tcp_connect(sock: Option<AddressReads>) -> (r: OpenStep)
    ensures
        r == connect_step(sock),
{
    match tcp_hook_key(sock) {
        Ok(key) => OpenStep::Insert(key),
        Err(e) => OpenStep::Done(Err(e)),
    }
}

/// What accept() handed back.
#[derive(Debug, Clone, Copy)]
pub enum Accepted {
    /// The return value is not available.
    Unavailable,
    /// No connection.
    Null,
    /// A socket, and what reading it gave.
    Sock(AddressReads),
}

/// What an accept does next.
pub open spec fn accept_step(accepted: Accepted) -> OpenStep {
    match accepted {
        Accepted::Unavailable => OpenStep::Done(Err(NO_SOCKET)),
        Accepted::Null => OpenStep::Done(Ok(0)),
        Accepted::Sock(reads) => if all_read(reads) {
            OpenStep::Insert(key_of(reads))
        } else {
            OpenStep::Done(Err(NO_SOCKET))
        },
    }
}

/// accept() returned: an inbound connection is established.
pub fn handle_accept(accepted: Accepted) -> (r: OpenStep)
    ensures
        r == accept_step(accepted),
{
    match accepted {
        Accepted::Unavailable => OpenStep::Done(Err(NO_SOCKET)),
        Accepted::Null => OpenStep::Done(Ok(0)),
        Accepted::Sock(reads) => handle_tcp_connect(Some(reads)),
    }
}

/// How opening a connection ends.
#[derive(Debug, Clone, Copy)]
pub struct Opened {
    pub outcome: Result<u32, i64>,
    /// Whether the thread is to be tied to the connection, so that its TLS
    /// library calls are found to belong to it.
    pub map_thread: bool,
}

/// How opening a connection ends, by whether a row could be put under its key
/// and was found there.
pub open spec fn opened(
    inserted: Result<(), i64>,
    found: bool,
    direction: FlowDirection,
) -> Opened {
    Opened {
        outcome: match inserted {
            Err(e) => Err(e),
            Ok(_) => if found {
                Ok(0u32)
            } else {
                Err(-1i64)
            },
        },
        map_thread: inserted is Ok && found && direction == FlowDirection::Outbound,
    }
}

/// The row that was found under a new connection's key, afterwards.
pub open spec fn opened_row(
    row: FlowState,
    inserted: Result<(), i64>,
    direction: FlowDirection,
    opener: Opener,
) -> FlowState {
    if inserted is Ok {
        new_row(direction.code(), opener)
    } else {
        row
    }
}

/// Fills the row that was put under a new connection's key. Only an outbound
/// connection is tied to its thread.
pub fn init_flow_row(
    inserted: Result<(), i64>,
    row: Option<&mut FlowState>,
    direction: FlowDirection,
    opener: &Opener,
) -> (r: Opened)
    ensures
        r == opened(inserted, row is Some, direction),
        row is Some ==> *final(row->0) == opened_row(*row->0, inserted, direction, *opener),
{
    match inserted {
        Err(e) => Opened { outcome: Err(e), map_thread: false },
        Ok(_) => match row {
            None => Opened { outcome: Err(-1), map_thread: false },
            Some(st) => {
                fill_new_flow_state(st, direction.code(), opener);
                Opened { outcome: Ok(0), map_thread: direction == FlowDirection::Outbound }
            },
        },
    }
}

/// The event that reports a connection which closes at `now`.
pub open spec fn close_event(key: FlowKey, st: FlowState, now: u64) -> FlowEvent {
    FlowEvent {
        pid: st.pid,
        ppid: st.ppid,
        uid: st.uid,
        gid: st.gid,
        comm: st.comm,
        cgroup: st.cgroup,
        src_ip: key.src_ip,
        dst_ip: key.dst_ip,
        src_port: key.src_port,
        dst_port: key.dst_port,
        protocol: key.protocol,
        direction: st.direction,
        bytes_sent: st.bytes_sent,
        bytes_recv: st.bytes_recv,
        pkts_sent: st.pkts_sent,
        pkts_recv: st.pkts_recv,
        srtt_us_min: none_as_zero(st.srtt_us_min),
        srtt_us_max: st.srtt_us_max,
        srtt_us_final: st.srtt_us_last,
        rttvar_us_max: st.rttvar_us_max,
        retransmit_count: st.retransmit_count,
        retransmit_bytes: st.retransmit_bytes,
        retransmit_rto_count: st.retransmit_rto_count,
        retransmit_fast_count: st.retransmit_fast_count,
        retransmit_tlp_count: st.retransmit_tlp_count,
        sack_blocks_received: st.sack_blocks_received,
        cwnd_min: none_as_zero(st.cwnd_min),
        cwnd_max: st.cwnd_max,
        ecn_signals: st.ecn_signals,
        tls_sni: st.tls_sni,
        http_host: st.http_host,
        http_method: st.http_method,
        http_path: st.http_path,
        http_status: st.http_status,
        has_tls: st.has_tls,
        has_http: st.has_http,
        connect_ts_ns: st.connect_ts_ns,
        first_byte_ts_ns: st.first_byte_ts_ns,
        first_recv_ts_ns: st.first_recv_ts_ns,
        close_ts_ns: now,
        duration_ns: sat_sub64(now, st.connect_ts_ns),
        time_to_first_byte_ns: sat_sub64(st.first_byte_ts_ns, st.connect_ts_ns),
        tls_handshake_ns: if st.tls_ready_ts_ns > 0 {
            sat_sub64(st.tls_ready_ts_ns, st.connect_ts_ns)
        } else {
            0
        },
        app_response_time_ns: if st.first_recv_ts_ns > 0 && st.ssl_write_ts_ns > 0 {
            sat_sub64(st.first_recv_ts_ns, st.ssl_write_ts_ns)
        } else {
            0
        },
        close_reason: closing_reason(st).code(),
        congestion_state_final: st.congestion_state_final,
        chain_id: st.chain_id,
        parent_chain_id: st.parent_chain_id,
        chain_depth: st.chain_depth,
    }
}

/// A smallest value seen, 0 if none was.
pub open spec fn none_as_zero(min: u32) -> u32 {
    if min == u32::MAX {
        0
    } else {
        min
    }
}

/// Why a connection closes: reset if a RST was sent, else closed by this host.
pub open spec fn closing_reason(st: FlowState) -> CloseReason {
    if st.close_reason == CloseReason::Reset.code() {
        CloseReason::Reset
    } else {
        CloseReason::LocalClose
    }
}

fn min_or_zero(min: u32) -> (r: u32)
    ensures
        r == none_as_zero(min),
{
    if min == u32::MAX {
        0
    } else {
        min
    }
}

fn write_identity(out: &mut [u8; FLOW_EVENT_LEN], key: &FlowKey, st: &FlowState, now: u64)
    ensures
        identity_at(final(out)@, close_event(*key, *st, now)),
        same_outside(old(out)@, final(out)@, 0, 160),
{
    put_u32(out, 0, st.pid);
    put_u32(out, 4, st.ppid);
    put_u32(out, 8, st.uid);
    put_u32(out, 12, st.gid);
    put_bytes(out, 16, st.comm.as_slice());
    put_bytes(out, 32, st.cgroup.as_slice());
}

fn write_network(out: &mut [u8; FLOW_EVENT_LEN], key: &FlowKey, st: &FlowState, now: u64)
    ensures
        network_at(final(out)@, close_event(*key, *st, now)),
        same_outside(old(out)@, final(out)@, 160, 174),
{
    put_u32(out, 160, key.src_ip);
    put_u32(out, 164, key.dst_ip);
    put_u16(out, 168, key.src_port);
    put_u16(out, 170, key.dst_port);
    put_u8(out, 172, key.protocol);
    put_u8(out, 173, st.direction);
}

fn write_volume(out: &mut [u8; FLOW_EVENT_LEN], key: &FlowKey, st: &FlowState, now: u64)
    ensures
        volume_at(final(out)@, close_event(*key, *st, now)),
        same_outside(old(out)@, final(out)@, 176, 208),
{
    put_u64(out, 176, st.bytes_sent);
    put_u64(out, 184, st.bytes_recv);
    put_u64(out, 192, st.pkts_sent);
    put_u64(out, 200, st.pkts_recv);
}

fn write_quality(out: &mut [u8; FLOW_EVENT_LEN], key: &FlowKey, st: &FlowState, now: u64)
    ensures
        quality_at(final(out)@, close_event(*key, *st, now)),
        same_outside(old(out)@, final(out)@, 208, 224),
{
    put_u32(out, 208, min_or_zero(st.srtt_us_min));
    put_u32(out, 212, st.srtt_us_max);
    put_u32(out, 216, st.srtt_us_last);
    put_u32(out, 220, st.rttvar_us_max);
}

fn write_loss(out: &mut [u8; FLOW_EVENT_LEN], key: &FlowKey, st: &FlowState, now: u64)
    ensures
        loss_at(final(out)@, close_event(*key, *st, now)),
        same_outside(old(out)@, final(out)@, 224, 256),
        forall|i: int| 228 <= i < 232 ==> #[trigger] final(out)@[i] == old(out)@[i],
{
    put_u32(out, 224, st.retransmit_count);
    put_u64(out, 232, st.retransmit_bytes);
    put_u32(out, 240, st.retransmit_rto_count);
    put_u32(out, 244, st.retransmit_fast_count);
    put_u32(out, 248, st.retransmit_tlp_count);
    put_u32(out, 252, st.sack_blocks_received);
}

fn write_congestion(out: &mut [u8; FLOW_EVENT_LEN], key: &FlowKey, st: &FlowState, now: u64)
    ensures
        congestion_at(final(out)@, close_event(*key, *st, now)),
        same_outside(old(out)@, final(out)@, 256, 268),
{
    put_u32(out, 256, min_or_zero(st.cwnd_min));
    put_u32(out, 260, st.cwnd_max);
    put_u32(out, 264, st.ecn_signals);
}

fn write_application(out: &mut [u8; FLOW_EVENT_LEN], key: &FlowKey, st: &FlowState, now: u64)
    ensures
        application_at(final(out)@, close_event(*key, *st, now)),
        same_outside(old(out)@, final(out)@, 268, 1048),
{
    put_bytes(out, 268, st.tls_sni.as_slice());
    put_bytes(out, 524, st.http_host.as_slice());
    put_bytes(out, 780, st.http_method.as_slice());
    put_bytes(out, 788, st.http_path.as_slice());
    put_u16(out, 1044, st.http_status);
    put_u8(out, 1046, st.has_tls);
    put_u8(out, 1047, st.has_http);
}

fn write_timing(out: &mut [u8; FLOW_EVENT_LEN], key: &FlowKey, st: &FlowState, now: u64)
    ensures
        timing_at(final(out)@, close_event(*key, *st, now)),
        same_outside(old(out)@, final(out)@, 1048, 1112),
{
    put_u64(out, 1048, st.connect_ts_ns);
    put_u64(out, 1056, st.first_byte_ts_ns);
    put_u64(out, 1064, st.first_recv_ts_ns);
    put_u64(out, 1072, now);
    put_u64(out, 1080, now.saturating_sub(st.connect_ts_ns));
    put_u64(out, 1088, st.first_byte_ts_ns.saturating_sub(st.connect_ts_ns));
    let handshake = if st.tls_ready_ts_ns > 0 {
        st.tls_ready_ts_ns.saturating_sub(st.connect_ts_ns)
    } else {
        0
    };
    put_u64(out, 1096, handshake);
    let response = if st.first_recv_ts_ns > 0 && st.ssl_write_ts_ns > 0 {
        st.first_recv_ts_ns.saturating_sub(st.ssl_write_ts_ns)
    } else {
        0
    };
    put_u64(out, 1104, response);
}

fn write_ending(out: &mut [u8; FLOW_EVENT_LEN], key: &FlowKey, st: &FlowState, now: u64)
    ensures
        ending_at(final(out)@, close_event(*key, *st, now)),
        same_outside(old(out)@, final(out)@, 1112, 1140),
        forall|i: int| 1114 <= i < 1120 ==> #[trigger] final(out)@[i] == old(out)@[i],
{
    let reason = if st.close_reason == CloseReason::Reset.code() {
        CloseReason::Reset.code()
    } else {
        CloseReason::LocalClose.code()
    };
    put_u8(out, 1112, reason);
    put_u8(out, 1113, st.congestion_state_final);
    put_u64(out, 1120, st.chain_id);
    put_u64(out, 1128, st.parent_chain_id);
    put_u32(out, 1136, st.chain_depth);
}

fn clear(out: &mut [u8; FLOW_EVENT_LEN])
    ensures
        forall|i: int| 0 <= i < FLOW_EVENT_LEN ==> #[trigger] final(out)@[i] == 0,
{
    let mut i: usize = 0;
    while i < FLOW_EVENT_LEN
        invariant
            i <= FLOW_EVENT_LEN,
            forall|k: int| 0 <= k < i ==> #[trigger] out@[k] == 0,
        decreases FLOW_EVENT_LEN - i,
    {
        out[i] = 0;
        i = i + 1;
    }
}

/// What the teardown of a connection does next.
#[derive(Debug, Clone, Copy)]
pub enum CloseStep {
    /// Look up the row under this key.
    FindRow(FlowKey),
    /// Reserve room for an event in the ring buffer.
    Reserve,
    /// Write the event, send it and remove the row.
    Report,
    /// Nothing more: the probe ends with this.
    Done(Result<u32, i64>),
}

/// What the teardown does first.
pub open spec fn key_step(sock: Option<AddressReads>) -> CloseStep {
    match sock {
        Some(reads) if all_read(reads) => CloseStep::FindRow(key_of(reads)),
        _ => CloseStep::Done(Err(NO_SOCKET)),
    }
}

/// A connection is being torn down: finds out which.
pub fn close_key(sock: Option<AddressReads>) -> (r: CloseStep)
    ensures
        r == key_step(sock),
{
    match tcp_hook_key(sock) {
        Ok(key) => CloseStep::FindRow(key),
        Err(e) => CloseStep::Done(Err(e)),
    }
}

/// What the teardown does next once it is known whether there is a row.
pub open spec fn after_row(found: bool) -> CloseStep {
    if found {
        CloseStep::Reserve
    } else {
        CloseStep::Done(Ok(0))
    }
}

/// What the teardown does next once it is known whether there is room.
pub open spec fn after_room(reserved: bool) -> CloseStep {
    if reserved {
        CloseStep::Report
    } else {
        CloseStep::Done(Ok(0))
    }
}

/// Whether the connection has a row: one that was not seen opening, or that
/// was reported already, has none and is not reported.
pub fn close_row(found: bool) -> (r: CloseStep)
    ensures
        r == after_row(found),
{
    if found {
        CloseStep::Reserve
    } else {
        CloseStep::Done(Ok(0))
    }
}

/// Whether the ring buffer had room: without, the event is lost and the row
/// stays.
pub fn close_room(reserved: bool) -> (r: CloseStep)
    ensures
        r == after_room(reserved),
{
    if reserved {
        CloseStep::Report
    } else {
        CloseStep::Done(Ok(0))
    }
}

/// Writes the event that reports a connection's close into the ring buffer's
/// memory, in place. Bytes between fields are zero.
pub fn handle_tcp_close(
    out: &mut [u8; FLOW_EVENT_LEN],
    key: &FlowKey,
    st: &FlowState,
    now: u64,
)
    ensures
        holds_event(final(out)@, close_event(*key, *st, now)),
        forall|i: int| 0 <= i < FLOW_EVENT_LEN && is_padding(i) ==> #[trigger] final(out)@[i] == 0,
{
    clear(out);
    write_identity(out, key, st, now);
    write_network(out, key, st, now);
    write_volume(out, key, st, now);
    write_quality(out, key, st, now);
    write_loss(out, key, st, now);
    write_congestion(out, key, st, now);
    write_application(out, key, st, now);
    write_timing(out, key, st, now);
    write_ending(out, key, st, now);
}

/// What userspace reads out of the bytes that a close wrote is the event of
/// that close.
pub proof fn close_event_is_read_back(
    item: Seq<u8>,
    key: FlowKey,
    st: FlowState,
    now: u64,
    read: FlowEvent,
)
    requires
        holds_event(item, close_event(key, st, now)),
        holds_event(item, read),
    ensures
        read == close_event(key, st, now),
{
    event_bytes_determine_event(item, read, close_event(key, st, now));
}

/// A row after a RST was sent.
pub open spec fn reset_row(st: FlowState) -> FlowState {
    FlowState { close_reason: CloseReason::Reset.code(), ..st }
}

/// A RST was sent: notes the close reason before the close fires.
pub fn handle_rst(row: Option<&mut FlowState>) -> (r: Result<u32, i64>)
    ensures
        r == Ok::<u32, i64>(0),
        row is Some ==> *final(row->0) == reset_row(*row->0),
{
    if let Some(st) = row {
        st.close_reason = CloseReason::Reset.code();
    }
    Ok(0)
}

/// A row after `size` bytes were sent at `now`.
pub open spec fn sent_row(st: FlowState, size: u64, now: u64) -> FlowState {
    FlowState {
        bytes_sent: sat_add64(st.bytes_sent, size),
        pkts_sent: sat_add64(st.pkts_sent, 1),
        first_byte_ts_ns: first_stamp(st.first_byte_ts_ns, now),
        ..st
    }
}

/// What a send call ends with whose size is not available.
pub const NO_SIZE: i64 = -1;

/// What [`sendmsg_entered`] gives.
pub open spec fn send_target(
    sock: Option<AddressReads>,
    size: Option<u64>,
) -> Result<(FlowKey, u64), i64> {
    match (sock, size) {
        (Some(reads), Some(size)) if all_read(reads) => Ok(
            (key_of(reads), size),
        ),
        (Some(_), None) => Err(NO_SIZE),
        _ => Err(NO_SOCKET),
    }
}

/// A send call was entered: the connection that it sends on, and how many
/// bytes.
pub fn sendmsg_entered(sock: Option<AddressReads>, size: Option<u64>) -> (r: Result<
    (FlowKey, u64),
    i64,
>)
    ensures
        r == send_target(sock, size),
{
    match (sock, size) {
        (None, _) => Err(NO_SOCKET),
        (Some(_), None) => Err(NO_SIZE),
        (Some(reads), Some(size)) => match flow_key_from_sock(&reads) {
            Some(key) => Ok((key, size)),
            None => Err(NO_SOCKET),
        },
    }
}

/// Counts bytes sent.
pub fn handle_sendmsg(row: Option<&mut FlowState>, size: u64, now: u64) -> (r: Result<u32, i64>)
    ensures
        r == Ok::<u32, i64>(0),
        row is Some ==> *final(row->0) == sent_row(*row->0, size, now),
{
    if let Some(st) = row {
        st.bytes_sent = st.bytes_sent.saturating_add(size);
        st.pkts_sent = st.pkts_sent.saturating_add(1);
        if st.first_byte_ts_ns == 0 {
            st.first_byte_ts_ns = now;
        }
    }
    Ok(0)
}

/// What the return of a receive call does next.
#[derive(Debug, Clone, Copy)]
pub enum RecvStep {
    /// Look up the socket that the call was entered with; this many bytes came in.
    FindSock(u64),
    /// Read the key of the socket at this address.
    ReadKey(u64),
    /// Look up the row under this key.
    FindRow(FlowKey),
    /// Forget the socket that the call was entered with, and end.
    ForgetSock,
    /// End.
    Done,
}

/// What a receive call does next once it has returned.
pub open spec fn after_return(ret: Option<i64>) -> RecvStep {
    match ret {
        Some(bytes) if bytes > 0 => RecvStep::FindSock(bytes as u64),
        _ => RecvStep::ForgetSock,
    }
}

/// A receive call returned: `ret` is its return value, if available. Only one
/// that received bytes is followed up.
pub fn recvmsg_returned(ret: Option<i64>) -> (r: RecvStep)
    ensures
        r == after_return(ret),
{
    match ret {
        Some(bytes) => if bytes <= 0 {
            RecvStep::ForgetSock
        } else {
            RecvStep::FindSock(bytes as u64)
        },
        None => RecvStep::ForgetSock,
    }
}

/// What it does next once its socket was looked up.
pub open spec fn after_sock(sock_addr: Option<u64>) -> RecvStep {
    match sock_addr {
        Some(addr) => RecvStep::ReadKey(addr),
        None => RecvStep::Done,
    }
}

/// The socket that the call was entered with, if it was remembered.
pub fn recvmsg_sock(sock_addr: Option<u64>) -> (r: RecvStep)
    ensures
        r == after_sock(sock_addr),
{
    match sock_addr {
        Some(addr) => RecvStep::ReadKey(addr),
        None => RecvStep::Done,
    }
}

/// What it does next once its socket was read.
pub open spec fn after_key(reads: AddressReads) -> RecvStep {
    if all_read(reads) {
        RecvStep::FindRow(key_of(reads))
    } else {
        RecvStep::ForgetSock
    }
}

/// What reading the socket gave.
pub fn recvmsg_key(reads: &AddressReads) -> (r: RecvStep)
    ensures
        r == after_key(*reads),
{
    match flow_key_from_sock(reads) {
        Some(key) => RecvStep::FindRow(key),
        None => RecvStep::ForgetSock,
    }
}

/// A row after `bytes` bytes were received at `now`.
pub open spec fn received_row(st: FlowState, bytes: u64, now: u64) -> FlowState {
    FlowState {
        bytes_recv: sat_add64(st.bytes_recv, bytes),
        pkts_recv: sat_add64(st.pkts_recv, 1),
        first_recv_ts_ns: first_stamp(st.first_recv_ts_ns, now),
        ..st
    }
}

/// Counts bytes received; the socket is forgotten with or without a row.
pub fn handle_recvmsg(row: Option<&mut FlowState>, bytes: u64, now: u64) -> (r: RecvStep)
    ensures
        r == RecvStep::ForgetSock,
        row is Some ==> *final(row->0) == received_row(*row->0, bytes, now),
{
    if let Some(st) = row {
        st.bytes_recv = st.bytes_recv.saturating_add(bytes);
        st.pkts_recv = st.pkts_recv.saturating_add(1);
        if st.first_recv_ts_ns == 0 {
            st.first_recv_ts_ns = now;
        }
    }
    RecvStep::ForgetSock
}

} // verus!
