//! The layout of a flow event in the ring buffer: the C layout of
//! [`FlowEvent`], little-endian, with zero bytes between fields where
//! alignment leaves room.

use vstd::prelude::*;
use crate::common::{FlowEvent, CGROUP_LEN, COMM_LEN, HOST_LEN, METHOD_LEN, PATH_LEN};

verus! {

/// Bytes of a flow event.
pub const FLOW_EVENT_LEN: usize = 1144;

/// The little-endian 16-bit number at `i`.
pub open spec fn le16(s: Seq<u8>, i: int) -> int {
    s[i] + 0x100 * s[i + 1]
}

/// The little-endian 32-bit number at `i`.
pub open spec fn le32(s: Seq<u8>, i: int) -> int {
    le16(s, i) + 0x1_0000 * le16(s, i + 2)
}

/// The little-endian 64-bit number at `i`.
pub open spec fn le64(s: Seq<u8>, i: int) -> int {
    le32(s, i) + 0x1_0000_0000 * le32(s, i + 4)
}

/// `b` differs from `a` at most in `from..to`.
pub open spec fn same_outside(a: Seq<u8>, b: Seq<u8>, from: int, to: int) -> bool {
    &&& a.len() == b.len()
    &&& forall|i: int| 0 <= i < a.len() && !(from <= i < to) ==> #[trigger] b[i] == a[i]
}

/// Who owns the connection.
pub open spec fn identity_at(s: Seq<u8>, e: FlowEvent) -> bool {
    &&& le32(s, 0) == e.pid
    &&& le32(s, 4) == e.ppid
    &&& le32(s, 8) == e.uid
    &&& le32(s, 12) == e.gid
    &&& s.subrange(16, 32) =~= e.comm@
    &&& s.subrange(32, 160) =~= e.cgroup@
}

/// The connection's five-tuple and direction.
pub open spec fn network_at(s: Seq<u8>, e: FlowEvent) -> bool {
    &&& le32(s, 160) == e.src_ip
    &&& le32(s, 164) == e.dst_ip
    &&& le16(s, 168) == e.src_port
    &&& le16(s, 170) == e.dst_port
    &&& s[172] == e.protocol
    &&& s[173] == e.direction
}

pub open spec fn volume_at(s: Seq<u8>, e: FlowEvent) -> bool {
    &&& le64(s, 176) == e.bytes_sent
    &&& le64(s, 184) == e.bytes_recv
    &&& le64(s, 192) == e.pkts_sent
    &&& le64(s, 200) == e.pkts_recv
}

pub open spec fn quality_at(s: Seq<u8>, e: FlowEvent) -> bool {
    &&& le32(s, 208) == e.srtt_us_min
    &&& le32(s, 212) == e.srtt_us_max
    &&& le32(s, 216) == e.srtt_us_final
    &&& le32(s, 220) == e.rttvar_us_max
}

pub open spec fn loss_at(s: Seq<u8>, e: FlowEvent) -> bool {
    &&& le32(s, 224) == e.retransmit_count
    &&& le64(s, 232) == e.retransmit_bytes
    &&& le32(s, 240) == e.retransmit_rto_count
    &&& le32(s, 244) == e.retransmit_fast_count
    &&& le32(s, 248) == e.retransmit_tlp_count
    &&& le32(s, 252) == e.sack_blocks_received
}

pub open spec fn congestion_at(s: Seq<u8>, e: FlowEvent) -> bool {
    &&& le32(s, 256) == e.cwnd_min
    &&& le32(s, 260) == e.cwnd_max
    &&& le32(s, 264) == e.ecn_signals
}

/// What was read of the application layer.
pub open spec fn application_at(s: Seq<u8>, e: FlowEvent) -> bool {
    &&& s.subrange(268, 524) =~= e.tls_sni@
    &&& s.subrange(524, 780) =~= e.http_host@
    &&& s.subrange(780, 788) =~= e.http_method@
    &&& s.subrange(788, 1044) =~= e.http_path@
    &&& le16(s, 1044) == e.http_status
    &&& s[1046] == e.has_tls
    &&& s[1047] == e.has_http
}

pub open spec fn timing_at(s: Seq<u8>, e: FlowEvent) -> bool {
    &&& le64(s, 1048) == e.connect_ts_ns
    &&& le64(s, 1056) == e.first_byte_ts_ns
    &&& le64(s, 1064) == e.first_recv_ts_ns
    &&& le64(s, 1072) == e.close_ts_ns
    &&& le64(s, 1080) == e.duration_ns
    &&& le64(s, 1088) == e.time_to_first_byte_ns
    &&& le64(s, 1096) == e.tls_handshake_ns
    &&& le64(s, 1104) == e.app_response_time_ns
}

/// How the connection ended, and its causal chain.
pub open spec fn ending_at(s: Seq<u8>, e: FlowEvent) -> bool {
    &&& s[1112] == e.close_reason
    &&& s[1113] == e.congestion_state_final
    &&& le64(s, 1120) == e.chain_id
    &&& le64(s, 1128) == e.parent_chain_id
    &&& le32(s, 1136) == e.chain_depth
}

/// The bytes at the front of `s` are the event `e`.
pub open spec fn holds_event(s: Seq<u8>, e: FlowEvent) -> bool {
    &&& s.len() >= FLOW_EVENT_LEN
    &&& identity_at(s, e)
    &&& network_at(s, e)
    &&& volume_at(s, e)
    &&& quality_at(s, e)
    &&& loss_at(s, e)
    &&& congestion_at(s, e)
    &&& application_at(s, e)
    &&& timing_at(s, e)
    &&& ending_at(s, e)
}

/// Whether byte `i` of an event belongs to no field.
pub open spec fn is_padding(i: int) -> bool {
    174 <= i < 176 || 228 <= i < 232 || 1114 <= i < 1120 || 1140 <= i < 1144
}

/// Two events with the same bytes are the same event.
pub proof fn event_bytes_determine_event(s: Seq<u8>, a: FlowEvent, b: FlowEvent)
    requires
        holds_event(s, a),
        holds_event(s, b),
    ensures
        a == b,
{
    assert(a.comm =~= b.comm) by {
        assert(a.comm@ == b.comm@);
    }
    assert(a.cgroup =~= b.cgroup) by {
        assert(a.cgroup@ == b.cgroup@);
    }
    assert(a.tls_sni =~= b.tls_sni) by {
        assert(a.tls_sni@ == b.tls_sni@);
    }
    assert(a.http_host =~= b.http_host) by {
        assert(a.http_host@ == b.http_host@);
    }
    assert(a.http_method =~= b.http_method) by {
        assert(a.http_method@ == b.http_method@);
    }
    assert(a.http_path =~= b.http_path) by {
        assert(a.http_path@ == b.http_path@);
    }
}

pub fn put_u8(out: &mut [u8; FLOW_EVENT_LEN], at: usize, v: u8)
    requires
        at < FLOW_EVENT_LEN,
    ensures
        final(out)@[at as int] == v,
        same_outside(old(out)@, final(out)@, at as int, at + 1),
{
    out[at] = v;
}

pub fn put_u16(out: &mut [u8; FLOW_EVENT_LEN], at: usize, v: u16)
    requires
        at + 2 <= FLOW_EVENT_LEN,
    ensures
        le16(final(out)@, at as int) == v,
        same_outside(old(out)@, final(out)@, at as int, at + 2),
{
    out[at] = (v % 0x100) as u8;
    out[at + 1] = (v / 0x100) as u8;
}

pub fn put_u32(out: &mut [u8; FLOW_EVENT_LEN], at: usize, v: u32)
    requires
        at + 4 <= FLOW_EVENT_LEN,
    ensures
        le32(final(out)@, at as int) == v,
        same_outside(old(out)@, final(out)@, at as int, at + 4),
{
    put_u16(out, at, (v % 0x1_0000) as u16);
    put_u16(out, at + 2, (v / 0x1_0000) as u16);
}

pub fn put_u64(out: &mut [u8; FLOW_EVENT_LEN], at: usize, v: u64)
    requires
        at + 8 <= FLOW_EVENT_LEN,
    ensures
        le64(final(out)@, at as int) == v,
        same_outside(old(out)@, final(out)@, at as int, at + 8),
{
    put_u32(out, at, (v % 0x1_0000_0000) as u32);
    put_u32(out, at + 4, (v / 0x1_0000_0000) as u32);
}

pub fn put_bytes(out: &mut [u8; FLOW_EVENT_LEN], at: usize, v: &[u8])
    requires
        at + v.len() <= FLOW_EVENT_LEN,
    ensures
        final(out)@.subrange(at as int, at + v.len()) =~= v@,
        same_outside(old(out)@, final(out)@, at as int, at + v.len()),
{
    let mut i: usize = 0;
    while i < v.len()
        invariant
            i <= v.len(),
            at + v.len() <= FLOW_EVENT_LEN,
            forall|k: int| 0 <= k < i ==> out@[at + k] == #[trigger] v@[k],
            same_outside(old(out)@, out@, at as int, at + i),
        decreases v.len() - i,
    {
        out[at + i] = v[i];
        i = i + 1;
    }
}

fn get_u16(s: &[u8], at: usize) -> (r: u16)
    requires
        at + 2 <= s.len(),
    ensures
        r == le16(s@, at as int),
{
    (s[at] as u16) + 0x100 * (s[at + 1] as u16)
}

fn get_u32(s: &[u8], at: usize) -> (r: u32)
    requires
        at + 4 <= s.len(),
    ensures
        r == le32(s@, at as int),
{
    (get_u16(s, at) as u32) + 0x1_0000 * (get_u16(s, at + 2) as u32)
}

fn get_u64(s: &[u8], at: usize) -> (r: u64)
    requires
        at + 8 <= s.len(),
    ensures
        r == le64(s@, at as int),
{
    (get_u32(s, at) as u64) + 0x1_0000_0000 * (get_u32(s, at + 4) as u64)
}

fn get_bytes<const N: usize>(s: &[u8], at: usize) -> (r: [u8; N])
    requires
        at + N <= s.len(),
    ensures
        r@ =~= s@.subrange(at as int, at + N),
{
    let mut r: [u8; N] = [0u8; N];
    let mut i: usize = 0;
    while i < N
        invariant
            i <= N,
            at + N <= s.len(),
            forall|k: int| 0 <= k < i ==> #[trigger] r@[k] == s@[at + k],
        decreases N - i,
    {
        r[i] = s[at + i];
        i = i + 1;
    }
    r
}

/// Reads the event at the front of an item of the ring buffer; an item that
/// is too short holds none.
pub fn read_flow_event(item: &[u8]) -> (r: Option<FlowEvent>)
    ensures
        r is Some <==> item@.len() >= FLOW_EVENT_LEN,
        r matches Some(e) ==> holds_event(item@, e),
{
    if item.len() < FLOW_EVENT_LEN {
        return None;
    }
    Some(
        FlowEvent {
            pid: get_u32(item, 0),
            ppid: get_u32(item, 4),
            uid: get_u32(item, 8),
            gid: get_u32(item, 12),
            comm: get_bytes::<COMM_LEN>(item, 16),
            cgroup: get_bytes::<CGROUP_LEN>(item, 32),
            src_ip: get_u32(item, 160),
            dst_ip: get_u32(item, 164),
            src_port: get_u16(item, 168),
            dst_port: get_u16(item, 170),
            protocol: item[172],
            direction: item[173],
            bytes_sent: get_u64(item, 176),
            bytes_recv: get_u64(item, 184),
            pkts_sent: get_u64(item, 192),
            pkts_recv: get_u64(item, 200),
            srtt_us_min: get_u32(item, 208),
            srtt_us_max: get_u32(item, 212),
            srtt_us_final: get_u32(item, 216),
            rttvar_us_max: get_u32(item, 220),
            retransmit_count: get_u32(item, 224),
            retransmit_bytes: get_u64(item, 232),
            retransmit_rto_count: get_u32(item, 240),
            retransmit_fast_count: get_u32(item, 244),
            retransmit_tlp_count: get_u32(item, 248),
            sack_blocks_received: get_u32(item, 252),
            cwnd_min: get_u32(item, 256),
            cwnd_max: get_u32(item, 260),
            ecn_signals: get_u32(item, 264),
            tls_sni: get_bytes::<HOST_LEN>(item, 268),
            http_host: get_bytes::<HOST_LEN>(item, 524),
            http_method: get_bytes::<METHOD_LEN>(item, 780),
            http_path: get_bytes::<PATH_LEN>(item, 788),
            http_status: get_u16(item, 1044),
            has_tls: item[1046],
            has_http: item[1047],
            connect_ts_ns: get_u64(item, 1048),
            first_byte_ts_ns: get_u64(item, 1056),
            first_recv_ts_ns: get_u64(item, 1064),
            close_ts_ns: get_u64(item, 1072),
            duration_ns: get_u64(item, 1080),
            time_to_first_byte_ns: get_u64(item, 1088),
            tls_handshake_ns: get_u64(item, 1096),
            app_response_time_ns: get_u64(item, 1104),
            close_reason: item[1112],
            congestion_state_final: item[1113],
            chain_id: get_u64(item, 1120),
            parent_chain_id: get_u64(item, 1128),
            chain_depth: get_u32(item, 1136),
        },
    )
}

} // verus!
