//! The rows of the sensor's kernel tables.

use vstd::prelude::*;
use crate::common::{CGROUP_LEN, COMM_LEN, HOST_LEN, METHOD_LEN, PATH_LEN};

verus! {

/// How many bytes of a TLS library call's buffer are looked at.
pub const TLS_SCRATCH_LEN: usize = 512;

/// Entries of the flow table.
pub const FLOW_TABLE_ENTRIES: u32 = 100_000;

/// Entries of the causal context table.
pub const CAUSAL_MAP_ENTRIES: u32 = 10_000;

/// Entries of each table that pairs a call's entry with its return.
pub const CALL_TABLE_ENTRIES: u32 = 4096;

/// Bytes of the ring buffer that carries flow events to userspace.
pub const FLOW_EVENTS_BYTES: u32 = 16_777_216;

/// Bytes that round a flow key off.
pub const KEY_PAD_LEN: usize = 3;

/// Key of the flow table: the connection's five-tuple.
///
/// Addresses hold the bytes of the network representation, first byte lowest;
/// the two ports are numbers.
#[derive(Debug, Clone, Copy)]
pub struct FlowKey {
    pub src_ip: u32,
    pub dst_ip: u32,
    pub src_port: u16,
    pub dst_port: u16,
    pub protocol: u8,
    pub _pad: [u8; KEY_PAD_LEN],
}

/// What is known of a live connection. Several programs write to it; it is
/// read and removed when the connection closes.
#[derive(Debug, Clone, Copy)]
pub struct FlowState {
    pub pid: u32,
    pub ppid: u32,
    pub uid: u32,
    pub gid: u32,
    pub comm: [u8; COMM_LEN],
    pub cgroup: [u8; CGROUP_LEN],
    pub direction: u8,
    pub bytes_sent: u64,
    pub bytes_recv: u64,
    pub pkts_sent: u64,
    pub pkts_recv: u64,
    /// Smallest smoothed RTT seen, `u32::MAX` before the first.
    pub srtt_us_min: u32,
    pub srtt_us_max: u32,
    pub srtt_us_last: u32,
    pub rttvar_us_max: u32,
    /// Smallest congestion window seen, `u32::MAX` before the first.
    pub cwnd_min: u32,
    pub cwnd_max: u32,
    pub ecn_signals: u32,
    pub retransmit_count: u32,
    pub retransmit_bytes: u64,
    pub retransmit_rto_count: u32,
    pub retransmit_fast_count: u32,
    pub retransmit_tlp_count: u32,
    pub sack_blocks_received: u32,
    /// 1 if the retransmit that was counted last is still to be seen by the
    /// hook that sees every retransmit.
    pub retransmit_claimed: u8,
    pub tls_sni: [u8; HOST_LEN],
    pub http_host: [u8; HOST_LEN],
    pub http_method: [u8; METHOD_LEN],
    pub http_path: [u8; PATH_LEN],
    pub http_status: u16,
    pub has_tls: u8,
    pub has_http: u8,
    /// When the first TLS write that showed TLS or HTTP began.
    pub ssl_write_ts_ns: u64,
    pub connect_ts_ns: u64,
    pub first_byte_ts_ns: u64,
    pub first_recv_ts_ns: u64,
    pub tls_ready_ts_ns: u64,
    pub chain_id: u64,
    pub parent_chain_id: u64,
    pub chain_depth: u32,
    pub congestion_state_final: u8,
    /// The [`CloseReason`](crate::common::CloseReason) code noted before the
    /// close, 0 while nothing has been noted.
    pub close_reason: u8,
}

/// Per-thread causal context: follows execution across fork and clone.
#[derive(Debug, Clone, Copy)]
pub struct CausalCtx {
    pub chain_id: u64,
    pub parent_chain_id: u64,
    pub depth: u32,
    pub origin_pid: u32,
    pub origin_ts_ns: u64,
}

/// Runtime configuration that userspace hands to the kernel side.
#[derive(Debug, Clone, Copy)]
pub struct SensorConfig {
    /// 1 for every event, N for one in N.
    pub sample_rate: u32,
    /// Smallest RTT change that is worth a quality event.
    pub rtt_change_threshold_us: u32,
    pub enable_tls_probes: u8,
    pub enable_http_parse: u8,
    pub enable_causal_chains: u8,
    pub _pad: [u8; 5],
}

/// The arguments of an SSL_write or SSL_read call, kept from entry to return.
#[derive(Debug, Clone, Copy)]
pub struct SslArgs {
    /// User-space address of the caller's buffer.
    pub buf_ptr: u64,
    /// The length that the caller passed.
    pub len: u32,
    pub _pad: u32,
    /// When the call was entered.
    pub ts_ns: u64,
}

} // verus!
