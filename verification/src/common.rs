//! Types shared by the kernel-side programs and the userspace daemon: the
//! codes that travel in events, and the events themselves.

use vstd::prelude::*;

verus! {

/// Length of a process name (comm).
pub const COMM_LEN: usize = 16;

/// Room for a TLS server name or an HTTP Host header.
pub const HOST_LEN: usize = 256;

/// Room for an HTTP request path.
pub const PATH_LEN: usize = 256;

/// Room for a cgroup path.
pub const CGROUP_LEN: usize = 128;

/// Room for an HTTP method.
pub const METHOD_LEN: usize = 8;

/// The IP protocol number of TCP.
pub const IPPROTO_TCP: u8 = 6;

/// The IP protocol number of UDP.
pub const IPPROTO_UDP: u8 = 17;

/// Why a retransmit occurred.
#[derive(Debug, Clone, Copy, PartialEq, Eq, Structural)]
pub enum RetransmitReason {
    Unknown,
    /// The retransmit timeout fired: true packet loss.
    Rto,
    /// Three duplicate ACKs: a congestion signal.
    FastRetransmit,
    /// Retransmit driven by selective ACKs.
    Sack,
    /// Tail loss probe: speculative, faster than the timeout.
    Tlp,
}

impl RetransmitReason {
    /// The number that stands for the reason in an event.
    #[verifier::allow_in_spec]
    pub fn code(self) -> (r: u8)
        returns
            (match self {
                RetransmitReason::Unknown => 0u8,
                RetransmitReason::Rto => 1u8,
                RetransmitReason::FastRetransmit => 2u8,
                RetransmitReason::Sack => 3u8,
                RetransmitReason::Tlp => 4u8,
            }),
    {
        match self {
            RetransmitReason::Unknown => 0,
            RetransmitReason::Rto => 1,
            RetransmitReason::FastRetransmit => 2,
            RetransmitReason::Sack => 3,
            RetransmitReason::Tlp => 4,
        }
    }
}

/// Why a connection closed.
#[derive(Debug, Clone, Copy, PartialEq, Eq, Structural)]
pub enum CloseReason {
    Unknown,
    /// Clean FIN exchange.
    Clean,
    /// RST received or sent.
    Reset,
    /// The connection timed out.
    Timeout,
    /// The local process called close().
    LocalClose,
}

impl CloseReason {
    /// The number that stands for the reason in an event.
    #[verifier::allow_in_spec]
    pub fn code(self) -> (r: u8)
        returns
            (match self {
                CloseReason::Unknown => 0u8,
                CloseReason::Clean => 1u8,
                CloseReason::Reset => 2u8,
                CloseReason::Timeout => 3u8,
                CloseReason::LocalClose => 4u8,
            }),
    {
        match self {
            CloseReason::Unknown => 0,
            CloseReason::Clean => 1,
            CloseReason::Reset => 2,
            CloseReason::Timeout => 3,
            CloseReason::LocalClose => 4,
        }
    }
}

/// TCP congestion state.
#[derive(Debug, Clone, Copy, PartialEq, Eq, Structural)]
pub enum CongestionState {
    /// Normal.
    Open,
    /// Some reordering or loss.
    Disorder,
    /// ECN: congestion window reduced.
    Cwr,
    /// Fast recovery.
    Recovery,
    /// Loss-based recovery.
    Loss,
}

impl CongestionState {
    /// The number that stands for the state in an event.
    #[verifier::allow_in_spec]
    pub fn code(self) -> (r: u8)
        returns
            (match self {
                CongestionState::Open => 0u8,
                CongestionState::Disorder => 1u8,
                CongestionState::Cwr => 2u8,
                CongestionState::Recovery => 3u8,
                CongestionState::Loss => 4u8,
            }),
    {
        match self {
            CongestionState::Open => 0,
            CongestionState::Disorder => 1,
            CongestionState::Cwr => 2,
            CongestionState::Recovery => 3,
            CongestionState::Loss => 4,
        }
    }
}

/// Direction of a flow from this host's perspective.
#[derive(Debug, Clone, Copy, PartialEq, Eq, Structural)]
pub enum FlowDirection {
    Unknown,
    /// This host initiated.
    Outbound,
    /// The remote host initiated.
    Inbound,
}

impl FlowDirection {
    /// The number that stands for the direction in an event.
    #[verifier::allow_in_spec]
    pub fn code(self) -> (r: u8)
        returns
            (match self {
                FlowDirection::Unknown => 0u8,
                FlowDirection::Outbound => 1u8,
                FlowDirection::Inbound => 2u8,
            }),
    {
        match self {
            FlowDirection::Unknown => 0,
            FlowDirection::Outbound => 1,
            FlowDirection::Inbound => 2,
        }
    }
}

/// One retransmit of a connection.
#[derive(Debug, Clone, Copy)]
pub struct RetransmitEvent {
    pub timestamp_ns: u64,
    pub src_ip: u32,
    pub dst_ip: u32,
    pub src_port: u16,
    pub dst_port: u16,
    /// A [`RetransmitReason`] code.
    pub reason: u8,
    /// Sequence number retransmitted.
    pub seq: u32,
    /// RTO value at the time of the retransmit.
    pub rto_us: u32,
    /// Smoothed RTT at the time of the retransmit.
    pub srtt_us: u32,
    /// Congestion window at the time of the retransmit.
    pub cwnd: u32,
    pub pid: u32,
}

/// What a TLS library call showed of a connection: SSL_write (outbound) or
/// SSL_read (inbound).
#[derive(Debug, Clone, Copy)]
pub struct TlsEvent {
    pub timestamp_ns: u64,
    pub pid: u32,
    pub src_ip: u32,
    pub dst_ip: u32,
    pub src_port: u16,
    pub dst_port: u16,
    /// 0 for a write (outbound), 1 for a read (inbound).
    pub is_read: u8,
    pub sni: [u8; HOST_LEN],
    pub http_host: [u8; HOST_LEN],
    pub http_method: [u8; METHOD_LEN],
    pub http_path: [u8; PATH_LEN],
    /// Response status (on read).
    pub http_status: u16,
    pub payload_len: u32,
}

/// One TCP quality sample of a connection.
#[derive(Debug, Clone, Copy)]
pub struct TcpQualityEvent {
    pub timestamp_ns: u64,
    pub src_ip: u32,
    pub dst_ip: u32,
    pub src_port: u16,
    pub dst_port: u16,
    /// Smoothed RTT.
    pub srtt_us: u32,
    /// RTT variance (jitter).
    pub rttvar_us: u32,
    /// Congestion window.
    pub cwnd: u32,
    /// Receive window.
    pub rcv_wnd: u32,
    /// Packets marked lost.
    pub lost_out: u32,
    /// Packets currently in retransmit.
    pub retrans_out: u32,
    /// Packets acknowledged selectively.
    pub sacked_out: u32,
    pub bytes_acked: u64,
    pub bytes_retrans: u64,
}

/// The complete record of a connection, emitted when it closes.
///
/// Addresses hold the bytes of the network representation, first byte lowest.
/// Text fields end at their first NUL byte.
#[derive(Debug, Clone, Copy)]
pub struct FlowEvent {
    pub pid: u32,
    pub ppid: u32,
    pub uid: u32,
    pub gid: u32,
    /// Process name.
    pub comm: [u8; COMM_LEN],
    /// Cgroup path: pod and container identity.
    pub cgroup: [u8; CGROUP_LEN],
    pub src_ip: u32,
    pub dst_ip: u32,
    pub src_port: u16,
    pub dst_port: u16,
    /// IP protocol number.
    pub protocol: u8,
    /// A [`FlowDirection`] code.
    pub direction: u8,
    pub bytes_sent: u64,
    pub bytes_recv: u64,
    pub pkts_sent: u64,
    pub pkts_recv: u64,
    pub srtt_us_min: u32,
    pub srtt_us_max: u32,
    pub srtt_us_final: u32,
    /// Peak jitter.
    pub rttvar_us_max: u32,
    pub retransmit_count: u32,
    pub retransmit_bytes: u64,
    /// True loss events.
    pub retransmit_rto_count: u32,
    /// Congestion events.
    pub retransmit_fast_count: u32,
    /// Tail loss probes.
    pub retransmit_tlp_count: u32,
    pub sack_blocks_received: u32,
    pub cwnd_min: u32,
    pub cwnd_max: u32,
    /// Explicit congestion notifications.
    pub ecn_signals: u32,
    pub tls_sni: [u8; HOST_LEN],
    pub http_host: [u8; HOST_LEN],
    pub http_method: [u8; METHOD_LEN],
    pub http_path: [u8; PATH_LEN],
    pub http_status: u16,
    /// 1 if TLS was observed.
    pub has_tls: u8,
    /// 1 if HTTP was parsed.
    pub has_http: u8,
    pub connect_ts_ns: u64,
    /// When the first byte was sent.
    pub first_byte_ts_ns: u64,
    /// When the first byte was received.
    pub first_recv_ts_ns: u64,
    pub close_ts_ns: u64,
    pub duration_ns: u64,
    /// From connect to the first data sent.
    pub time_to_first_byte_ns: u64,
    /// From TCP connect to TLS ready.
    pub tls_handshake_ns: u64,
    /// From the first write to the first read back.
    pub app_response_time_ns: u64,
    /// A [`CloseReason`] code.
    pub close_reason: u8,
    /// The [`CongestionState`] code at close.
    pub congestion_state_final: u8,
    /// Links flows causally.
    pub chain_id: u64,
    /// 0 if origin.
    pub parent_chain_id: u64,
    pub chain_depth: u32,
}

/// What a [`CloseReason`] code stands for: any number without a meaning of
/// its own stands for `Unknown`.
pub open spec fn close_reason_of(code: u8) -> CloseReason {
    if code == CloseReason::Clean.code() {
        CloseReason::Clean
    } else if code == CloseReason::Reset.code() {
        CloseReason::Reset
    } else if code == CloseReason::Timeout.code() {
        CloseReason::Timeout
    } else if code == CloseReason::LocalClose.code() {
        CloseReason::LocalClose
    } else {
        CloseReason::Unknown
    }
}

/// Every close reason survives being written as its code and read back.
pub proof fn close_reason_code_reads_back(reason: CloseReason)
    ensures
        close_reason_of(reason.code()) == reason,
{
}

impl FlowEvent {
    /// Why the connection closed.
    pub fn close_reason(&self) -> (r: CloseReason)
        ensures
            r == close_reason_of(self.close_reason),
    {
        match self.close_reason {
            1 => CloseReason::Clean,
            2 => CloseReason::Reset,
            3 => CloseReason::Timeout,
            4 => CloseReason::LocalClose,
            _ => CloseReason::Unknown,
        }
    }
}

} // verus!
