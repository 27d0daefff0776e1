//! Where the sensor looks inside a kernel socket, and the flow key that it
//! finds there.

use vstd::prelude::*;
use crate::common::IPPROTO_TCP;
use crate::kread::{from_network_order, read_u16_ne, read_u32_ne};
use crate::maps::{FlowKey, KEY_PAD_LEN};
use crate::wire::le32;

verus! {

/// A field of the kernel's socket that the sensor reads.
#[derive(Debug, Clone, Copy, PartialEq, Eq, Structural)]
pub enum SockField {
    DstAddr,
    SrcAddr,
    DstPort,
    SrcPort,
    /// Congestion avoidance state.
    CaState,
    /// First unacknowledged sequence number.
    SndUna,
    /// Next sequence number to send.
    SndNxt,
    /// Congestion window.
    SndCwnd,
    /// Smoothed RTT in eighths of a microsecond.
    SrttUs,
    /// RTT variance in quarters of a microsecond.
    RttvarUs,
}

impl SockField {
    /// Distance of the field from the start of the socket, for Linux 5.8 to 6.x.
    #[verifier::allow_in_spec]
    pub fn offset(self) -> (r: usize)
        returns
            (match self {
                SockField::DstAddr => 0x0usize,
                SockField::SrcAddr => 0x4usize,
                SockField::DstPort => 0xausize,
                SockField::SrcPort => 0xcusize,
                SockField::CaState => 0x164usize,
                SockField::SndUna => 0x188usize,
                SockField::SndNxt => 0x18cusize,
                SockField::SndCwnd => 0x1acusize,
                SockField::SrttUs => 0x1e0usize,
                SockField::RttvarUs => 0x1e4usize,
            }),
    {
        match self {
            SockField::DstAddr => 0x0,
            SockField::SrcAddr => 0x4,
            SockField::DstPort => 0xa,
            SockField::SrcPort => 0xc,
            SockField::CaState => 0x164,
            SockField::SndUna => 0x188,
            SockField::SndNxt => 0x18c,
            SockField::SndCwnd => 0x1ac,
            SockField::SrttUs => 0x1e0,
            SockField::RttvarUs => 0x1e4,
        }
    }
}

/// What reading a socket's addresses and ports gave: bytes in network order,
/// or the error code of the read.
#[derive(Debug, Clone, Copy)]
pub struct AddressReads {
    pub src_ip: Result<[u8; 4], i64>,
    pub dst_ip: Result<[u8; 4], i64>,
    pub src_port: Result<[u8; 2], i64>,
    pub dst_port: Result<[u8; 2], i64>,
}

/// A port number in network order.
pub open spec fn network_port(b: Seq<u8>) -> u16 {
    (b[0] * 0x100 + b[1]) as u16
}

/// The key that these reads give, if all of them succeeded. The hooks see
/// nothing but TCP, so the protocol is TCP.
pub open spec fn key_of(reads: AddressReads) -> FlowKey {
    FlowKey {
        src_ip: le32(reads.src_ip->Ok_0@, 0) as u32,
        dst_ip: le32(reads.dst_ip->Ok_0@, 0) as u32,
        src_port: network_port(reads.src_port->Ok_0@),
        dst_port: network_port(reads.dst_port->Ok_0@),
        protocol: IPPROTO_TCP,
        _pad: [0u8; KEY_PAD_LEN],
    }
}

/// All four reads succeeded.
pub open spec fn all_read(reads: AddressReads) -> bool {
    reads.src_ip is Ok && reads.dst_ip is Ok && reads.src_port is Ok && reads.dst_port is Ok
}

/// What [`flow_key_from_sock`] gives.
pub open spec fn sock_key(reads: AddressReads) -> Option<FlowKey> {
    if all_read(reads) {
        Some(key_of(reads))
    } else {
        None
    }
}

/// The key of a socket that a hook was handed. `None` if a read failed.
pub fn flow_key_from_sock(reads: &AddressReads) -> (r: Option<FlowKey>)
    ensures
        r == sock_key(*reads),
{
    match flow_key_from_sk(reads) {
        Ok(key) => Some(key),
        Err(_) => None,
    }
}

/// What [`flow_key_from_sk`] gives: the key, or the error of the first read
/// that failed, the destination's first.
pub open spec fn sk_key(reads: AddressReads) -> Result<FlowKey, i64> {
    if reads.dst_ip is Err {
        Err(reads.dst_ip->Err_0)
    } else if reads.src_ip is Err {
        Err(reads.src_ip->Err_0)
    } else if reads.dst_port is Err {
        Err(reads.dst_port->Err_0)
    } else if reads.src_port is Err {
        Err(reads.src_port->Err_0)
    } else {
        Ok(key_of(reads))
    }
}

/// The key of a socket that a hook was handed, or the error of the first read
/// that failed.
pub fn flow_key_from_sk(reads: &AddressReads) -> (r: Result<FlowKey, i64>)
    ensures
        r == sk_key(*reads),
{
    let dst_ip = read_u32_ne(reads.dst_ip)?;
    let src_ip = read_u32_ne(reads.src_ip)?;
    let dst_port = read_u16_ne(reads.dst_port)?;
    let src_port = read_u16_ne(reads.src_port)?;
    Ok(
        FlowKey {
            src_ip,
            dst_ip,
            src_port: from_network_order(src_port),
            dst_port: from_network_order(dst_port),
            protocol: IPPROTO_TCP,
            _pad: [0u8; KEY_PAD_LEN],
        },
    )
}

/// What a hook without a socket, or whose socket cannot be read, ends with.
pub const NO_SOCKET: i64 = -1;

/// What [`tcp_hook_key`] gives.
pub open spec fn tcp_key(sock: Option<AddressReads>) -> Result<FlowKey, i64> {
    match sock {
        Some(reads) => if all_read(reads) {
            Ok(key_of(reads))
        } else {
            Err(NO_SOCKET)
        },
        None => Err(NO_SOCKET),
    }
}

/// The key of the socket that a TCP hook was handed, if it was handed one.
pub fn tcp_hook_key(sock: Option<AddressReads>) -> (r: Result<FlowKey, i64>)
    ensures
        r == tcp_key(sock),
{
    match sock {
        Some(reads) => match flow_key_from_sock(&reads) {
            Some(key) => Ok(key),
            None => Err(NO_SOCKET),
        },
        None => Err(NO_SOCKET),
    }
}

/// What [`sk_hook_key`] gives.
pub open spec fn hook_key(sock: Option<AddressReads>) -> Result<FlowKey, i64> {
    match sock {
        Some(reads) => sk_key(reads),
        None => Err(NO_SOCKET),
    }
}

/// The key of the socket that a hook was handed, if it was handed one, or the
/// error of the first read that failed.
pub fn sk_hook_key(sock: Option<AddressReads>) -> (r: Result<FlowKey, i64>)
    ensures
        r == hook_key(sock),
{
    match sock {
        Some(reads) => flow_key_from_sk(&reads),
        None => Err(NO_SOCKET),
    }
}

/// What [`probe_status`] gives.
pub open spec fn status_of(outcome: Result<u32, i64>) -> u32 {
    match outcome {
        Ok(ret) => ret,
        Err(_) => 0,
    }
}

/// What a probe hands back to the kernel: its own answer, 0 if it failed.
pub fn probe_status(outcome: Result<u32, i64>) -> (r: u32)
    ensures
        r == status_of(outcome),
{
    match outcome {
        Ok(ret) => ret,
        Err(_) => 0,
    }
}

/// What [`table_outcome`] gives.
pub open spec fn outcome_of(done: Result<(), i64>) -> Result<u32, i64> {
    match done {
        Ok(_) => Ok::<u32, i64>(0),
        Err(e) => Err(e),
    }
}

/// How a probe ends that ends with a table operation.
pub fn table_outcome(done: Result<(), i64>) -> (r: Result<u32, i64>)
    ensures
        r == outcome_of(done),
{
    match done {
        Ok(_) => Ok(0),
        Err(e) => Err(e),
    }
}

/// The two ways of reading a key agree on every socket, so that all hooks find
/// the row that connect or accept put into the table.
pub proof fn keys_agree(reads: AddressReads)
    ensures
        sock_key(reads) is Some <==> sk_key(reads) is Ok,
        sock_key(reads) matches Some(key) ==> sk_key(reads) == Ok::<FlowKey, i64>(key),
{
}

} // verus!
