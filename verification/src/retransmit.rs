//! Retransmits, told apart by reason.
//!
//! One hook sees every retransmit, whatever its reason. Two others see those of
//! one reason alone, each before the first sees the same retransmit. They claim
//! it: it is counted under their reason, and not again when the first hook
//! sees it. What nobody has claimed is a timeout.
//!
//! Nothing in what the hooks are handed ties the two sightings together. Should
//! the first hook miss a retransmit that was claimed, the claim stands until
//! that hook fires again, and what it then sees is taken for the claimed one.

use vstd::prelude::*;
use crate::common::RetransmitReason;
use crate::kread::read_u32_ne;
use crate::maps::FlowState;
use crate::tcp_lifecycle::{sat_add32, sat_add64};
use crate::wire::le32;

verus! {

/// A hook that sees retransmits.
#[derive(Debug, Clone, Copy, PartialEq, Eq, Structural)]
pub enum RetransmitHook {
    /// Sees every retransmit, whatever its reason.
    Every,
    /// Sees tail loss probes.
    LossProbe,
    /// Sees fast retransmits.
    Fast,
}

impl RetransmitHook {
    /// The reason for a retransmit that the hook is the first to see.
    #[verifier::allow_in_spec]
    pub fn reason(self) -> (r: RetransmitReason)
        returns
            (match self {
                RetransmitHook::Every => RetransmitReason::Rto,
                RetransmitHook::LossProbe => RetransmitReason::Tlp,
                RetransmitHook::Fast => RetransmitReason::FastRetransmit,
            }),
    {
        match self {
            RetransmitHook::Every => RetransmitReason::Rto,
            RetransmitHook::LossProbe => RetransmitReason::Tlp,
            RetransmitHook::Fast => RetransmitReason::FastRetransmit,
        }
    }
}

/// A sequence number out of a read, 0 if it failed.
pub open spec fn seq_of(read: Result<[u8; 4], i64>) -> u32 {
    match read {
        Ok(b) => le32(b@, 0) as u32,
        Err(_) => 0,
    }
}

/// The bytes that are sent and not yet acknowledged: sequence numbers wrap
/// around at the 32-bit limit.
pub open spec fn bytes_in_flight(snd_una: u32, snd_nxt: u32) -> u64 {
    ((snd_nxt - snd_una) % 0x1_0000_0000) as u64
}

/// The bytes in flight by what reading both sequence numbers gave.
pub open spec fn flight_read(
    snd_una: Result<[u8; 4], i64>,
    snd_nxt: Result<[u8; 4], i64>,
) -> u64 {
    bytes_in_flight(seq_of(snd_una), seq_of(snd_nxt))
}

/// A row after a retransmit for this reason with this many bytes in flight.
pub open spec fn retransmitted_row(
    st: FlowState,
    reason: RetransmitReason,
    in_flight: u64,
) -> FlowState {
    FlowState {
        retransmit_count: sat_add32(st.retransmit_count, 1),
        retransmit_bytes: sat_add64(st.retransmit_bytes, in_flight),
        retransmit_rto_count: if reason == RetransmitReason::Rto {
            sat_add32(st.retransmit_rto_count, 1)
        } else {
            st.retransmit_rto_count
        },
        retransmit_fast_count: if reason == RetransmitReason::FastRetransmit {
            sat_add32(st.retransmit_fast_count, 1)
        } else {
            st.retransmit_fast_count
        },
        retransmit_tlp_count: if reason == RetransmitReason::Tlp {
            sat_add32(st.retransmit_tlp_count, 1)
        } else {
            st.retransmit_tlp_count
        },
        ..st
    }
}

fn seq_or_zero(read: Result<[u8; 4], i64>) -> (r: u32)
    ensures
        r == seq_of(read),
{
    match read_u32_ne(read) {
        Ok(seq) => seq,
        Err(_) => 0,
    }
}

/// Counts a retransmit.
pub fn handle_retransmit(
    row: Option<&mut FlowState>,
    reason: RetransmitReason,
    snd_una: Result<[u8; 4], i64>,
    snd_nxt: Result<[u8; 4], i64>,
) -> (r: Result<u32, i64>)
    ensures
        r == Ok::<u32, i64>(0),
        row is Some ==> *final(row->0) == retransmitted_row(
            *row->0,
            reason,
            flight_read(snd_una, snd_nxt),
        ),
{
    let in_flight = seq_or_zero(snd_nxt).wrapping_sub(seq_or_zero(snd_una)) as u64;
    if let Some(st) = row {
        st.retransmit_count = st.retransmit_count.saturating_add(1);
        st.retransmit_bytes = st.retransmit_bytes.saturating_add(in_flight);
        match reason {
            RetransmitReason::Rto => {
                st.retransmit_rto_count = st.retransmit_rto_count.saturating_add(1);
            },
            RetransmitReason::FastRetransmit => {
                st.retransmit_fast_count = st.retransmit_fast_count.saturating_add(1);
            },
            RetransmitReason::Tlp => {
                st.retransmit_tlp_count = st.retransmit_tlp_count.saturating_add(1);
            },
            _ => {},
        }
    }
    Ok(0)
}

/// A row after a hook saw a retransmit with this many bytes in flight.
pub open spec fn hooked_row(st: FlowState, hook: RetransmitHook, in_flight: u64) -> FlowState {
    if hook == RetransmitHook::Every && st.retransmit_claimed == 1 {
        FlowState { retransmit_claimed: 0, ..st }
    } else {
        FlowState {
            retransmit_claimed: if hook == RetransmitHook::Every {
                st.retransmit_claimed
            } else {
                1
            },
            ..retransmitted_row(st, hook.reason(), in_flight)
        }
    }
}

/// A hook saw a retransmit: counts it unless it was counted before, when
/// another hook claimed it.
pub fn retransmit_seen(
    row: Option<&mut FlowState>,
    hook: RetransmitHook,
    snd_una: Result<[u8; 4], i64>,
    snd_nxt: Result<[u8; 4], i64>,
) -> (r: Result<u32, i64>)
    ensures
        r == Ok::<u32, i64>(0),
        row is Some ==> *final(row->0) == hooked_row(
            *row->0,
            hook,
            flight_read(snd_una, snd_nxt),
        ),
{
    match row {
        Some(st) => {
            if hook == RetransmitHook::Every {
                if st.retransmit_claimed == 1 {
                    st.retransmit_claimed = 0;
                    return Ok(0);
                }
            } else {
                st.retransmit_claimed = 1;
            }
            handle_retransmit(Some(st), hook.reason(), snd_una, snd_nxt)
        },
        None => Ok(0),
    }
}

/// A retransmit that one hook claims and the hook for every retransmit then
/// sees is counted once, under the reason of the first.
pub proof fn claimed_retransmit_counts_once(
    st: FlowState,
    hook: RetransmitHook,
    in_flight: u64,
    in_flight_then: u64,
)
    requires
        hook != RetransmitHook::Every,
        st.retransmit_claimed == 0,
    ensures
        hooked_row(hooked_row(st, hook, in_flight), RetransmitHook::Every, in_flight_then)
            == retransmitted_row(st, hook.reason(), in_flight),
{
}

/// A retransmit that no hook has claimed is counted as a timeout.
pub proof fn unclaimed_retransmit_is_a_timeout(st: FlowState, in_flight: u64)
    requires
        st.retransmit_claimed == 0,
    ensures
        hooked_row(st, RetransmitHook::Every, in_flight) == retransmitted_row(
            st,
            RetransmitReason::Rto,
            in_flight,
        ),
{
}

/// A row after a SACK block was received.
pub open spec fn sacked_row(st: FlowState) -> FlowState {
    FlowState { sack_blocks_received: sat_add32(st.sack_blocks_received, 1), ..st }
}

/// A SACK block was received: an indication of partial loss.
pub fn handle_sack(row: Option<&mut FlowState>) -> (r: Result<u32, i64>)
    ensures
        r == Ok::<u32, i64>(0),
        row is Some ==> *final(row->0) == sacked_row(*row->0),
{
    if let Some(st) = row {
        st.sack_blocks_received = st.sack_blocks_received.saturating_add(1);
    }
    Ok(0)
}

/// After `n` bytes beyond the last acknowledged one, `n` bytes are in flight,
/// also when the sequence numbers wrapped around in between.
pub proof fn in_flight_counts_across_wrap(snd_una: u32, n: u32)
    ensures
        bytes_in_flight(snd_una, ((snd_una + n) % 0x1_0000_0000) as u32) == n,
{
}

} // verus!
