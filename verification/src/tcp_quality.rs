//! The quality of a connection: RTT, jitter and congestion window on every
//! ACK, and the congestion signals.

use vstd::prelude::*;
use crate::common::CongestionState;
use crate::kread::{read_u32_ne, read_u8};
use crate::maps::{FlowKey, FlowState};
use crate::sock::{hook_key, sk_hook_key, AddressReads, NO_SOCKET};
use crate::tcp_lifecycle::sat_add32;
use crate::wire::le32;

verus! {

/// What reading a socket gave when an ACK arrived.
#[derive(Debug, Clone, Copy)]
pub struct AckReads {
    pub srtt: Result<[u8; 4], i64>,
    pub rttvar: Result<[u8; 4], i64>,
    pub cwnd: Result<[u8; 4], i64>,
    pub addresses: AddressReads,
}

/// What an ACK tells of a connection's quality.
#[derive(Debug, Clone, Copy, PartialEq, Eq, Structural)]
pub struct AckSample {
    /// Smoothed RTT.
    pub srtt_us: u32,
    /// RTT variance.
    pub rttvar_us: u32,
    /// Congestion window.
    pub cwnd: u32,
}

/// The sample in these reads, if all of them succeeded: the kernel keeps the
/// smoothed RTT times eight and the variance times four.
pub open spec fn sample_of(reads: AckReads) -> AckSample {
    AckSample {
        srtt_us: (le32(reads.srtt->Ok_0@, 0) / 8) as u32,
        rttvar_us: (le32(reads.rttvar->Ok_0@, 0) / 4) as u32,
        cwnd: le32(reads.cwnd->Ok_0@, 0) as u32,
    }
}

/// What [`handle_rcv_established`] gives.
pub open spec fn ack_of(sock: Option<AckReads>) -> Result<(FlowKey, AckSample), i64> {
    match sock {
        None => Err(NO_SOCKET),
        Some(reads) => if reads.srtt is Err {
            Err(reads.srtt->Err_0)
        } else if reads.rttvar is Err {
            Err(reads.rttvar->Err_0)
        } else if reads.cwnd is Err {
            Err(reads.cwnd->Err_0)
        } else {
            match hook_key(Some(reads.addresses)) {
                Ok(key) => Ok((key, sample_of(reads))),
                Err(e) => Err(e),
            }
        },
    }
}

/// An ACK arrived: the connection that it belongs to and what it tells, or
/// the error of the first read that failed.
pub fn handle_rcv_established(sock: Option<AckReads>) -> (r: Result<(FlowKey, AckSample), i64>)
    ensures
        r == ack_of(sock),
{
    let reads = match sock {
        Some(reads) => reads,
        None => {
            return Err(NO_SOCKET);
        },
    };
    let srtt_raw = read_u32_ne(reads.srtt)?;
    let rttvar_raw = read_u32_ne(reads.rttvar)?;
    let cwnd = read_u32_ne(reads.cwnd)?;
    let key = sk_hook_key(Some(reads.addresses))?;
    Ok((key, AckSample { srtt_us: srtt_raw / 8, rttvar_us: rttvar_raw / 4, cwnd }))
}

/// A row after an ACK with this sample and congestion avoidance state. A
/// smoothed RTT of 0 is no measurement.
pub open spec fn acked_row(st: FlowState, sample: AckSample, ca_state: u8) -> FlowState {
    FlowState {
        srtt_us_min: if 0 < sample.srtt_us < st.srtt_us_min {
            sample.srtt_us
        } else {
            st.srtt_us_min
        },
        srtt_us_max: if sample.srtt_us > st.srtt_us_max {
            sample.srtt_us
        } else {
            st.srtt_us_max
        },
        srtt_us_last: if sample.srtt_us > 0 {
            sample.srtt_us
        } else {
            st.srtt_us_last
        },
        rttvar_us_max: if sample.rttvar_us > st.rttvar_us_max {
            sample.rttvar_us
        } else {
            st.rttvar_us_max
        },
        cwnd_min: if sample.cwnd < st.cwnd_min {
            sample.cwnd
        } else {
            st.cwnd_min
        },
        cwnd_max: if sample.cwnd > st.cwnd_max {
            sample.cwnd
        } else {
            st.cwnd_max
        },
        congestion_state_final: ca_state,
        ..st
    }
}

/// The congestion avoidance state that a read gave, open if it failed.
pub open spec fn ca_state_of(read: Result<[u8; 1], i64>) -> u8 {
    match read {
        Ok(b) => b@[0],
        Err(_) => 0,
    }
}

/// A row after an ACK with this sample, by what reading the congestion avoidance
/// state gave.
pub open spec fn recorded_row(
    st: FlowState,
    sample: AckSample,
    ca_state: Result<[u8; 1], i64>,
) -> FlowState {
    acked_row(st, sample, ca_state_of(ca_state))
}

/// Records what an ACK tells.
pub fn record_ack(
    row: Option<&mut FlowState>,
    sample: &AckSample,
    ca_state: Result<[u8; 1], i64>,
) -> (r: Result<u32, i64>)
    ensures
        r == Ok::<u32, i64>(0),
        row is Some ==> *final(row->0) == recorded_row(*row->0, *sample, ca_state),
{
    if let Some(st) = row {
        if sample.srtt_us > 0 {
            if sample.srtt_us < st.srtt_us_min {
                st.srtt_us_min = sample.srtt_us;
            }
            if sample.srtt_us > st.srtt_us_max {
                st.srtt_us_max = sample.srtt_us;
            }
            st.srtt_us_last = sample.srtt_us;
        }
        if sample.rttvar_us > st.rttvar_us_max {
            st.rttvar_us_max = sample.rttvar_us;
        }
        if sample.cwnd < st.cwnd_min {
            st.cwnd_min = sample.cwnd;
        }
        if sample.cwnd > st.cwnd_max {
            st.cwnd_max = sample.cwnd;
        }
        st.congestion_state_final = match read_u8(ca_state) {
            Ok(state) => state,
            Err(_) => 0,
        };
    }
    Ok(0)
}

/// A row after an explicit congestion notification.
pub open spec fn ecn_row(st: FlowState) -> FlowState {
    FlowState { ecn_signals: sat_add32(st.ecn_signals, 1), ..st }
}

/// The network signals congestion before it drops packets.
pub fn handle_ecn(row: Option<&mut FlowState>) -> (r: Result<u32, i64>)
    ensures
        r == Ok::<u32, i64>(0),
        row is Some ==> *final(row->0) == ecn_row(*row->0),
{
    if let Some(st) = row {
        st.ecn_signals = st.ecn_signals.saturating_add(1);
    }
    Ok(0)
}

/// A row whose connection has entered this congestion state.
pub open spec fn congested_row(st: FlowState, state: CongestionState) -> FlowState {
    FlowState { congestion_state_final: state.code(), ..st }
}

/// A row whose connection has entered loss recovery.
pub open spec fn lossy_row(st: FlowState) -> FlowState {
    congested_row(st, CongestionState::Loss)
}

/// A row whose connection has entered fast recovery.
pub open spec fn recovering_row(st: FlowState) -> FlowState {
    congested_row(st, CongestionState::Recovery)
}

/// Loss recovery begins: true packet loss was detected.
pub fn handle_enter_loss(row: Option<&mut FlowState>) -> (r: Result<u32, i64>)
    ensures
        r == Ok::<u32, i64>(0),
        row is Some ==> *final(row->0) == lossy_row(*row->0),
{
    if let Some(st) = row {
        st.congestion_state_final = CongestionState::Loss.code();
    }
    Ok(0)
}

/// Fast recovery begins: a congestion signal.
pub fn handle_enter_recovery(row: Option<&mut FlowState>) -> (r: Result<u32, i64>)
    ensures
        r == Ok::<u32, i64>(0),
        row is Some ==> *final(row->0) == recovering_row(*row->0),
{
    if let Some(st) = row {
        st.congestion_state_final = CongestionState::Recovery.code();
    }
    Ok(0)
}

} // verus!
