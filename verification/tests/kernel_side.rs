use flow_sensor::causal::{handle_new_task, NO_TASK, TASK_PID_OFFSET};
use flow_sensor::common::{
    CloseReason, CongestionState, FlowDirection, FlowEvent, RetransmitReason, COMM_LEN, HOST_LEN,
};
use flow_sensor::filter::EventFilter;
use flow_sensor::kread::{from_network_order, read_u16_ne, read_u32_ne, read_u8};
use flow_sensor::loader::take_item;
use flow_sensor::maps::{CausalCtx, FlowKey, FlowState, SslArgs, TLS_SCRATCH_LEN};
use flow_sensor::retransmit::{handle_retransmit, handle_sack, retransmit_seen, RetransmitHook};
use flow_sensor::sock::{
    flow_key_from_sk, flow_key_from_sock, probe_status, sk_hook_key, table_outcome, tcp_hook_key,
    AddressReads, SockField, NO_SOCKET,
};
use flow_sensor::tcp_lifecycle::{
    close_key, close_room, close_row, handle_accept, handle_recvmsg, handle_rst, handle_sendmsg,
    handle_tcp_close, handle_tcp_connect, init_flow_row, recvmsg_key, recvmsg_returned,
    recvmsg_sock, sendmsg_entered, Accepted, CloseStep, OpenStep, Opener, RecvStep, NO_SIZE,
};
use flow_sensor::tcp_quality::{
    handle_ecn, handle_enter_loss, handle_enter_recovery, handle_rcv_established, record_ack,
    AckReads, AckSample,
};
use flow_sensor::tls::{
    handle_ssl_entry, ssl_read_args, ssl_read_flow, ssl_read_return, ssl_returned, ssl_write_args,
    ssl_write_flow, ssl_write_return, ssl_write_row, SslStep, NO_ARGUMENT,
};
use flow_sensor::wire::{read_flow_event, FLOW_EVENT_LEN};

fn reads() -> AddressReads {
    AddressReads {
        src_ip: Ok([10, 0, 1, 50]),
        dst_ip: Ok([93, 184, 216, 34]),
        src_port: Ok([0xd6, 0x25]),
        dst_port: Ok([0x01, 0xbb]),
    }
}

fn key() -> FlowKey {
    flow_key_from_sock(&reads()).unwrap()
}

fn opener(now: u64) -> Opener {
    let mut comm = [0u8; COMM_LEN];
    comm[..4].copy_from_slice(b"curl");
    Opener {
        pid_tgid: (41 << 32) | 42,
        uid_gid: (100 << 32) | 1000,
        now,
        comm: Ok(comm),
        causal: None,
    }
}

fn blank() -> FlowState {
    FlowState {
        pid: 0,
        ppid: 9,
        uid: 0,
        gid: 0,
        comm: [1; COMM_LEN],
        cgroup: [1; 128],
        direction: 7,
        bytes_sent: 1,
        bytes_recv: 1,
        pkts_sent: 1,
        pkts_recv: 1,
        srtt_us_min: 0,
        srtt_us_max: 1,
        srtt_us_last: 1,
        rttvar_us_max: 1,
        cwnd_min: 0,
        cwnd_max: 1,
        ecn_signals: 1,
        retransmit_count: 1,
        retransmit_bytes: 1,
        retransmit_rto_count: 1,
        retransmit_fast_count: 1,
        retransmit_tlp_count: 1,
        sack_blocks_received: 1,
        retransmit_claimed: 1,
        tls_sni: [1; HOST_LEN],
        http_host: [1; HOST_LEN],
        http_method: [1; 8],
        http_path: [1; 256],
        http_status: 1,
        has_tls: 1,
        has_http: 1,
        ssl_write_ts_ns: 1,
        connect_ts_ns: 1,
        first_byte_ts_ns: 1,
        first_recv_ts_ns: 1,
        tls_ready_ts_ns: 1,
        chain_id: 1,
        parent_chain_id: 1,
        chain_depth: 1,
        congestion_state_final: 1,
        close_reason: 2,
    }
}

fn row(now: u64) -> FlowState {
    let mut st = blank();
    let opened = init_flow_row(Ok(()), Some(&mut st), FlowDirection::Outbound, &opener(now));
    assert_eq!(opened.outcome, Ok(0));
    assert!(opened.map_thread);
    st
}

fn closed(st: &FlowState, now: u64) -> FlowEvent {
    let mut out = [0xffu8; FLOW_EVENT_LEN];
    handle_tcp_close(&mut out, &key(), st, now);
    read_flow_event(&out).unwrap()
}

fn text(b: &[u8]) -> Vec<u8> {
    b.iter().copied().take_while(|b| *b != 0).collect()
}

#[test]
fn numbers_out_of_kernel_memory() {
    assert_eq!(read_u8(Ok([7])), Ok(7));
    assert_eq!(read_u8(Err(-14)), Err(-14));
    assert_eq!(read_u16_ne(Ok([0x34, 0x12])), Ok(0x1234));
    assert_eq!(read_u16_ne(Err(-1)), Err(-1));
    assert_eq!(read_u32_ne(Ok([0x78, 0x56, 0x34, 0x12])), Ok(0x1234_5678));
    assert_eq!(read_u32_ne(Ok([0xff; 4])), Ok(u32::MAX));
    assert_eq!(read_u32_ne(Err(-2)), Err(-2));
    assert_eq!(from_network_order(0xbb01), 443);
    assert_eq!(from_network_order(0xffff), 0xffff);
}

#[test]
fn key_of_a_socket() {
    let k = key();
    assert_eq!(k.src_ip.to_le_bytes(), [10, 0, 1, 50]);
    assert_eq!(k.dst_ip.to_le_bytes(), [93, 184, 216, 34]);
    assert_eq!((k.src_port, k.dst_port, k.protocol), (54821, 443, 6));
    assert_eq!(k._pad, [0; 3]);
    for at in 0..4 {
        let mut r = reads();
        match at {
            0 => r.src_ip = Err(-5),
            1 => r.dst_ip = Err(-5),
            2 => r.src_port = Err(-5),
            _ => r.dst_port = Err(-5),
        }
        assert!(flow_key_from_sock(&r).is_none());
        assert_eq!(tcp_hook_key(Some(r)).err(), Some(NO_SOCKET));
    }
    assert_eq!(tcp_hook_key(None).err(), Some(NO_SOCKET));
    assert_eq!(tcp_hook_key(Some(reads())).unwrap().src_port, 54821);
}

#[test]
fn every_hook_finds_the_same_key() {
    let (a, b) = (flow_key_from_sk(&reads()).unwrap(), key());
    assert_eq!((a.src_ip, a.dst_ip, a.src_port, a.dst_port), (b.src_ip, b.dst_ip, b.src_port, b.dst_port));
    assert_eq!((a.protocol, b.protocol), (6, 6));
    let mut r = reads();
    r.src_port = Err(-4);
    assert_eq!(flow_key_from_sk(&r).err(), Some(-4));
    r.dst_port = Err(-3);
    assert_eq!(flow_key_from_sk(&r).err(), Some(-3));
    r.src_ip = Err(-2);
    assert_eq!(flow_key_from_sk(&r).err(), Some(-2));
    r.dst_ip = Err(-1);
    assert_eq!(flow_key_from_sk(&r).err(), Some(-1));
    assert_eq!(sk_hook_key(None).err(), Some(NO_SOCKET));
    assert_eq!(sk_hook_key(Some(r)).err(), Some(-1));
    assert_eq!(sk_hook_key(Some(reads())).unwrap().dst_port, 443);
}

#[test]
fn places_in_kernel_structures() {
    assert_eq!(SockField::DstAddr.offset(), 0);
    assert_eq!(SockField::SrcAddr.offset(), 4);
    assert_eq!(SockField::DstPort.offset(), 0xa);
    assert_eq!(SockField::SrcPort.offset(), 0xc);
    assert_eq!(SockField::CaState.offset(), 0x164);
    assert_eq!(SockField::SndUna.offset(), 0x188);
    assert_eq!(SockField::SndNxt.offset(), 0x18c);
    assert_eq!(SockField::SndCwnd.offset(), 0x1ac);
    assert_eq!(SockField::SrttUs.offset(), 0x1e0);
    assert_eq!(SockField::RttvarUs.offset(), 0x1e4);
    assert_eq!(TASK_PID_OFFSET, 0x560);
}

#[test]
fn probe_outcomes() {
    assert_eq!(probe_status(Ok(3)), 3);
    assert_eq!(probe_status(Err(-1)), 0);
    assert_eq!(table_outcome(Ok(())), Ok(0));
    assert_eq!(table_outcome(Err(-7)), Err(-7));
}

#[test]
fn connect_and_accept() {
    assert!(matches!(handle_tcp_connect(Some(reads())), OpenStep::Insert(k) if k.dst_port == 443));
    assert!(matches!(handle_tcp_connect(None), OpenStep::Done(Err(-1))));
    let mut bad = reads();
    bad.src_ip = Err(-14);
    assert!(matches!(handle_tcp_connect(Some(bad)), OpenStep::Done(Err(-1))));
    assert!(matches!(handle_accept(Accepted::Unavailable), OpenStep::Done(Err(-1))));
    assert!(matches!(handle_accept(Accepted::Null), OpenStep::Done(Ok(0))));
    assert!(matches!(handle_accept(Accepted::Sock(bad)), OpenStep::Done(Err(-1))));
    assert!(matches!(handle_accept(Accepted::Sock(reads())), OpenStep::Insert(_)));
}

#[test]
fn new_row_of_a_connection() {
    let st = row(1000);
    assert_eq!((st.pid, st.ppid, st.uid, st.gid), (41, 0, 1000, 100));
    assert_eq!(text(&st.comm), b"curl");
    assert_eq!(st.cgroup, [0; 128]);
    assert_eq!(st.direction, FlowDirection::Outbound.code());
    assert_eq!((st.srtt_us_min, st.cwnd_min), (u32::MAX, u32::MAX));
    assert_eq!((st.connect_ts_ns, st.chain_id, st.parent_chain_id, st.chain_depth), (1000, 1000, 0, 0));
    assert_eq!(st.close_reason, CloseReason::Unknown.code());
    assert_eq!(st.tls_sni, [0; HOST_LEN]);
    assert_eq!((st.bytes_sent, st.pkts_recv, st.ssl_write_ts_ns), (0, 0, 0));
}

#[test]
fn row_inherits_the_causal_context() {
    let mut o = opener(5);
    o.comm = Err(-1);
    o.causal = Some(CausalCtx {
        chain_id: 77,
        parent_chain_id: 66,
        depth: 3,
        origin_pid: 1,
        origin_ts_ns: 2,
    });
    let mut st = blank();
    let opened = init_flow_row(Ok(()), Some(&mut st), FlowDirection::Inbound, &o);
    assert_eq!(opened.outcome, Ok(0));
    assert!(!opened.map_thread);
    assert_eq!((st.chain_id, st.parent_chain_id, st.chain_depth), (77, 66, 3));
    assert_eq!(st.comm, [0; COMM_LEN]);
    assert_eq!(st.direction, FlowDirection::Inbound.code());
}

#[test]
fn row_that_could_not_be_made() {
    let o = opener(5);
    let mut st = blank();
    let opened = init_flow_row(Err(-28), Some(&mut st), FlowDirection::Outbound, &o);
    assert_eq!((opened.outcome, opened.map_thread), (Err(-28), false));
    assert_eq!(st.direction, 7);
    let opened = init_flow_row(Ok(()), None, FlowDirection::Outbound, &o);
    assert_eq!((opened.outcome, opened.map_thread), (Err(-1), false));
}

#[test]
fn bytes_are_counted() {
    let mut st = row(100);
    assert_eq!(handle_sendmsg(Some(&mut st), 1240, 150), Ok(0));
    assert_eq!(handle_sendmsg(Some(&mut st), 10, 160), Ok(0));
    assert_eq!((st.bytes_sent, st.pkts_sent, st.first_byte_ts_ns), (1250, 2, 150));
    assert!(matches!(handle_recvmsg(Some(&mut st), 90, 170), RecvStep::ForgetSock));
    assert!(matches!(handle_recvmsg(Some(&mut st), 5, 180), RecvStep::ForgetSock));
    assert_eq!((st.bytes_recv, st.pkts_recv, st.first_recv_ts_ns), (95, 2, 170));
    assert_eq!(handle_sendmsg(Some(&mut st), u64::MAX, 190), Ok(0));
    assert_eq!(st.bytes_sent, u64::MAX);
    assert_eq!(handle_sendmsg(None, 1, 1), Ok(0));
    assert!(matches!(handle_recvmsg(None, 1, 1), RecvStep::ForgetSock));
}

#[test]
fn return_of_a_receive() {
    assert!(matches!(recvmsg_returned(Some(12)), RecvStep::FindSock(12)));
    assert!(matches!(recvmsg_returned(Some(0)), RecvStep::ForgetSock));
    assert!(matches!(recvmsg_returned(Some(-11)), RecvStep::ForgetSock));
    assert!(matches!(recvmsg_returned(None), RecvStep::ForgetSock));
    assert!(matches!(recvmsg_sock(Some(0xffff_8880)), RecvStep::ReadKey(0xffff_8880)));
    assert!(matches!(recvmsg_sock(None), RecvStep::Done));
    assert!(matches!(recvmsg_key(&reads()), RecvStep::FindRow(k) if k.src_port == 54821));
    let mut bad = reads();
    bad.dst_ip = Err(-1);
    assert!(matches!(recvmsg_key(&bad), RecvStep::ForgetSock));
}

#[test]
fn quality_of_an_ack() {
    let ack = AckReads {
        srtt: Ok(16807u32.to_le_bytes()),
        rttvar: Ok(3203u32.to_le_bytes()),
        cwnd: Ok(10u32.to_le_bytes()),
        addresses: reads(),
    };
    let (k, sample) = handle_rcv_established(Some(ack)).unwrap();
    assert_eq!(k.dst_port, 443);
    assert_eq!(sample, AckSample { srtt_us: 2100, rttvar_us: 800, cwnd: 10 });
    assert_eq!(handle_rcv_established(None).err(), Some(NO_SOCKET));
    let bad = AckReads { cwnd: Err(-3), ..ack };
    assert_eq!(handle_rcv_established(Some(bad)).err(), Some(-3));
    let bad = AckReads { rttvar: Err(-2), ..bad };
    assert_eq!(handle_rcv_established(Some(bad)).err(), Some(-2));
    let bad = AckReads { srtt: Err(-1), ..bad };
    assert_eq!(handle_rcv_established(Some(bad)).err(), Some(-1));
    let mut unread = reads();
    unread.src_ip = Err(-8);
    let bad = AckReads { addresses: unread, ..ack };
    assert_eq!(handle_rcv_established(Some(bad)).err(), Some(-8));
}

#[test]
fn acks_keep_the_extremes() {
    let mut st = row(0);
    for (srtt_us, rttvar_us, cwnd) in [(2000, 500, 10), (1800, 800, 32), (4200, 100, 12), (0, 0, 11)] {
        let s = AckSample { srtt_us, rttvar_us, cwnd };
        assert_eq!(record_ack(Some(&mut st), &s, Ok([1])), Ok(0));
    }
    assert_eq!((st.srtt_us_min, st.srtt_us_max, st.srtt_us_last), (1800, 4200, 4200));
    assert_eq!((st.rttvar_us_max, st.cwnd_min, st.cwnd_max), (800, 10, 32));
    assert_eq!(st.congestion_state_final, 1);
    let s = AckSample { srtt_us: 1, rttvar_us: 1, cwnd: 1 };
    assert_eq!(record_ack(Some(&mut st), &s, Err(-1)), Ok(0));
    assert_eq!(st.congestion_state_final, CongestionState::Open.code());
    assert_eq!(record_ack(None, &s, Ok([0])), Ok(0));
}

#[test]
fn every_ack_counts() {
    let samples = [(5u32, 3u32, 9u32), (0, 8, 4), (7, 0, 20), (2, 1, 6)];
    let mut st = row(0);
    for (srtt_us, rttvar_us, cwnd) in samples {
        let _ = handle_sendmsg(Some(&mut st), 1, 1);
        let _ = record_ack(Some(&mut st), &AckSample { srtt_us, rttvar_us, cwnd }, Ok([0]));
    }
    let rtts = || samples.iter().map(|s| s.0).filter(|rtt| *rtt > 0);
    assert_eq!(Some(st.srtt_us_min), rtts().min());
    assert_eq!(Some(st.srtt_us_max), rtts().max());
    assert_eq!(Some(st.srtt_us_last), rtts().last());
    assert_eq!(Some(st.rttvar_us_max), samples.iter().map(|s| s.1).max());
    assert_eq!(Some(st.cwnd_min), samples.iter().map(|s| s.2).min());
    assert_eq!(Some(st.cwnd_max), samples.iter().map(|s| s.2).max());
}

#[test]
fn congestion_signals() {
    let mut st = row(0);
    assert_eq!(handle_ecn(Some(&mut st)), Ok(0));
    assert_eq!(handle_ecn(Some(&mut st)), Ok(0));
    assert_eq!((st.ecn_signals, st.congestion_state_final), (2, 0));
    st.ecn_signals = u32::MAX;
    assert_eq!(handle_ecn(Some(&mut st)), Ok(0));
    assert_eq!(st.ecn_signals, u32::MAX);
    assert_eq!(handle_enter_loss(Some(&mut st)), Ok(0));
    assert_eq!(st.congestion_state_final, 4);
    assert_eq!(handle_enter_recovery(Some(&mut st)), Ok(0));
    assert_eq!(st.congestion_state_final, 3);
    assert_eq!(handle_ecn(None), Ok(0));
    assert_eq!(handle_enter_loss(None), Ok(0));
    assert_eq!(handle_enter_recovery(None), Ok(0));
}

#[test]
fn retransmits_are_told_apart() {
    let mut st = row(0);
    let una = Ok(1000u32.to_le_bytes());
    let nxt = Ok(2240u32.to_le_bytes());
    for reason in [
        RetransmitReason::Rto,
        RetransmitReason::FastRetransmit,
        RetransmitReason::FastRetransmit,
        RetransmitReason::Tlp,
    ] {
        assert_eq!(handle_retransmit(Some(&mut st), reason, una, nxt), Ok(0));
    }
    assert_eq!((st.retransmit_count, st.retransmit_bytes), (4, 4960));
    assert_eq!(
        (st.retransmit_rto_count, st.retransmit_fast_count, st.retransmit_tlp_count),
        (1, 2, 1)
    );
    assert_eq!(handle_retransmit(Some(&mut st), RetransmitReason::Sack, una, nxt), Ok(0));
    assert_eq!(st.retransmit_count, 5);
    assert_eq!(
        st.retransmit_rto_count + st.retransmit_fast_count + st.retransmit_tlp_count,
        4
    );
    assert_eq!(handle_retransmit(None, RetransmitReason::Rto, una, nxt), Ok(0));
}

#[test]
fn claimed_retransmits_count_once() {
    let mut st = row(0);
    let una = Ok(1000u32.to_le_bytes());
    let nxt = Ok(2240u32.to_le_bytes());
    for hook in [
        RetransmitHook::Every,
        RetransmitHook::LossProbe,
        RetransmitHook::Every,
        RetransmitHook::Fast,
        RetransmitHook::Every,
        RetransmitHook::Every,
    ] {
        assert_eq!(retransmit_seen(Some(&mut st), hook, una, nxt), Ok(0));
    }
    assert_eq!((st.retransmit_count, st.retransmit_bytes), (4, 4960));
    assert_eq!(
        (st.retransmit_rto_count, st.retransmit_fast_count, st.retransmit_tlp_count),
        (2, 1, 1)
    );
    assert_eq!(retransmit_seen(None, RetransmitHook::Every, una, nxt), Ok(0));
    assert_eq!(RetransmitHook::Every.reason(), RetransmitReason::Rto);
    assert_eq!(RetransmitHook::LossProbe.reason(), RetransmitReason::Tlp);
    assert_eq!(RetransmitHook::Fast.reason(), RetransmitReason::FastRetransmit);
}

#[test]
fn flight_across_the_wrap() {
    let mut st = row(0);
    let una = Ok((u32::MAX - 99).to_le_bytes());
    let nxt = Ok(400u32.to_le_bytes());
    assert_eq!(handle_retransmit(Some(&mut st), RetransmitReason::Rto, una, nxt), Ok(0));
    assert_eq!(st.retransmit_bytes, 500);
    assert_eq!(handle_retransmit(Some(&mut st), RetransmitReason::Rto, Err(-1), nxt), Ok(0));
    assert_eq!(st.retransmit_bytes, 900);
}

#[test]
fn selective_acknowledgements() {
    let mut st = row(0);
    assert_eq!(handle_sack(Some(&mut st)), Ok(0));
    assert_eq!(handle_sack(Some(&mut st)), Ok(0));
    assert_eq!(st.sack_blocks_received, 2);
    assert_eq!(handle_sack(None), Ok(0));
}

#[test]
fn chains_pass_to_children() {
    let origin = handle_new_task((5 << 32) | 6, None, 111, 112, Some(Ok(9u32.to_le_bytes()))).unwrap();
    assert_eq!(origin.pid_tgid, (9 << 32) | 9);
    assert_eq!((origin.ctx.chain_id, origin.ctx.parent_chain_id, origin.ctx.depth), (111, 111, 1));
    assert_eq!((origin.ctx.origin_pid, origin.ctx.origin_ts_ns), (5, 112));
    let (parent_key, parent) = origin.parent.unwrap();
    assert_eq!(parent_key, (5 << 32) | 6);
    assert_eq!((parent.chain_id, parent.parent_chain_id, parent.depth), (111, 0, 0));
    assert_eq!((parent.origin_pid, parent.origin_ts_ns), (5, 112));
    let child = handle_new_task(origin.pid_tgid, Some(origin.ctx), 222, 223, Some(Ok(10u32.to_le_bytes())))
        .unwrap();
    assert_eq!((child.ctx.chain_id, child.ctx.parent_chain_id, child.ctx.depth), (111, 111, 2));
    assert_eq!((child.ctx.origin_pid, child.ctx.origin_ts_ns), (5, 112));
    assert!(child.parent.is_none());
    assert_eq!(handle_new_task(1, None, 1, 1, None).err(), Some(NO_TASK));
    assert_eq!(handle_new_task(1, None, 1, 1, Some(Err(-14))).unwrap().pid_tgid, 0);
    let deep = CausalCtx { depth: u32::MAX, ..child.ctx };
    assert_eq!(handle_new_task(1, Some(deep), 1, 1, Some(Err(-14))).unwrap().ctx.depth, 0);
}

#[test]
fn related_flows_have_one_chain() {
    let parent = handle_new_task(1, None, 50, 51, Some(Ok([2, 0, 0, 0]))).unwrap();
    let origin = parent.parent.unwrap().1;
    let child = handle_new_task(parent.pid_tgid, Some(parent.ctx), 60, 61, Some(Ok([3, 0, 0, 0]))).unwrap();
    let chain = |ctx: CausalCtx, now: u64| {
        let mut st = blank();
        let o = Opener { causal: Some(ctx), ..opener(now) };
        init_flow_row(Ok(()), Some(&mut st), FlowDirection::Outbound, &o);
        st.chain_id
    };
    assert_eq!(chain(origin, 65), 50);
    assert_eq!(chain(parent.ctx, 70), 50);
    assert_eq!(chain(child.ctx, 80), 50);
}

#[test]
fn tls_call_entries() {
    let args = handle_ssl_entry(Some(0x7f00), Some(300), 12).unwrap();
    assert_eq!((args.buf_ptr, args.len, args._pad, args.ts_ns), (0x7f00, 300, 0, 12));
    assert_eq!(handle_ssl_entry(None, Some(1), 1).err(), Some(NO_ARGUMENT));
    assert_eq!(handle_ssl_entry(Some(1), None, 1).err(), Some(NO_ARGUMENT));
}

#[test]
fn tls_call_steps() {
    assert!(matches!(ssl_returned(Some(17)), SslStep::TakeArgs(17)));
    assert!(matches!(ssl_returned(Some(0)), SslStep::ForgetArgs));
    assert!(matches!(ssl_returned(Some(-1)), SslStep::ForgetArgs));
    assert!(matches!(ssl_returned(None), SslStep::Done));
    let args = SslArgs { buf_ptr: 0x7f00, len: 300, _pad: 0, ts_ns: 12 };
    assert!(matches!(ssl_write_args(Some(args)), SslStep::FindFlow));
    assert!(matches!(ssl_write_args(None), SslStep::Done));
    assert!(matches!(ssl_write_flow(Some(key())), SslStep::FindRow(k) if k.dst_port == 443));
    assert!(matches!(ssl_write_flow(None), SslStep::Done));
    assert!(matches!(ssl_write_row(true, &args), SslStep::ReadBuffer { addr: 0x7f00, len: 300 }));
    assert!(matches!(ssl_write_row(false, &args), SslStep::Done));
    let long = SslArgs { len: 70_000, ..args };
    assert!(
        matches!(ssl_write_row(true, &long), SslStep::ReadBuffer { len, .. } if len == TLS_SCRATCH_LEN)
    );
    assert!(matches!(ssl_read_args(Some(long), 20), SslStep::ReadBuffer { addr: 0x7f00, len: 20 }));
    assert!(
        matches!(ssl_read_args(Some(args), 9999), SslStep::ReadBuffer { len, .. } if len == TLS_SCRATCH_LEN)
    );
    assert!(matches!(ssl_read_args(None, 20), SslStep::Done));
    let step = ssl_read_flow(Some(key()), b"HTTP/1.1 204 No Content");
    assert!(matches!(step, SslStep::FindRowForStatus { status: 204, key } if key.src_port == 54821));
    assert!(matches!(ssl_read_flow(Some(key()), b"not a response"), SslStep::Done));
    assert!(matches!(ssl_read_flow(None, b"HTTP/1.1 204 No Content"), SslStep::Done));
}

#[test]
fn what_a_tls_write_shows() {
    let mut st = row(100);
    ssl_write_return(&mut st, b"GET /a HTTP/1.1\r\nHost: h.example\r\n\r\n", 120, 130);
    assert_eq!((st.has_http, st.has_tls, st.ssl_write_ts_ns, st.tls_ready_ts_ns), (1, 0, 120, 0));
    assert_eq!((text(&st.http_method), text(&st.http_path)), (b"GET".to_vec(), b"/a".to_vec()));
    assert_eq!(text(&st.http_host), b"h.example");
    ssl_write_return(&mut st, b"\x16\x03\x01\x00\x00\x01", 140, 150);
    assert_eq!((st.has_tls, st.ssl_write_ts_ns, st.tls_ready_ts_ns), (1, 120, 150));
    ssl_write_return(&mut st, b"\x16\x03\x01\x00\x00\x01", 160, 170);
    assert_eq!((st.ssl_write_ts_ns, st.tls_ready_ts_ns), (120, 150));
    ssl_write_return(&mut st, b"plain bytes", 180, 190);
    assert_eq!((st.ssl_write_ts_ns, st.tls_ready_ts_ns), (120, 150));
    assert_eq!(text(&st.tls_sni), b"");
    ssl_read_return(&mut st, 200);
    assert_eq!(st.http_status, 200);
}

#[test]
fn response_time_of_the_first_exchange() {
    let mut st = row(10);
    let request = b"GET /a HTTP/1.1\r\nHost: h.example\r\n\r\n";
    ssl_write_return(&mut st, b"plain bytes", 50, 60);
    ssl_write_return(&mut st, request, 100, 110);
    let _ = handle_recvmsg(Some(&mut st), 90, 200);
    ssl_write_return(&mut st, request, 300, 310);
    let _ = handle_recvmsg(Some(&mut st), 90, 400);
    assert_eq!(closed(&st, 500).app_response_time_ns, 100);
}

#[test]
fn shorter_text_leaves_the_tail() {
    let mut st = row(0);
    ssl_write_return(&mut st, b"DELETE /long HTTP/1.1\r\n", 1, 2);
    ssl_write_return(&mut st, b"GET /x HTTP/1.1\r\n", 3, 4);
    assert_eq!(text(&st.http_method), b"GETETE");
    assert_eq!(text(&st.http_path), b"/xong");
}

#[test]
fn close_reports_the_row() {
    let mut st = row(1_000);
    let _ = handle_sendmsg(Some(&mut st), 1240, 1_500);
    let _ = handle_recvmsg(Some(&mut st), 890, 2_500);
    ssl_write_return(&mut st, b"\x16\x03\x01\x00\x00\x01", 1_600, 1_700);
    let s = AckSample { srtt_us: 2100, rttvar_us: 800, cwnd: 10 };
    let _ = record_ack(Some(&mut st), &s, Ok([2]));
    let e = closed(&st, 9_000);
    assert_eq!((e.pid, e.uid, e.gid), (41, 1000, 100));
    assert_eq!((e.src_port, e.dst_port, e.protocol, e.direction), (54821, 443, 6, 1));
    assert_eq!((e.src_ip, e.dst_ip), (key().src_ip, key().dst_ip));
    assert_eq!((e.bytes_sent, e.bytes_recv, e.pkts_sent, e.pkts_recv), (1240, 890, 1, 1));
    assert_eq!((e.srtt_us_min, e.srtt_us_max, e.srtt_us_final, e.rttvar_us_max), (2100, 2100, 2100, 800));
    assert_eq!((e.cwnd_min, e.cwnd_max, e.congestion_state_final), (10, 10, 2));
    assert_eq!((e.connect_ts_ns, e.close_ts_ns, e.duration_ns), (1_000, 9_000, 8_000));
    assert_eq!((e.first_byte_ts_ns, e.first_recv_ts_ns), (1_500, 2_500));
    assert_eq!((e.time_to_first_byte_ns, e.tls_handshake_ns, e.app_response_time_ns), (500, 700, 900));
    assert_eq!((e.has_tls, e.has_http, e.chain_id), (1, 0, 1_000));
    assert_eq!(e.close_reason(), CloseReason::LocalClose);
}

#[test]
fn steps_of_a_close() {
    assert!(matches!(close_key(Some(reads())), CloseStep::FindRow(k) if k.dst_port == 443));
    assert!(matches!(close_key(None), CloseStep::Done(Err(-1))));
    let mut bad = reads();
    bad.dst_port = Err(-14);
    assert!(matches!(close_key(Some(bad)), CloseStep::Done(Err(-1))));
    assert!(matches!(close_row(true), CloseStep::Reserve));
    assert!(matches!(close_row(false), CloseStep::Done(Ok(0))));
    assert!(matches!(close_room(true), CloseStep::Report));
    assert!(matches!(close_room(false), CloseStep::Done(Ok(0))));
}

#[test]
fn entry_of_a_send() {
    let (k, size) = sendmsg_entered(Some(reads()), Some(1240)).unwrap();
    assert_eq!((k.src_port, size), (54821, 1240));
    assert_eq!(sendmsg_entered(None, None).err(), Some(NO_SOCKET));
    assert_eq!(sendmsg_entered(Some(reads()), None).err(), Some(NO_SIZE));
    let mut bad = reads();
    bad.src_ip = Err(-14);
    assert_eq!(sendmsg_entered(Some(bad), Some(1)).err(), Some(NO_SOCKET));
}

#[test]
fn close_without_measurements() {
    let e = closed(&row(500), 400);
    assert_eq!((e.srtt_us_min, e.cwnd_min, e.duration_ns), (0, 0, 0));
    assert_eq!((e.time_to_first_byte_ns, e.tls_handshake_ns, e.app_response_time_ns), (0, 0, 0));
}

#[test]
fn closed_flow_is_reported_if_wanted() {
    let mut st = row(1_000);
    let una = Ok(0u32.to_le_bytes());
    let _ = handle_retransmit(Some(&mut st), RetransmitReason::Tlp, una, una);
    let mut item = [0u8; FLOW_EVENT_LEN];
    handle_tcp_close(&mut item, &key(), &st, 5_000_000_000);
    let mut filter = EventFilter {
        min_duration_ms: 4_999,
        port_filter: vec![443],
        retransmits_only: true,
        sample_rate: 10,
    };
    let mut count = 0u64;
    let e = take_item(&item, &filter, &mut count).unwrap();
    assert_eq!((e.duration_ns, e.retransmit_tlp_count, e.chain_id), (4_999_999_000, 1, 1_000));
    filter.min_duration_ms = 5_000;
    assert!(take_item(&item, &filter, &mut count).is_none());
    assert_eq!(count, 2);
}

#[test]
fn connection_is_reported_once() {
    let mut table = vec![row(1_000)];
    let mut reported = Vec::new();
    for (room, now) in [(false, 2_000u64), (true, 3_000), (true, 4_000), (false, 5_000)] {
        match close_row(!table.is_empty()) {
            CloseStep::Reserve => {}
            step => {
                assert!(matches!(step, CloseStep::Done(Ok(0))));
                continue;
            }
        }
        match close_room(room) {
            CloseStep::Report => reported.push(closed(&table.pop().unwrap(), now).close_ts_ns),
            step => assert!(matches!(step, CloseStep::Done(Ok(0)))),
        }
    }
    assert_eq!(reported, vec![3_000]);
}

#[test]
fn reset_is_the_close_reason() {
    let mut st = row(0);
    st.congestion_state_final = 3;
    assert_eq!(handle_rst(Some(&mut st)), Ok(0));
    let e = closed(&st, 1);
    assert_eq!(e.close_reason(), CloseReason::Reset);
    assert_eq!(e.congestion_state_final, 3);
    assert_eq!(handle_rst(None), Ok(0));
}

#[test]
fn event_bytes_between_fields_are_zero() {
    let mut out = [0xffu8; FLOW_EVENT_LEN];
    handle_tcp_close(&mut out, &key(), &row(0), 1);
    for i in [174, 175, 228, 229, 230, 231, 1114, 1119, 1140, 1143] {
        assert_eq!(out[i], 0);
    }
    assert_eq!(&out[160..164], &[10, 0, 1, 50]);
    assert_eq!(&out[168..172], &[0x25, 0xd6, 0xbb, 0x01]);
}

#[test]
fn short_items_hold_no_event() {
    let mut out = [0u8; FLOW_EVENT_LEN];
    handle_tcp_close(&mut out, &key(), &row(0), 1);
    assert!(read_flow_event(&out[..FLOW_EVENT_LEN - 1]).is_none());
    assert!(read_flow_event(&[]).is_none());
    let mut longer = out.to_vec();
    longer.push(9);
    assert_eq!(read_flow_event(&longer).unwrap().src_port, 54821);
}

#[test]
fn codes_of_the_enums() {
    assert_eq!(RetransmitReason::Unknown.code(), 0);
    assert_eq!(RetransmitReason::Tlp.code(), 4);
    assert_eq!(CloseReason::Timeout.code(), 3);
    assert_eq!(CongestionState::Disorder.code(), 1);
    assert_eq!(FlowDirection::Unknown.code(), 0);
    for r in [
        CloseReason::Unknown,
        CloseReason::Clean,
        CloseReason::Reset,
        CloseReason::Timeout,
        CloseReason::LocalClose,
    ] {
        let mut e = closed(&row(0), 1);
        e.close_reason = r.code();
        assert_eq!(e.close_reason(), r);
    }
    let mut e = closed(&row(0), 1);
    e.close_reason = 99;
    assert_eq!(e.close_reason(), CloseReason::Unknown);
}
