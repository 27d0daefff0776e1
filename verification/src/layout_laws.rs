//! Where the fields of an event stand in the ring buffer: as the C layout puts
//! them, each behind the one before it, at the next multiple of its alignment.

use vstd::prelude::*;
use crate::common::FlowEvent;
use crate::wire::{holds_event, is_padding};

verus! {

/// Size and alignment of the fields of an event, in order.
pub open spec fn field_sizes() -> Seq<(int, int)> {
    seq![
        (4, 4),
        (4, 4),
        (4, 4),
        (4, 4),
        (16, 1),
        (128, 1),
        (4, 4),
        (4, 4),
        (2, 2),
        (2, 2),
        (1, 1),
        (1, 1),
        (8, 8),
        (8, 8),
        (8, 8),
        (8, 8),
        (4, 4),
        (4, 4),
        (4, 4),
        (4, 4),
        (4, 4),
        (8, 8),
        (4, 4),
        (4, 4),
        (4, 4),
        (4, 4),
        (4, 4),
        (4, 4),
        (4, 4),
        (256, 1),
        (256, 1),
        (8, 1),
        (256, 1),
        (2, 2),
        (1, 1),
        (1, 1),
        (8, 8),
        (8, 8),
        (8, 8),
        (8, 8),
        (8, 8),
        (8, 8),
        (8, 8),
        (8, 8),
        (1, 1),
        (1, 1),
        (8, 8),
        (8, 8),
        (4, 4),
    ]
}

/// `n`, or the next multiple of `align` behind it.
pub open spec fn rounded_up(n: int, align: int) -> int {
    (n + align - 1) / align * align
}

/// Where the field with this number stands.
pub open spec fn place(i: nat) -> int
    decreases i,
{
    if i == 0 {
        0
    } else {
        rounded_up(
            place((i - 1) as nat) + field_sizes()[i - 1].0,
            field_sizes()[i as int].1,
        )
    }
}

proof fn next_place(i: nat, before: int, here: int)
    requires
        place(i) == before,
        i + 1 < field_sizes().len(),
        here == rounded_up(before + field_sizes()[i as int].0, field_sizes()[i as int + 1].1),
    ensures
        place(i + 1) == here,
{
}

proof fn places()
    ensures
        place(0) == 0,
        place(1) == 4,
        place(2) == 8,
        place(3) == 12,
        place(4) == 16,
        place(5) == 32,
        place(6) == 160,
        place(7) == 164,
        place(8) == 168,
        place(9) == 170,
        place(10) == 172,
        place(11) == 173,
        place(12) == 176,
        place(13) == 184,
        place(14) == 192,
        place(15) == 200,
        place(16) == 208,
        place(17) == 212,
        place(18) == 216,
        place(19) == 220,
        place(20) == 224,
        place(21) == 232,
        place(22) == 240,
        place(23) == 244,
        place(24) == 248,
        place(25) == 252,
        place(26) == 256,
        place(27) == 260,
        place(28) == 264,
        place(29) == 268,
        place(30) == 524,
        place(31) == 780,
        place(32) == 788,
        place(33) == 1044,
        place(34) == 1046,
        place(35) == 1047,
        place(36) == 1048,
        place(37) == 1056,
        place(38) == 1064,
        place(39) == 1072,
        place(40) == 1080,
        place(41) == 1088,
        place(42) == 1096,
        place(43) == 1104,
        place(44) == 1112,
        place(45) == 1113,
        place(46) == 1120,
        place(47) == 1128,
        place(48) == 1136,
{
    next_place(0, 0, 4);
    next_place(1, 4, 8);
    next_place(2, 8, 12);
    next_place(3, 12, 16);
    next_place(4, 16, 32);
    next_place(5, 32, 160);
    next_place(6, 160, 164);
    next_place(7, 164, 168);
    next_place(8, 168, 170);
    next_place(9, 170, 172);
    next_place(10, 172, 173);
    next_place(11, 173, 176);
    next_place(12, 176, 184);
    next_place(13, 184, 192);
    next_place(14, 192, 200);
    next_place(15, 200, 208);
    next_place(16, 208, 212);
    next_place(17, 212, 216);
    next_place(18, 216, 220);
    next_place(19, 220, 224);
    next_place(20, 224, 232);
    next_place(21, 232, 240);
    next_place(22, 240, 244);
    next_place(23, 244, 248);
    next_place(24, 248, 252);
    next_place(25, 252, 256);
    next_place(26, 256, 260);
    next_place(27, 260, 264);
    next_place(28, 264, 268);
    next_place(29, 268, 524);
    next_place(30, 524, 780);
    next_place(31, 780, 788);
    next_place(32, 788, 1044);
    next_place(33, 1044, 1046);
    next_place(34, 1046, 1047);
    next_place(35, 1047, 1048);
    next_place(36, 1048, 1056);
    next_place(37, 1056, 1064);
    next_place(38, 1064, 1072);
    next_place(39, 1072, 1080);
    next_place(40, 1080, 1088);
    next_place(41, 1088, 1096);
    next_place(42, 1096, 1104);
    next_place(43, 1104, 1112);
    next_place(44, 1112, 1113);
    next_place(45, 1113, 1120);
    next_place(46, 1120, 1128);
    next_place(47, 1128, 1136);
}

/// The two bytes at `at` hold `v`, the low byte first.
pub open spec fn holds16_at(s: Seq<u8>, at: int, v: u16) -> bool {
    v == s[at] + 256 * s[at + 1]
}

/// The four bytes at `at` hold `v`, the low byte first.
pub open spec fn holds32_at(s: Seq<u8>, at: int, v: u32) -> bool {
    v == s[at] + 256 * s[at + 1] + 65536 * s[at + 2] + 16777216 * s[at + 3]
}

/// The eight bytes at `at` hold `v`, the low byte first.
pub open spec fn holds64_at(s: Seq<u8>, at: int, v: u64) -> bool {
    v == s[at] + 256 * s[at + 1] + 65536 * s[at + 2] + 16777216 * s[at + 3] + 4294967296 * (
    s[at + 4] + 256 * s[at + 5] + 65536 * s[at + 6] + 16777216 * s[at + 7])
}

/// The bytes at `at` are those of a field.
pub open spec fn holds_bytes_at(s: Seq<u8>, at: int, field: Seq<u8>) -> bool {
    forall|i: int| 0 <= i < field.len() ==> #[trigger] field[i] == s[at + i]
}

/// Every field of an event stands where the C layout puts it, and there are as many bytes
/// as the layout takes.
pub open spec fn stands_in_layout(s: Seq<u8>, e: FlowEvent) -> bool {
    &&& s.len() >= rounded_up(place(48) + 4, 8)
    &&& holds32_at(s, place(0), e.pid)
    &&& holds32_at(s, place(1), e.ppid)
    &&& holds32_at(s, place(2), e.uid)
    &&& holds32_at(s, place(3), e.gid)
    &&& holds_bytes_at(s, place(4), e.comm@)
    &&& holds_bytes_at(s, place(5), e.cgroup@)
    &&& holds32_at(s, place(6), e.src_ip)
    &&& holds32_at(s, place(7), e.dst_ip)
    &&& holds16_at(s, place(8), e.src_port)
    &&& holds16_at(s, place(9), e.dst_port)
    &&& s[place(10)] == e.protocol
    &&& s[place(11)] == e.direction
    &&& holds64_at(s, place(12), e.bytes_sent)
    &&& holds64_at(s, place(13), e.bytes_recv)
    &&& holds64_at(s, place(14), e.pkts_sent)
    &&& holds64_at(s, place(15), e.pkts_recv)
    &&& holds32_at(s, place(16), e.srtt_us_min)
    &&& holds32_at(s, place(17), e.srtt_us_max)
    &&& holds32_at(s, place(18), e.srtt_us_final)
    &&& holds32_at(s, place(19), e.rttvar_us_max)
    &&& holds32_at(s, place(20), e.retransmit_count)
    &&& holds64_at(s, place(21), e.retransmit_bytes)
    &&& holds32_at(s, place(22), e.retransmit_rto_count)
    &&& holds32_at(s, place(23), e.retransmit_fast_count)
    &&& holds32_at(s, place(24), e.retransmit_tlp_count)
    &&& holds32_at(s, place(25), e.sack_blocks_received)
    &&& holds32_at(s, place(26), e.cwnd_min)
    &&& holds32_at(s, place(27), e.cwnd_max)
    &&& holds32_at(s, place(28), e.ecn_signals)
    &&& holds_bytes_at(s, place(29), e.tls_sni@)
    &&& holds_bytes_at(s, place(30), e.http_host@)
    &&& holds_bytes_at(s, place(31), e.http_method@)
    &&& holds_bytes_at(s, place(32), e.http_path@)
    &&& holds16_at(s, place(33), e.http_status)
    &&& s[place(34)] == e.has_tls
    &&& s[place(35)] == e.has_http
    &&& holds64_at(s, place(36), e.connect_ts_ns)
    &&& holds64_at(s, place(37), e.first_byte_ts_ns)
    &&& holds64_at(s, place(38), e.first_recv_ts_ns)
    &&& holds64_at(s, place(39), e.close_ts_ns)
    &&& holds64_at(s, place(40), e.duration_ns)
    &&& holds64_at(s, place(41), e.time_to_first_byte_ns)
    &&& holds64_at(s, place(42), e.tls_handshake_ns)
    &&& holds64_at(s, place(43), e.app_response_time_ns)
    &&& s[place(44)] == e.close_reason
    &&& s[place(45)] == e.congestion_state_final
    &&& holds64_at(s, place(46), e.chain_id)
    &&& holds64_at(s, place(47), e.parent_chain_id)
    &&& holds32_at(s, place(48), e.chain_depth)
}

proof fn held_event_stands(s: Seq<u8>, e: FlowEvent)
    requires
        holds_event(s, e),
    ensures
        s.len() >= rounded_up(place(48) + 4, 8),
        holds32_at(s, place(0), e.pid),
        holds32_at(s, place(1), e.ppid),
        holds32_at(s, place(2), e.uid),
        holds32_at(s, place(3), e.gid),
        holds_bytes_at(s, place(4), e.comm@),
        holds_bytes_at(s, place(5), e.cgroup@),
        holds32_at(s, place(6), e.src_ip),
        holds32_at(s, place(7), e.dst_ip),
        holds16_at(s, place(8), e.src_port),
        holds16_at(s, place(9), e.dst_port),
        s[place(10)] == e.protocol,
        s[place(11)] == e.direction,
        holds64_at(s, place(12), e.bytes_sent),
        holds64_at(s, place(13), e.bytes_recv),
        holds64_at(s, place(14), e.pkts_sent),
        holds64_at(s, place(15), e.pkts_recv),
        holds32_at(s, place(16), e.srtt_us_min),
        holds32_at(s, place(17), e.srtt_us_max),
        holds32_at(s, place(18), e.srtt_us_final),
        holds32_at(s, place(19), e.rttvar_us_max),
        holds32_at(s, place(20), e.retransmit_count),
        holds64_at(s, place(21), e.retransmit_bytes),
        holds32_at(s, place(22), e.retransmit_rto_count),
        holds32_at(s, place(23), e.retransmit_fast_count),
        holds32_at(s, place(24), e.retransmit_tlp_count),
        holds32_at(s, place(25), e.sack_blocks_received),
        holds32_at(s, place(26), e.cwnd_min),
        holds32_at(s, place(27), e.cwnd_max),
        holds32_at(s, place(28), e.ecn_signals),
        holds_bytes_at(s, place(29), e.tls_sni@),
        holds_bytes_at(s, place(30), e.http_host@),
        holds_bytes_at(s, place(31), e.http_method@),
        holds_bytes_at(s, place(32), e.http_path@),
        holds16_at(s, place(33), e.http_status),
        s[place(34)] == e.has_tls,
        s[place(35)] == e.has_http,
        holds64_at(s, place(36), e.connect_ts_ns),
        holds64_at(s, place(37), e.first_byte_ts_ns),
        holds64_at(s, place(38), e.first_recv_ts_ns),
        holds64_at(s, place(39), e.close_ts_ns),
        holds64_at(s, place(40), e.duration_ns),
        holds64_at(s, place(41), e.time_to_first_byte_ns),
        holds64_at(s, place(42), e.tls_handshake_ns),
        holds64_at(s, place(43), e.app_response_time_ns),
        s[place(44)] == e.close_reason,
        s[place(45)] == e.congestion_state_final,
        holds64_at(s, place(46), e.chain_id),
        holds64_at(s, place(47), e.parent_chain_id),
        holds32_at(s, place(48), e.chain_depth),
{
    places();
    assert(holds_bytes_at(s, 16, e.comm@)) by {
        assert(s.subrange(16, 32) == e.comm@);
    }
    assert(holds_bytes_at(s, 32, e.cgroup@)) by {
        assert(s.subrange(32, 160) == e.cgroup@);
    }
    assert(holds_bytes_at(s, 268, e.tls_sni@)) by {
        assert(s.subrange(268, 524) == e.tls_sni@);
    }
    assert(holds_bytes_at(s, 524, e.http_host@)) by {
        assert(s.subrange(524, 780) == e.http_host@);
    }
    assert(holds_bytes_at(s, 780, e.http_method@)) by {
        assert(s.subrange(780, 788) == e.http_method@);
    }
    assert(holds_bytes_at(s, 788, e.http_path@)) by {
        assert(s.subrange(788, 1044) == e.http_path@);
    }
}

proof fn standing_event_is_held(s: Seq<u8>, e: FlowEvent)
    requires
        stands_in_layout(s, e),
    ensures
        holds_event(s, e),
{
    places();
    assert(s.subrange(16, 32) =~= e.comm@);
    assert(s.subrange(32, 160) =~= e.cgroup@);
    assert(s.subrange(268, 524) =~= e.tls_sni@);
    assert(s.subrange(524, 780) =~= e.http_host@);
    assert(s.subrange(780, 788) =~= e.http_method@);
    assert(s.subrange(788, 1044) =~= e.http_path@);
}

/// Bytes hold an event exactly if every field of it stands where the C layout puts it.
pub proof fn event_stands_in_the_c_layout(s: Seq<u8>, e: FlowEvent)
    ensures
        holds_event(s, e) <==> stands_in_layout(s, e),
{
    if holds_event(s, e) {
        held_event_stands(s, e);
    }
    if stands_in_layout(s, e) {
        standing_event_is_held(s, e);
    }
}

/// A byte belongs to a field.
pub open spec fn is_in_field(i: int) -> bool {
    exists|f: nat| f < 49 && #[trigger] place(f) <= i < place(f) + field_sizes()[f as int].0
}

/// The bytes between the fields, and those behind the last, are the padding.
pub proof fn padding_lies_between_the_fields(i: int)
    requires
        0 <= i < 1144,
    ensures
        is_padding(i) <==> !is_in_field(i),
{
    places();
    let sizes = field_sizes();
}

} // verus!
