//! What the JSON output says of a flow.
//!
//! The object is given as its members. Ratios and percentages are left to
//! whoever writes the object down, who writes them in floating point.

use vstd::prelude::*;
use vstd::string::*;
use crate::common::{close_reason_of, CloseReason, FlowDirection, FlowEvent, IPPROTO_TCP};
use crate::enricher::{dotted, EnrichedFlow};
use crate::field_text::{filled_field_text, terminated_field_text};
use crate::numbers::{hexadecimal, hexadecimal_text};

verus! {

/// A value without members.
#[derive(Debug)]
pub enum Scalar {
    Null,
    Bool(bool),
    Number(u64),
    /// `num / den`.
    Ratio { num: u64, den: u64 },
    /// `part / whole` in percent.
    Percent { part: u64, whole: u64 },
    Text(String),
}

/// A value, with members of its own or without.
#[derive(Debug)]
pub enum JsonValue {
    Scalar(Scalar),
    Object(Vec<(&'static str, Scalar)>),
}

/// What a [`Scalar`] says.
pub ghost enum ScalarView {
    Null,
    Bool(bool),
    Number(int),
    Ratio { num: int, den: int },
    Percent { part: int, whole: int },
    Text(Seq<char>),
}

/// What a [`JsonValue`] says.
pub ghost enum JsonView {
    Scalar(ScalarView),
    Object(Seq<(Seq<char>, ScalarView)>),
}

/// What a value without members says.
pub open spec fn scalar_view(v: Scalar) -> ScalarView {
    match v {
        Scalar::Null => ScalarView::Null,
        Scalar::Bool(b) => ScalarView::Bool(b),
        Scalar::Number(n) => ScalarView::Number(n as int),
        Scalar::Ratio { num, den } => ScalarView::Ratio { num: num as int, den: den as int },
        Scalar::Percent { part, whole } => ScalarView::Percent {
            part: part as int,
            whole: whole as int,
        },
        Scalar::Text(t) => ScalarView::Text(t@),
    }
}

/// What members say.
pub open spec fn members_view(members: Seq<(&'static str, Scalar)>) -> Seq<
    (Seq<char>, ScalarView),
> {
    members.map_values(|m: (&'static str, Scalar)| (m.0@, scalar_view(m.1)))
}

/// What a value says.
pub open spec fn json_view(v: JsonValue) -> JsonView {
    match v {
        JsonValue::Scalar(s) => JsonView::Scalar(scalar_view(s)),
        JsonValue::Object(members) => JsonView::Object(members_view(members@)),
    }
}

/// What an object says.
pub open spec fn object_view(members: Seq<(&'static str, JsonValue)>) -> Seq<
    (Seq<char>, JsonView),
> {
    members.map_values(|m: (&'static str, JsonValue)| (m.0@, json_view(m.1)))
}

fn put_member(out: &mut Vec<(&'static str, Scalar)>, key: &'static str, value: Scalar)
    ensures
        members_view(final(out)@) == members_view(old(out)@).push((key@, scalar_view(value))),
{
    out.push((key, value));
    assert(members_view(out@) =~= members_view(old(out)@).push((key@, scalar_view(value))));
}

fn put_value(out: &mut Vec<(&'static str, JsonValue)>, key: &'static str, value: JsonValue)
    ensures
        object_view(final(out)@) == object_view(old(out)@).push((key@, json_view(value))),
{
    out.push((key, value));
    assert(object_view(out@) =~= object_view(old(out)@).push((key@, json_view(value))));
}

fn put_scalar(out: &mut Vec<(&'static str, JsonValue)>, key: &'static str, value: Scalar)
    ensures
        object_view(final(out)@) == object_view(old(out)@).push(
            (key@, JsonView::Scalar(scalar_view(value))),
        ),
{
    put_value(out, key, JsonValue::Scalar(value));
}

/// A text, null where there is none.
pub open spec fn text_or_null(t: Option<String>) -> ScalarView {
    match t {
        Some(t) => ScalarView::Text(t@),
        None => ScalarView::Null,
    }
}

fn optional_text(t: &Option<String>) -> (r: Scalar)
    ensures
        scalar_view(r) == text_or_null(*t),
{
    match t {
        Some(t) => Scalar::Text(t.clone()),
        None => Scalar::Null,
    }
}

fn text(t: &str) -> (r: Scalar)
    ensures
        scalar_view(r) == ScalarView::Text(t@),
{
    Scalar::Text(t.to_owned())
}

/// A time of `us` microseconds, in milliseconds.
pub open spec fn micros(us: u32) -> ScalarView {
    ScalarView::Ratio { num: us as int, den: 1000 }
}

/// A time of `ns` nanoseconds, in milliseconds.
pub open spec fn nanos(ns: u64) -> ScalarView {
    ScalarView::Ratio { num: ns as int, den: 1_000_000 }
}

fn in_micros(us: u32) -> (r: Scalar)
    ensures
        scalar_view(r) == micros(us),
{
    Scalar::Ratio { num: us as u64, den: 1000 }
}

fn in_nanos(ns: u64) -> (r: Scalar)
    ensures
        scalar_view(r) == nanos(ns),
{
    Scalar::Ratio { num: ns, den: 1_000_000 }
}

/// Which part of a flow's packets were retransmits: none of one if it sent
/// none.
pub open spec fn retransmit_part(e: FlowEvent) -> (u64, u64) {
    if e.pkts_sent == 0 {
        (0, 1)
    } else {
        (e.retransmit_count as u64, e.pkts_sent)
    }
}

impl FlowEvent {
    /// Which part of the flow's packets were retransmits, as numerator and
    /// denominator.
    pub fn retransmit_share(&self) -> (r: (u64, u64))
        ensures
            r == retransmit_part(*self),
            r.1 > 0,
    {
        if self.pkts_sent == 0 {
            (0, 1)
        } else {
            (self.retransmit_count as u64, self.pkts_sent)
        }
    }
}

/// What was seen of a flow's TLS.
pub open spec fn tls_object(e: FlowEvent) -> JsonView {
    if e.has_tls == 1 {
        JsonView::Object(
            seq![
                ("sni"@, ScalarView::Text(terminated_field_text(e.tls_sni@))),
                ("handshake_ms"@, nanos(e.tls_handshake_ns)),
            ],
        )
    } else {
        JsonView::Scalar(ScalarView::Null)
    }
}

fn tls_value(e: &FlowEvent) -> (r: JsonValue)
    ensures
        json_view(r) == tls_object(*e),
{
    if e.has_tls == 1 {
        let mut m: Vec<(&'static str, Scalar)> = Vec::new();
        put_member(&mut m, "sni", text(e.sni_str()));
        put_member(&mut m, "handshake_ms", in_nanos(e.tls_handshake_ns));
        let r = JsonValue::Object(m);
        assert(tls_object(*e)->Object_0 =~= members_view(m@));
        r
    } else {
        JsonValue::Scalar(Scalar::Null)
    }
}

/// What was seen of a flow's HTTP.
pub open spec fn http_object(e: FlowEvent) -> JsonView {
    if e.has_http == 1 {
        JsonView::Object(
            seq![
                ("host"@, ScalarView::Text(terminated_field_text(e.http_host@))),
                ("method"@, ScalarView::Text(terminated_field_text(e.http_method@))),
                ("path"@, ScalarView::Text(terminated_field_text(e.http_path@))),
                ("status"@, ScalarView::Number(e.http_status as int)),
                ("app_rtt_ms"@, nanos(e.app_response_time_ns)),
            ],
        )
    } else {
        JsonView::Scalar(ScalarView::Null)
    }
}

fn http_value(e: &FlowEvent) -> (r: JsonValue)
    ensures
        json_view(r) == http_object(*e),
{
    if e.has_http == 1 {
        let mut m: Vec<(&'static str, Scalar)> = Vec::new();
        put_member(&mut m, "host", text(e.http_host_str()));
        put_member(&mut m, "method", text(e.http_method_str()));
        put_member(&mut m, "path", text(e.http_path_str()));
        put_member(&mut m, "status", Scalar::Number(e.http_status as u64));
        put_member(&mut m, "app_rtt_ms", in_nanos(e.app_response_time_ns));
        let r = JsonValue::Object(m);
        assert(http_object(*e)->Object_0 =~= members_view(m@));
        r
    } else {
        JsonValue::Scalar(Scalar::Null)
    }
}

/// The Kubernetes identity of a flow.
pub open spec fn k8s_object(flow: EnrichedFlow) -> JsonView {
    if flow.k8s_pod is Some {
        JsonView::Object(
            seq![
                ("pod"@, text_or_null(flow.k8s_pod)),
                ("namespace"@, text_or_null(flow.k8s_namespace)),
                ("container"@, text_or_null(flow.k8s_container)),
            ],
        )
    } else {
        JsonView::Scalar(ScalarView::Null)
    }
}

fn k8s_value(flow: &EnrichedFlow) -> (r: JsonValue)
    ensures
        json_view(r) == k8s_object(*flow),
{
    if flow.k8s_pod.is_some() {
        let mut m: Vec<(&'static str, Scalar)> = Vec::new();
        put_member(&mut m, "pod", optional_text(&flow.k8s_pod));
        put_member(&mut m, "namespace", optional_text(&flow.k8s_namespace));
        put_member(&mut m, "container", optional_text(&flow.k8s_container));
        let r = JsonValue::Object(m);
        assert(k8s_object(*flow)->Object_0 =~= members_view(m@));
        r
    } else {
        JsonValue::Scalar(Scalar::Null)
    }
}

/// The place of a flow in its causal chain.
pub open spec fn causal_object(e: FlowEvent) -> JsonView {
    if e.chain_id != 0 {
        JsonView::Object(
            seq![
                ("chain_id"@, ScalarView::Text(hexadecimal(e.chain_id as nat))),
                ("parent_chain_id"@, ScalarView::Text(hexadecimal(e.parent_chain_id as nat))),
                ("depth"@, ScalarView::Number(e.chain_depth as int)),
            ],
        )
    } else {
        JsonView::Scalar(ScalarView::Null)
    }
}

fn causal_value(e: &FlowEvent) -> (r: JsonValue)
    ensures
        json_view(r) == causal_object(*e),
{
    if e.chain_id != 0 {
        let mut m: Vec<(&'static str, Scalar)> = Vec::new();
        put_member(&mut m, "chain_id", Scalar::Text(hexadecimal_text(e.chain_id)));
        put_member(&mut m, "parent_chain_id", Scalar::Text(hexadecimal_text(e.parent_chain_id)));
        put_member(&mut m, "depth", Scalar::Number(e.chain_depth as u64));
        let r = JsonValue::Object(m);
        assert(causal_object(*e)->Object_0 =~= members_view(m@));
        r
    } else {
        JsonValue::Scalar(Scalar::Null)
    }
}

/// The round-trip times of a flow.
pub open spec fn rtt_members(e: FlowEvent) -> Seq<(Seq<char>, ScalarView)> {
    seq![
        ("min"@, micros(e.srtt_us_min)),
        ("max"@, micros(e.srtt_us_max)),
        ("final"@, micros(e.srtt_us_final)),
        ("jitter_max"@, micros(e.rttvar_us_max)),
    ]
}

fn rtt_value(e: &FlowEvent) -> (r: JsonValue)
    ensures
        json_view(r) == JsonView::Object(rtt_members(*e)),
{
    let mut m: Vec<(&'static str, Scalar)> = Vec::new();
    put_member(&mut m, "min", in_micros(e.srtt_us_min));
    put_member(&mut m, "max", in_micros(e.srtt_us_max));
    put_member(&mut m, "final", in_micros(e.srtt_us_final));
    put_member(&mut m, "jitter_max", in_micros(e.rttvar_us_max));
    assert(members_view(m@) =~= rtt_members(*e));
    JsonValue::Object(m)
}

/// The retransmits of a flow.
pub open spec fn retransmit_members(e: FlowEvent) -> Seq<(Seq<char>, ScalarView)> {
    seq![
        ("total"@, ScalarView::Number(e.retransmit_count as int)),
        ("bytes"@, ScalarView::Number(e.retransmit_bytes as int)),
        ("rto"@, ScalarView::Number(e.retransmit_rto_count as int)),
        ("fast"@, ScalarView::Number(e.retransmit_fast_count as int)),
        ("tlp"@, ScalarView::Number(e.retransmit_tlp_count as int)),
        ("sack_blocks"@, ScalarView::Number(e.sack_blocks_received as int)),
        (
            "rate_pct"@,
            (ScalarView::Percent {
                part: retransmit_part(e).0 as int,
                whole: retransmit_part(e).1 as int,
            }),
        ),
    ]
}

fn retransmit_value(e: &FlowEvent) -> (r: JsonValue)
    ensures
        json_view(r) == JsonView::Object(retransmit_members(*e)),
{
    let (part, whole) = e.retransmit_share();
    let mut m: Vec<(&'static str, Scalar)> = Vec::new();
    put_member(&mut m, "total", Scalar::Number(e.retransmit_count as u64));
    put_member(&mut m, "bytes", Scalar::Number(e.retransmit_bytes));
    put_member(&mut m, "rto", Scalar::Number(e.retransmit_rto_count as u64));
    put_member(&mut m, "fast", Scalar::Number(e.retransmit_fast_count as u64));
    put_member(&mut m, "tlp", Scalar::Number(e.retransmit_tlp_count as u64));
    put_member(&mut m, "sack_blocks", Scalar::Number(e.sack_blocks_received as u64));
    put_member(&mut m, "rate_pct", Scalar::Percent { part, whole });
    assert(members_view(m@) =~= retransmit_members(*e));
    JsonValue::Object(m)
}

/// The congestion control of a flow.
pub open spec fn congestion_members(e: FlowEvent) -> Seq<(Seq<char>, ScalarView)> {
    seq![
        ("cwnd_min"@, ScalarView::Number(e.cwnd_min as int)),
        ("cwnd_max"@, ScalarView::Number(e.cwnd_max as int)),
        ("ecn_signals"@, ScalarView::Number(e.ecn_signals as int)),
    ]
}

fn congestion_value(e: &FlowEvent) -> (r: JsonValue)
    ensures
        json_view(r) == JsonView::Object(congestion_members(*e)),
{
    let mut m: Vec<(&'static str, Scalar)> = Vec::new();
    put_member(&mut m, "cwnd_min", Scalar::Number(e.cwnd_min as u64));
    put_member(&mut m, "cwnd_max", Scalar::Number(e.cwnd_max as u64));
    put_member(&mut m, "ecn_signals", Scalar::Number(e.ecn_signals as u64));
    assert(members_view(m@) =~= congestion_members(*e));
    JsonValue::Object(m)
}

/// The timing of a flow.
pub open spec fn timing_members(e: FlowEvent) -> Seq<(Seq<char>, ScalarView)> {
    seq![
        ("connect_ts_ns"@, ScalarView::Number(e.connect_ts_ns as int)),
        ("duration_ms"@, nanos(e.duration_ns)),
        ("ttfb_ms"@, nanos(e.time_to_first_byte_ns)),
    ]
}

fn timing_value(e: &FlowEvent) -> (r: JsonValue)
    ensures
        json_view(r) == JsonView::Object(timing_members(*e)),
{
    let mut m: Vec<(&'static str, Scalar)> = Vec::new();
    put_member(&mut m, "connect_ts_ns", Scalar::Number(e.connect_ts_ns));
    put_member(&mut m, "duration_ms", in_nanos(e.duration_ns));
    put_member(&mut m, "ttfb_ms", in_nanos(e.time_to_first_byte_ns));
    assert(members_view(m@) =~= timing_members(*e));
    JsonValue::Object(m)
}

/// The name for why a connection closed.
pub open spec fn close_name(reason: CloseReason) -> Seq<char> {
    match reason {
        CloseReason::Clean => "clean"@,
        CloseReason::Reset => "reset"@,
        CloseReason::Timeout => "timeout"@,
        CloseReason::LocalClose => "local_close"@,
        CloseReason::Unknown => "unknown"@,
    }
}

/// A number.
pub open spec fn number(n: int) -> JsonView {
    JsonView::Scalar(ScalarView::Number(n))
}

/// A text.
pub open spec fn string(t: Seq<char>) -> JsonView {
    JsonView::Scalar(ScalarView::Text(t))
}

/// What the JSON output says of a flow.
pub open spec fn json_of(flow: EnrichedFlow) -> Seq<(Seq<char>, JsonView)> {
    let e = flow.event;
    seq![
        ("pid"@, number(e.pid as int)),
        (
            "ppid"@,
            match flow.ppid {
                Some(pid) => number(pid as int),
                None => JsonView::Scalar(ScalarView::Null),
            },
        ),
        ("uid"@, number(e.uid as int)),
        ("comm"@, string(filled_field_text(e.comm@, "<invalid>"@))),
        ("exe"@, JsonView::Scalar(text_or_null(flow.exe_path))),
        ("cmdline"@, JsonView::Scalar(text_or_null(flow.cmdline))),
        ("src_ip"@, string(dotted(e.src_ip))),
        ("dst_ip"@, string(dotted(e.dst_ip))),
        ("src_port"@, number(e.src_port as int)),
        ("dst_port"@, number(e.dst_port as int)),
        (
            "protocol"@,
            string(
                if e.protocol == IPPROTO_TCP {
                    "TCP"@
                } else {
                    "UDP"@
                },
            ),
        ),
        (
            "direction"@,
            string(
                if e.direction == FlowDirection::Outbound.code() {
                    "outbound"@
                } else {
                    "inbound"@
                },
            ),
        ),
        ("bytes_sent"@, number(e.bytes_sent as int)),
        ("bytes_recv"@, number(e.bytes_recv as int)),
        ("pkts_sent"@, number(e.pkts_sent as int)),
        ("pkts_recv"@, number(e.pkts_recv as int)),
        ("rtt_ms"@, JsonView::Object(rtt_members(e))),
        ("retransmits"@, JsonView::Object(retransmit_members(e))),
        ("congestion"@, JsonView::Object(congestion_members(e))),
        ("tls"@, tls_object(e)),
        ("http"@, http_object(e)),
        ("timing"@, JsonView::Object(timing_members(e))),
        ("k8s"@, k8s_object(flow)),
        ("causal"@, causal_object(e)),
        ("is_external"@, JsonView::Scalar(ScalarView::Bool(flow.is_external))),
        ("protocol_guess"@, JsonView::Scalar(text_or_null(flow.protocol_guess))),
        ("close_reason"@, string(close_name(close_reason_of(e.close_reason)))),
    ]
}

/// Gives the members of the object that the JSON output has for a flow.
pub fn print_json(flow: &EnrichedFlow) -> (r: Vec<(&'static str, JsonValue)>)
    ensures
        object_view(r@) == json_of(*flow),
{
    let e = &flow.event;
    let ppid = match flow.ppid {
        Some(pid) => Scalar::Number(pid as u64),
        None => Scalar::Null,
    };
    let protocol: &str = if e.protocol == IPPROTO_TCP {
        "TCP"
    } else {
        "UDP"
    };
    let direction: &str = if e.direction == FlowDirection::Outbound.code() {
        "outbound"
    } else {
        "inbound"
    };
    let close: &str = match e.close_reason() {
        CloseReason::Clean => "clean",
        CloseReason::Reset => "reset",
        CloseReason::Timeout => "timeout",
        CloseReason::LocalClose => "local_close",
        CloseReason::Unknown => "unknown",
    };
    let mut m: Vec<(&'static str, JsonValue)> = Vec::new();
    put_scalar(&mut m, "pid", Scalar::Number(e.pid as u64));
    put_scalar(&mut m, "ppid", ppid);
    put_scalar(&mut m, "uid", Scalar::Number(e.uid as u64));
    put_scalar(&mut m, "comm", text(e.comm_str()));
    put_scalar(&mut m, "exe", optional_text(&flow.exe_path));
    put_scalar(&mut m, "cmdline", optional_text(&flow.cmdline));
    put_scalar(&mut m, "src_ip", Scalar::Text(e.src_ip_str()));
    put_scalar(&mut m, "dst_ip", Scalar::Text(e.dst_ip_str()));
    put_scalar(&mut m, "src_port", Scalar::Number(e.src_port as u64));
    put_scalar(&mut m, "dst_port", Scalar::Number(e.dst_port as u64));
    put_scalar(&mut m, "protocol", text(protocol));
    put_scalar(&mut m, "direction", text(direction));
    put_scalar(&mut m, "bytes_sent", Scalar::Number(e.bytes_sent));
    put_scalar(&mut m, "bytes_recv", Scalar::Number(e.bytes_recv));
    put_scalar(&mut m, "pkts_sent", Scalar::Number(e.pkts_sent));
    put_scalar(&mut m, "pkts_recv", Scalar::Number(e.pkts_recv));
    put_value(&mut m, "rtt_ms", rtt_value(e));
    put_value(&mut m, "retransmits", retransmit_value(e));
    put_value(&mut m, "congestion", congestion_value(e));
    put_value(&mut m, "tls", tls_value(e));
    put_value(&mut m, "http", http_value(e));
    put_value(&mut m, "timing", timing_value(e));
    put_value(&mut m, "k8s", k8s_value(flow));
    put_value(&mut m, "causal", causal_value(e));
    put_scalar(&mut m, "is_external", Scalar::Bool(flow.is_external));
    put_scalar(&mut m, "protocol_guess", optional_text(&flow.protocol_guess));
    put_scalar(&mut m, "close_reason", text(close));
    assert(object_view(m@) =~= json_of(*flow));
    m
}

/// The names of an object's members.
pub open spec fn member_names(object: Seq<(Seq<char>, JsonView)>) -> Seq<Seq<char>> {
    object.map_values(|m: (Seq<char>, JsonView)| m.0)
}

/// Every flow is reported with the same members, whatever was seen of it.
pub proof fn members_are_the_same(a: EnrichedFlow, b: EnrichedFlow)
    ensures
        member_names(json_of(a)) == member_names(json_of(b)),
{
    assert(member_names(json_of(a)) =~= member_names(json_of(b)));
}

} // verus!
