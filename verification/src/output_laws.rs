//! What the output tells of a flow: which field each member and each number
//! comes from, and when a line is shown.

use vstd::prelude::*;
use vstd::string::*;
use vstd::utf8::{encode_utf8, valid_utf8};
use crate::common::FlowEvent;
use crate::enricher::{dotted, EnrichedFlow};
use crate::field_text::{filled_field_text, terminated_field_text};
use crate::json::{
    json_of, json_view, object_view, scalar_view, JsonValue, JsonView, Scalar, ScalarView,
};
use crate::numbers::{decimal, decimal_reads_back, hexadecimal, parse_number};
use crate::printer::{causal_line, PieceView};
use crate::text_laws::{
    field_text_reads_back, hex_value, hexadecimal_reads_back, no_zero,
    numbers_written_the_same_are_equal, other_bytes_give_no_text, unended_field_gives_no_text,
};

verus! {

/// A field holds a text and a NUL byte behind it, whatever follows.
pub open spec fn field_holds(field: Seq<u8>, text: Seq<char>) -> bool {
    no_zero(encode_utf8(text)) && exists|rest: Seq<u8>|
        field == #[trigger] (encode_utf8(text) + seq![0u8] + rest)
}

/// What stands in a field before its first NUL byte, or all of it, is no UTF-8.
pub open spec fn field_is_garbled(field: Seq<u8>) -> bool {
    ||| no_zero(field) && !valid_utf8(field)
    ||| exists|b: Seq<u8>, rest: Seq<u8>|
        field == #[trigger] (b + seq![0u8] + rest) && no_zero(b) && !valid_utf8(b)
}

/// What a field that must end in a NUL byte tells: the text that it holds, nothing if it
/// has no NUL byte or is garbled.
pub open spec fn field_tells(field: Seq<u8>, text: Seq<char>) -> bool {
    ||| field_holds(field, text)
    ||| text.len() == 0 && (no_zero(field) || field_is_garbled(field))
}

/// What the field of a process name tells, which may fill up.
pub open spec fn name_tells(field: Seq<u8>, text: Seq<char>) -> bool {
    ||| field_holds(field, text)
    ||| no_zero(field) && field == encode_utf8(text)
    ||| text == "<invalid>"@ && field_is_garbled(field)
}

/// What a field tells is what is read out of it.
pub proof fn told_text_is_read(field: Seq<u8>, text: Seq<char>)
    requires
        field_tells(field, text),
    ensures
        terminated_field_text(field) == text,
{
    let otherwise = Seq::<char>::empty();
    if field_holds(field, text) {
        let rest = choose|rest: Seq<u8>|
            field == #[trigger] (encode_utf8(text) + seq![0u8] + rest);
        field_text_reads_back(text, rest, otherwise);
    } else if no_zero(field) {
        unended_field_gives_no_text(field);
    } else {
        let (b, rest) = choose|b: Seq<u8>, rest: Seq<u8>|
            field == #[trigger] (b + seq![0u8] + rest) && no_zero(b) && !valid_utf8(b);
        other_bytes_give_no_text(b, rest, otherwise);
    }
    assert(terminated_field_text(field) =~= text);
}

/// What the field of a process name tells is what is read out of it.
pub proof fn told_name_is_read(field: Seq<u8>, text: Seq<char>)
    requires
        name_tells(field, text),
    ensures
        filled_field_text(field, "<invalid>"@) == text,
{
    let otherwise = "<invalid>"@;
    if field_holds(field, text) {
        let rest = choose|rest: Seq<u8>|
            field == #[trigger] (encode_utf8(text) + seq![0u8] + rest);
        field_text_reads_back(text, rest, otherwise);
    } else if no_zero(field) && field == encode_utf8(text) {
        field_text_reads_back(text, seq![], otherwise);
    } else if no_zero(field) && !valid_utf8(field) {
        other_bytes_give_no_text(field, seq![], otherwise);
    } else {
        let (b, rest) = choose|b: Seq<u8>, rest: Seq<u8>|
            field == #[trigger] (b + seq![0u8] + rest) && no_zero(b) && !valid_utf8(b);
        other_bytes_give_no_text(b, rest, otherwise);
    }
}

/// A value says what it holds, and members and objects say what each of theirs does, in
/// order.
pub proof fn values_say_what_they_hold(
    n: u64,
    m: u64,
    b: bool,
    t: String,
    members: Vec<(&'static str, Scalar)>,
    object: Seq<(&'static str, JsonValue)>,
    i: int,
)
    ensures
        scalar_view(Scalar::Null) == ScalarView::Null,
        scalar_view(Scalar::Bool(b)) == ScalarView::Bool(b),
        scalar_view(Scalar::Number(n)) == ScalarView::Number(n as int),
        scalar_view(Scalar::Ratio { num: n, den: m }) == (ScalarView::Ratio {
            num: n as int,
            den: m as int,
        }),
        scalar_view(Scalar::Percent { part: n, whole: m }) == (ScalarView::Percent {
            part: n as int,
            whole: m as int,
        }),
        scalar_view(Scalar::Text(t)) == ScalarView::Text(t@),
        json_view(JsonValue::Scalar(Scalar::Number(n))) == JsonView::Scalar(
            scalar_view(Scalar::Number(n)),
        ),
        json_view(JsonValue::Object(members)) is Object,
        json_view(JsonValue::Object(members))->Object_0.len() == members@.len(),
        0 <= i < members@.len() ==> json_view(JsonValue::Object(members))->Object_0[i] == (
            members@[i].0@,
            scalar_view(members@[i].1),
        ),
        object_view(object).len() == object.len(),
        0 <= i < object.len() ==> object_view(object)[i] == (object[i].0@, json_view(object[i].1)),
{
}

/// The text of a scalar member.
pub open spec fn says_text(m: (Seq<char>, JsonView), name: Seq<char>, text: Seq<char>) -> bool {
    m == (name, JsonView::Scalar(ScalarView::Text(text)))
}

/// The number of a scalar member.
pub open spec fn says_number(m: (Seq<char>, JsonView), name: Seq<char>, n: int) -> bool {
    m == (name, JsonView::Scalar(ScalarView::Number(n)))
}

/// A member that tells a text if there is one, and is null otherwise.
pub open spec fn says_any_text(
    m: (Seq<char>, JsonView),
    name: Seq<char>,
    text: Option<String>,
) -> bool {
    &&& m.0 == name
    &&& text is Some ==> m.1 == JsonView::Scalar(ScalarView::Text(text->0@))
    &&& text is None ==> m.1 == JsonView::Scalar(ScalarView::Null)
}

/// A member whose own members are these.
pub open spec fn says_members(
    m: (Seq<char>, JsonView),
    name: Seq<char>,
    members: Seq<(Seq<char>, ScalarView)>,
) -> bool {
    m.0 == name && m.1 is Object && m.1->Object_0 == members
}

/// The JSON object tells the process: who ran, who started it, and as whom.
pub proof fn json_tells_the_process(flow: EnrichedFlow, comm: Seq<char>)
    requires
        name_tells(flow.event.comm@, comm),
    ensures
        json_of(flow).len() == 27,
        says_number(json_of(flow)[0], "pid"@, flow.event.pid as int),
        json_of(flow)[1].0 == "ppid"@,
        flow.ppid is Some ==> says_number(json_of(flow)[1], "ppid"@, flow.ppid->0 as int),
        flow.ppid is None ==> json_of(flow)[1].1 == JsonView::Scalar(ScalarView::Null),
        says_number(json_of(flow)[2], "uid"@, flow.event.uid as int),
        says_text(json_of(flow)[3], "comm"@, comm),
        says_any_text(json_of(flow)[4], "exe"@, flow.exe_path),
        says_any_text(json_of(flow)[5], "cmdline"@, flow.cmdline),
{
    told_name_is_read(flow.event.comm@, comm);
}

/// An address is its bytes in decimal, the lowest first, with dots between them.
pub proof fn addresses_are_written_byte_by_byte(a: u8, b: u8, c: u8, d: u8, ip: u32)
    requires
        ip == a + 0x100 * b + 0x1_0000 * c + 0x100_0000 * d,
    ensures
        dotted(ip) == decimal(a as nat) + "."@ + decimal(b as nat) + "."@ + decimal(c as nat)
            + "."@ + decimal(d as nat),
{
    reveal_strlit(".");
    assert("."@ =~= seq!['.']);
    assert(ip % 0x100 == a && ip / 0x100 % 0x100 == b && ip / 0x1_0000 % 0x100 == c && ip
        / 0x100_0000 == d);
}

/// The JSON object tells both ends of a flow, its transport and its direction.
pub proof fn json_tells_the_endpoints(flow: EnrichedFlow)
    ensures
        says_text(json_of(flow)[6], "src_ip"@, dotted(flow.event.src_ip)),
        says_text(json_of(flow)[7], "dst_ip"@, dotted(flow.event.dst_ip)),
        says_number(json_of(flow)[8], "src_port"@, flow.event.src_port as int),
        says_number(json_of(flow)[9], "dst_port"@, flow.event.dst_port as int),
        flow.event.protocol == 6 ==> says_text(json_of(flow)[10], "protocol"@, "TCP"@),
        flow.event.protocol != 6 ==> says_text(json_of(flow)[10], "protocol"@, "UDP"@),
        flow.event.direction == 1 ==> says_text(json_of(flow)[11], "direction"@, "outbound"@),
        flow.event.direction != 1 ==> says_text(json_of(flow)[11], "direction"@, "inbound"@),
{
}

/// The JSON object tells how much was sent and received.
pub proof fn json_tells_the_volume(flow: EnrichedFlow)
    ensures
        says_number(json_of(flow)[12], "bytes_sent"@, flow.event.bytes_sent as int),
        says_number(json_of(flow)[13], "bytes_recv"@, flow.event.bytes_recv as int),
        says_number(json_of(flow)[14], "pkts_sent"@, flow.event.pkts_sent as int),
        says_number(json_of(flow)[15], "pkts_recv"@, flow.event.pkts_recv as int),
{
}

/// A member of its own that tells a number.
pub open spec fn num(name: Seq<char>, n: int) -> (Seq<char>, ScalarView) {
    (name, ScalarView::Number(n))
}

/// A member of its own that tells a part of a whole.
pub open spec fn part_of(name: Seq<char>, n: int, whole: int) -> (Seq<char>, ScalarView) {
    (name, ScalarView::Ratio { num: n, den: whole })
}

/// The JSON object tells round-trip times in milliseconds, retransmits by their kind,
/// and the congestion window.
pub proof fn json_tells_the_quality(flow: EnrichedFlow)
    ensures
        ({
            let e = flow.event;
            &&& says_members(
                json_of(flow)[16],
                "rtt_ms"@,
                seq![
                    part_of("min"@, e.srtt_us_min as int, 1000),
                    part_of("max"@, e.srtt_us_max as int, 1000),
                    part_of("final"@, e.srtt_us_final as int, 1000),
                    part_of("jitter_max"@, e.rttvar_us_max as int, 1000),
                ],
            )
            &&& json_of(flow)[17].0 == "retransmits"@ && json_of(flow)[17].1 is Object
            &&& json_of(flow)[17].1->Object_0.len() == 7
            &&& json_of(flow)[17].1->Object_0.take(6) == seq![
                num("total"@, e.retransmit_count as int),
                num("bytes"@, e.retransmit_bytes as int),
                num("rto"@, e.retransmit_rto_count as int),
                num("fast"@, e.retransmit_fast_count as int),
                num("tlp"@, e.retransmit_tlp_count as int),
                num("sack_blocks"@, e.sack_blocks_received as int),
            ]
            &&& json_of(flow)[17].1->Object_0[6].0 == "rate_pct"@
            &&& e.pkts_sent > 0 ==> json_of(flow)[17].1->Object_0[6].1 == (ScalarView::Percent {
                part: e.retransmit_count as int,
                whole: e.pkts_sent as int,
            })
            &&& e.pkts_sent == 0 ==> json_of(flow)[17].1->Object_0[6].1 == (ScalarView::Percent {
                part: 0,
                whole: 1,
            })
            &&& says_members(
                json_of(flow)[18],
                "congestion"@,
                seq![
                    num("cwnd_min"@, e.cwnd_min as int),
                    num("cwnd_max"@, e.cwnd_max as int),
                    num("ecn_signals"@, e.ecn_signals as int),
                ],
            )
        }),
{
    let o = json_of(flow)[17].1->Object_0;
    assert(o.take(6) =~= seq![o[0], o[1], o[2], o[3], o[4], o[5]]);
}

/// The tls member tells the server name that its field holds and how long the handshake
/// took; without TLS it is null.
pub proof fn json_tells_the_tls(flow: EnrichedFlow, sni: Seq<char>)
    ensures
        json_of(flow)[19].0 == "tls"@,
        flow.event.has_tls == 1 && field_tells(flow.event.tls_sni@, sni) ==> says_members(
            json_of(flow)[19],
            "tls"@,
            seq![
                ("sni"@, ScalarView::Text(sni)),
                part_of("handshake_ms"@, flow.event.tls_handshake_ns as int, 1_000_000),
            ],
        ),
        flow.event.has_tls != 1 ==> json_of(flow)[19].1 == JsonView::Scalar(ScalarView::Null),
{
    if field_tells(flow.event.tls_sni@, sni) {
        told_text_is_read(flow.event.tls_sni@, sni);
    }
}

/// The http member tells the host, method and path that the HTTP fields hold, the status
/// and the response time, whatever the TLS fields hold; without HTTP it is null.
pub proof fn json_tells_the_http(
    flow: EnrichedFlow,
    host: Seq<char>,
    method: Seq<char>,
    path: Seq<char>,
)
    ensures
        json_of(flow)[20].0 == "http"@,
        flow.event.has_http == 1 ==> json_of(flow)[20].1 is Object
            && json_of(flow)[20].1->Object_0.len() == 5,
        flow.event.has_http == 1 && field_tells(flow.event.http_host@, host)
            ==> json_of(flow)[20].1->Object_0[0] == ("host"@, ScalarView::Text(host)),
        flow.event.has_http == 1 && field_tells(flow.event.http_method@, method)
            ==> json_of(flow)[20].1->Object_0[1] == ("method"@, ScalarView::Text(method)),
        flow.event.has_http == 1 && field_tells(flow.event.http_path@, path)
            ==> json_of(flow)[20].1->Object_0[2] == ("path"@, ScalarView::Text(path)),
        flow.event.has_http == 1 ==> json_of(flow)[20].1->Object_0[3] == num(
            "status"@,
            flow.event.http_status as int,
        ) && json_of(flow)[20].1->Object_0[4] == part_of(
            "app_rtt_ms"@,
            flow.event.app_response_time_ns as int,
            1_000_000,
        ),
        flow.event.has_http != 1 ==> json_of(flow)[20].1 == JsonView::Scalar(ScalarView::Null),
{
    if field_tells(flow.event.http_host@, host) {
        told_text_is_read(flow.event.http_host@, host);
    }
    if field_tells(flow.event.http_method@, method) {
        told_text_is_read(flow.event.http_method@, method);
    }
    if field_tells(flow.event.http_path@, path) {
        told_text_is_read(flow.event.http_path@, path);
    }
}

/// The http member depends on the HTTP fields alone and gives each of them: flows that
/// agree in these agree in it, and flows that agree in it agree in their texts, their
/// status and their response time.
pub proof fn http_member_is_the_http_fields(a: EnrichedFlow, b: EnrichedFlow)
    requires
        a.event.has_http == 1,
        b.event.has_http == 1,
    ensures
        a.event.http_host@ == b.event.http_host@ && a.event.http_method@ == b.event.http_method@
            && a.event.http_path@ == b.event.http_path@ && a.event.http_status
            == b.event.http_status && a.event.app_response_time_ns == b.event.app_response_time_ns
            ==> json_of(a)[20] == json_of(b)[20],
        json_of(a)[20] == json_of(b)[20] ==> {
            &&& terminated_field_text(a.event.http_host@) == terminated_field_text(
                b.event.http_host@,
            )
            &&& terminated_field_text(a.event.http_method@) == terminated_field_text(
                b.event.http_method@,
            )
            &&& terminated_field_text(a.event.http_path@) == terminated_field_text(
                b.event.http_path@,
            )
            &&& a.event.http_status == b.event.http_status
            &&& a.event.app_response_time_ns == b.event.app_response_time_ns
        },
{
    let x = json_of(a)[20].1->Object_0;
    let y = json_of(b)[20].1->Object_0;
    assert(x.len() == 5 && y.len() == 5);
    if json_of(a)[20] == json_of(b)[20] {
        assert(x[0] == y[0] && x[1] == y[1] && x[2] == y[2] && x[3] == y[3] && x[4] == y[4]);
    }
}

/// The JSON object tells when the connection was made, how long it lasted and how long
/// the first byte took.
pub proof fn json_tells_the_timing(flow: EnrichedFlow)
    ensures
        says_members(
            json_of(flow)[21],
            "timing"@,
            seq![
                num("connect_ts_ns"@, flow.event.connect_ts_ns as int),
                part_of("duration_ms"@, flow.event.duration_ns as int, 1_000_000),
                part_of("ttfb_ms"@, flow.event.time_to_first_byte_ns as int, 1_000_000),
            ],
        ),
{
}

/// A text if there is one, null otherwise.
pub open spec fn is_any_text(v: ScalarView, text: Option<String>) -> bool {
    &&& text is Some ==> v == ScalarView::Text(text->0@)
    &&& text is None ==> v == ScalarView::Null
}

/// The k8s member tells pod, namespace and container if the pod is known, and is null
/// otherwise.
pub proof fn json_tells_the_pod(flow: EnrichedFlow)
    ensures
        json_of(flow)[22].0 == "k8s"@,
        flow.k8s_pod is Some ==> {
            let o = json_of(flow)[22].1->Object_0;
            &&& json_of(flow)[22].1 is Object && o.len() == 3
            &&& o[0].0 == "pod"@ && is_any_text(o[0].1, flow.k8s_pod)
            &&& o[1].0 == "namespace"@ && is_any_text(o[1].1, flow.k8s_namespace)
            &&& o[2].0 == "container"@ && is_any_text(o[2].1, flow.k8s_container)
        },
        flow.k8s_pod is None ==> json_of(flow)[22].1 == JsonView::Scalar(ScalarView::Null),
{
}

/// A text that spells a number in hexadecimal behind `0x`.
pub open spec fn spells_hex(t: Seq<char>, n: int) -> bool {
    t.len() > 2 && t[0] == '0' && t[1] == 'x' && hex_value(t.skip(2)) == n
}

/// The causal member tells a flow's chain, its parent chain and its depth, and the
/// chains read back; a flow of no chain has none.
pub proof fn json_tells_the_chain(flow: EnrichedFlow)
    ensures
        json_of(flow)[23].0 == "causal"@,
        flow.event.chain_id != 0 ==> {
            let o = json_of(flow)[23].1->Object_0;
            &&& json_of(flow)[23].1 is Object && o.len() == 3
            &&& o[0].0 == "chain_id"@ && o[0].1 is Text
            &&& spells_hex(o[0].1->Text_0, flow.event.chain_id as int)
            &&& o[1].0 == "parent_chain_id"@ && o[1].1 is Text
            &&& spells_hex(o[1].1->Text_0, flow.event.parent_chain_id as int)
            &&& o[2] == num("depth"@, flow.event.chain_depth as int)
        },
        flow.event.chain_id == 0 ==> json_of(flow)[23].1 == JsonView::Scalar(ScalarView::Null),
{
    hexadecimal_reads_back(flow.event.chain_id as nat);
    hexadecimal_reads_back(flow.event.parent_chain_id as nat);
}

/// The JSON object tells whether the flow leaves the private networks, what it speaks,
/// and why it closed.
pub proof fn json_tells_the_end(flow: EnrichedFlow)
    ensures
        json_of(flow)[24] == ("is_external"@, JsonView::Scalar(
            ScalarView::Bool(flow.is_external),
        )),
        says_any_text(json_of(flow)[25], "protocol_guess"@, flow.protocol_guess),
        json_of(flow)[26].0 == "close_reason"@,
        flow.event.close_reason == 1 ==> says_text(json_of(flow)[26], "close_reason"@, "clean"@),
        flow.event.close_reason == 2 ==> says_text(json_of(flow)[26], "close_reason"@, "reset"@),
        flow.event.close_reason == 3 ==> says_text(
            json_of(flow)[26],
            "close_reason"@,
            "timeout"@,
        ),
        flow.event.close_reason == 4 ==> says_text(
            json_of(flow)[26],
            "close_reason"@,
            "local_close"@,
        ),
        flow.event.close_reason == 0 || flow.event.close_reason > 4 ==> says_text(
            json_of(flow)[26],
            "close_reason"@,
            "unknown"@,
        ),
{
}

proof fn parts_are_told_apart(
    c: char,
    a: Seq<char>,
    x: Seq<char>,
    b: Seq<char>,
    y: Seq<char>,
)
    requires
        !a.contains(c),
        !b.contains(c),
        x.len() > 0 && x[0] == c,
        y.len() > 0 && y[0] == c,
        a + x == b + y,
    ensures
        a == b,
        x == y,
{
    let s = a + x;
    if a.len() < b.len() {
        assert(s[a.len() as int] == c && s[a.len() as int] == b[a.len() as int]);
    }
    if b.len() < a.len() {
        assert(s[b.len() as int] == c && s[b.len() as int] == a[b.len() as int]);
    }
    assert(a =~= s.take(a.len() as int) && b =~= s.take(a.len() as int));
    assert(x =~= s.skip(a.len() as int) && y =~= s.skip(a.len() as int));
}

proof fn no_space_in_hexadecimal(n: nat)
    ensures
        !hexadecimal(n).contains(' '),
{
    hexadecimal_reads_back(n);
    let t = hexadecimal(n);
    assert forall|i: int| 0 <= i < t.len() implies #[trigger] t[i] != ' ' by {
        if i >= 2 {
            assert('0' as int <= t[i] as int <= '9' as int || 'a' as int <= t[i] as int
                <= 'f' as int);
        }
    }
}

/// The causal line names chain, parent and depth, in this order, and each reads back
/// from what stands behind its name.
pub proof fn causal_line_tells_the_chain(e: FlowEvent)
    ensures
        exists|chain: Seq<char>, parent: Seq<char>, depth: Seq<char>|
            {
                &&& causal_line(e) == seq![
                    PieceView::Text(
                        #[trigger] ("    ├─ causal: chain="@ + chain + " parent="@ + parent
                            + " depth="@ + depth),
                    ),
                ]
                &&& spells_hex(chain, e.chain_id as int) && !chain.contains(' ')
                &&& spells_hex(parent, e.parent_chain_id as int) && !parent.contains(' ')
                &&& parse_number(depth, 0xffff_ffff) == Some(e.chain_depth as int)
            },
{
    let chain = hexadecimal(e.chain_id as nat);
    let parent = hexadecimal(e.parent_chain_id as nat);
    let depth = decimal(e.chain_depth as nat);
    hexadecimal_reads_back(e.chain_id as nat);
    hexadecimal_reads_back(e.parent_chain_id as nat);
    no_space_in_hexadecimal(e.chain_id as nat);
    no_space_in_hexadecimal(e.parent_chain_id as nat);
    decimal_reads_back(e.chain_depth as nat, 0xffff_ffff);
    assert(causal_line(e) =~= seq![
        PieceView::Text(
            "    ├─ causal: chain="@ + chain + " parent="@ + parent + " depth="@ + depth,
        ),
    ]);
}

/// Flows with the same causal line stand at the same place: in one chain, with one
/// parent chain, at one depth.
pub proof fn causal_lines_tell_places_apart(a: FlowEvent, b: FlowEvent)
    ensures
        causal_line(a) == causal_line(b) ==> a.chain_id == b.chain_id && a.parent_chain_id
            == b.parent_chain_id && a.chain_depth == b.chain_depth,
{
    if causal_line(a) == causal_line(b) {
        let head = "    ├─ causal: chain="@;
        let (pa, da) = (" parent="@, " depth="@);
        reveal_strlit(" parent=");
        reveal_strlit(" depth=");
        let (c1, c2) = (hexadecimal(a.chain_id as nat), hexadecimal(b.chain_id as nat));
        let p1 = hexadecimal(a.parent_chain_id as nat);
        let p2 = hexadecimal(b.parent_chain_id as nat);
        let (d1, d2) = (decimal(a.chain_depth as nat), decimal(b.chain_depth as nat));
        no_space_in_hexadecimal(a.chain_id as nat);
        no_space_in_hexadecimal(b.chain_id as nat);
        no_space_in_hexadecimal(a.parent_chain_id as nat);
        no_space_in_hexadecimal(b.parent_chain_id as nat);
        let t1 = head + c1 + pa + p1 + da + d1;
        let t2 = head + c2 + pa + p2 + da + d2;
        assert(causal_line(a)[0] == PieceView::Text(t1));
        assert(causal_line(b)[0] == PieceView::Text(t2));
        assert(t1 == t2);
        let (x1, x2) = (pa + (p1 + (da + d1)), pa + (p2 + (da + d2)));
        assert(t1.skip(head.len() as int) =~= c1 + x1);
        assert(t2.skip(head.len() as int) =~= c2 + x2);
        parts_are_told_apart(' ', c1, x1, c2, x2);
        assert(x1.skip(pa.len() as int) =~= p1 + (da + d1));
        assert(x2.skip(pa.len() as int) =~= p2 + (da + d2));
        parts_are_told_apart(' ', p1, da + d1, p2, da + d2);
        assert((da + d1).skip(da.len() as int) =~= d1);
        assert((da + d2).skip(da.len() as int) =~= d2);
        numbers_written_the_same_are_equal(a.chain_id as nat, b.chain_id as nat);
        numbers_written_the_same_are_equal(a.parent_chain_id as nat, b.parent_chain_id as nat);
        numbers_written_the_same_are_equal(a.chain_depth as nat, b.chain_depth as nat);
    }
}

} // verus!
