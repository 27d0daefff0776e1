//! What the pretty output shows: which lines there are, in which order, and
//! what each of them says.

use vstd::prelude::*;
use vstd::string::*;
use vstd::utf8::{encode_utf8, encode_utf8_decode_utf8};
use crate::common::FlowEvent;
use crate::enricher::{dotted, EnrichedFlow};
use crate::field_text::terminated_field_text;
use crate::numbers::decimal;
use crate::output_laws::{field_tells, name_tells, told_name_is_read, told_text_is_read};
use crate::printer::{
    app_context, causal_line, column, flow_cuts_cleanly, flow_line, header, http_line, k8s_line,
    line_if, line_view, lines_view, piece_view, pretty, quality_line, shortened, shown_command,
    timing_line, tls_line, Piece, PieceView,
};
use crate::quantity::byte_text;
use crate::text_laws::{
    encoding_goes_on, text_is_cut_between_characters, text_is_not_cut_inside_a_character,
};

verus! {

/// A piece says what it holds, and a line says what each of its pieces does, in order.
pub proof fn pieces_say_what_they_hold(
    n: u64,
    m: u64,
    width: usize,
    t: String,
    line: Vec<Piece>,
    lines: Seq<Vec<Piece>>,
    i: int,
)
    ensures
        piece_view(Piece::Text(t)) == PieceView::Text(t@),
        piece_view(Piece::Ratio { num: n, den: m, width }) == (PieceView::Ratio {
            num: n as int,
            den: m as int,
            width: width as int,
        }),
        line_view(line@).len() == line@.len(),
        0 <= i < line@.len() ==> line_view(line@)[i] == piece_view(line@[i]),
        lines_view(lines).len() == lines.len(),
        0 <= i < lines.len() ==> lines_view(lines)[i] == line_view(lines[i]@),
{
}

/// 1 if it is so, 0 otherwise.
pub open spec fn one_if(b: bool) -> int {
    if b {
        1
    } else {
        0
    }
}

/// A line that is due, and the line.
type Due = (bool, Seq<PieceView>);

proof fn grouped(
    s: Seq<Seq<PieceView>>,
    a: bool,
    la: Seq<PieceView>,
    b: bool,
    lb: Seq<PieceView>,
)
    ensures
        s + (line_if(a, la) + line_if(b, lb)) == s + line_if(a, la) + line_if(b, lb),
        !a && !b ==> s + line_if(a, la) + line_if(b, lb) == s,
        s + Seq::<Seq<PieceView>>::empty() == s,
{
    assert(s + (line_if(a, la) + line_if(b, lb)) =~= s + line_if(a, la) + line_if(b, lb));
    assert(s + Seq::<Seq<PieceView>>::empty() =~= s);
}

proof fn grouped_in_three(
    s: Seq<Seq<PieceView>>,
    a: bool,
    la: Seq<PieceView>,
    b: bool,
    lb: Seq<PieceView>,
    c: bool,
    lc: Seq<PieceView>,
)
    ensures
        s + (line_if(a, la) + line_if(b, lb) + line_if(c, lc)) == s + line_if(a, la) + line_if(
            b,
            lb,
        ) + line_if(c, lc),
        !a && !b && !c ==> s + line_if(a, la) + line_if(b, lb) + line_if(c, lc) == s,
{
    assert(s + (line_if(a, la) + line_if(b, lb) + line_if(c, lc)) =~= s + line_if(a, la) + line_if(
        b,
        lb,
    ) + line_if(c, lc));
}

proof fn appended(before: Seq<Seq<PieceView>>, d: Due, at: Seq<int>) -> (after: Seq<
    Seq<PieceView>,
>)
    ensures
        after == before + line_if(d.0, d.1),
        after.len() == before.len() + one_if(d.0),
        d.0 ==> after[before.len() as int] == d.1,
        forall|k: int|
            0 <= k < at.len() && 0 <= #[trigger] at[k] < before.len() ==> after[at[k]]
                == before[at[k]],
{
    before + line_if(d.0, d.1)
}

#[verifier::rlimit(60)]
proof fn stacked(
    first: Seq<PieceView>,
    a: Due,
    b: Due,
    c: Due,
    d: Due,
    e: Due,
    f: Due,
    g: Due,
    last: Seq<PieceView>,
)
    ensures
        ({
            let p = seq![first] + line_if(a.0, a.1) + line_if(b.0, b.1) + line_if(c.0, c.1)
                + line_if(d.0, d.1) + line_if(e.0, e.1) + line_if(f.0, f.1) + line_if(g.0, g.1)
                + seq![last];
            let ia = one_if(a.0);
            let ib = ia + one_if(b.0);
            let ic = ib + one_if(c.0);
            let id = ic + one_if(d.0);
            let ie = id + one_if(e.0);
            let jf = ie + one_if(f.0);
            let ig = jf + one_if(g.0);
            &&& p.len() == ig + 2
            &&& p[0] == first
            &&& a.0 ==> p[ia] == a.1
            &&& b.0 ==> p[ib] == b.1
            &&& c.0 ==> p[ic] == c.1
            &&& d.0 ==> p[id] == d.1
            &&& e.0 ==> p[ie] == e.1
            &&& f.0 ==> p[jf] == f.1
            &&& g.0 ==> p[ig] == g.1
            &&& p[ig + 1] == last
        }),
{
    let ia = one_if(a.0);
    let ib = ia + one_if(b.0);
    let ic = ib + one_if(c.0);
    let id = ic + one_if(d.0);
    let ie = id + one_if(e.0);
    let jf = ie + one_if(f.0);
    let ig = jf + one_if(g.0);
    let at = seq![0, ia, ib, ic, id, ie, jf, ig];
    assert(at[0] == 0 && at[1] == ia && at[2] == ib && at[3] == ic && at[4] == id && at[5] == ie
        && at[6] == jf && at[7] == ig);
    let s0 = seq![first];
    let s1 = appended(s0, a, at);
    let s2 = appended(s1, b, at);
    let s3 = appended(s2, c, at);
    let s4 = appended(s3, d, at);
    let s5 = appended(s4, e, at);
    let s6 = appended(s5, f, at);
    let s7 = appended(s6, g, at);
    let p = appended(s7, (true, last), at);
    assert(p == s7 + seq![last]);
}

/// Each line stands where those before it leave it, and only if there is something to
/// say: the flow, its quality if packets were lost or congestion was signalled, TLS if a
/// server name was seen, HTTP, the causal chain if the flow has a parent in it, the
/// binary, the command line and, below one of these, the pod, and at last the timing.
pub proof fn lines_stand_in_order(flow: EnrichedFlow)
    ensures
        ({
            let e = flow.event;
            let p = pretty(flow);
            let q = one_if(e.retransmit_count > 0 || e.ecn_signals > 0);
            let t = q + one_if(e.has_tls == 1 && terminated_field_text(e.tls_sni@).len() > 0);
            let h = t + one_if(e.has_http == 1);
            let c = h + one_if(e.chain_depth > 0);
            let x = c + one_if(flow.exe_path is Some);
            let m = x + one_if(flow.cmdline is Some);
            let k = m + one_if(m > c && flow.k8s_pod is Some);
            &&& p.len() == k + 2
            &&& p[0] == flow_line(flow)
            &&& q > 0 ==> p[q] == quality_line(e)
            &&& t > q ==> p[t] == tls_line(e)
            &&& h > t ==> p[h] == http_line(e)
            &&& c > h ==> p[c] == causal_line(e)
            &&& x > c ==> p[x] == seq![
                PieceView::Text("    ├─ process: exe="@ + flow.exe_path->0@),
            ]
            &&& m > x ==> p[m] == seq![
                PieceView::Text("    ├─ cmdline: "@ + shown_command(flow.cmdline->0@)),
            ]
            &&& k > m ==> p[k] == k8s_line(flow)
            &&& p[k + 1] == timing_line(e)
        }),
{
    let e = flow.event;
    let tls = e.has_tls == 1 && terminated_field_text(e.tls_sni@).len() > 0;
    let known = flow.exe_path is Some || flow.cmdline is Some;
    let lossy = e.retransmit_count > 0 || e.ecn_signals > 0;
    let exe = seq![PieceView::Text("    ├─ process: exe="@ + flow.exe_path->0@)];
    let cmd = seq![PieceView::Text("    ├─ cmdline: "@ + shown_command(flow.cmdline->0@))];
    let (q, t, h, c) = (quality_line(e), tls_line(e), http_line(e), causal_line(e));
    let (first, k, last) = (flow_line(flow), k8s_line(flow), timing_line(e));
    let s1 = seq![first] + line_if(lossy, q);
    let s4 = s1 + line_if(tls, t) + line_if(e.has_http == 1, h) + line_if(e.chain_depth > 0, c);
    grouped(s1, tls, t, e.has_http == 1, h);
    grouped_in_three(
        s4,
        flow.exe_path is Some,
        exe,
        flow.cmdline is Some,
        cmd,
        known && flow.k8s_pod is Some,
        k,
    );
    stacked(
        first,
        (lossy, q),
        (tls, t),
        (e.has_http == 1, h),
        (e.chain_depth > 0, c),
        (flow.exe_path is Some, exe),
        (flow.cmdline is Some, cmd),
        (known && flow.k8s_pod is Some, k),
        last,
    );
}

/// A text with spaces behind it up to `width` characters, and one more.
pub open spec fn cell(s: Seq<char>, width: nat) -> Seq<char> {
    Seq::new(
        (if s.len() < width {
            width
        } else {
            s.len()
        }) + 1,
        |i: int|
            if i < s.len() {
                s[i]
            } else {
                ' '
            },
    )
}

proof fn columns_are_cells(s: Seq<char>, width: int)
    requires
        0 <= width,
    ensures
        column(s, width) == cell(s, width as nat),
{
    reveal_strlit(" ");
    assert(column(s, width) =~= cell(s, width as nat));
}

/// A flow's line tells in columns its transport, its process, both ends, the direction,
/// the bytes sent and received, the last round-trip time, the retransmits and what it is
/// about.
pub proof fn flow_line_tells_the_flow(
    flow: EnrichedFlow,
    comm: Seq<char>,
    transport: Seq<char>,
    direction: Seq<char>,
    retransmits: Seq<char>,
)
    requires
        name_tells(flow.event.comm@, comm),
        flow.event.protocol == 6 ==> transport == "TCP"@,
        flow.event.protocol == 17 ==> transport == "UDP"@,
        flow.event.protocol != 6 && flow.event.protocol != 17 ==> transport == "???"@,
        flow.event.direction == 1 ==> direction == "→ out"@,
        flow.event.direction == 2 ==> direction == "← in"@,
        flow.event.direction != 1 && flow.event.direction != 2 ==> direction == "  ? "@,
        flow.event.retransmit_count > 0 ==> retransmits == "⚠ "@ + decimal(
            flow.event.retransmit_count as nat,
        ),
        flow.event.retransmit_count == 0 ==> retransmits == "  0"@,
    ensures
        ({
            let e = flow.event;
            flow_line(flow) == seq![
                PieceView::Text(
                    cell(transport, 6) + cell(comm, 16) + cell(
                        dotted(e.src_ip) + ":"@ + decimal(e.src_port as nat),
                        21,
                    ) + cell(dotted(e.dst_ip) + ":"@ + decimal(e.dst_port as nat), 21) + cell(
                        direction,
                        8,
                    ) + cell(byte_text(e.bytes_sent), 10) + cell(byte_text(e.bytes_recv), 10),
                ),
                PieceView::Ratio { num: e.srtt_us_final as int, den: 1000, width: 8 },
                PieceView::Text(" "@ + cell(retransmits, 6) + app_context(flow)),
            ]
        }),
{
    let e = flow.event;
    told_name_is_read(e.comm@, comm);
    columns_are_cells(transport, 6);
    columns_are_cells(comm, 16);
    columns_are_cells(dotted(e.src_ip) + ":"@ + decimal(e.src_port as nat), 21);
    columns_are_cells(dotted(e.dst_ip) + ":"@ + decimal(e.dst_port as nat), 21);
    columns_are_cells(direction, 8);
    columns_are_cells(byte_text(e.bytes_sent), 10);
    columns_are_cells(byte_text(e.bytes_recv), 10);
    columns_are_cells(retransmits, 6);
}

/// A flow is about the server name that was seen, else about the request that was seen,
/// else about what it speaks, else about the port that it goes to.
pub proof fn context_is_the_best_that_is_known(
    flow: EnrichedFlow,
    sni: Seq<char>,
    host: Seq<char>,
    method: Seq<char>,
    path: Seq<char>,
)
    requires
        field_tells(flow.event.tls_sni@, sni),
        field_tells(flow.event.http_host@, host),
        field_tells(flow.event.http_method@, method),
        field_tells(flow.event.http_path@, path),
    ensures
        ({
            let named = flow.event.has_tls == 1 && sni.len() > 0;
            let requested = !named && flow.event.has_http == 1;
            &&& named ==> app_context(flow) == "TLS/"@ + sni
            &&& requested ==> app_context(flow) == "HTTP "@ + host + " "@ + method + " "@ + path
            &&& !named && !requested && flow.protocol_guess is Some ==> app_context(flow)
                == flow.protocol_guess->0@
            &&& !named && !requested && flow.protocol_guess is None ==> app_context(flow)
                == "port/"@ + decimal(flow.event.dst_port as nat)
        }),
{
    told_text_is_read(flow.event.tls_sni@, sni);
    told_text_is_read(flow.event.http_host@, host);
    told_text_is_read(flow.event.http_method@, method);
    told_text_is_read(flow.event.http_path@, path);
    assert("HTTP "@ + host + " "@ + (method + " "@ + path) =~= "HTTP "@ + host + " "@ + method
        + " "@ + path);
}

/// The quality line tells the least and the largest round-trip time and the largest
/// jitter in milliseconds, then the retransmits by their kind, the congestion signals and
/// the bad states of congestion, each if there are any.
pub proof fn quality_line_tells_the_quality(
    e: FlowEvent,
    retransmits: Seq<char>,
    signals: Seq<char>,
    state: Seq<char>,
)
    requires
        e.retransmit_count == 0 ==> retransmits.len() == 0,
        e.retransmit_count > 0 ==> retransmits == " | retx="@ + decimal(e.retransmit_count as nat)
            + " [rto="@ + decimal(e.retransmit_rto_count as nat) + " fast="@ + decimal(
            e.retransmit_fast_count as nat,
        ) + " tlp="@ + decimal(e.retransmit_tlp_count as nat) + "]"@,
        e.ecn_signals == 0 ==> signals.len() == 0,
        e.ecn_signals > 0 ==> signals == " | ecn="@ + decimal(e.ecn_signals as nat),
        e.congestion_state_final == 4 ==> state == " | ⛔LOSS"@,
        e.congestion_state_final == 3 ==> state == " | ⚠RECOVERY"@,
        e.congestion_state_final == 2 ==> state == " | ⚠CWR"@,
        e.congestion_state_final < 2 || e.congestion_state_final > 4 ==> state.len() == 0,
    ensures
        quality_line(e) == seq![
            PieceView::Text("    ├─ quality: rtt="@),
            PieceView::Ratio { num: e.srtt_us_min as int, den: 1000, width: 0 },
            PieceView::Text("ms-"@),
            PieceView::Ratio { num: e.srtt_us_max as int, den: 1000, width: 0 },
            PieceView::Text("ms jitter="@),
            PieceView::Ratio { num: e.rttvar_us_max as int, den: 1000, width: 0 },
            PieceView::Text("ms"@ + retransmits + signals + state),
        ],
{
    assert(retransmits =~= crate::printer::retransmit_note(e));
    assert(signals =~= crate::printer::ecn_note(e));
    assert(state =~= crate::printer::congestion_note(e));
}

/// The line of TLS tells the server name, and how long the handshake took if that is
/// known.
pub proof fn tls_line_tells_the_tls(e: FlowEvent, sni: Seq<char>)
    requires
        field_tells(e.tls_sni@, sni),
    ensures
        e.tls_handshake_ns > 0 ==> tls_line(e) == seq![
            PieceView::Text("    ├─ tls: sni="@ + sni),
            PieceView::Text(" handshake="@),
            PieceView::Ratio { num: e.tls_handshake_ns as int, den: 1_000_000, width: 0 },
            PieceView::Text("ms"@),
        ],
        e.tls_handshake_ns == 0 ==> tls_line(e) == seq![
            PieceView::Text("    ├─ tls: sni="@ + sni),
        ],
{
    told_text_is_read(e.tls_sni@, sni);
}

/// The line of HTTP tells method and path, then host, status and response time, each if
/// it is known.
pub proof fn http_line_tells_the_request(
    e: FlowEvent,
    method: Seq<char>,
    path: Seq<char>,
    host: Seq<char>,
    status: Seq<char>,
    named: Seq<char>,
)
    requires
        field_tells(e.http_method@, method),
        field_tells(e.http_path@, path),
        field_tells(e.http_host@, host),
        host.len() == 0 ==> named.len() == 0,
        host.len() > 0 ==> named == " host="@ + host,
        e.http_status == 0 ==> status.len() == 0,
        e.http_status > 0 ==> status == " status="@ + decimal(e.http_status as nat),
    ensures
        http_line(e)[0] == PieceView::Text(
            "    ├─ http: "@ + method + " "@ + path + named + status,
        ),
        e.app_response_time_ns == 0 ==> http_line(e).len() == 1,
        e.app_response_time_ns > 0 ==> http_line(e).skip(1) == seq![
            PieceView::Text(" app_rtt="@),
            PieceView::Ratio { num: e.app_response_time_ns as int, den: 1_000_000, width: 0 },
            PieceView::Text("ms"@),
        ],
{
    told_text_is_read(e.http_method@, method);
    told_text_is_read(e.http_path@, path);
    told_text_is_read(e.http_host@, host);
    assert(named =~= crate::printer::host_note(e));
    assert(status =~= crate::printer::status_note(e));
    assert("    ├─ http: "@ + (method + " "@ + path) + named + status =~= "    ├─ http: "@ + method
        + " "@ + path + named + status);
}

/// The line of timing tells how long the flow lasted, how long the first byte took and
/// why it closed.
pub proof fn timing_line_tells_the_times(e: FlowEvent, close: Seq<char>)
    requires
        e.close_reason == 1 ==> close == "clean"@,
        e.close_reason == 2 ==> close == "RST"@,
        e.close_reason == 3 ==> close == "timeout"@,
        e.close_reason == 4 ==> close == "local"@,
        e.close_reason == 0 || e.close_reason > 4 ==> close == "?"@,
    ensures
        timing_line(e) == seq![
            PieceView::Text("    └─ timing: duration="@),
            PieceView::Ratio { num: e.duration_ns as int, den: 1_000_000, width: 0 },
            PieceView::Text("ms ttfb="@),
            PieceView::Ratio { num: e.time_to_first_byte_ns as int, den: 1_000_000, width: 0 },
            PieceView::Text("ms close="@ + close),
        ],
{
}

/// The line of Kubernetes tells pod, namespace and container, with a question mark for
/// what is unknown.
pub proof fn k8s_line_tells_the_pod(
    flow: EnrichedFlow,
    pod: Seq<char>,
    namespace: Seq<char>,
    container: Seq<char>,
)
    requires
        flow.k8s_pod is Some ==> pod == flow.k8s_pod->0@,
        flow.k8s_pod is None ==> pod == "?"@,
        flow.k8s_namespace is Some ==> namespace == flow.k8s_namespace->0@,
        flow.k8s_namespace is None ==> namespace == "?"@,
        flow.k8s_container is Some ==> container == flow.k8s_container->0@,
        flow.k8s_container is None ==> container == "?"@,
    ensures
        k8s_line(flow) == seq![
            PieceView::Text(
                "    ├─ k8s: pod="@ + pod + " ns="@ + namespace + " container="@ + container,
            ),
        ],
{
}

/// A text that fits stays as it is; of a longer one the part that takes one byte less
/// stays, and an ellipsis stands for the rest.
pub proof fn long_texts_are_shortened(front: Seq<char>, rest: Seq<char>, max: nat)
    ensures
        encode_utf8(front).len() <= max ==> shortened(front, max) == front,
        encode_utf8(front).len() + 1 == max && encode_utf8(rest).len() > 1 ==> shortened(
            front + rest,
            max,
        ) == front + "…"@,
        encode_utf8(rest).len() > 0 ==> shortened(rest, 0) == "…"@,
{
    encoding_goes_on(front, rest);
    encode_utf8_decode_utf8(front);
    let whole = encode_utf8(front + rest);
    assert(whole.subrange(0, encode_utf8(front).len() as int) =~= encode_utf8(front));
    encode_utf8_decode_utf8(Seq::<char>::empty());
    assert(encode_utf8(Seq::<char>::empty()) =~= seq![]);
    assert(encode_utf8(rest).subrange(0, 0) =~= encode_utf8(Seq::<char>::empty()));
    assert(Seq::<char>::empty() + "…"@ =~= "…"@);
}

/// A command line is shown up to its eightieth byte.
pub proof fn commands_are_shown_up_to_eighty_bytes(front: Seq<char>, rest: Seq<char>)
    ensures
        encode_utf8(front).len() <= 80 ==> shown_command(front) == front,
        encode_utf8(front).len() == 80 ==> shown_command(front + rest) == front,
{
    encoding_goes_on(front, rest);
    encode_utf8_decode_utf8(front);
    let whole = encode_utf8(front + rest);
    if encode_utf8(front).len() == 80 {
        assert(whole.subrange(0, 80) =~= encode_utf8(front));
        if encode_utf8(rest).len() == 0 {
            if rest.len() > 0 {
                vstd::utf8::encode_utf8_first_scalar(rest);
            }
            assert(front + rest =~= front);
        }
    }
}

/// A flow can be shown unless the eightieth byte of its command line ends inside a
/// character.
pub proof fn commands_must_not_be_cut_inside_a_character(
    flow: EnrichedFlow,
    front: Seq<char>,
    c: char,
    rest: Seq<char>,
)
    ensures
        flow.cmdline is None ==> flow_cuts_cleanly(flow),
        flow.cmdline is Some && flow.cmdline->0@ == front && encode_utf8(front).len() <= 80
            ==> flow_cuts_cleanly(flow),
        flow.cmdline is Some && flow.cmdline->0@ == front + rest && encode_utf8(front).len() == 80
            ==> flow_cuts_cleanly(flow),
        flow.cmdline is Some && flow.cmdline->0@ == front + (seq![c] + rest) && encode_utf8(
            front,
        ).len() < 80 < encode_utf8(front + seq![c]).len() ==> !flow_cuts_cleanly(flow),
{
    text_is_cut_between_characters(front, rest);
    encoding_goes_on(front, rest);
    encoding_goes_on(front, seq![c] + rest);
    encoding_goes_on(front, seq![c]);
    encoding_goes_on(seq![c], rest);
    if encode_utf8(front).len() < 80 < encode_utf8(front + seq![c]).len() {
        text_is_not_cut_inside_a_character(front, c, rest, 80);
    }
}

/// In the pretty format the names of the columns stand above the flows, each as wide as
/// its column, and a rule below them; in other formats nothing does.
pub proof fn header_names_the_columns(format: Seq<char>)
    ensures
        format != "pretty"@ ==> header(format).len() == 0,
        format == "pretty"@ ==> {
            &&& header(format).len() == 2
            &&& header(format)[0] == cell("PROTO"@, 6) + cell("PROCESS"@, 16) + cell("SRC"@, 21)
                + cell("DST"@, 21) + cell("DIR"@, 8) + cell("BYTES↑"@, 10) + cell("BYTES↓"@, 10)
                + cell("RTT(ms)"@, 8) + cell("REXMT"@, 6) + "APP CONTEXT"@
            &&& header(format)[1].len() == 140
            &&& forall|i: int| 0 <= i < 140 ==> #[trigger] header(format)[1][i] == '─'
        },
{
    columns_are_cells("PROTO"@, 6);
    columns_are_cells("PROCESS"@, 16);
    columns_are_cells("SRC"@, 21);
    columns_are_cells("DST"@, 21);
    columns_are_cells("DIR"@, 8);
    columns_are_cells("BYTES↑"@, 10);
    columns_are_cells("BYTES↓"@, 10);
    columns_are_cells("RTT(ms)"@, 8);
    columns_are_cells("REXMT"@, 6);
}

} // verus!
