//! What the pretty output says of a flow, line by line.
//!
//! A line is a list of pieces: text, and ratios that whoever prints the line
//! writes with two decimals.

use vstd::prelude::*;
use vstd::string::*;
use vstd::utf8::{
    decode_utf8, decode_utf8_encode_utf8, encode_utf8, encode_utf8_decode_utf8, is_ascii_chars,
    is_ascii_chars_encode_utf8, is_char_boundary,
};
use crate::ascii::ascii_cuts_anywhere;
use crate::common::{
    close_reason_of, CloseReason, CongestionState, FlowDirection, FlowEvent, COMM_LEN,
    IPPROTO_TCP, IPPROTO_UDP,
};
use crate::enricher::{
    command_line, dotted, dotted_text, octet, opt_view, shown_bytes, EnrichedFlow,
};
use crate::field_text::{filled_field_text, nul_at, terminated_field_text};
use crate::numbers::{decimal, decimal_text, hexadecimal, hexadecimal_text};
use crate::quantity::{byte_text, format_bytes};
use crate::text::{
    first_char_is_least, is_white, pad_right, padded, same_text, trim_end, trim_start, views,
    white_is,
};

verus! {

/// A piece of a line.
#[derive(Debug)]
pub enum Piece {
    Text(String),
    /// `num / den` with two decimals, and spaces behind it up to `width`
    /// characters.
    Ratio { num: u64, den: u64, width: usize },
}

/// What a [`Piece`] says.
pub ghost enum PieceView {
    Text(Seq<char>),
    Ratio { num: int, den: int, width: int },
}

/// What a piece says.
pub open spec fn piece_view(p: Piece) -> PieceView {
    match p {
        Piece::Text(t) => PieceView::Text(t@),
        Piece::Ratio { num, den, width } => PieceView::Ratio {
            num: num as int,
            den: den as int,
            width: width as int,
        },
    }
}

/// What a line says.
pub open spec fn line_view(line: Seq<Piece>) -> Seq<PieceView> {
    line.map_values(|p: Piece| piece_view(p))
}

/// What lines say.
pub open spec fn lines_view(lines: Seq<Vec<Piece>>) -> Seq<Seq<PieceView>> {
    lines.map_values(|line: Vec<Piece>| line_view(line@))
}

/// A time of `us` microseconds, in milliseconds.
pub open spec fn from_micros(us: u32) -> PieceView {
    PieceView::Ratio { num: us as int, den: 1000, width: 0 }
}

/// A time of `ns` nanoseconds, in milliseconds.
pub open spec fn from_nanos(ns: u64) -> PieceView {
    PieceView::Ratio { num: ns as int, den: 1_000_000, width: 0 }
}

fn push_text(line: &mut Vec<Piece>, text: String)
    ensures
        line_view(final(line)@) == line_view(old(line)@).push(PieceView::Text(text@)),
{
    line.push(Piece::Text(text));
    assert(line_view(line@) =~= line_view(old(line)@).push(PieceView::Text(text@)));
}

fn push_str(line: &mut Vec<Piece>, text: &str)
    ensures
        line_view(final(line)@) == line_view(old(line)@).push(PieceView::Text(text@)),
{
    push_text(line, text.to_owned());
}

fn push_ratio(line: &mut Vec<Piece>, num: u64, den: u64, width: usize)
    ensures
        line_view(final(line)@) == line_view(old(line)@).push(
            (PieceView::Ratio { num: num as int, den: den as int, width: width as int }),
        ),
{
    line.push(Piece::Ratio { num, den, width });
    assert(line_view(line@) =~= line_view(old(line)@).push(
        (PieceView::Ratio { num: num as int, den: den as int, width: width as int }),
    ));
}

fn push_micros(line: &mut Vec<Piece>, us: u32)
    ensures
        line_view(final(line)@) == line_view(old(line)@).push(from_micros(us)),
{
    push_ratio(line, us as u64, 1000, 0);
}

fn push_nanos(line: &mut Vec<Piece>, ns: u64)
    ensures
        line_view(final(line)@) == line_view(old(line)@).push(from_nanos(ns)),
{
    push_ratio(line, ns, 1_000_000, 0);
}

fn push_line(lines: &mut Vec<Vec<Piece>>, line: Vec<Piece>)
    ensures
        lines_view(final(lines)@) == lines_view(old(lines)@).push(line_view(line@)),
{
    lines.push(line);
    assert(lines_view(lines@) =~= lines_view(old(lines)@).push(line_view(line@)));
}

fn text_line(text: String) -> (r: Vec<Piece>)
    ensures
        line_view(r@) == seq![PieceView::Text(text@)],
{
    let mut line: Vec<Piece> = Vec::new();
    push_text(&mut line, text);
    assert(line_view(line@) =~= seq![PieceView::Text(text@)]);
    line
}

/// `s`, or if it takes more than `max` bytes, the first `max - 1` of them and
/// an ellipsis.
pub open spec fn shortened(s: Seq<char>, max: nat) -> Seq<char> {
    if encode_utf8(s).len() <= max {
        s
    } else {
        decode_utf8(encode_utf8(s).subrange(0, cut_place(max))) + "…"@
    }
}

/// Where [`shortened`] cuts.
pub open spec fn cut_place(max: nat) -> int {
    if max == 0 {
        0
    } else {
        max - 1
    }
}

/// Shortens a text to `max` bytes, the last of which an ellipsis stands for.
pub fn truncate(s: &str, max: usize) -> (r: String)
    requires
        encode_utf8(s@).len() > max ==> is_char_boundary(encode_utf8(s@), cut_place(max as nat)),
    ensures
        r@ == shortened(s@, max as nat),
{
    if s.as_bytes().len() <= max {
        s.to_owned()
    } else {
        let cut: usize = if max == 0 {
            0
        } else {
            max - 1
        };
        let (front, _) = s.split_at(cut);
        proof {
            encode_utf8_decode_utf8(front@);
        }
        let mut r = front.to_owned();
        r.append("…");
        r
    }
}

/// The first eighty bytes of a command line, or all of it.
pub open spec fn shown_command(cmd: Seq<char>) -> Seq<char> {
    if encode_utf8(cmd).len() > 80 {
        decode_utf8(encode_utf8(cmd).subrange(0, 80))
    } else {
        cmd
    }
}

/// What is shown of a command line ends between two characters.
pub open spec fn command_cuts_cleanly(cmd: Seq<char>) -> bool {
    encode_utf8(cmd).len() > 80 ==> is_char_boundary(encode_utf8(cmd), 80)
}

/// What is shown of a flow's command line ends between two characters.
pub open spec fn flow_cuts_cleanly(flow: EnrichedFlow) -> bool {
    flow.cmdline matches Some(cmd) ==> command_cuts_cleanly(cmd@)
}

/// Whether what is shown of a flow's command line ends between two characters.
pub fn can_print(flow: &EnrichedFlow) -> (r: bool)
    ensures
        r == flow_cuts_cleanly(*flow),
{
    match &flow.cmdline {
        Some(cmd) => cmd.as_str().as_bytes().len() <= 80 || cmd.as_str().is_char_boundary(80),
        None => true,
    }
}

/// An address and a port.
pub open spec fn endpoint(ip: u32, port: u16) -> Seq<char> {
    dotted(ip) + ":"@ + decimal(port as nat)
}

fn endpoint_text(ip: u32, port: u16) -> (r: String)
    ensures
        r@ == endpoint(ip, port),
{
    let mut r = dotted_text(ip);
    r.append(":");
    r.append(decimal_text(port as u64).as_str());
    r
}

proof fn digits_are_ascii(n: nat)
    ensures
        is_ascii_chars(decimal(n)),
    decreases n,
{
    if n >= 10 {
        digits_are_ascii(n / 10);
    }
}

proof fn short_numbers(n: nat)
    ensures
        n < 1000 ==> decimal(n).len() <= 3,
        n < 100_000 ==> decimal(n).len() <= 5,
{
    reveal_with_fuel(decimal, 6);
}

/// An endpoint takes at most 21 bytes.
proof fn endpoint_fits(ip: u32, port: u16)
    ensures
        encode_utf8(endpoint(ip, port)).len() <= 21,
{
    reveal_strlit(":");
    digits_are_ascii(octet(ip, 0) as nat);
    digits_are_ascii(octet(ip, 1) as nat);
    digits_are_ascii(octet(ip, 2) as nat);
    digits_are_ascii(octet(ip, 3) as nat);
    digits_are_ascii(port as nat);
    short_numbers(octet(ip, 0) as nat);
    short_numbers(octet(ip, 1) as nat);
    short_numbers(octet(ip, 2) as nat);
    short_numbers(octet(ip, 3) as nat);
    short_numbers(port as nat);
    assert(is_ascii_chars(endpoint(ip, port)));
    is_ascii_chars_encode_utf8(endpoint(ip, port));
}

/// A process name takes no more bytes than its field.
proof fn comm_fits(e: FlowEvent)
    ensures
        encode_utf8(filled_field_text(e.comm@, "<invalid>"@)).len() <= COMM_LEN,
{
    crate::bytes::first_where_is_least(e.comm@, 0, e.comm@.len() as int, |x: u8| x == 0);
    let b = e.comm@.take(nul_at(e.comm@));
    if vstd::utf8::valid_utf8(b) {
        decode_utf8_encode_utf8(b);
    } else {
        reveal_strlit("<invalid>");
        assert(is_ascii_chars("<invalid>"@));
        is_ascii_chars_encode_utf8("<invalid>"@);
    }
}

/// The name of a transport protocol.
pub open spec fn transport_name(protocol: u8) -> Seq<char> {
    if protocol == IPPROTO_TCP {
        "TCP"@
    } else if protocol == IPPROTO_UDP {
        "UDP"@
    } else {
        "???"@
    }
}

/// The mark of a direction.
pub open spec fn direction_mark(direction: u8) -> Seq<char> {
    if direction == FlowDirection::Outbound.code() {
        "→ out"@
    } else if direction == FlowDirection::Inbound.code() {
        "← in"@
    } else {
        "  ? "@
    }
}

/// The mark of retransmits.
pub open spec fn retransmit_mark(count: u32) -> Seq<char> {
    if count > 0 {
        "⚠ "@ + decimal(count as nat)
    } else {
        "  0"@
    }
}

/// What a flow is about: the server name that was seen, else the request, else
/// the protocol, else the port that it goes to.
pub open spec fn app_context(flow: EnrichedFlow) -> Seq<char> {
    let e = flow.event;
    let sni = terminated_field_text(e.tls_sni@);
    let request = terminated_field_text(e.http_method@) + " "@ + terminated_field_text(
        e.http_path@,
    );
    if e.has_tls == 1 && sni.len() > 0 {
        "TLS/"@ + sni
    } else if e.has_http == 1 {
        "HTTP "@ + terminated_field_text(e.http_host@) + " "@ + request
    } else {
        match opt_view(flow.protocol_guess) {
            Some(protocol) => protocol,
            None => "port/"@ + decimal(e.dst_port as nat),
        }
    }
}

fn request_text(e: &FlowEvent) -> (r: String)
    ensures
        r@ == terminated_field_text(e.http_method@) + " "@ + terminated_field_text(e.http_path@),
{
    let mut r = e.http_method_str().to_owned();
    r.append(" ");
    r.append(e.http_path_str());
    r
}

/// Says what a flow is about.
pub fn build_app_context(flow: &EnrichedFlow) -> (r: String)
    ensures
        r@ == app_context(*flow),
{
    let e = &flow.event;
    if e.has_tls == 1 {
        let sni = e.sni_str();
        if !sni.is_empty() {
            let mut r = "TLS/".to_owned();
            r.append(sni);
            return r;
        }
    }
    if e.has_http == 1 {
        let mut r = "HTTP ".to_owned();
        r.append(e.http_host_str());
        r.append(" ");
        r.append(request_text(e).as_str());
        return r;
    }
    match &flow.protocol_guess {
        Some(protocol) => protocol.clone(),
        None => {
            let mut r = "port/".to_owned();
            r.append(decimal_text(e.dst_port as u64).as_str());
            r
        },
    }
}

/// A column of this width.
pub open spec fn column(s: Seq<char>, width: int) -> Seq<char> {
    pad_right(s, width) + " "@
}

fn push_column(out: &mut String, text: &str, width: usize)
    ensures
        final(out)@ == old(out)@ + column(text@, width as int),
{
    out.append(padded(text, width).as_str());
    out.append(" ");
    assert(out@ =~= old(out)@ + column(text@, width as int));
}

/// The names of the columns.
pub open spec fn column_names() -> Seq<char> {
    column("PROTO"@, 6) + column("PROCESS"@, 16) + column("SRC"@, 21) + column("DST"@, 21) + column(
        "DIR"@,
        8,
    ) + column("BYTES↑"@, 10) + column("BYTES↓"@, 10) + column("RTT(ms)"@, 8) + column(
        "REXMT"@,
        6,
    ) + "APP CONTEXT"@
}

/// The rule below the names of the columns.
pub open spec fn ruler() -> Seq<char> {
    Seq::new(140, |i: int| '─')
}

/// What stands above the flows: the names of the columns and a rule in the
/// pretty format, nothing in others.
pub open spec fn header(format: Seq<char>) -> Seq<Seq<char>> {
    if format == "pretty"@ {
        seq![column_names(), ruler()]
    } else {
        seq![]
    }
}

fn ruler_text() -> (r: String)
    ensures
        r@ == ruler(),
{
    let mut r = String::new();
    let mut n: usize = 0;
    while n < 140
        invariant
            n <= 140,
            r@ =~= Seq::new(n as nat, |i: int| '─'),
        decreases 140 - n,
    {
        r.push('─');
        n = n + 1;
    }
    r
}

/// Gives the lines that stand above the flows.
pub fn print_header(format: &str) -> (r: Vec<String>)
    ensures
        views(r@) == header(format@),
{
    let mut r: Vec<String> = Vec::new();
    if !same_text(format, "pretty") {
        assert(views(r@) =~= header(format@));
        return r;
    }
    let mut names = String::new();
    push_column(&mut names, "PROTO", 6);
    assert(names@ =~= column("PROTO"@, 6));
    push_column(&mut names, "PROCESS", 16);
    push_column(&mut names, "SRC", 21);
    push_column(&mut names, "DST", 21);
    push_column(&mut names, "DIR", 8);
    push_column(&mut names, "BYTES↑", 10);
    push_column(&mut names, "BYTES↓", 10);
    push_column(&mut names, "RTT(ms)", 8);
    push_column(&mut names, "REXMT", 6);
    names.append("APP CONTEXT");
    r.push(names);
    r.push(ruler_text());
    assert(views(r@) =~= header(format@));
    r
}

/// The line of a flow: what it is, in columns.
pub open spec fn flow_line(flow: EnrichedFlow) -> Seq<PieceView> {
    let e = flow.event;
    seq![
        PieceView::Text(
            column(transport_name(e.protocol), 6) + column(
                filled_field_text(e.comm@, "<invalid>"@),
                16,
            ) + column(endpoint(e.src_ip, e.src_port), 21) + column(
                endpoint(e.dst_ip, e.dst_port),
                21,
            ) + column(direction_mark(e.direction), 8) + column(byte_text(e.bytes_sent), 10)
                + column(byte_text(e.bytes_recv), 10),
        ),
        PieceView::Ratio { num: e.srtt_us_final as int, den: 1000, width: 8 },
        PieceView::Text(
            " "@ + column(retransmit_mark(e.retransmit_count), 6) + app_context(flow),
        ),
    ]
}

fn print_flow(flow: &EnrichedFlow) -> (r: Vec<Piece>)
    ensures
        line_view(r@) == flow_line(*flow),
{
    let e = &flow.event;
    let proto: &str = match e.protocol {
        6 => "TCP",
        17 => "UDP",
        _ => "???",
    };
    let direction: &str = match e.direction {
        1 => "→ out",
        2 => "← in",
        _ => "  ? ",
    };
    let src = endpoint_text(e.src_ip, e.src_port);
    let dst = endpoint_text(e.dst_ip, e.dst_port);
    proof {
        comm_fits(*e);
        endpoint_fits(e.src_ip, e.src_port);
        endpoint_fits(e.dst_ip, e.dst_port);
    }
    let mut front = String::new();
    push_column(&mut front, proto, 6);
    assert(front@ =~= column(transport_name(e.protocol), 6));
    push_column(&mut front, truncate(e.comm_str(), 16).as_str(), 16);
    push_column(&mut front, truncate(src.as_str(), 21).as_str(), 21);
    push_column(&mut front, truncate(dst.as_str(), 21).as_str(), 21);
    push_column(&mut front, direction, 8);
    push_column(&mut front, format_bytes(e.bytes_sent).as_str(), 10);
    push_column(&mut front, format_bytes(e.bytes_recv).as_str(), 10);
    let rexmt = if e.retransmit_count > 0 {
        let mut mark = "⚠ ".to_owned();
        mark.append(decimal_text(e.retransmit_count as u64).as_str());
        mark
    } else {
        "  0".to_owned()
    };
    let mut back = " ".to_owned();
    push_column(&mut back, rexmt.as_str(), 6);
    back.append(build_app_context(flow).as_str());
    let mut line: Vec<Piece> = Vec::new();
    push_text(&mut line, front);
    push_ratio(&mut line, e.srtt_us_final as u64, 1000, 8);
    push_text(&mut line, back);
    assert(line_view(line@) =~= flow_line(*flow));
    line
}

/// The retransmits of a flow, if there were any.
pub open spec fn retransmit_note(e: FlowEvent) -> Seq<char> {
    if e.retransmit_count > 0 {
        " | retx="@ + decimal(e.retransmit_count as nat) + " [rto="@ + decimal(
            e.retransmit_rto_count as nat,
        ) + " fast="@ + decimal(e.retransmit_fast_count as nat) + " tlp="@ + decimal(
            e.retransmit_tlp_count as nat,
        ) + "]"@
    } else {
        seq![]
    }
}

/// The congestion notifications of a flow, if there were any.
pub open spec fn ecn_note(e: FlowEvent) -> Seq<char> {
    if e.ecn_signals > 0 {
        " | ecn="@ + decimal(e.ecn_signals as nat)
    } else {
        seq![]
    }
}

/// The congestion state of a flow, if it is a bad one.
pub open spec fn congestion_note(e: FlowEvent) -> Seq<char> {
    if e.congestion_state_final == CongestionState::Loss.code() {
        " | ⛔LOSS"@
    } else if e.congestion_state_final == CongestionState::Recovery.code() {
        " | ⚠RECOVERY"@
    } else if e.congestion_state_final == CongestionState::Cwr.code() {
        " | ⚠CWR"@
    } else {
        seq![]
    }
}

/// The line on a flow's quality.
pub open spec fn quality_line(e: FlowEvent) -> Seq<PieceView> {
    seq![
        PieceView::Text("    ├─ quality: rtt="@),
        from_micros(e.srtt_us_min),
        PieceView::Text("ms-"@),
        from_micros(e.srtt_us_max),
        PieceView::Text("ms jitter="@),
        from_micros(e.rttvar_us_max),
        PieceView::Text("ms"@ + retransmit_note(e) + ecn_note(e) + congestion_note(e)),
    ]
}

fn print_quality_detail(e: &FlowEvent) -> (r: Vec<Piece>)
    ensures
        line_view(r@) == quality_line(*e),
{
    let mut retransmits = String::new();
    if e.retransmit_count > 0 {
        retransmits = " | retx=".to_owned();
        retransmits.append(decimal_text(e.retransmit_count as u64).as_str());
        retransmits.append(" [rto=");
        retransmits.append(decimal_text(e.retransmit_rto_count as u64).as_str());
        retransmits.append(" fast=");
        retransmits.append(decimal_text(e.retransmit_fast_count as u64).as_str());
        retransmits.append(" tlp=");
        retransmits.append(decimal_text(e.retransmit_tlp_count as u64).as_str());
        retransmits.append("]");
    }
    assert(retransmits@ =~= retransmit_note(*e));
    let mut ecn = String::new();
    if e.ecn_signals > 0 {
        ecn = " | ecn=".to_owned();
        ecn.append(decimal_text(e.ecn_signals as u64).as_str());
    }
    assert(ecn@ =~= ecn_note(*e));
    let congestion: &str = match e.congestion_state_final {
        4 => " | ⛔LOSS",
        3 => " | ⚠RECOVERY",
        2 => " | ⚠CWR",
        _ => "",
    };
    proof {
        reveal_strlit("");
        assert(congestion@ =~= congestion_note(*e));
    }
    let mut notes = "ms".to_owned();
    notes.append(retransmits.as_str());
    notes.append(ecn.as_str());
    notes.append(congestion);
    let mut line: Vec<Piece> = Vec::new();
    push_str(&mut line, "    ├─ quality: rtt=");
    push_micros(&mut line, e.srtt_us_min);
    push_str(&mut line, "ms-");
    push_micros(&mut line, e.srtt_us_max);
    push_str(&mut line, "ms jitter=");
    push_micros(&mut line, e.rttvar_us_max);
    push_text(&mut line, notes);
    assert(line_view(line@) =~= quality_line(*e));
    line
}

/// A time at the end of a line, if it is known.
pub open spec fn timed(label: Seq<char>, ns: u64) -> Seq<PieceView> {
    if ns > 0 {
        seq![PieceView::Text(label), from_nanos(ns), PieceView::Text("ms"@)]
    } else {
        seq![]
    }
}

fn push_timed(line: &mut Vec<Piece>, label: &str, ns: u64)
    ensures
        line_view(final(line)@) == line_view(old(line)@) + timed(label@, ns),
{
    if ns > 0 {
        push_str(line, label);
        push_nanos(line, ns);
        push_str(line, "ms");
    }
    assert(line_view(line@) =~= line_view(old(line)@) + timed(label@, ns));
}

/// The line on a flow's TLS.
pub open spec fn tls_line(e: FlowEvent) -> Seq<PieceView> {
    seq![PieceView::Text("    ├─ tls: sni="@ + terminated_field_text(e.tls_sni@))] + timed(
        " handshake="@,
        e.tls_handshake_ns,
    )
}

/// The host of a request, if it is known.
pub open spec fn host_note(e: FlowEvent) -> Seq<char> {
    let host = terminated_field_text(e.http_host@);
    if host.len() > 0 {
        " host="@ + host
    } else {
        seq![]
    }
}

/// The status of the response, if it is known.
pub open spec fn status_note(e: FlowEvent) -> Seq<char> {
    if e.http_status > 0 {
        " status="@ + decimal(e.http_status as nat)
    } else {
        seq![]
    }
}

/// The line on a flow's HTTP.
pub open spec fn http_line(e: FlowEvent) -> Seq<PieceView> {
    seq![
        PieceView::Text(
            "    ├─ http: "@ + (terminated_field_text(e.http_method@) + " "@
                + terminated_field_text(e.http_path@)) + host_note(e) + status_note(e),
        ),
    ] + timed(" app_rtt="@, e.app_response_time_ns)
}

/// `line` if it is due.
pub open spec fn line_if(due: bool, line: Seq<PieceView>) -> Seq<Seq<PieceView>> {
    if due {
        seq![line]
    } else {
        seq![]
    }
}

/// The lines on what a flow's application layer showed.
pub open spec fn app_lines(e: FlowEvent) -> Seq<Seq<PieceView>> {
    line_if(e.has_tls == 1 && terminated_field_text(e.tls_sni@).len() > 0, tls_line(e)) + line_if(
        e.has_http == 1,
        http_line(e),
    )
}

fn print_app_detail(e: &FlowEvent, lines: &mut Vec<Vec<Piece>>)
    ensures
        lines_view(final(lines)@) == lines_view(old(lines)@) + app_lines(*e),
{
    let ghost start = lines_view(lines@);
    if e.has_tls == 1 {
        let sni = e.sni_str();
        if !sni.is_empty() {
            let mut text = "    ├─ tls: sni=".to_owned();
            text.append(sni);
            let mut line = text_line(text);
            push_timed(&mut line, " handshake=", e.tls_handshake_ns);
            assert(line_view(line@) =~= tls_line(*e));
            push_line(lines, line);
        }
    }
    if e.has_http == 1 {
        let mut text = "    ├─ http: ".to_owned();
        text.append(request_text(e).as_str());
        let ghost head = text@;
        let host = e.http_host_str();
        if !host.is_empty() {
            text.append(" host=");
            text.append(host);
        }
        assert(text@ =~= head + host_note(*e));
        if e.http_status > 0 {
            text.append(" status=");
            text.append(decimal_text(e.http_status as u64).as_str());
        }
        assert(text@ =~= head + host_note(*e) + status_note(*e));
        let mut line = text_line(text);
        push_timed(&mut line, " app_rtt=", e.app_response_time_ns);
        assert(line_view(line@) =~= http_line(*e));
        push_line(lines, line);
    }
    assert(lines_view(lines@) =~= start + app_lines(*e));
}

/// The line on a flow's place in its causal chain.
pub open spec fn causal_line(e: FlowEvent) -> Seq<PieceView> {
    seq![
        PieceView::Text(
            "    ├─ causal: chain="@ + hexadecimal(e.chain_id as nat) + " parent="@ + hexadecimal(
                e.parent_chain_id as nat,
            ) + " depth="@ + decimal(e.chain_depth as nat),
        ),
    ]
}

fn print_causal(e: &FlowEvent) -> (r: Vec<Piece>)
    ensures
        line_view(r@) == causal_line(*e),
{
    let mut text = "    ├─ causal: chain=".to_owned();
    text.append(hexadecimal_text(e.chain_id).as_str());
    text.append(" parent=");
    text.append(hexadecimal_text(e.parent_chain_id).as_str());
    text.append(" depth=");
    text.append(decimal_text(e.chain_depth as u64).as_str());
    text_line(text)
}

/// The word for why a connection closed.
pub open spec fn close_word(reason: CloseReason) -> Seq<char> {
    match reason {
        CloseReason::Clean => "clean"@,
        CloseReason::Reset => "RST"@,
        CloseReason::Timeout => "timeout"@,
        CloseReason::LocalClose => "local"@,
        CloseReason::Unknown => "?"@,
    }
}

/// The line on a flow's timing.
pub open spec fn timing_line(e: FlowEvent) -> Seq<PieceView> {
    seq![
        PieceView::Text("    └─ timing: duration="@),
        from_nanos(e.duration_ns),
        PieceView::Text("ms ttfb="@),
        from_nanos(e.time_to_first_byte_ns),
        PieceView::Text("ms close="@ + close_word(close_reason_of(e.close_reason))),
    ]
}

/// A text, or a question mark where there is none.
pub open spec fn or_unknown(t: Option<String>) -> Seq<char> {
    match t {
        Some(t) => t@,
        None => "?"@,
    }
}

/// The line on a flow's Kubernetes identity.
pub open spec fn k8s_line(flow: EnrichedFlow) -> Seq<PieceView> {
    seq![
        PieceView::Text(
            "    ├─ k8s: pod="@ + or_unknown(flow.k8s_pod) + " ns="@ + or_unknown(
                flow.k8s_namespace,
            ) + " container="@ + or_unknown(flow.k8s_container),
        ),
    ]
}

/// The lines on a flow's process.
pub open spec fn process_lines(flow: EnrichedFlow) -> Seq<Seq<PieceView>> {
    line_if(
        flow.exe_path is Some,
        seq![PieceView::Text("    ├─ process: exe="@ + flow.exe_path->0@)],
    ) + line_if(
        flow.cmdline is Some,
        seq![PieceView::Text("    ├─ cmdline: "@ + shown_command(flow.cmdline->0@))],
    ) + line_if(flow.k8s_pod is Some, k8s_line(flow))
}

fn or_question_mark(t: &Option<String>) -> (r: &str)
    ensures
        r@ == or_unknown(*t),
{
    match t {
        Some(t) => t.as_str(),
        None => "?",
    }
}

fn print_timing(e: &FlowEvent) -> (r: Vec<Piece>)
    ensures
        line_view(r@) == timing_line(*e),
{
    let word: &str = match e.close_reason() {
        CloseReason::Clean => "clean",
        CloseReason::Reset => "RST",
        CloseReason::Timeout => "timeout",
        CloseReason::LocalClose => "local",
        CloseReason::Unknown => "?",
    };
    let mut close = "ms close=".to_owned();
    close.append(word);
    let mut line: Vec<Piece> = Vec::new();
    push_str(&mut line, "    └─ timing: duration=");
    push_nanos(&mut line, e.duration_ns);
    push_str(&mut line, "ms ttfb=");
    push_nanos(&mut line, e.time_to_first_byte_ns);
    push_text(&mut line, close);
    assert(line_view(line@) =~= timing_line(*e));
    line
}

fn print_process_detail(flow: &EnrichedFlow, lines: &mut Vec<Vec<Piece>>)
    requires
        flow_cuts_cleanly(*flow),
    ensures
        lines_view(final(lines)@) == lines_view(old(lines)@) + process_lines(*flow),
{
    let ghost start = lines_view(lines@);
    if let Some(exe) = &flow.exe_path {
        let mut text = "    ├─ process: exe=".to_owned();
        text.append(exe.as_str());
        push_line(lines, text_line(text));
    }
    if let Some(cmd) = &flow.cmdline {
        let mut text = "    ├─ cmdline: ".to_owned();
        if cmd.as_str().as_bytes().len() > 80 {
            let (front, _) = cmd.as_str().split_at(80);
            proof {
                encode_utf8_decode_utf8(front@);
            }
            text.append(front);
        } else {
            text.append(cmd.as_str());
        }
        push_line(lines, text_line(text));
    }
    if flow.k8s_pod.is_some() {
        let mut text = "    ├─ k8s: pod=".to_owned();
        text.append(or_question_mark(&flow.k8s_pod));
        text.append(" ns=");
        text.append(or_question_mark(&flow.k8s_namespace));
        text.append(" container=");
        text.append(or_question_mark(&flow.k8s_container));
        push_line(lines, text_line(text));
    }
    assert(lines_view(lines@) =~= start + process_lines(*flow));
}

/// What the pretty output says of a flow: its line, then what there is to say
/// of its quality, its application layer, its causal chain and its process,
/// and at last its timing.
pub open spec fn pretty(flow: EnrichedFlow) -> Seq<Seq<PieceView>> {
    let e = flow.event;
    seq![flow_line(flow)] + line_if(
        e.retransmit_count > 0 || e.ecn_signals > 0,
        quality_line(e),
    ) + (if e.has_tls == 1 || e.has_http == 1 {
        app_lines(e)
    } else {
        seq![]
    }) + line_if(e.chain_depth > 0, causal_line(e)) + (if flow.exe_path is Some
        || flow.cmdline is Some {
        process_lines(flow)
    } else {
        seq![]
    }) + seq![timing_line(e)]
}

/// Gives the lines that the pretty output has for a flow.
pub fn print_pretty(flow: &EnrichedFlow) -> (r: Vec<Vec<Piece>>)
    requires
        flow_cuts_cleanly(*flow),
    ensures
        lines_view(r@) == pretty(*flow),
{
    let e = &flow.event;
    let mut lines: Vec<Vec<Piece>> = Vec::new();
    push_line(&mut lines, print_flow(flow));
    assert(lines_view(lines@) =~= seq![flow_line(*flow)]);
    if e.retransmit_count > 0 || e.ecn_signals > 0 {
        push_line(&mut lines, print_quality_detail(e));
    }
    if e.has_tls == 1 || e.has_http == 1 {
        print_app_detail(e, &mut lines);
    }
    if e.chain_depth > 0 {
        push_line(&mut lines, print_causal(e));
    }
    if flow.exe_path.is_some() || flow.cmdline.is_some() {
        print_process_detail(flow, &mut lines);
    }
    push_line(&mut lines, print_timing(e));
    assert(lines_view(lines@) =~= pretty(*flow));
    lines
}

proof fn trimmed_ascii(s: Seq<char>)
    requires
        is_ascii_chars(s),
    ensures
        is_ascii_chars(trim_end(s)),
    decreases s.len(),
{
    if s.len() > 0 && is_white(s.last()) {
        trimmed_ascii(s.drop_last());
    }
}

/// A command line of ASCII characters can be shown.
pub proof fn ascii_commands_cut_cleanly(cmdline: Seq<u8>)
    requires
        forall|i: int| 0 <= i < cmdline.len() ==> #[trigger] cmdline[i] < 0x80,
    ensures
        command_cuts_cleanly(command_line(cmdline)),
{
    let raw = shown_bytes(cmdline);
    assert forall|i: int| 0 <= i < raw.len() implies '\0' <= #[trigger] raw[i] <= '\u{7f}' by {
        assert(cmdline[i] < 0x80);
    }
    first_char_is_least(raw, 0, white_is(false));
    assert(is_ascii_chars(trim_start(raw)));
    trimmed_ascii(trim_start(raw));
    let cmd = command_line(cmdline);
    if cmd.len() >= 80 {
        ascii_cuts_anywhere(cmd, 80);
    } else {
        ascii_cuts_anywhere(cmd, 0);
    }
}

} // verus!
