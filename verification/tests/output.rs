use flow_sensor::enricher::{enrich, EnrichedFlow, ProcFiles};
use flow_sensor::json::{print_json, JsonValue, Scalar};
use flow_sensor::loader::make_test_event;
use flow_sensor::printer::{
    build_app_context, can_print, print_header, print_pretty, truncate, Piece,
};
use flow_sensor::quantity::format_bytes;

fn reference(bytes: u64) -> String {
    match bytes {
        b if b < 1_024 => format!("{}B", b),
        b if b < 1_048_576 => format!("{:.1}KB", b as f64 / 1_024.0),
        b if b < 1_073_741_824 => format!("{:.1}MB", b as f64 / 1_048_576.0),
        b => format!("{:.1}GB", b as f64 / 1_073_741_824.0),
    }
}

#[test]
fn byte_counts() {
    assert_eq!(format_bytes(890), "890B");
    assert_eq!(format_bytes(1240), "1.2KB");
    assert_eq!(format_bytes(48200), "47.1KB");
    assert_eq!(format_bytes(1_048_575), "1024.0KB");
    assert_eq!(format_bytes(1_048_576), "1.0MB");
    assert_eq!(format_bytes(u64::MAX), "17179869184.0GB");
}

#[test]
fn byte_counts_as_in_double_precision() {
    for n in 0..200_000u64 {
        assert_eq!(format_bytes(n), reference(n));
    }
    let mut x: u64 = 0x9e37_79b9_7f4a_7c15;
    for i in 0..200_000u64 {
        x ^= x << 13;
        x ^= x >> 7;
        x ^= x << 17;
        let n = x >> (i % 64);
        assert_eq!(format_bytes(n), reference(n));
    }
    for k in 10..64u32 {
        for d in 0..2050u64 {
            let n = (1u64 << k).wrapping_sub(1025).wrapping_add(d);
            assert_eq!(format_bytes(n), reference(n));
        }
    }
    for t in 0..4_000u64 {
        let n = (1u64 << 53) + t * 53_687_091;
        assert_eq!(format_bytes(n), reference(n));
    }
}

#[test]
fn long_texts_are_cut() {
    assert_eq!(truncate("short", 16), "short");
    assert_eq!(truncate("exactly sixteen!", 16), "exactly sixteen!");
    assert_eq!(truncate("more than sixteen", 16), "more than sixte…");
    assert_eq!(truncate("x", 0), "…");
    assert_eq!(truncate("", 0), "");
}

fn files(exe: Option<&str>, cmdline: Option<&[u8]>, cgroup: Option<&str>) -> ProcFiles {
    ProcFiles {
        status: Some("PPid:\t9100\n".to_string()),
        exe: exe.map(|t| t.to_string()),
        cmdline: cmdline.map(|b| b.to_vec()),
        cgroup: cgroup.map(|t| t.to_string()),
    }
}

fn flow() -> EnrichedFlow {
    let mut e = make_test_event(9182);
    e.src_ip = u32::from_le_bytes([10, 0, 1, 50]);
    e.dst_ip = u32::from_le_bytes([104, 18, 20, 1]);
    enrich(&e, &files(None, None, None))
}

fn write(line: &Vec<Piece>) -> String {
    let mut out = String::new();
    for piece in line {
        match piece {
            Piece::Text(t) => out.push_str(t),
            Piece::Ratio { num, den, width } => {
                out.push_str(&format!("{:<w$.2}", *num as f64 / *den as f64, w = *width))
            }
        }
    }
    out
}

fn shown(flow: &EnrichedFlow) -> Vec<String> {
    assert!(can_print(flow));
    print_pretty(flow).iter().map(write).collect()
}

#[test]
fn header_of_the_table() {
    let h = print_header("pretty");
    assert_eq!(
        h[0],
        format!(
            "{:<6} {:<16} {:<21} {:<21} {:<8} {:<10} {:<10} {:<8} {:<6} {}",
            "PROTO", "PROCESS", "SRC", "DST", "DIR", "BYTES↑", "BYTES↓", "RTT(ms)", "REXMT", "APP CONTEXT"
        )
    );
    assert_eq!(h[1], "─".repeat(140));
    assert_eq!(h.len(), 2);
    assert!(print_header("json").is_empty());
    assert!(print_header("").is_empty());
}

#[test]
fn pretty_lines_of_a_flow() {
    let lines = shown(&flow());
    assert_eq!(
        lines,
        vec![
            format!(
                "{:<6} {:<16} {:<21} {:<21} {:<8} {:<10} {:<10} {:<8.2} {:<6} {}",
                "TCP", "python3", "10.0.1.50:54821", "104.18.20.1:443", "→ out", "1.2KB", "47.1KB", 2.1, "⚠ 3",
                "TLS/api.bigpanda.io"
            ),
            "    ├─ quality: rtt=1.80ms-4.20ms jitter=0.80ms | retx=3 [rto=1 fast=2 tlp=0]".to_string(),
            "    ├─ tls: sni=api.bigpanda.io handshake=12.40ms".to_string(),
            "    ├─ http: POST /api/v2/alerts host=api.bigpanda.io status=200 app_rtt=48.20ms".to_string(),
            "    └─ timing: duration=1500.00ms ttfb=13.20ms close=clean".to_string(),
        ]
    );
}

#[test]
fn pretty_lines_of_a_flow_without_a_process() {
    let mut f = flow();
    f.event.direction = 2;
    f.event.retransmit_count = 0;
    f.event.has_http = 0;
    f.event.tls_handshake_ns = 3_100_000;
    f.event.duration_ns = 890_200_000;
    f.event.time_to_first_byte_ns = 400_000;
    f.event.srtt_us_final = 800;
    let lines = shown(&f);
    assert!(lines[0].contains(" ← in     1.2KB      47.1KB     0.80       0    TLS/api.bigpanda.io"));
    assert_eq!(
        lines[1..],
        [
            "    ├─ tls: sni=api.bigpanda.io handshake=3.10ms".to_string(),
            "    └─ timing: duration=890.20ms ttfb=0.40ms close=clean".to_string(),
        ]
    );
}

#[test]
fn header_and_flow_stand_in_columns() {
    let mut f = flow();
    f.event.dst_ip = u32::from_le_bytes([10, 0, 0, 1]);
    f.event.dst_port = 8080;
    f.event.bytes_recv = 890;
    assert_eq!(
        print_header("pretty")[0],
        "PROTO  PROCESS          SRC                   DST                   DIR      BYTES↑     BYTES↓     RTT(ms)  REXMT  APP CONTEXT"
    );
    assert_eq!(
        shown(&f)[0],
        "TCP    python3          10.0.1.50:54821       10.0.0.1:8080         → out    1.2KB      890B       2.10     ⚠ 3    TLS/api.bigpanda.io"
    );
}

#[test]
fn pretty_lines_of_its_process() {
    let mut f = flow();
    f.event.retransmit_count = 0;
    f.event.has_tls = 0;
    f.event.has_http = 0;
    f.event.protocol = 17;
    f.event.direction = 2;
    f.event.chain_depth = 2;
    f.event.chain_id = 0xf7a2b1;
    f.event.parent_chain_id = 0;
    f.exe_path = Some("/usr/bin/python3.11".to_string());
    f.cmdline = Some("x".repeat(81));
    f.k8s_pod = Some("p".to_string());
    f.protocol_guess = None;
    let lines = shown(&f);
    assert!(lines[0].starts_with("UDP    python3 "));
    assert!(lines[0].contains(" ← in     1.2KB "));
    assert!(lines[0].ends_with(" 2.10       0    port/443"));
    assert_eq!(
        lines[1..],
        [
            "    ├─ causal: chain=0xf7a2b1 parent=0x0 depth=2".to_string(),
            "    ├─ process: exe=/usr/bin/python3.11".to_string(),
            format!("    ├─ cmdline: {}", "x".repeat(80)),
            "    ├─ k8s: pod=p ns=? container=?".to_string(),
            "    └─ timing: duration=1500.00ms ttfb=13.20ms close=clean".to_string(),
        ]
    );
}

#[test]
fn pretty_marks() {
    let mut f = flow();
    f.event.protocol = 1;
    f.event.direction = 0;
    f.event.ecn_signals = 4;
    f.event.retransmit_count = 0;
    f.event.tls_handshake_ns = 0;
    f.event.app_response_time_ns = 0;
    f.event.http_status = 0;
    f.event.http_host = [0; 256];
    for (state, mark) in [(4, " | ⛔LOSS"), (3, " | ⚠RECOVERY"), (2, " | ⚠CWR"), (1, ""), (9, "")] {
        f.event.congestion_state_final = state;
        let lines = shown(&f);
        assert!(lines[0].starts_with("???    "));
        assert!(lines[0].contains("   ?      1.2KB"));
        assert_eq!(lines[1], format!("    ├─ quality: rtt=1.80ms-4.20ms jitter=0.80ms | ecn=4{}", mark));
        assert_eq!(lines[2], "    ├─ tls: sni=api.bigpanda.io");
        assert_eq!(lines[3], "    ├─ http: POST /api/v2/alerts");
    }
}

#[test]
fn pretty_close_reasons() {
    let mut f = flow();
    f.exe_path = Some("x".to_string());
    f.k8s_pod = Some("p".to_string());
    f.k8s_namespace = Some("n".to_string());
    f.k8s_container = Some("c".to_string());
    for (code, word) in [(0, "?"), (1, "clean"), (2, "RST"), (3, "timeout"), (4, "local"), (5, "?")] {
        f.event.close_reason = code;
        let lines = shown(&f);
        assert_eq!(lines[lines.len() - 2], "    ├─ k8s: pod=p ns=n container=c");
        assert!(lines[lines.len() - 1].ends_with(&format!(" close={}", word)));
    }
}

#[test]
fn command_lines_that_cannot_be_cut() {
    let mut f = flow();
    f.cmdline = Some(format!("{}é", "x".repeat(79)));
    assert!(!can_print(&f));
    f.cmdline = Some(format!("{}éx", "x".repeat(78)));
    assert!(can_print(&f));
    f.cmdline = Some(format!("{}é", "x".repeat(78)));
    assert!(can_print(&f));
    assert!(shown(&f).iter().any(|l| l.ends_with("xé")));
}

#[test]
fn context_of_a_flow() {
    let mut f = flow();
    assert_eq!(build_app_context(&f), "TLS/api.bigpanda.io");
    f.event.has_http = 0;
    assert_eq!(build_app_context(&f), "TLS/api.bigpanda.io");
    f.event.has_http = 1;
    f.event.has_tls = 0;
    assert_eq!(build_app_context(&f), "HTTP api.bigpanda.io POST /api/v2/alerts");
    f.event.has_tls = 1;
    f.event.tls_sni = [0; 256];
    assert_eq!(build_app_context(&f), "HTTP api.bigpanda.io POST /api/v2/alerts");
    f.event.has_http = 0;
    assert_eq!(build_app_context(&f), "HTTP");
    f.protocol_guess = None;
    assert_eq!(build_app_context(&f), "port/443");
}

fn value(v: &Scalar) -> String {
    match v {
        Scalar::Null => "null".to_string(),
        Scalar::Bool(b) => format!("{}", b),
        Scalar::Number(n) => format!("{}", n),
        Scalar::Ratio { num, den } => format!("{}", *num as f64 / *den as f64),
        Scalar::Percent { part, whole } => format!("{}", *part as f64 / *whole as f64 * 100.0),
        Scalar::Text(t) => format!("{:?}", t),
    }
}

fn written(flow: &EnrichedFlow) -> Vec<String> {
    print_json(flow)
        .iter()
        .map(|(key, v)| match v {
            JsonValue::Scalar(s) => format!("{}={}", key, value(s)),
            JsonValue::Object(m) => format!(
                "{}={{{}}}",
                key,
                m.iter().map(|(k, v)| format!("{}={}", k, value(v))).collect::<Vec<String>>().join(" ")
            ),
        })
        .collect()
}

#[test]
fn json_members_of_a_flow() {
    assert_eq!(
        written(&flow()),
        vec![
            "pid=9182", "ppid=9100", "uid=0", "comm=\"python3\"", "exe=null", "cmdline=null",
            "src_ip=\"10.0.1.50\"", "dst_ip=\"104.18.20.1\"", "src_port=54821", "dst_port=443",
            "protocol=\"TCP\"", "direction=\"outbound\"", "bytes_sent=1240", "bytes_recv=48200",
            "pkts_sent=12", "pkts_recv=38", "rtt_ms={min=1.8 max=4.2 final=2.1 jitter_max=0.8}",
            "retransmits={total=3 bytes=2480 rto=1 fast=2 tlp=0 sack_blocks=2 rate_pct=25}",
            "congestion={cwnd_min=10 cwnd_max=32 ecn_signals=0}",
            "tls={sni=\"api.bigpanda.io\" handshake_ms=12.4}",
            "http={host=\"api.bigpanda.io\" method=\"POST\" path=\"/api/v2/alerts\" status=200 app_rtt_ms=48.2}",
            "timing={connect_ts_ns=0 duration_ms=1500 ttfb_ms=13.2}", "k8s=null", "causal=null",
            "is_external=true", "protocol_guess=\"HTTP\"", "close_reason=\"clean\"",
        ]
    );
}

#[test]
fn json_of_another_flow() {
    let mut f = flow();
    f.event.has_tls = 0;
    f.event.has_http = 0;
    f.event.protocol = 17;
    f.event.direction = 0;
    f.event.pkts_sent = 0;
    f.event.chain_id = 0xf7a2b1;
    f.event.chain_depth = 3;
    f.ppid = None;
    f.exe_path = Some("/x".to_string());
    f.cmdline = Some("x y".to_string());
    f.k8s_pod = Some("p".to_string());
    f.k8s_namespace = Some("unknown".to_string());
    f.protocol_guess = None;
    f.is_external = false;
    let w = written(&f);
    for expected in [
        "ppid=null", "exe=\"/x\"", "cmdline=\"x y\"", "protocol=\"UDP\"", "direction=\"inbound\"", "tls=null",
        "http=null", "k8s={pod=\"p\" namespace=\"unknown\" container=null}",
        "causal={chain_id=\"0xf7a2b1\" parent_chain_id=\"0x0\" depth=3}", "is_external=false",
        "protocol_guess=null",
        "retransmits={total=3 bytes=2480 rto=1 fast=2 tlp=0 sack_blocks=2 rate_pct=0}",
    ] {
        assert!(w.contains(&expected.to_string()));
    }
    for (code, name) in [(0, "unknown"), (2, "reset"), (3, "timeout"), (4, "local_close"), (9, "unknown")] {
        f.event.close_reason = code;
        assert!(written(&f).contains(&format!("close_reason={:?}", name)));
    }
    assert_eq!(f.event.retransmit_share(), (0, 1));
}

#[test]
fn every_flow_has_the_same_members() {
    let keys = |f: &EnrichedFlow| print_json(f).iter().map(|m| m.0).collect::<Vec<&str>>();
    let mut f = flow();
    let before = keys(&f);
    f.event.has_tls = 0;
    f.event.chain_id = 5;
    f.k8s_pod = Some("p".to_string());
    assert_eq!(keys(&f), before);
}
