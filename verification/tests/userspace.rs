use flow_sensor::common::FlowEvent;
use flow_sensor::enricher::{
    dotted_text, enrich, guess_protocol, is_public_ip, needs_cgroup_file, parse_cmdline,
    parse_ppid, resolve_cgroup, resolve_proc, ProcFiles,
};
use flow_sensor::field_text::{find_nul, read_terminated, read_text};
use flow_sensor::filter::{parse_pids, parse_ports, EventFilter};
use flow_sensor::k8s::parse_k8s_cgroup;
use flow_sensor::loader::{
    attach_points, copy_str, ebpf_object_path, is_json_format, make_test_event, report, take_item,
    Report,
};
use flow_sensor::numbers::{decimal_text, hexadecimal_text, read_number};
use flow_sensor::text::{
    has_text, is_whitespace, padded, same_text, split_lines, split_on, split_words,
    strip_prefixes, trimmed,
};
use flow_sensor::tls_attach::{
    find_interesting_processes, find_libssl, find_libssl_for_pid, interesting_process,
    LibsslNotFound, ProcEntry,
};
use flow_sensor::wire::FLOW_EVENT_LEN;

fn ip(a: u8, b: u8, c: u8, d: u8) -> u32 {
    u32::from_le_bytes([a, b, c, d])
}

fn files() -> ProcFiles {
    ProcFiles { status: None, exe: None, cmdline: None, cgroup: None }
}

fn open_filter() -> EventFilter {
    EventFilter {
        min_duration_ms: 0,
        port_filter: vec![],
        retransmits_only: false,
        sample_rate: 1,
    }
}


#[test]
fn white_space_is_that_of_unicode() {
    for n in 0..=0x10ffffu32 {
        if let Some(c) = char::from_u32(n) {
            assert_eq!(is_whitespace(c), c.is_whitespace());
        }
    }
}

#[test]
fn texts_are_split_like_std_does() {
    for t in [
        "", "\n", "a", "a\n", "a\r\nb", "a\n\nb\r", "\r\n\r\n", "a\rb\n", "  x  y\t z\u{3000}w ", ",", "a,,b", ",a",
        "a, b ,c", "é€𝄞 ä\u{85}b",
    ] {
        let owned = |v: Vec<&str>| v.into_iter().map(|x| x.to_string()).collect::<Vec<String>>();
        assert_eq!(split_lines(t), owned(t.lines().collect()));
        assert_eq!(split_on(t, ','), owned(t.split(',').collect()));
        assert_eq!(split_words(t), owned(t.split_whitespace().collect()));
        assert_eq!(trimmed(t), t.trim());
    }
}

#[test]
fn texts_are_found_and_stripped() {
    assert!(has_text("a/kubepods/b", "kubepods"));
    assert!(has_text("kubepods", "kubepods"));
    assert!(!has_text("kubepod", "kubepods"));
    assert!(has_text("x", ""));
    assert_eq!(strip_prefixes("podpodx", "pod"), "x");
    assert_eq!(strip_prefixes("xpod", "pod"), "xpod");
    assert_eq!(padded("⚠3", 6), format!("{:<6}", "⚠3"));
    assert_eq!(padded("toolong", 3), "toolong");
    assert!(same_text("json", "json"));
    assert!(!same_text("json", "jsonl"));
    assert!(!same_text("json", "jsom"));
}

#[test]
fn numbers_as_text() {
    for n in [0u64, 9, 10, 99, 100, 65535, 4294967296, u64::MAX] {
        assert_eq!(decimal_text(n), format!("{}", n));
        assert_eq!(hexadecimal_text(n), format!("{:#x}", n));
    }
}

#[test]
fn text_as_numbers() {
    for t in ["0", "7", "+7", "007", "4294967295", "4294967296", "", "+", "-1", "1 ", "1x", "٣", "99999999999999"] {
        assert_eq!(read_number(t, u32::MAX), t.parse::<u32>().ok());
        assert_eq!(read_number(t, 0xffff), t.parse::<u16>().ok().map(|n| n as u32));
    }
}

#[test]
fn fields_as_text() {
    assert_eq!(find_nul(b"ab\0c"), 2);
    assert_eq!(find_nul(b"ab"), 2);
    assert_eq!(read_terminated(b"ab\0c"), "ab");
    assert_eq!(read_terminated(b"ab"), "");
    assert_eq!(read_terminated(b"\xff\0"), "");
    assert_eq!(read_terminated("é\0".as_bytes()), "é");
    assert_eq!(read_text(b"\xc3", "?"), "?");
    assert_eq!(read_text("€𝄞".as_bytes(), "?"), "€𝄞");
}

#[test]
fn event_texts() {
    let mut e = make_test_event(7);
    assert_eq!(e.comm_str(), "python3");
    assert_eq!(e.sni_str(), "api.bigpanda.io");
    assert_eq!(e.http_host_str(), "api.bigpanda.io");
    assert_eq!(e.http_method_str(), "POST");
    assert_eq!(e.http_path_str(), "/api/v2/alerts");
    assert_eq!(e.cgroup_str(), "");
    e.comm = *b"sixteen-bytes-16";
    assert_eq!(e.comm_str(), "sixteen-bytes-16");
    e.comm[0] = 0xff;
    assert_eq!(e.comm_str(), "<invalid>");
    e.http_method = *b"EIGHTLEN";
    assert_eq!(e.http_method_str(), "");
    e.tls_sni = [b'x'; 256];
    assert_eq!(e.sni_str(), "");
    e.http_host[0] = 0xff;
    assert_eq!(e.http_host_str(), "");
    e.src_ip = ip(10, 0, 1, 50);
    e.dst_ip = ip(255, 0, 99, 100);
    assert_eq!((e.src_ip_str(), e.dst_ip_str()), ("10.0.1.50".to_string(), "255.0.99.100".to_string()));
    assert_eq!(dotted_text(0), "0.0.0.0");
}

#[test]
fn public_addresses() {
    for (a, b, c, d) in [(8, 8, 8, 8), (172, 15, 0, 1), (172, 32, 0, 1), (192, 169, 0, 1), (192, 0, 1, 1), (169, 253, 1, 1), (255, 255, 255, 254), (0, 0, 0, 1)] {
        assert!(is_public_ip(ip(a, b, c, d)));
    }
    for (a, b, c, d) in [
        (10, 1, 2, 3), (172, 16, 0, 1), (172, 31, 255, 255), (192, 168, 0, 1), (127, 0, 0, 1),
        (169, 254, 1, 1), (255, 255, 255, 255), (192, 0, 2, 1), (198, 51, 100, 1), (203, 0, 113, 1), (0, 0, 0, 0),
    ] {
        assert!(!is_public_ip(ip(a, b, c, d)));
    }
}

#[test]
fn well_known_ports() {
    for (port, name) in [
        (80, "HTTP"), (443, "HTTPS"), (8080, "HTTP-alt"), (8443, "HTTPS-alt"), (22, "SSH"), (25, "SMTP"),
        (587, "SMTP"), (465, "SMTP"), (53, "DNS"), (5432, "PostgreSQL"), (3306, "MySQL"), (6379, "Redis"),
        (9200, "Elasticsearch"), (9300, "Elasticsearch"), (2055, "NetFlow"), (4739, "IPFIX"), (6343, "sFlow"),
        (9092, "Kafka"), (2181, "ZooKeeper"), (50051, "gRPC"),
    ] {
        assert_eq!(guess_protocol(port).as_deref(), Some(name));
    }
    assert_eq!(guess_protocol(81), None);
}

#[test]
fn proc_files() {
    assert_eq!(parse_ppid("Name:\tx\nPPid:\t9100\nUid:\t0\n"), Some(9100));
    assert_eq!(parse_ppid("PPid:\nPPid: 3"), None);
    assert_eq!(parse_ppid("PPid: x"), None);
    assert_eq!(parse_ppid(" PPid: 1"), None);
    assert_eq!(parse_ppid(""), None);
    assert_eq!(parse_cmdline(b"python3\0script.py\0--env\0prod\0"), "python3 script.py --env prod");
    assert_eq!(parse_cmdline(b"\0\0"), "");
    assert_eq!(parse_cmdline(b"caf\xe9\0"), "café");
    let r = resolve_proc(&ProcFiles {
        status: Some("PPid:\t1\n".to_string()),
        exe: Some("/usr/bin/x".to_string()),
        cmdline: Some(b"x\0".to_vec()),
        cgroup: None,
    });
    assert_eq!(r, (Some(1), Some("/usr/bin/x".to_string()), Some("x".to_string())));
    assert_eq!(resolve_proc(&files()), (None, None, None));
}

fn names(r: (Option<String>, Option<String>, Option<String>)) -> (String, String, String) {
    (
        r.0.unwrap_or("-".to_string()),
        r.1.unwrap_or("-".to_string()),
        r.2.unwrap_or("-".to_string()),
    )
}

fn three(a: &str, b: &str, c: &str) -> (String, String, String) {
    (a.to_string(), b.to_string(), c.to_string())
}

#[test]
fn kubernetes_identity() {
    let line = "0::/kubepods/burstable/pod1234-ab/0123456789abcdef\n";
    assert_eq!(names(parse_k8s_cgroup(line)), three("1234-ab", "unknown", "0123456789ab"));
    let more = format!("12:cpu:/user.slice\n11:pids:/kubepods/x\n{}", line);
    assert_eq!(names(parse_k8s_cgroup(&more)), three("1234-ab", "unknown", "0123456789ab"));
    let short = "1:a:/kubepods/podX/short";
    assert_eq!(names(parse_k8s_cgroup(short)), three("X", "unknown", "-"));
    let twelve = "1:a:/kubepods/podX/0123456789ab";
    assert_eq!(names(parse_k8s_cgroup(twelve)), three("X", "unknown", "0123456789ab"));
    for none in ["", "0::/system.slice/sshd.service", "kubepods/podX/0123456789abcdef", "1:/kubepods/podX"] {
        assert_eq!(names(parse_k8s_cgroup(none)), three("-", "-", "-"));
    }
    assert_eq!(names(parse_k8s_cgroup("1:a:/kubepods/podpodX/y")), three("X", "unknown", "-"));
    for end in ["", "/", "///"] {
        let line = format!("0::/kubepods/podx/0123456789abcdef{}", end);
        assert_eq!(names(parse_k8s_cgroup(&line)), three("x", "unknown", "0123456789ab"));
    }
    let path = "/sys/fs/cgroup/kubepods/podu1/0123456789abcdef";
    assert_eq!(names(parse_k8s_cgroup(path)), three("u1", "unknown", "0123456789ab"));
    assert_eq!(names(parse_k8s_cgroup("/a:b/kubepods/podX/y")), three("X", "unknown", "-"));
}

#[test]
fn short_id_that_would_part_a_character() {
    for end in ["", "/"] {
        let line = format!("1:a:/kubepods/podX/0123456789aé{}", end);
        assert_eq!(names(parse_k8s_cgroup(&line)), three("X", "unknown", "-"));
        let path = format!("/kubepods/podX/0123456789aé{}", end);
        assert_eq!(names(parse_k8s_cgroup(&path)), three("X", "unknown", "-"));
    }
    let whole = "1:a:/kubepods/podX/0123456789éz";
    assert_eq!(names(parse_k8s_cgroup(whole)), three("X", "unknown", "0123456789é"));
    let later = "1:a:/kubepods/x/0123456789aé\n1:a:/kubepods/podX/0123456789ab";
    assert_eq!(names(parse_k8s_cgroup(later)), three("X", "unknown", "0123456789ab"));
}

#[test]
fn cgroup_of_the_event_comes_first() {
    let mut e = make_test_event(1);
    let file = Some("0::/kubepods/podF/0123456789ab".to_string());
    assert!(needs_cgroup_file(&e));
    assert_eq!(names(resolve_cgroup(&e, &file)), three("F", "unknown", "0123456789ab"));
    assert_eq!(names(resolve_cgroup(&e, &None)), three("-", "-", "-"));
    let own = b"0::/kubepods/podE/abcdefabcdef";
    e.cgroup[..own.len()].copy_from_slice(own);
    assert!(!needs_cgroup_file(&e));
    assert_eq!(names(resolve_cgroup(&e, &file)), three("E", "unknown", "abcdefabcdef"));
    e.cgroup = [0; 128];
    let path = b"/sys/fs/cgroup/kubepods/podu1/0123456789abcdef";
    e.cgroup[..path.len()].copy_from_slice(path);
    assert_eq!(names(resolve_cgroup(&e, &file)), three("u1", "unknown", "0123456789ab"));
}

#[test]
fn enriched_flow() {
    let mut e = make_test_event(1);
    e.dst_ip = ip(104, 18, 20, 1);
    let flow = enrich(
        &e,
        &ProcFiles {
            status: Some("PPid: 9100".to_string()),
            exe: Some("/usr/bin/python3.11".to_string()),
            cmdline: Some(b"python3\0a.py".to_vec()),
            cgroup: Some("0::/kubepods/podP/0123456789ab".to_string()),
        },
    );
    assert_eq!((flow.ppid, flow.is_external), (Some(9100), true));
    assert_eq!(flow.exe_path.as_deref(), Some("/usr/bin/python3.11"));
    assert_eq!(flow.cmdline.as_deref(), Some("python3 a.py"));
    assert_eq!(flow.k8s_pod.as_deref(), Some("P"));
    assert_eq!(flow.k8s_namespace.as_deref(), Some("unknown"));
    assert_eq!(flow.k8s_container.as_deref(), Some("0123456789ab"));
    assert_eq!(flow.protocol_guess.as_deref(), Some("HTTP"));
    assert!(flow.dst_hostname.is_none() && flow.dst_asn.is_none() && flow.dst_org.is_none());
    assert_eq!(flow.event.pid, 1);
    e.has_http = 0;
    assert_eq!(enrich(&e, &files()).protocol_guess.as_deref(), Some("TLS"));
    e.has_tls = 0;
    assert_eq!(enrich(&e, &files()).protocol_guess.as_deref(), Some("HTTPS"));
    e.dst_port = 1;
    e.dst_ip = ip(10, 0, 0, 1);
    let flow = enrich(&e, &files());
    assert_eq!((flow.protocol_guess, flow.is_external, flow.ppid), (None, false, None));
}

#[test]
fn lists_of_numbers() {
    assert_eq!(parse_ports(""), Vec::<u16>::new());
    assert_eq!(parse_ports("443"), vec![443]);
    assert_eq!(parse_ports("80, 443 ,x,70000,-1,,8080"), vec![80, 443, 8080]);
    assert_eq!(parse_pids("1,70000, 4294967295,4294967296"), vec![1, 70000, 4294967295]);
    assert_eq!(parse_pids(""), Vec::<u32>::new());
}

#[test]
fn listed_numbers_read_back() {
    let ports = vec![0u16, 1, 80, 443, 65535];
    let text = ports.iter().map(|p| format!("{}", p)).collect::<Vec<String>>().join(",");
    assert_eq!(parse_ports(&text), ports);
}

#[test]
fn filter_by_duration() {
    let mut f = open_filter();
    let mut e = make_test_event(1);
    assert!(f.matches(&e));
    f.min_duration_ms = 100;
    e.duration_ns = 99_999_999;
    assert!(!f.matches(&e));
    e.duration_ns = 100_000_000;
    assert!(f.matches(&e));
}

#[test]
fn filter_by_port() {
    let mut f = open_filter();
    f.port_filter = vec![8080, 443];
    let mut e = make_test_event(1);
    assert!(f.matches(&e));
    e.dst_port = 80;
    assert!(!f.matches(&e));
    e.src_port = 8080;
    assert!(f.matches(&e));
}

#[test]
fn filter_by_retransmits() {
    let mut f = open_filter();
    f.retransmits_only = true;
    let mut e = make_test_event(1);
    assert!(f.matches(&e));
    e.retransmit_count = 0;
    assert!(!f.matches(&e));
}

#[test]
fn filter_by_sampling() {
    let mut f = open_filter();
    let mut e = make_test_event(1);
    e.chain_id = 21;
    for (rate, reported) in [(0, true), (1, true), (7, true), (10, false), (3, true)] {
        f.sample_rate = rate;
        assert_eq!(f.matches(&e), reported);
    }
    f.sample_rate = 10;
    let kept = (95..105u64).filter(|id| {
        e.chain_id = *id;
        f.matches(&e)
    });
    assert_eq!(kept.collect::<Vec<u64>>(), vec![100]);
    let mut sibling = e;
    sibling.src_port = 1;
    f.sample_rate = 10;
    assert_eq!(f.matches(&e), f.matches(&sibling));
}

#[test]
fn stricter_filters_report_less() {
    let mut strict = open_filter();
    strict.min_duration_ms = 2_000;
    strict.port_filter = vec![443];
    assert!(!strict.matches(&make_test_event(1)));
    assert!(open_filter().matches(&make_test_event(1)));
}

#[test]
fn items_of_the_ring_buffer() {
    let mut count = 0u64;
    let f = open_filter();
    assert!(take_item(&[0; FLOW_EVENT_LEN - 1], &f, &mut count).is_none());
    assert_eq!(count, 0);
    let mut item = [0u8; FLOW_EVENT_LEN];
    item[0] = 77;
    let e: FlowEvent = take_item(&item, &f, &mut count).unwrap();
    assert_eq!((e.pid, count), (77, 1));
    let mut strict = open_filter();
    strict.retransmits_only = true;
    assert!(take_item(&item, &strict, &mut count).is_none());
    assert_eq!(count, 2);
    count = u64::MAX;
    assert!(take_item(&item, &f, &mut count).is_some());
    assert_eq!(count, 0);
}

#[test]
fn reports_follow_the_format() {
    let flow = enrich(&make_test_event(1), &files());
    assert!(matches!(report(&flow, "json"), Report::Json(_)));
    assert!(matches!(report(&flow, "jsonl"), Report::Json(_)));
    assert!(matches!(report(&flow, "pretty"), Report::Pretty(_)));
    assert!(matches!(report(&flow, "JSON"), Report::Pretty(_)));
    assert!(is_json_format("json") && !is_json_format("pretty"));
}

#[test]
fn attached_programs() {
    let points = attach_points();
    assert_eq!(points.len(), 17);
    assert_eq!(points[5], ("tcp_recvmsg_entry", "tcp_recvmsg"));
    assert_eq!(points[6], ("tcp_recvmsg", "tcp_recvmsg"));
    assert_eq!(points[0], ("tcp_connect", "tcp_connect"));
    assert_eq!(points[13], ("tcp_fast_retransmit", "tcp_retransmit_timer"));
    assert_eq!(points[14], ("tcp_sacktag", "tcp_sacktag_write_queue"));
    assert_eq!(points[15], ("on_new_task", "wake_up_new_task"));
    assert_eq!(points[16], ("on_exit", "do_exit"));
}

#[test]
fn object_path() {
    let rel = "../flow-sensor-ebpf/target/bpfel-unknown-none/release/libflow_sensor_ebpf.so";
    for dir in ["/src/flow-sensor", "/src/", "/", "", "rel"] {
        let expected = std::path::PathBuf::from(dir).join(rel);
        assert_eq!(ebpf_object_path(dir), expected.to_str().unwrap());
    }
}

#[test]
fn copies_leave_the_last_byte() {
    let mut dst = [9u8; 4];
    copy_str(&mut dst, b"ab");
    assert_eq!(dst, [b'a', b'b', 9, 9]);
    copy_str(&mut dst, b"wxyz");
    assert_eq!(dst, [b'w', b'x', b'y', 9]);
    copy_str(&mut [], b"ab");
}

#[test]
fn synthetic_event() {
    let e = make_test_event(4321);
    assert_eq!((e.pid, e.uid, e.src_port, e.dst_port), (4321, 0, 54821, 443));
    assert_eq!(e.src_ip, u32::from_be_bytes([10, 0, 1, 50]));
    assert_eq!(e.dst_ip, u32::from_be_bytes([104, 18, 20, 1]));
    assert_eq!((e.bytes_sent, e.bytes_recv, e.pkts_sent, e.pkts_recv), (1240, 48200, 12, 38));
    assert_eq!((e.retransmit_count, e.retransmit_bytes, e.sack_blocks_received), (3, 2480, 2));
    assert_eq!((e.http_status, e.duration_ns, e.app_response_time_ns), (200, 1_500_000_000, 48_200_000));
    assert_eq!((e.close_reason, e.chain_depth, e.ppid), (1, 0, 0));
}

#[test]
fn libssl_of_the_system() {
    let listing = "\tlibssl.so.3 (libc6,x86-64) => /lib/a/libssl.so.3\n\tlibc.so.6 => /lib/libc.so.6\n\tlibssl.so (x) =>  /lib/b/libssl.so => z\n\tlibssl.so.9 no arrow\n";
    assert_eq!(find_libssl(Some(listing), |_| true).unwrap(), "/lib/a/libssl.so.3");
    assert_eq!(find_libssl(Some(listing), |p| p == "/lib/b/libssl.so").unwrap(), "/lib/b/libssl.so");
    assert!(find_libssl(Some(listing), |p| p == "/lib/libc.so.6").is_err());
    assert_eq!(
        find_libssl(Some(listing), |p| p.starts_with("/usr")).unwrap(),
        "/usr/lib/x86_64-linux-gnu/libssl.so.3"
    );
    assert_eq!(find_libssl(None, |p| p.starts_with("/lib")).unwrap(), "/lib/x86_64-linux-gnu/libssl.so.3");
    assert_eq!(find_libssl(None, |p| p == "/usr/lib/libssl.so.3").unwrap(), "/usr/lib/libssl.so.3");
    assert_eq!(find_libssl(None, |_| false), Err(LibsslNotFound));
    assert_eq!(
        LibsslNotFound.message(),
        "libssl not found — install openssl or specify path manually"
    );
}

#[test]
fn libssl_of_a_process() {
    let maps = "7f00 r-xp 0 /usr/lib/libc.so.6\n7f01 r-xp 0 /usr/lib/libssl.so.3\n7f02 r-xp 0 /opt/libssl.so.1.1\nlibssl\n";
    assert_eq!(find_libssl_for_pid(maps, &|_: &str| true).as_deref(), Some("/usr/lib/libssl.so.3"));
    assert_eq!(
        find_libssl_for_pid(maps, &|p: &str| p.starts_with("/opt")).as_deref(),
        Some("/opt/libssl.so.1.1")
    );
    assert_eq!(find_libssl_for_pid(maps, &|p: &str| p == "libssl").as_deref(), Some("libssl"));
    assert_eq!(find_libssl_for_pid(maps, &|_: &str| false), None);
    assert_eq!(find_libssl_for_pid("", &|_: &str| true), None);
}

#[test]
fn processes_of_interest() {
    assert_eq!(interesting_process("nginx\n").as_deref(), Some("nginx"));
    assert_eq!(interesting_process("my-python3.11").as_deref(), Some("my-python3.11"));
    assert_eq!(interesting_process("sshd\n"), None);
    let entry = |name: &str, comm: Option<&str>, maps: Option<&str>| ProcEntry {
        name: name.to_string(),
        comm: comm.map(|t| t.to_string()),
        maps: maps.map(|t| t.to_string()),
    };
    let entries = vec![
        entry("self", Some("curl\n"), Some("x /l/libssl.so")),
        entry("10", Some("curl\n"), Some("x /l/libssl.so")),
        entry("11", Some("sshd\n"), Some("x /l/libssl.so")),
        entry("12", None, Some("x /l/libssl.so")),
        entry("13", Some("wget\n"), None),
        entry("14", Some("java\n"), Some("x /l/libc.so")),
        entry("15", Some("envoy\n"), Some("x /m/libssl.so")),
    ];
    assert_eq!(
        find_interesting_processes(&entries, |_| true),
        vec![
            (10, "curl".to_string(), "/l/libssl.so".to_string()),
            (15, "envoy".to_string(), "/m/libssl.so".to_string()),
        ]
    );
    assert!(find_interesting_processes(&entries, |_| false).is_empty());
}
