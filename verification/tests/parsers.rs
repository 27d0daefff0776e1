use flow_sensor::bytes::{copy_bytes_bounded, read_be16};
use flow_sensor::client_hello::parse_tls_clienthello_sni;
use flow_sensor::common::{HOST_LEN, METHOD_LEN, PATH_LEN};
use flow_sensor::http::{parse_http_request, parse_http_status};

fn extension(number: u16, body: &[u8]) -> Vec<u8> {
    let mut v = number.to_be_bytes().to_vec();
    v.extend_from_slice(&(body.len() as u16).to_be_bytes());
    v.extend_from_slice(body);
    v
}

fn server_name(name: &[u8]) -> Vec<u8> {
    let mut body = ((name.len() + 3) as u16).to_be_bytes().to_vec();
    body.push(0);
    body.extend_from_slice(&(name.len() as u16).to_be_bytes());
    body.extend_from_slice(name);
    extension(0, &body)
}

fn hello(extensions: &[u8]) -> Vec<u8> {
    let mut h = vec![1, 0, 0, 0, 3, 3];
    h.extend_from_slice(&[7; 32]);
    h.push(4);
    h.extend_from_slice(&[9; 4]);
    h.extend_from_slice(&[0, 2, 0x13, 0x01]);
    h.extend_from_slice(&[1, 0]);
    h.extend_from_slice(&(extensions.len() as u16).to_be_bytes());
    h.extend_from_slice(extensions);
    let mut r = vec![0x16, 3, 1];
    r.extend_from_slice(&(h.len() as u16).to_be_bytes());
    r.extend_from_slice(&h);
    r
}

fn found(buf: &[u8]) -> Option<Vec<u8>> {
    let mut out = [0u8; HOST_LEN];
    match parse_tls_clienthello_sni(buf, &mut out) {
        0 => {
            assert_eq!(out, [0u8; HOST_LEN]);
            None
        }
        _ => Some(out.iter().copied().take_while(|b| *b != 0).collect()),
    }
}

#[test]
fn client_hello_names_its_server() {
    let buf = hello(&server_name(b"api.example.com"));
    assert_eq!(found(&buf), Some(b"api.example.com".to_vec()));
}

#[test]
fn server_name_behind_other_extensions() {
    let mut ext = extension(10, &[0, 2, 0, 29]);
    ext.extend(extension(0x0a0a, &[]));
    ext.extend(server_name(b"b.example"));
    ext.extend(extension(16, &[1, 2, 3]));
    let mut buf = hello(&ext);
    assert_eq!(found(&buf), Some(b"b.example".to_vec()));
    buf.extend_from_slice(b"what follows in the buffer");
    assert_eq!(found(&buf), Some(b"b.example".to_vec()));
}

#[test]
fn truncated_hello_names_nothing() {
    let buf = hello(&server_name(b"api.example.com"));
    for n in 0..buf.len() {
        assert_eq!(found(&buf[..n]), None);
    }
}

#[test]
fn other_records_name_nothing() {
    let good = hello(&server_name(b"a.example"));
    for (at, value) in [(0, 0x17u8), (1, 2), (5, 2)] {
        let mut buf = good.clone();
        buf[at] = value;
        assert_eq!(found(&buf), None);
    }
    assert_eq!(found(&hello(&extension(10, &[0, 2, 0, 29]))), None);
    assert_eq!(found(&hello(&[])), None);
}

#[test]
fn name_of_another_type_is_passed_over() {
    let mut body = server_name(b"a.example");
    body[6] = 1;
    assert_eq!(found(&hello(&body)), None);
}

#[test]
fn longest_name_fills_the_field() {
    let name = vec![b'x'; HOST_LEN];
    let mut out = [0u8; HOST_LEN];
    assert_eq!(parse_tls_clienthello_sni(&hello(&server_name(&name)), &mut out), 1);
    assert_eq!(out, [b'x'; HOST_LEN]);
    assert_eq!(found(&hello(&server_name(&vec![b'x'; HOST_LEN + 1]))), None);
    assert_eq!(found(&hello(&server_name(b""))), None);
}

#[test]
fn extension_that_runs_over_names_nothing() {
    let mut ext = extension(10, &[0, 0]);
    ext[3] = 200;
    ext.extend(server_name(b"a.example"));
    assert_eq!(found(&hello(&ext)), None);
}

#[test]
fn forty_eight_extensions_are_looked_at() {
    let mut ext = Vec::new();
    for _ in 0..47 {
        ext.extend(extension(99, &[]));
    }
    let mut with_one_more = ext.clone();
    ext.extend(server_name(b"a.example"));
    assert_eq!(found(&hello(&ext)), Some(b"a.example".to_vec()));
    with_one_more.extend(extension(99, &[]));
    with_one_more.extend(server_name(b"a.example"));
    assert_eq!(found(&hello(&with_one_more)), None);
}

fn request(buf: &[u8]) -> Option<(String, String, String)> {
    let mut host = [0u8; HOST_LEN];
    let mut method = [0u8; METHOD_LEN];
    let mut path = [0u8; PATH_LEN];
    let has = parse_http_request(buf, &mut host, &mut method, &mut path);
    let text = |b: &[u8]| {
        String::from_utf8(b.iter().copied().take_while(|b| *b != 0).collect()).unwrap()
    };
    if has == 0 {
        assert_eq!((host, method, path), ([0; HOST_LEN], [0; METHOD_LEN], [0; PATH_LEN]));
        None
    } else {
        Some((text(&method), text(&path), text(&host)))
    }
}

fn parts(method: &str, path: &str, host: &str) -> Option<(String, String, String)> {
    Some((method.to_string(), path.to_string(), host.to_string()))
}

#[test]
fn request_line_and_host() {
    let r = request(b"POST /api/v2/alerts HTTP/1.1\r\nAccept: */*\r\nHost: api.example.com\r\n\r\n");
    assert_eq!(r, parts("POST", "/api/v2/alerts", "api.example.com"));
    for m in ["GET", "PUT", "DELETE", "PATCH", "HEAD", "OPTIONS"] {
        let r = request(format!("{} / HTTP/1.1\r\nhOSt: h\n", m).as_bytes());
        assert_eq!(r, parts(m, "/", "h"));
    }
}

#[test]
fn no_request() {
    for b in [&b""[..], b"GET", b"CONNECT x", b"get / HTTP", b"TRACE / HTTP/1.1", b"\x16\x03\x01\x00"] {
        assert_eq!(request(b), None);
    }
}

#[test]
fn request_without_its_parts() {
    assert_eq!(request(b"GETTY"), parts("GETTY", "", ""));
    assert_eq!(request(b"GETTINGLONG"), parts("GETTING", "", ""));
    assert_eq!(request(b"GET "), parts("GET", "", ""));
    assert_eq!(request(b"GET /x"), parts("GET", "/x", ""));
    assert_eq!(request(b"GET  HTTP"), parts("GET", "", ""));
    assert_eq!(request(b"POSTPONED /p "), parts("POSTPON", "/p", ""));
    assert_eq!(request(b"GET / HTTP/1.1\r\nHost: "), parts("GET", "/", ""));
    assert_eq!(request(b"GET / HTTP/1.1\r\nHost:h\r\n"), parts("GET", "/", ""));
}

#[test]
fn long_path_and_host_fill_their_fields() {
    let path = "p".repeat(PATH_LEN + 9);
    let r = request(format!("GET {} HTTP/1.1\r\n", path).as_bytes()).unwrap();
    assert_eq!(r.1, "p".repeat(PATH_LEN));
    let host = "h".repeat(HOST_LEN + 9);
    let r = request(format!("GET / HTTP/1.1\r\nHost: {}\r\n", host).as_bytes()).unwrap();
    assert_eq!(r.2, "h".repeat(HOST_LEN));
}

#[test]
fn host_is_looked_for_at_the_front() {
    for (n, expected) in [(399, "h"), (400, "")] {
        let mut buf = b"GET / ".to_vec();
        buf.resize(n, b'.');
        buf.extend_from_slice(b"Host: h\r\n");
        assert_eq!(request(&buf), parts("GET", "/", expected));
    }
}

#[test]
fn status_of_a_response() {
    assert_eq!(parse_http_status(b"HTTP/1.1 200 OK\r\n"), 200);
    assert_eq!(parse_http_status(b"HTTP/2 404 Not Found"), 404);
    assert_eq!(parse_http_status(b"HTTP/1.1 503"), 503);
    assert_eq!(parse_http_status(b"HTTP/1.1 000 "), 0);
    assert_eq!(parse_http_status(b"HTTP/ 999 xx"), 999);
}

#[test]
fn no_status() {
    for b in [
        &b""[..],
        b"HTTP/1.1 20",
        b"HTTP/1.1 2x0 OK",
        b"HTTP/1.1 ab0 OK",
        b"HTTP/1.1\r\n\r\nxx",
        b"http/1.1 200 OK",
        b"HTTPS/1.1 200 ",
        b"HTTP/1.1111 20",
    ] {
        assert_eq!(parse_http_status(b), 0);
    }
}

#[test]
fn bytes_are_copied_within_bounds() {
    let mut out = [0u8; 4];
    copy_bytes_bounded(&mut out, b"abcdef", 1, 2);
    assert_eq!(&out, b"bc\0\0");
    copy_bytes_bounded(&mut out, b"abcdef", 0, 9);
    assert_eq!(&out, b"abcd");
    copy_bytes_bounded(&mut out, b"abcdef", 5, 3);
    assert_eq!(&out, b"fbcd");
    copy_bytes_bounded(&mut out, b"abcdef", 6, 3);
    assert_eq!(&out, b"fbcd");
    assert_eq!(read_be16(&[0, 0x12, 0x34], 1), 0x1234);
}
