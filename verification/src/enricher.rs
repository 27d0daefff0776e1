//! What userspace adds to a flow: the process behind it, its Kubernetes
//! identity, whether it leaves the private networks, and what it may speak.

use vstd::prelude::*;
use vstd::string::*;
use crate::common::FlowEvent;
use crate::field_text::terminated_field_text;
use crate::k8s::{k8s_identity, parse_k8s_cgroup};
use crate::numbers::{decimal, decimal_text, parse_number, read_number};
use crate::text::{
    begins_with, lines, split_lines, split_words, stands_at, trim, trimmed, views, words,
};

verus! {

/// What an optional text spells.
pub open spec fn opt_view(t: Option<String>) -> Option<Seq<char>> {
    match t {
        Some(t) => Some(t@),
        None => None,
    }
}

/// The bytes of an address, in the order in which they are written.
pub open spec fn octet(ip: u32, i: int) -> u8 {
    if i == 0 {
        (ip % 0x100) as u8
    } else if i == 1 {
        (ip / 0x100 % 0x100) as u8
    } else if i == 2 {
        (ip / 0x1_0000 % 0x100) as u8
    } else {
        (ip / 0x100_0000) as u8
    }
}

/// The bytes of an address, in the order in which they are written.
pub fn octets(ip: u32) -> (r: (u8, u8, u8, u8))
    ensures
        r == (octet(ip, 0), octet(ip, 1), octet(ip, 2), octet(ip, 3)),
{
    (
        (ip % 0x100) as u8,
        (ip / 0x100 % 0x100) as u8,
        (ip / 0x1_0000 % 0x100) as u8,
        (ip / 0x100_0000) as u8,
    )
}

/// An address with dots between its bytes.
pub open spec fn dotted(ip: u32) -> Seq<char> {
    decimal(octet(ip, 0) as nat) + seq!['.'] + decimal(octet(ip, 1) as nat) + seq!['.'] + decimal(
        octet(ip, 2) as nat,
    ) + seq!['.'] + decimal(octet(ip, 3) as nat)
}

/// Writes an address with dots between its bytes.
pub fn dotted_text(ip: u32) -> (r: String)
    ensures
        r@ == dotted(ip),
{
    let (a, b, c, d) = octets(ip);
    let mut r = decimal_text(a as u64);
    r.push('.');
    r.append(decimal_text(b as u64).as_str());
    r.push('.');
    r.append(decimal_text(c as u64).as_str());
    r.push('.');
    r.append(decimal_text(d as u64).as_str());
    assert(r@ =~= dotted(ip));
    r
}

impl FlowEvent {
    /// The source address, written out.
    pub fn src_ip_str(&self) -> (r: String)
        ensures
            r@ == dotted(self.src_ip),
    {
        dotted_text(self.src_ip)
    }

    /// The destination address, written out.
    pub fn dst_ip_str(&self) -> (r: String)
        ensures
            r@ == dotted(self.dst_ip),
    {
        dotted_text(self.dst_ip)
    }
}

/// RFC 1918: 10/8, 172.16/12, 192.168/16.
pub open spec fn is_private(a: u8, b: u8) -> bool {
    a == 10 || (a == 172 && 16 <= b <= 31) || (a == 192 && b == 168)
}

/// RFC 5737: 192.0.2/24, 198.51.100/24, 203.0.113/24.
pub open spec fn is_documentation(a: u8, b: u8, c: u8) -> bool {
    (a == 192 && b == 0 && c == 2) || (a == 198 && b == 51 && c == 100) || (a == 203 && b == 0 && c
        == 113)
}

/// Whether an address is public: not private, loopback, link-local,
/// broadcast, documentation or unspecified.
pub open spec fn is_public(a: u8, b: u8, c: u8, d: u8) -> bool {
    &&& !is_private(a, b)
    &&& a != 127
    &&& !(a == 169 && b == 254)
    &&& !(a == 255 && b == 255 && c == 255 && d == 255)
    &&& !is_documentation(a, b, c)
    &&& !(a == 0 && b == 0 && c == 0 && d == 0)
}

/// Whether an address is public.
pub fn is_public_ip(ip: u32) -> (r: bool)
    ensures
        r == is_public(octet(ip, 0), octet(ip, 1), octet(ip, 2), octet(ip, 3)),
{
    let (a, b, c, d) = octets(ip);
    let private = a == 10 || (a == 172 && 16 <= b && b <= 31) || (a == 192 && b == 168);
    let documentation = (a == 192 && b == 0 && c == 2) || (a == 198 && b == 51 && c == 100) || (a
        == 203 && b == 0 && c == 113);
    !private && a != 127 && !(a == 169 && b == 254) && !(a == 255 && b == 255 && c == 255 && d
        == 255) && !documentation && !(a == 0 && b == 0 && c == 0 && d == 0)
}

/// The protocol that usually answers at a well-known port.
pub open spec fn usual_protocol(dst_port: u16) -> Option<Seq<char>> {
    if dst_port == 80 {
        Some("HTTP"@)
    } else if dst_port == 443 {
        Some("HTTPS"@)
    } else if dst_port == 8080 {
        Some("HTTP-alt"@)
    } else if dst_port == 8443 {
        Some("HTTPS-alt"@)
    } else if dst_port == 22 {
        Some("SSH"@)
    } else if dst_port == 25 || dst_port == 587 || dst_port == 465 {
        Some("SMTP"@)
    } else if dst_port == 53 {
        Some("DNS"@)
    } else if dst_port == 5432 {
        Some("PostgreSQL"@)
    } else if dst_port == 3306 {
        Some("MySQL"@)
    } else if dst_port == 6379 {
        Some("Redis"@)
    } else if dst_port == 9200 || dst_port == 9300 {
        Some("Elasticsearch"@)
    } else if dst_port == 2055 {
        Some("NetFlow"@)
    } else if dst_port == 4739 {
        Some("IPFIX"@)
    } else if dst_port == 6343 {
        Some("sFlow"@)
    } else if dst_port == 9092 {
        Some("Kafka"@)
    } else if dst_port == 2181 {
        Some("ZooKeeper"@)
    } else if dst_port == 50051 {
        Some("gRPC"@)
    } else {
        None
    }
}

/// Guesses the application protocol from a well-known destination port.
pub fn guess_protocol(dst_port: u16) -> (r: Option<String>)
    ensures
        opt_view(r) == usual_protocol(dst_port),
{
    let name: &str = match dst_port {
        80 => "HTTP",
        443 => "HTTPS",
        8080 => "HTTP-alt",
        8443 => "HTTPS-alt",
        22 => "SSH",
        25 | 587 | 465 => "SMTP",
        53 => "DNS",
        5432 => "PostgreSQL",
        3306 => "MySQL",
        6379 => "Redis",
        9200 | 9300 => "Elasticsearch",
        2055 => "NetFlow",
        4739 => "IPFIX",
        6343 => "sFlow",
        9092 => "Kafka",
        2181 => "ZooKeeper",
        50051 => "gRPC",
        _ => {
            return None;
        },
    };
    Some(name.to_owned())
}

/// The first line of a process's status file that gives its parent.
pub open spec fn parent_line(lines: Seq<Seq<char>>) -> Option<Seq<char>>
    decreases lines.len(),
{
    if lines.len() == 0 {
        None
    } else if stands_at(lines[0], "PPid:"@, 0) {
        Some(lines[0])
    } else {
        parent_line(lines.drop_first())
    }
}

/// The parent of a process, as its status file gives it: the second word of
/// the first line that begins with `PPid:`.
pub open spec fn parent_pid(status: Seq<char>) -> Option<int> {
    match parent_line(lines(status)) {
        Some(line) => if words(line).len() >= 2 {
            parse_number(words(line)[1], u32::MAX as int)
        } else {
            None
        },
        None => None,
    }
}

/// Reads the parent of a process out of its status file.
pub fn parse_ppid(status: &str) -> (r: Option<u32>)
    ensures
        match r {
            Some(pid) => parent_pid(status@) == Some(pid as int),
            None => parent_pid(status@) is None,
        },
{
    let all = split_lines(status);
    let ghost list = lines(status@);
    let mut i: usize = 0;
    assert(list.skip(0) =~= list);
    while i < all.len()
        invariant
            i <= all@.len(),
            views(all@) == list,
            list == lines(status@),
            parent_line(list) == parent_line(list.skip(i as int)),
        decreases all@.len() - i,
    {
        assert(list.skip(i as int)[0] == all@[i as int]@);
        if begins_with(all[i].as_str(), "PPid:") {
            let parts = split_words(all[i].as_str());
            assert(views(parts@).len() == parts@.len());
            if parts.len() >= 2 {
                assert(views(parts@)[1] == parts@[1]@);
                return read_number(parts[1].as_str(), u32::MAX);
            }
            return None;
        }
        assert(list.skip(i as int).drop_first() =~= list.skip(i + 1));
        i = i + 1;
    }
    None
}

/// What a byte of a command line is shown as: the character of its number, and
/// a space for a NUL byte.
pub open spec fn shown_byte(b: u8) -> char {
    if b == 0 {
        ' '
    } else {
        b as char
    }
}

/// What the bytes of a command line are shown as.
pub open spec fn shown_bytes(bytes: Seq<u8>) -> Seq<char> {
    bytes.map_values(|b: u8| shown_byte(b))
}

/// The command line in a process's cmdline file: its bytes as they are shown,
/// with no white space at either end.
pub open spec fn command_line(bytes: Seq<u8>) -> Seq<char> {
    trim(shown_bytes(bytes))
}

/// Reads a command line out of a process's cmdline file.
pub fn parse_cmdline(bytes: &[u8]) -> (r: String)
    ensures
        r@ == command_line(bytes@),
{
    let mut raw = String::new();
    let mut i: usize = 0;
    while i < bytes.len()
        invariant
            i <= bytes@.len(),
            raw@ =~= shown_bytes(bytes@).take(i as int),
        decreases bytes@.len() - i,
    {
        let b = bytes[i];
        raw.push(
            if b == 0 {
                ' '
            } else {
                b as char
            },
        );
        i = i + 1;
    }
    assert(raw@ =~= shown_bytes(bytes@));
    trimmed(raw.as_str())
}

/// What the proc file system says of a process; `None` where a file could not
/// be read.
pub struct ProcFiles {
    /// The text of the status file.
    pub status: Option<String>,
    /// Where the exe link points.
    pub exe: Option<String>,
    /// The bytes of the cmdline file.
    pub cmdline: Option<Vec<u8>>,
    /// The text of the cgroup file.
    pub cgroup: Option<String>,
}

/// A flow event with what userspace found out about it.
#[derive(Debug)]
pub struct EnrichedFlow {
    pub event: FlowEvent,
    pub ppid: Option<u32>,
    /// The binary that runs.
    pub exe_path: Option<String>,
    pub cmdline: Option<String>,
    pub k8s_pod: Option<String>,
    pub k8s_namespace: Option<String>,
    pub k8s_container: Option<String>,
    pub dst_hostname: Option<String>,
    pub dst_asn: Option<u32>,
    pub dst_org: Option<String>,
    /// The destination is a public address.
    pub is_external: bool,
    /// What the flow speaks, guessed from the port if nothing was seen.
    pub protocol_guess: Option<String>,
}

/// What [`resolve_proc`] gives of the parent.
pub open spec fn resolved_ppid(files: ProcFiles) -> Option<int> {
    match files.status {
        Some(status) => parent_pid(status@),
        None => None,
    }
}

/// What [`resolve_proc`] gives of the command line.
pub open spec fn resolved_cmdline(files: ProcFiles) -> Option<Seq<char>> {
    match files.cmdline {
        Some(bytes) => Some(command_line(bytes@)),
        None => None,
    }
}

fn copy_opt(t: &Option<String>) -> (r: Option<String>)
    ensures
        opt_view(r) == opt_view(*t),
{
    match t {
        Some(t) => Some(t.clone()),
        None => None,
    }
}

/// The parent, binary and command line of a process.
pub fn resolve_proc(files: &ProcFiles) -> (r: (Option<u32>, Option<String>, Option<String>))
    ensures
        match r.0 {
            Some(pid) => resolved_ppid(*files) == Some(pid as int),
            None => resolved_ppid(*files) is None,
        },
        opt_view(r.1) == opt_view(files.exe),
        opt_view(r.2) == resolved_cmdline(*files),
{
    let ppid = match &files.status {
        Some(status) => parse_ppid(status.as_str()),
        None => None,
    };
    let cmdline = match &files.cmdline {
        Some(bytes) => Some(parse_cmdline(bytes.as_slice())),
        None => None,
    };
    (ppid, copy_opt(&files.exe), cmdline)
}

/// The event itself does not name a cgroup.
pub open spec fn lacks_cgroup(event: FlowEvent) -> bool {
    terminated_field_text(event.cgroup@).len() == 0
}

/// Whether the event itself does not name a cgroup, so that the process's
/// cgroup file is to be read.
pub fn needs_cgroup_file(event: &FlowEvent) -> (r: bool)
    ensures
        r == lacks_cgroup(*event),
{
    event.cgroup_str().is_empty()
}

/// The text that gives a flow's cgroup: the event's own, else the process's
/// cgroup file, else nothing.
pub open spec fn cgroup_text(event: FlowEvent, file: Option<String>) -> Seq<char> {
    if terminated_field_text(event.cgroup@).len() > 0 {
        terminated_field_text(event.cgroup@)
    } else {
        match file {
            Some(text) => text@,
            None => seq![],
        }
    }
}

/// What these say of a Kubernetes identity: pod, namespace and container.
pub open spec fn k8s_names(cgroup: Seq<char>) -> (
    Option<Seq<char>>,
    Option<Seq<char>>,
    Option<Seq<char>>,
) {
    match k8s_identity(lines(cgroup)) {
        Some((pod, container)) => (Some(pod), Some("unknown"@), container),
        None => (None, None, None),
    }
}

/// The Kubernetes identity of a flow: pod, namespace and container.
pub fn resolve_cgroup(event: &FlowEvent, file: &Option<String>) -> (r: (
    Option<String>,
    Option<String>,
    Option<String>,
))
    ensures
        (opt_view(r.0), opt_view(r.1), opt_view(r.2)) == k8s_names(cgroup_text(*event, *file)),
{
    let own = event.cgroup_str();
    if own.is_empty() {
        match file {
            Some(text) => parse_k8s_cgroup(text.as_str()),
            None => {
                proof {
                    reveal_strlit("");
                    assert(""@ =~= seq![]);
                }
                parse_k8s_cgroup("")
            },
        }
    } else {
        parse_k8s_cgroup(own)
    }
}

/// What a flow speaks: what was seen of it, else what usually answers at the
/// port that it goes to.
pub open spec fn spoken_protocol(event: FlowEvent) -> Option<Seq<char>> {
    if event.has_http == 1 {
        Some("HTTP"@)
    } else if event.has_tls == 1 {
        Some("TLS"@)
    } else {
        usual_protocol(event.dst_port)
    }
}

/// `r` is a flow event with what userspace finds out about it.
pub open spec fn is_enriched(event: FlowEvent, files: ProcFiles, r: EnrichedFlow) -> bool {
    &&& r.event == event
    &&& match r.ppid {
        Some(pid) => resolved_ppid(files) == Some(pid as int),
        None => resolved_ppid(files) is None,
    }
    &&& opt_view(r.exe_path) == opt_view(files.exe)
    &&& opt_view(r.cmdline) == resolved_cmdline(files)
    &&& (opt_view(r.k8s_pod), opt_view(r.k8s_namespace), opt_view(r.k8s_container)) == k8s_names(
        cgroup_text(event, files.cgroup),
    )
    &&& r.dst_hostname is None
    &&& r.dst_asn is None
    &&& r.dst_org is None
    &&& r.is_external == is_public(
        octet(event.dst_ip, 0),
        octet(event.dst_ip, 1),
        octet(event.dst_ip, 2),
        octet(event.dst_ip, 3),
    )
    &&& opt_view(r.protocol_guess) == spoken_protocol(event)
}

/// Adds to a flow event what userspace finds out about it.
pub fn enrich(event: &FlowEvent, files: &ProcFiles) -> (r: EnrichedFlow)
    ensures
        is_enriched(*event, *files, r),
{
    let (ppid, exe_path, cmdline) = resolve_proc(files);
    let (k8s_pod, k8s_namespace, k8s_container) = resolve_cgroup(event, &files.cgroup);
    let is_external = is_public_ip(event.dst_ip);
    let protocol_guess = if event.has_http == 1 {
        Some("HTTP".to_owned())
    } else if event.has_tls == 1 {
        Some("TLS".to_owned())
    } else {
        guess_protocol(event.dst_port)
    };
    EnrichedFlow {
        event: *event,
        ppid,
        exe_path,
        cmdline,
        k8s_pod,
        k8s_namespace,
        k8s_container,
        dst_hostname: None,
        dst_asn: None,
        dst_org: None,
        is_external,
        protocol_guess,
    }
}

} // verus!
