//! The server name of a TLS ClientHello.

use vstd::prelude::*;
use crate::bytes::{be16, copy_bytes_bounded, overwrite, read_be16};
use crate::common::HOST_LEN;

verus! {

/// How many extensions of a ClientHello are looked at.
pub const MAX_EXTENSIONS: usize = 48;

/// Where the extensions of the ClientHello that starts at the front of `s`
/// begin and end; `None` if `s` does not hold a whole record of a ClientHello
/// with an extension block.
pub open spec fn extensions_span(s: Seq<u8>) -> Option<(int, int)> {
    let ciphers = 44 + s[43];
    let compression = ciphers + 2 + be16(s, ciphers);
    let extensions = compression + 1 + s[compression];
    let start = extensions + 2;
    let end = start + be16(s, extensions);
    if s.len() < 44 || s[0] != 0x16 || s[1] != 0x03 || 5 + be16(s, 3) > s.len() || s[5] != 0x01 {
        None
    } else if ciphers + 2 > s.len() || compression + 1 > s.len() || start > s.len() || end > s.len() {
        None
    } else {
        Some((start, end))
    }
}

/// Where the host name of a server_name extension stands, as its start and
/// length; the extension's body is the `len` bytes at `p`.
pub open spec fn server_name_span(s: Seq<u8>, p: int, len: int) -> Option<(int, int)> {
    let list_len = be16(s, p);
    let name_len = be16(s, p + 3);
    if len >= 5 && list_len >= 3 && 2 + list_len <= len && s[p + 2] == 0 && 0 < name_len <= HOST_LEN
        && 5 + name_len <= len {
        Some((p + 5, name_len))
    } else {
        None
    }
}

/// The first host name that the extensions in `p..end` give, looking at no
/// more than `budget` of them and at none behind one that does not fit.
pub open spec fn scan_extensions(s: Seq<u8>, p: int, end: int, budget: nat) -> Option<(int, int)>
    decreases budget,
{
    let body = p + 4;
    let len = be16(s, p + 2);
    if budget == 0 || body > end || body + len > end {
        None
    } else if be16(s, p) == 0 && server_name_span(s, body, len) is Some {
        server_name_span(s, body, len)
    } else {
        scan_extensions(s, body + len, end, (budget - 1) as nat)
    }
}

/// Where the server name of the ClientHello in `s` stands, as its start and length.
pub open spec fn sni_span(s: Seq<u8>) -> Option<(int, int)> {
    match extensions_span(s) {
        Some((start, end)) => scan_extensions(s, start, end, MAX_EXTENSIONS as nat),
        None => None,
    }
}

/// The server name of the ClientHello in `s`.
pub open spec fn sni(s: Seq<u8>) -> Option<Seq<u8>> {
    match sni_span(s) {
        Some((start, len)) => Some(s.subrange(start, start + len)),
        None => None,
    }
}

/// A name that the scan finds lies within the extensions.
pub proof fn scan_stays_inside(s: Seq<u8>, p: int, end: int, budget: nat)
    requires
        0 <= p,
    ensures
        scan_extensions(s, p, end, budget) matches Some((start, len)) ==> p < start && 0 < len
            <= HOST_LEN && start + len <= end,
    decreases budget,
{
    let body = p + 4;
    let len = be16(s, p + 2);
    if budget != 0 && body <= end && body + len <= end {
        if !(be16(s, p) == 0 && server_name_span(s, body, len) is Some) {
            scan_stays_inside(s, body + len, end, (budget - 1) as nat);
        }
    }
}

/// The name's place in the buffer: inside it, and no longer than a host field.
pub proof fn sni_lies_in_the_buffer(s: Seq<u8>)
    ensures
        sni_span(s) matches Some((start, len)) ==> 0 < start && 0 < len <= HOST_LEN && start + len
            <= s.len(),
{
    if let Some((start, end)) = extensions_span(s) {
        scan_stays_inside(s, start, end, MAX_EXTENSIONS as nat);
    }
}

/// `n` as a big-endian 16-bit number.
pub open spec fn be16_bytes(n: int) -> Seq<u8> {
    seq![(n / 256) as u8, (n % 256) as u8]
}

/// An extension: its number and its body.
pub open spec fn extension_bytes(extension: (u16, Seq<u8>)) -> Seq<u8> {
    be16_bytes(extension.0 as int) + be16_bytes(extension.1.len() as int) + extension.1
}

/// Extensions one behind the other.
pub open spec fn extensions_bytes(extensions: Seq<(u16, Seq<u8>)>) -> Seq<u8>
    decreases extensions.len(),
{
    if extensions.len() == 0 {
        seq![]
    } else {
        extension_bytes(extensions[0]) + extensions_bytes(extensions.drop_first())
    }
}

/// The server_name extension that names one host.
pub open spec fn server_name_extension(name: Seq<u8>) -> (u16, Seq<u8>) {
    (0u16, be16_bytes(name.len() as int + 3) + seq![0u8] + be16_bytes(name.len() as int) + name)
}

/// The parts of a ClientHello that names a host.
pub struct ClientHello {
    pub record_minor: u8,
    pub handshake_len: Seq<u8>,
    pub version: Seq<u8>,
    pub random: Seq<u8>,
    pub session: Seq<u8>,
    pub ciphers: Seq<u8>,
    pub compression: Seq<u8>,
    /// The extensions in front of server_name.
    pub before: Seq<(u16, Seq<u8>)>,
    pub name: Seq<u8>,
    /// The extensions behind server_name.
    pub after: Seq<(u16, Seq<u8>)>,
}

impl ClientHello {
    pub open spec fn extensions(self) -> Seq<u8> {
        extensions_bytes(self.before + seq![server_name_extension(self.name)] + self.after)
    }

    /// Everything behind the record header.
    pub open spec fn handshake(self) -> Seq<u8> {
        seq![0x01u8] + self.handshake_len + self.version + self.random + seq![
            self.session.len() as u8,
        ] + self.session + be16_bytes(self.ciphers.len() as int) + self.ciphers + seq![
            self.compression.len() as u8,
        ] + self.compression + be16_bytes(self.extensions().len() as int) + self.extensions()
    }

    /// The record as it travels.
    pub open spec fn bytes(self) -> Seq<u8> {
        seq![0x16u8, 0x03u8, self.record_minor] + be16_bytes(self.handshake().len() as int)
            + self.handshake()
    }

    /// Every length fits its field, the name fits a host field, and
    /// server_name is the first of its number and among those looked at.
    pub open spec fn valid(self) -> bool {
        &&& self.handshake_len.len() == 3
        &&& self.version.len() == 2
        &&& self.random.len() == 32
        &&& self.session.len() <= 255
        &&& self.compression.len() <= 255
        &&& self.handshake().len() <= 0xffff
        &&& 0 < self.name.len() <= HOST_LEN
        &&& self.before.len() < MAX_EXTENSIONS
        &&& forall|i: int| 0 <= i < self.before.len() ==> (#[trigger] self.before[i]).0 != 0
    }
}

proof fn be16_reads_back(n: int)
    requires
        0 <= n <= 0xffff,
    ensures
        be16(be16_bytes(n), 0) == n,
{
}

/// The scan of extensions that stand at `p` finds the name.
proof fn scan_finds_name(
    s: Seq<u8>,
    p: int,
    before: Seq<(u16, Seq<u8>)>,
    name: Seq<u8>,
    after: Seq<(u16, Seq<u8>)>,
    budget: nat,
)
    requires
        0 <= p,
        0 < name.len() <= HOST_LEN,
        before.len() < budget,
        forall|i: int| 0 <= i < before.len() ==> (#[trigger] before[i]).0 != 0,
        ({
            let all = extensions_bytes(before + seq![server_name_extension(name)] + after);
            &&& all.len() <= 0xffff
            &&& p + all.len() <= s.len()
            &&& s.subrange(p, p + all.len()) == all
        }),
    ensures
        ({
            let all = extensions_bytes(before + seq![server_name_extension(name)] + after);
            &&& scan_extensions(s, p, p + all.len(), budget) matches Some((start, len))
            &&& start + len <= s.len()
            &&& s.subrange(start, start + len) == name
        }),
    decreases before.len(),
{
    let list = before + seq![server_name_extension(name)] + after;
    let all = extensions_bytes(list);
    let here = s.subrange(p, p + all.len());
    let first = list[0];
    let rest = extensions_bytes(list.drop_first());
    assert(all == extension_bytes(first) + rest);
    be16_reads_back(first.0 as int);
    assert(first.1.len() <= all.len());
    be16_reads_back(first.1.len() as int);
    assert(here[0] == s[p] && here[1] == s[p + 1] && here[2] == s[p + 2] && here[3] == s[p + 3]);
    assert(be16(s, p) == first.0);
    assert(be16(s, p + 2) == first.1.len());
    let body = p + 4;
    assert(s.subrange(body, body + first.1.len()) =~= first.1) by {
        assert forall|i: int| 0 <= i < first.1.len() implies s[body + i] == first.1[i] by {
            assert(here[4 + i] == s[body + i]);
        }
    }
    let part = s.subrange(body, body + first.1.len());
    if before.len() == 0 {
        assert(first == server_name_extension(name));
        let n = name.len() as int;
        be16_reads_back(n);
        be16_reads_back(n + 3);
        assert(part[0] == s[body] && part[1] == s[body + 1] && part[2] == s[body + 2] && part[3]
            == s[body + 3] && part[4] == s[body + 4]);
        assert(be16(s, body) == n + 3);
        assert(be16(s, body + 3) == n);
        assert(server_name_span(s, body, first.1.len() as int) == Some((body + 5, n)));
        assert(s.subrange(body + 5, body + 5 + n) =~= name) by {
            assert forall|i: int| 0 <= i < n implies s[body + 5 + i] == name[i] by {
                assert(part[5 + i] == s[body + 5 + i]);
            }
        }
    } else {
        let next = body + first.1.len();
        assert(first == before[0]);
        assert(list.drop_first() =~= before.drop_first() + seq![server_name_extension(name)]
            + after);
        assert(s.subrange(next, next + rest.len()) =~= rest) by {
            assert forall|i: int| 0 <= i < rest.len() implies s[next + i] == rest[i] by {
                assert(here[4 + first.1.len() + i] == s[next + i]);
            }
        }
        assert forall|i: int| 0 <= i < before.drop_first().len() implies (
        #[trigger] before.drop_first()[i]).0 != 0 by {
            assert(before.drop_first()[i] == before[i + 1]);
        }
        scan_finds_name(s, next, before.drop_first(), name, after, (budget - 1) as nat);
        assert(next + rest.len() == p + all.len());
    }
}

/// The server name that a client puts into its ClientHello is the one found,
/// whatever follows the record in the buffer.
pub proof fn client_hello_gives_its_name(hello: ClientHello, rest: Seq<u8>)
    requires
        hello.valid(),
    ensures
        sni(hello.bytes() + rest) == Some(hello.name),
{
    let s = hello.bytes() + rest;
    let e = hello.extensions();
    let h = hello.handshake();
    be16_reads_back(h.len() as int);
    be16_reads_back(e.len() as int);
    be16_reads_back(hello.ciphers.len() as int);
    assert(s.len() == 5 + h.len() + rest.len());
    assert forall|i: int| 0 <= i < h.len() implies s[5 + i] == h[i] by {}
    let head = seq![0x01u8] + hello.handshake_len + hello.version + hello.random;
    assert(head.len() == 38);
    let session = 38int;
    let ciphers = 39int + hello.session.len();
    let compression = ciphers + 2 + hello.ciphers.len();
    let extensions = compression + 1 + hello.compression.len();
    assert(h.len() == extensions + 2 + e.len());
    assert(h[session] == hello.session.len() as u8);
    assert(h[ciphers] == be16_bytes(hello.ciphers.len() as int)[0]);
    assert(h[ciphers + 1] == be16_bytes(hello.ciphers.len() as int)[1]);
    assert(h[compression] == hello.compression.len() as u8);
    assert(h[extensions] == be16_bytes(e.len() as int)[0]);
    assert(h[extensions + 1] == be16_bytes(e.len() as int)[1]);
    assert(s[43] == h[38]);
    assert(s[5 + ciphers] == h[ciphers] && s[5 + ciphers + 1] == h[ciphers + 1]);
    assert(s[5 + compression] == h[compression]);
    assert(s[5 + extensions] == h[extensions] && s[5 + extensions + 1] == h[extensions + 1]);
    assert(s[5] == h[0] && h[0] == head[0]);
    let start = 5 + extensions + 2;
    assert(extensions_span(s) == Some((start, start + e.len())));
    assert(s.subrange(start, start + e.len()) =~= e) by {
        assert forall|i: int| 0 <= i < e.len() implies s[start + i] == e[i] by {
            assert(h[extensions + 2 + i] == e[i]);
        }
    }
    scan_finds_name(s, start, hello.before, hello.name, hello.after, MAX_EXTENSIONS as nat);
}

/// A buffer that cuts the record short gives no name.
pub proof fn truncated_record_gives_no_name(s: Seq<u8>)
    requires
        s.len() >= 5,
        5 + be16(s, 3) > s.len(),
    ensures
        sni(s) is None,
{
}

/// Finds the extension block of a ClientHello.
fn find_extensions(buf: &[u8]) -> (r: Option<(usize, usize)>)
    ensures
        match r {
            Some((start, end)) => extensions_span(buf@) == Some((start as int, end as int)) && start
                <= end <= buf@.len(),
            None => extensions_span(buf@) is None,
        },
{
    let len = buf.len();
    if len < 44 || buf[0] != 0x16 || buf[1] != 0x03 {
        return None;
    }
    let record = read_be16(buf, 3);
    if record > len - 5 || buf[5] != 0x01 {
        return None;
    }
    // The session id follows record header, handshake header, version and random.
    let session_len = buf[43] as usize;
    if session_len > len - 44 || 2 > len - 44 - session_len {
        return None;
    }
    let ciphers = 44 + session_len;
    let ciphers_len = read_be16(buf, ciphers);
    if ciphers_len > len - ciphers - 2 || 1 > len - ciphers - 2 - ciphers_len {
        return None;
    }
    let compression = ciphers + 2 + ciphers_len;
    let compression_len = buf[compression] as usize;
    if compression_len > len - compression - 1 || 2 > len - compression - 1 - compression_len {
        return None;
    }
    let extensions = compression + 1 + compression_len;
    let total = read_be16(buf, extensions);
    let start = extensions + 2;
    if total > len - start {
        return None;
    }
    Some((start, start + total))
}

/// Reads the body of a server_name extension.
fn read_server_name(buf: &[u8], p: usize, len: usize) -> (r: Option<(usize, usize)>)
    requires
        p + len <= buf.len(),
    ensures
        match r {
            Some((start, n)) => server_name_span(buf@, p as int, len as int) == Some(
                (start as int, n as int),
            ),
            None => server_name_span(buf@, p as int, len as int) is None,
        },
{
    if len < 5 {
        return None;
    }
    let list_len = read_be16(buf, p);
    if list_len < 3 || list_len > len - 2 || buf[p + 2] != 0 {
        return None;
    }
    let name_len = read_be16(buf, p + 3);
    if name_len == 0 || name_len > HOST_LEN || name_len > len - 5 {
        return None;
    }
    Some((p + 5, name_len))
}

/// Finds the server name of the ClientHello at the front of `buf` and copies
/// it to the front of `sni_out`, whose other bytes stay. Returns 1 if there
/// was one, else 0.
pub fn parse_tls_clienthello_sni(buf: &[u8], sni_out: &mut [u8; HOST_LEN]) -> (found: u8)
    ensures
        found == if sni(buf@) is Some {
            1u8
        } else {
            0u8
        },
        final(sni_out)@ == match sni(buf@) {
            Some(name) => overwrite(old(sni_out)@, name),
            None => old(sni_out)@,
        },
{
    let (start, end) = match find_extensions(buf) {
        Some(span) => span,
        None => {
            return 0;
        },
    };
    let mut p: usize = start;
    let mut seen: usize = 0;
    while seen < MAX_EXTENSIONS && 4 <= end - p
        invariant
            seen <= MAX_EXTENSIONS,
            p <= end <= buf@.len(),
            extensions_span(buf@) == Some((start as int, end as int)),
            sni_span(buf@) == scan_extensions(
                buf@,
                p as int,
                end as int,
                (MAX_EXTENSIONS - seen) as nat,
            ),
            sni_out@ == old(sni_out)@,
        decreases MAX_EXTENSIONS - seen,
    {
        let kind = read_be16(buf, p);
        let len = read_be16(buf, p + 2);
        let body = p + 4;
        if len > end - body {
            return 0;
        }
        if kind == 0 {
            if let Some((at, n)) = read_server_name(buf, body, len) {
                copy_bytes_bounded(sni_out, buf, at, n);
                return 1;
            }
        }
        p = body + len;
        seen = seen + 1;
    }
    0
}

} // verus!
