//! Text out of fixed-size byte fields.

use vstd::prelude::*;
use vstd::slice::slice_subrange;
use vstd::utf8::{decode_utf8, encode_utf8, encode_utf8_decode_utf8, valid_utf8};
use crate::bytes::first_where;
use crate::common::FlowEvent;

verus! {

/// Where the first NUL byte of a field stands, its length if it has none.
pub open spec fn nul_at(b: Seq<u8>) -> int {
    first_where(b, 0, b.len() as int, |x: u8| x == 0)
}

/// What these bytes spell, `otherwise` if they are no UTF-8.
pub open spec fn text_or(b: Seq<u8>, otherwise: Seq<char>) -> Seq<char> {
    if valid_utf8(b) {
        decode_utf8(b)
    } else {
        otherwise
    }
}

/// The text of a field that may fill up: what stands before the first NUL
/// byte, or all of it.
pub open spec fn filled_field_text(b: Seq<u8>, otherwise: Seq<char>) -> Seq<char> {
    text_or(b.take(nul_at(b)), otherwise)
}

/// The text of a field that must end in a NUL byte: what stands before the
/// first; nothing if there is none, or if it is no UTF-8.
pub open spec fn terminated_field_text(b: Seq<u8>) -> Seq<char> {
    if nul_at(b) < b.len() {
        text_or(b.take(nul_at(b)), seq![])
    } else {
        seq![]
    }
}

/// Finds the first NUL byte.
pub fn find_nul(b: &[u8]) -> (r: usize)
    ensures
        r == nul_at(b@),
        r <= b@.len(),
{
    let len = b.len();
    let mut i: usize = 0;
    while i < len
        invariant
            i <= len == b@.len(),
            nul_at(b@) == first_where(b@, i as int, len as int, |x: u8| x == 0),
        decreases len - i,
    {
        if b[i] == 0 {
            return i;
        }
        i = i + 1;
    }
    i
}

/// Calls `std::str::from_utf8`: there is text exactly if the bytes are valid
/// UTF-8, and its encoding is the bytes.
#[verifier::external_body]
fn str_from_utf8(b: &[u8]) -> (r: Option<&str>)
    ensures
        r is Some <==> valid_utf8(b@),
        r matches Some(s) ==> encode_utf8(s@) == b@,
{
    match std::str::from_utf8(b) {
        Ok(s) => Some(s),
        Err(_) => None,
    }
}

/// What these bytes spell, `otherwise` if they are no UTF-8.
pub fn read_text<'a>(b: &'a [u8], otherwise: &'a str) -> (r: &'a str)
    ensures
        r@ == text_or(b@, otherwise@),
{
    match str_from_utf8(b) {
        Some(s) => {
            proof {
                encode_utf8_decode_utf8(s@);
            }
            s
        },
        None => otherwise,
    }
}

/// The text of a field that must end in a NUL byte.
pub fn read_terminated<'a>(b: &'a [u8]) -> (r: &'a str)
    ensures
        r@ == terminated_field_text(b@),
{
    let end = find_nul(b);
    if end == b.len() {
        proof {
            reveal_strlit("");
            assert(""@ =~= seq![]);
        }
        return "";
    }
    let text = read_text(slice_subrange(b, 0, end), "");
    proof {
        reveal_strlit("");
        assert(""@ =~= seq![]);
        assert(b@.subrange(0, end as int) =~= b@.take(end as int));
    }
    text
}

impl FlowEvent {
    /// The process name.
    pub fn comm_str(&self) -> (r: &str)
        ensures
            r@ == filled_field_text(self.comm@, "<invalid>"@),
    {
        let end = find_nul(self.comm.as_slice());
        proof {
            assert(self.comm@.subrange(0, end as int) =~= self.comm@.take(end as int));
        }
        read_text(slice_subrange(self.comm.as_slice(), 0, end), "<invalid>")
    }

    /// The TLS server name, empty if none is known.
    pub fn sni_str(&self) -> (r: &str)
        ensures
            r@ == terminated_field_text(self.tls_sni@),
    {
        read_terminated(self.tls_sni.as_slice())
    }

    /// The HTTP host, empty if none is known.
    pub fn http_host_str(&self) -> (r: &str)
        ensures
            r@ == terminated_field_text(self.http_host@),
    {
        read_terminated(self.http_host.as_slice())
    }

    /// The HTTP method, empty if none is known.
    pub fn http_method_str(&self) -> (r: &str)
        ensures
            r@ == terminated_field_text(self.http_method@),
    {
        read_terminated(self.http_method.as_slice())
    }

    /// The HTTP path, empty if none is known.
    pub fn http_path_str(&self) -> (r: &str)
        ensures
            r@ == terminated_field_text(self.http_path@),
    {
        read_terminated(self.http_path.as_slice())
    }

    /// The cgroup path, empty if none is known.
    pub fn cgroup_str(&self) -> (r: &str)
        ensures
            r@ == terminated_field_text(self.cgroup@),
    {
        read_terminated(self.cgroup.as_slice())
    }
}

} // verus!
