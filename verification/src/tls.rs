//! What calls into a TLS library show of a connection: the server name, and
//! method, path, host and status of cleartext HTTP.
//!
//! A call's arguments are kept from entry to return. The connection that a
//! thread's calls belong to is the outbound one that the thread opened last.

use vstd::prelude::*;
use crate::bytes::overwrite;
use crate::client_hello::{parse_tls_clienthello_sni, sni};
use crate::http::{
    looks_like_request, parse_http_request, parse_http_status, request_host, request_method,
    request_path, response_status,
};
use crate::maps::{FlowKey, FlowState, SslArgs, TLS_SCRATCH_LEN};
use crate::tcp_lifecycle::first_stamp;

verus! {

/// What a hook ends with when a call's arguments are not available.
pub const NO_ARGUMENT: i64 = -1;

/// What [`handle_ssl_entry`] gives.
pub open spec fn entry_args(
    buf_ptr: Option<u64>,
    len: Option<u32>,
    now: u64,
) -> Result<SslArgs, i64> {
    match (buf_ptr, len) {
        (Some(buf_ptr), Some(len)) => Ok(SslArgs { buf_ptr, len, _pad: 0, ts_ns: now }),
        _ => Err(NO_ARGUMENT),
    }
}

/// An SSL_write or SSL_read call was entered: the arguments to keep for its
/// return.
pub fn handle_ssl_entry(buf_ptr: Option<u64>, len: Option<u32>, now: u64) -> (r: Result<
    SslArgs,
    i64,
>)
    ensures
        r == entry_args(buf_ptr, len, now),
{
    match (buf_ptr, len) {
        (Some(buf_ptr), Some(len)) => Ok(SslArgs { buf_ptr, len, _pad: 0, ts_ns: now }),
        _ => Err(NO_ARGUMENT),
    }
}

/// What the return of a TLS library call does next.
#[derive(Debug, Clone, Copy)]
pub enum SslStep {
    /// Look up the call's arguments and forget them; the call moved this many bytes.
    TakeArgs(u32),
    /// Forget the call's arguments, and end.
    ForgetArgs,
    /// Look up the thread's connection.
    FindFlow,
    /// Look up the row under this key.
    FindRow(FlowKey),
    /// Read this many bytes at this user-space address.
    ReadBuffer { addr: u64, len: usize },
    /// Look up the row under this key, for a response with this status.
    FindRowForStatus { key: FlowKey, status: u16 },
    /// End.
    Done,
}

/// The bytes of a buffer that are looked at.
pub open spec fn window(len: u32) -> usize {
    if len <= TLS_SCRATCH_LEN {
        len as usize
    } else {
        TLS_SCRATCH_LEN
    }
}

fn window_len(len: u32) -> (r: usize)
    ensures
        r == window(len),
{
    if len as usize <= TLS_SCRATCH_LEN {
        len as usize
    } else {
        TLS_SCRATCH_LEN
    }
}

/// What the return of a call does first.
pub open spec fn after_call(ret: Option<i32>) -> SslStep {
    match ret {
        None => SslStep::Done,
        Some(n) => if n > 0 {
            SslStep::TakeArgs(n as u32)
        } else {
            SslStep::ForgetArgs
        },
    }
}

/// A call returned: `ret` is its return value, if available. Only one that
/// moved bytes is followed up.
pub fn ssl_returned(ret: Option<i32>) -> (r: SslStep)
    ensures
        r == after_call(ret),
{
    match ret {
        None => SslStep::Done,
        Some(n) => if n <= 0 {
            SslStep::ForgetArgs
        } else {
            SslStep::TakeArgs(n as u32)
        },
    }
}

/// What the return of a write does next once its arguments were looked up.
pub open spec fn after_write_args(args: Option<SslArgs>) -> SslStep {
    if args is Some {
        SslStep::FindFlow
    } else {
        SslStep::Done
    }
}

/// The arguments of a write, if they were kept.
pub fn ssl_write_args(args: Option<SslArgs>) -> (r: SslStep)
    ensures
        r == after_write_args(args),
{
    match args {
        Some(_) => SslStep::FindFlow,
        None => SslStep::Done,
    }
}

/// What it does next once its connection was looked up.
pub open spec fn after_write_flow(key: Option<FlowKey>) -> SslStep {
    match key {
        Some(key) => SslStep::FindRow(key),
        None => SslStep::Done,
    }
}

/// The connection of the thread that wrote, if it has one.
pub fn ssl_write_flow(key: Option<FlowKey>) -> (r: SslStep)
    ensures
        r == after_write_flow(key),
{
    match key {
        Some(key) => SslStep::FindRow(key),
        None => SslStep::Done,
    }
}

/// What it does next once the row was looked up.
pub open spec fn after_write_row(found: bool, args: SslArgs) -> SslStep {
    if found {
        SslStep::ReadBuffer { addr: args.buf_ptr, len: window(args.len) }
    } else {
        SslStep::Done
    }
}

/// Whether the written connection has a row; if so, what was written is read,
/// as much as the caller passed and as is looked at.
pub fn ssl_write_row(found: bool, args: &SslArgs) -> (r: SslStep)
    ensures
        r == after_write_row(found, *args),
{
    if found {
        SslStep::ReadBuffer { addr: args.buf_ptr, len: window_len(args.len) }
    } else {
        SslStep::Done
    }
}

/// Whether written bytes show TLS: a server name, or the beginning of a
/// ClientHello.
pub open spec fn shows_tls(buf: Seq<u8>) -> bool {
    sni(buf) is Some || (buf.len() >= 6 && buf[0] == 0x16 && buf[5] == 0x01)
}

/// `post` is the row `pre` after `buf` was written by a call that was entered
/// at `ts_ns` and looked at at `now`.
pub open spec fn wrote_row(
    pre: FlowState,
    buf: Seq<u8>,
    ts_ns: u64,
    now: u64,
    post: FlowState,
) -> bool {
    &&& post == FlowState {
        tls_sni: post.tls_sni,
        http_host: post.http_host,
        http_method: post.http_method,
        http_path: post.http_path,
        has_tls: if shows_tls(buf) {
            1
        } else {
            pre.has_tls
        },
        has_http: if looks_like_request(buf) {
            1
        } else {
            pre.has_http
        },
        tls_ready_ts_ns: if shows_tls(buf) {
            first_stamp(pre.tls_ready_ts_ns, now)
        } else {
            pre.tls_ready_ts_ns
        },
        ssl_write_ts_ns: if shows_tls(buf) || looks_like_request(buf) {
            first_stamp(pre.ssl_write_ts_ns, ts_ns)
        } else {
            pre.ssl_write_ts_ns
        },
        ..pre
    }
    &&& post.tls_sni@ == match sni(buf) {
        Some(name) => overwrite(pre.tls_sni@, name),
        None => pre.tls_sni@,
    }
    &&& if looks_like_request(buf) {
        &&& post.http_method@ == overwrite(pre.http_method@, request_method(buf))
        &&& post.http_path@ == overwrite(pre.http_path@, request_path(buf))
        &&& post.http_host@ == overwrite(pre.http_host@, request_host(buf))
    } else {
        &&& post.http_method@ == pre.http_method@
        &&& post.http_path@ == pre.http_path@
        &&& post.http_host@ == pre.http_host@
    }
}

/// Records what written bytes show. Fields are written in place: a shorter
/// text leaves the tail of a longer one that stood there before.
pub fn ssl_write_return(st: &mut FlowState, buf: &[u8], ts_ns: u64, now: u64)
    ensures
        wrote_row(*old(st), buf@, ts_ns, now, *final(st)),
{
    let has_sni = parse_tls_clienthello_sni(buf, &mut st.tls_sni);
    let has_http = parse_http_request(
        buf,
        &mut st.http_host,
        &mut st.http_method,
        &mut st.http_path,
    );
    let has_tls = has_sni != 0 || (buf.len() >= 6 && buf[0] == 0x16 && buf[5] == 0x01);
    if has_tls {
        st.has_tls = 1;
        if st.tls_ready_ts_ns == 0 {
            st.tls_ready_ts_ns = now;
        }
    }
    if has_http != 0 {
        st.has_http = 1;
    }
    if (has_http != 0 || has_tls) && st.ssl_write_ts_ns == 0 {
        st.ssl_write_ts_ns = ts_ns;
    }
}

/// What the return of a read does next once its arguments were looked up.
pub open spec fn after_read_args(args: Option<SslArgs>, moved: u32) -> SslStep {
    match args {
        Some(args) => SslStep::ReadBuffer { addr: args.buf_ptr, len: window(moved) },
        None => SslStep::Done,
    }
}

/// The arguments of a read that gave `moved` bytes, if they were kept; if so,
/// what was read is looked at.
pub fn ssl_read_args(args: Option<SslArgs>, moved: u32) -> (r: SslStep)
    ensures
        r == after_read_args(args, moved),
{
    match args {
        Some(args) => SslStep::ReadBuffer { addr: args.buf_ptr, len: window_len(moved) },
        None => SslStep::Done,
    }
}

/// What it does next once its connection was looked up.
pub open spec fn after_read_flow(key: Option<FlowKey>, buf: Seq<u8>) -> SslStep {
    match key {
        Some(key) => if response_status(buf) != 0 {
            SslStep::FindRowForStatus { key, status: response_status(buf) as u16 }
        } else {
            SslStep::Done
        },
        None => SslStep::Done,
    }
}

/// The connection of the thread that read `buf`, if it has one: only a
/// response with a status is followed up.
pub fn ssl_read_flow(key: Option<FlowKey>, buf: &[u8]) -> (r: SslStep)
    ensures
        r == after_read_flow(key, buf@),
{
    match key {
        Some(key) => {
            let status = parse_http_status(buf);
            if status != 0 {
                SslStep::FindRowForStatus { key, status }
            } else {
                SslStep::Done
            }
        },
        None => SslStep::Done,
    }
}

/// A row after a response with this status was read.
pub open spec fn answered_row(st: FlowState, status: u16) -> FlowState {
    FlowState { http_status: status, ..st }
}

/// Records the status of a response.
pub fn ssl_read_return(st: &mut FlowState, status: u16)
    ensures
        *final(st) == answered_row(*old(st), status),
{
    st.http_status = status;
}

} // verus!
