//! Byte-level helpers shared by the parsers and the event layout.

use vstd::prelude::*;

verus! {

/// The big-endian 16-bit number at `i`.
pub open spec fn be16(s: Seq<u8>, i: int) -> int {
    s[i] * 256 + s[i + 1]
}

/// `dst` with its first `src.len()` bytes replaced by `src`.
pub open spec fn overwrite(dst: Seq<u8>, src: Seq<u8>) -> Seq<u8> {
    src + dst.skip(src.len() as int)
}

/// The first index in `from..to` whose byte satisfies `pred`, `to` if there is none.
pub open spec fn first_where(s: Seq<u8>, from: int, to: int, pred: spec_fn(u8) -> bool) -> int
    decreases to - from,
{
    if from >= to {
        to
    } else if pred(s[from]) {
        from
    } else {
        first_where(s, from + 1, to, pred)
    }
}

/// [`first_where`] is the least index in the range that satisfies `pred`.
pub proof fn first_where_is_least(s: Seq<u8>, from: int, to: int, pred: spec_fn(u8) -> bool)
    requires
        from <= to,
    ensures
        from <= first_where(s, from, to, pred) <= to,
        first_where(s, from, to, pred) < to ==> pred(s[first_where(s, from, to, pred)]),
        forall|i: int| from <= i < first_where(s, from, to, pred) ==> !pred(#[trigger] s[i]),
    decreases to - from,
{
    if from < to && !pred(s[from]) {
        first_where_is_least(s, from + 1, to, pred);
    }
}

/// An index that satisfies `pred` and that none before it satisfies is [`first_where`].
pub proof fn first_where_unique(s: Seq<u8>, from: int, to: int, pred: spec_fn(u8) -> bool, k: int)
    requires
        from <= k <= to,
        forall|i: int| from <= i < k ==> !pred(#[trigger] s[i]),
        k < to ==> pred(s[k]),
    ensures
        first_where(s, from, to, pred) == k,
    decreases k - from,
{
    if from < k {
        first_where_unique(s, from + 1, to, pred, k);
    }
}

/// Reads the big-endian 16-bit number at `i`.
pub fn read_be16(s: &[u8], i: usize) -> (r: usize)
    requires
        i + 1 < s@.len(),
    ensures
        r == be16(s@, i as int),
{
    (s[i] as usize) * 256 + (s[i + 1] as usize)
}

/// What a copy of `cnt` bytes of `src`, from `start` on, into `room` bytes
/// moves: as much as both hold.
pub open spec fn copied(src: Seq<u8>, start: int, cnt: int, room: int) -> Seq<u8> {
    if start >= src.len() {
        seq![]
    } else if cnt <= room && cnt <= src.len() - start {
        src.subrange(start, start + cnt)
    } else if room <= src.len() - start {
        src.subrange(start, start + room)
    } else {
        src.skip(start)
    }
}

/// Copies `cnt` bytes of `src`, from `start` on, to the front of `out`, as far
/// as both reach.
pub fn copy_bytes_bounded(out: &mut [u8], src: &[u8], start: usize, cnt: usize)
    ensures
        final(out)@ == overwrite(
            old(out)@,
            copied(src@, start as int, cnt as int, old(out)@.len() as int),
        ),
{
    let mut i: usize = 0;
    if start >= src.len() {
        assert(out@ =~= overwrite(out@, seq![]));
        return;
    }
    while i < cnt && i < out.len() && i < src.len() - start
        invariant
            start < src@.len(),
            i <= cnt,
            i <= old(out)@.len(),
            start + i <= src@.len(),
            out@ =~= overwrite(old(out)@, src@.subrange(start as int, start + i)),
        decreases cnt - i,
    {
        out[i] = src[start + i];
        i = i + 1;
    }
}

} // verus!
