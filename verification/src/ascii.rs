//! Text of ASCII characters alone, one byte each: it can be cut anywhere.

use vstd::prelude::*;
use vstd::utf8::{
    decode_utf8, encode_utf8, encode_utf8_decode_utf8, encode_utf8_valid_utf8, is_ascii_chars,
    is_ascii_chars_encode_utf8, is_char_boundary, is_char_boundary_iff_not_is_continuation_byte,
    is_char_boundary_start_end_of_seq, is_continuation_byte,
};

verus! {

/// ASCII text can be cut anywhere.
pub proof fn ascii_cuts_anywhere(s: Seq<char>, at: int)
    requires
        is_ascii_chars(s),
        0 <= at <= s.len(),
    ensures
        encode_utf8(s).len() == s.len(),
        is_char_boundary(encode_utf8(s), at),
{
    let b = encode_utf8(s);
    is_ascii_chars_encode_utf8(s);
    encode_utf8_valid_utf8(s);
    if at == s.len() {
        is_char_boundary_start_end_of_seq(b);
    } else {
        let x = b[at];
        assert(s[at] as u8 == x);
        assert(x < 0x80);
        assert(!is_continuation_byte(x)) by (bit_vector)
            requires
                x < 0x80,
        ;
        is_char_boundary_iff_not_is_continuation_byte(b, at);
    }
}

/// The first bytes of ASCII text are its first characters.
pub proof fn ascii_front(s: Seq<char>, n: int)
    requires
        is_ascii_chars(s),
        0 <= n <= s.len(),
    ensures
        encode_utf8(s).len() == s.len(),
        decode_utf8(encode_utf8(s).subrange(0, n)) == s.take(n),
{
    let front = s.take(n);
    is_ascii_chars_encode_utf8(s);
    is_ascii_chars_encode_utf8(front);
    assert forall|i: int| 0 <= i < n implies encode_utf8(s)[i] == encode_utf8(front)[i] by {
        assert(front[i] == s[i]);
        assert(encode_utf8(s)[i] == s[i] as u8);
        assert(encode_utf8(front)[i] == front[i] as u8);
    }
    assert(encode_utf8(s).subrange(0, n) =~= encode_utf8(front));
    encode_utf8_decode_utf8(front);
}

} // verus!
