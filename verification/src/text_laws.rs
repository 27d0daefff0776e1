//! What splitting, trimming and searching text gives, and what numbers and
//! fields read as.

use vstd::prelude::*;
use vstd::utf8::{
    encode_utf8, encode_utf8_decode_utf8, encode_utf8_valid_utf8, is_char_boundary, valid_utf8,
};
use crate::bytes::first_where_unique;
use crate::field_text::{filled_field_text, nul_at, terminated_field_text};
use crate::numbers::{
    decimal, digits_value, hex_digits, hexadecimal, is_decimal_digit, parse_number,
    unsigned_digits,
};
use crate::text::{
    contains, equals, first_char, first_char_is, first_char_is_least, first_standing, is_white,
    lines, lines_from, pad_right, split, split_from, stands_at, strip_all, strip_return, trim,
    trim_end, trim_start, white_is, words, words_from,
};

verus! {

/// The characters that are white space.
pub proof fn white_space_is_these_characters(c: char)
    ensures
        is_white(c) <==> {
            ||| c == '\t' || c == '\n' || c == '\u{b}' || c == '\u{c}' || c == '\r' || c == ' '
            ||| c == '\u{85}' || c == '\u{a0}' || c == '\u{1680}'
            ||| c == '\u{2000}' || c == '\u{2001}' || c == '\u{2002}' || c == '\u{2003}'
            ||| c == '\u{2004}' || c == '\u{2005}' || c == '\u{2006}' || c == '\u{2007}'
            ||| c == '\u{2008}' || c == '\u{2009}' || c == '\u{200a}'
            ||| c == '\u{2028}' || c == '\u{2029}' || c == '\u{202f}' || c == '\u{205f}'
            ||| c == '\u{3000}'
        },
{
}

/// Pieces with `sep` between them.
pub open spec fn joined_with(pieces: Seq<Seq<char>>, sep: char) -> Seq<char>
    decreases pieces.len(),
{
    if pieces.len() == 0 {
        seq![]
    } else if pieces.len() == 1 {
        pieces[0]
    } else {
        pieces[0] + seq![sep] + joined_with(pieces.drop_first(), sep)
    }
}

proof fn split_joins_from(s: Seq<char>, sep: char, from: int)
    requires
        0 <= from <= s.len(),
    ensures
        split_from(s, sep, from).len() > 0,
        joined_with(split_from(s, sep, from), sep) == s.skip(from),
        forall|i: int| 0 <= i < split_from(s, sep, from).len() ==> !(#[trigger] split_from(
            s,
            sep,
            from,
        )[i]).contains(sep),
    decreases s.len() - from,
{
    let end = first_char(s, from, equals(sep));
    first_char_is_least(s, from, equals(sep));
    let first = s.subrange(from, end);
    assert(!first.contains(sep)) by {
        assert forall|i: int| 0 <= i < first.len() implies #[trigger] first[i] != sep by {
            assert(first[i] == s[from + i]);
            assert(!equals(sep)(s[from + i]));
        }
    }
    let pieces = split_from(s, sep, from);
    if end < s.len() {
        let rest = split_from(s, sep, end + 1);
        split_joins_from(s, sep, end + 1);
        assert(pieces =~= seq![first] + rest);
        assert(pieces.drop_first() =~= rest);
        assert(equals(sep)(s[end]));
        assert(s.skip(from) =~= first + seq![sep] + s.skip(end + 1));
        assert forall|i: int| 0 <= i < pieces.len() implies !(#[trigger] pieces[i]).contains(
            sep,
        ) by {
            if i > 0 {
                assert(pieces[i] == rest[i - 1]);
            }
        }
    } else {
        assert(s.skip(from) =~= first);
        assert(pieces =~= seq![first]);
    }
}

/// Splitting parts a text at every separator and nowhere else: the pieces hold none
/// and join to the text again.
pub proof fn split_pieces_join_again(s: Seq<char>, sep: char)
    ensures
        split(s, sep).len() > 0,
        joined_with(split(s, sep), sep) == s,
        forall|i: int| 0 <= i < split(s, sep).len() ==> !(#[trigger] split(s, sep)[i]).contains(
            sep,
        ),
{
    split_joins_from(s, sep, 0);
    assert(s.skip(0) =~= s);
}

proof fn lines_behind(front: Seq<char>, s: Seq<char>, from: int)
    requires
        0 <= from <= s.len(),
    ensures
        lines_from(front + s, front.len() + from) == lines_from(s, from),
    decreases s.len() - from,
{
    let whole = front + s;
    let n = front.len() as int;
    if from < s.len() {
        let feed = equals('\n');
        let end = first_char(s, from, feed);
        first_char_is_least(s, from, feed);
        assert forall|i: int| n + from <= i < n + end implies !feed(#[trigger] whole[i]) by {
            assert(whole[i] == s[i - n]);
            assert(!feed(s[i - n]));
        }
        if end < s.len() {
            assert(whole[n + end] == s[end]);
        }
        first_char_is(whole, n + from, feed, n + end);
        assert(whole.subrange(n + from, n + end) =~= s.subrange(from, end));
        if end < s.len() {
            lines_behind(front, s, end + 1);
        }
    }
}

/// A line ends at a line feed, with a carriage return before it or without; the
/// next begins behind. The last line may end without.
pub proof fn lines_end_at_line_feeds(a: Seq<char>, rest: Seq<char>)
    requires
        !a.contains('\n'),
    ensures
        a.len() == 0 || a.last() != '\r' ==> lines(a + seq!['\n'] + rest) == seq![a] + lines(rest),
        lines(a + seq!['\r', '\n'] + rest) == seq![a] + lines(rest),
        a.len() > 0 ==> lines(a) == seq![a],
        lines(Seq::<char>::empty()).len() == 0,
{
    let feed = equals('\n');
    let plain = a + seq!['\n'] + rest;
    let n = a.len() as int;
    assert forall|i: int| 0 <= i < n implies !feed(#[trigger] plain[i]) by {
        assert(plain[i] == a[i]);
    }
    assert(feed(plain[n]));
    first_char_is(plain, 0, feed, n);
    assert(plain.subrange(0, n) =~= a);
    assert(plain =~= (a + seq!['\n']) + rest);
    lines_behind(a + seq!['\n'], rest, 0);
    let dos = a + seq!['\r', '\n'] + rest;
    assert forall|i: int| 0 <= i < n + 1 implies !feed(#[trigger] dos[i]) by {
        if i < n {
            assert(dos[i] == a[i]);
        }
    }
    assert(feed(dos[n + 1]));
    first_char_is(dos, 0, feed, n + 1);
    assert(dos.subrange(0, n + 1) =~= a + seq!['\r']);
    assert(strip_return(a + seq!['\r']) =~= a);
    assert(dos =~= (a + seq!['\r', '\n']) + rest);
    lines_behind(a + seq!['\r', '\n'], rest, 0);
    if a.len() > 0 {
        assert forall|i: int| 0 <= i < n implies !feed(#[trigger] a[i]) by {}
        first_char_is(a, 0, feed, n);
        assert(a.subrange(0, n) =~= a);
    }
}

/// All of `s` is white space.
pub open spec fn all_white(s: Seq<char>) -> bool {
    forall|i: int| 0 <= i < s.len() ==> is_white(#[trigger] s[i])
}

/// None of `s` is white space.
pub open spec fn all_black(s: Seq<char>) -> bool {
    forall|i: int| 0 <= i < s.len() ==> !is_white(#[trigger] s[i])
}

proof fn words_behind(front: Seq<char>, s: Seq<char>, from: int)
    requires
        0 <= from <= s.len(),
    ensures
        words_from(front + s, front.len() + from) == words_from(s, from),
    decreases s.len() - from,
{
    let whole = front + s;
    let n = front.len() as int;
    let (black, white) = (white_is(false), white_is(true));
    let start = first_char(s, from, black);
    first_char_is_least(s, from, black);
    assert forall|i: int| n + from <= i < n + start implies !black(#[trigger] whole[i]) by {
        assert(whole[i] == s[i - n]);
        assert(!black(s[i - n]));
    }
    if start < s.len() {
        assert(whole[n + start] == s[start]);
    }
    first_char_is(whole, n + from, black, n + start);
    if start < s.len() {
        let end = first_char(s, start, white);
        first_char_is_least(s, start, white);
        assert forall|i: int| n + start <= i < n + end implies !white(#[trigger] whole[i]) by {
            assert(whole[i] == s[i - n]);
            assert(!white(s[i - n]));
        }
        if end < s.len() {
            assert(whole[n + end] == s[end]);
        }
        first_char_is(whole, n + start, white, n + end);
        assert(whole.subrange(n + start, n + end) =~= s.subrange(start, end));
        if start < end {
            words_behind(front, s, end);
        }
    }
}

/// Words are what white space parts: leading white space gives none, and a word goes
/// up to the next white space or to the end.
pub proof fn words_are_parted_by_white_space(
    gap: Seq<char>,
    word: Seq<char>,
    c: char,
    rest: Seq<char>,
)
    requires
        all_white(gap),
        word.len() > 0,
        all_black(word),
        is_white(c),
    ensures
        words(gap + word + seq![c] + rest) == seq![word] + words(rest),
        words(gap + word) == seq![word],
        words(gap).len() == 0,
{
    let (black, white) = (white_is(false), white_is(true));
    let g = gap.len() as int;
    let w = word.len() as int;
    let s = gap + word + seq![c] + rest;
    assert forall|i: int| 0 <= i < g implies !black(#[trigger] s[i]) by {
        assert(s[i] == gap[i]);
    }
    assert(s[g] == word[0]);
    first_char_is(s, 0, black, g);
    assert forall|i: int| g <= i < g + w implies !white(#[trigger] s[i]) by {
        assert(s[i] == word[i - g]);
    }
    assert(s[g + w] == c);
    first_char_is(s, g, white, g + w);
    assert(s.subrange(g, g + w) =~= word);
    let behind = seq![c] + rest;
    assert(s =~= (gap + word) + behind);
    words_behind(gap + word, behind, 0);
    assert(words_from(behind, 0) == words(rest)) by {
        assert(!black(behind[0]));
        assert(first_char(behind, 0, black) == first_char(behind, 1, black));
        words_behind(seq![c], rest, 0);
    }
    let t = gap + word;
    assert forall|i: int| 0 <= i < g implies !black(#[trigger] t[i]) by {
        assert(t[i] == gap[i]);
    }
    assert(t[g] == word[0]);
    first_char_is(t, 0, black, g);
    assert forall|i: int| g <= i < g + w implies !white(#[trigger] t[i]) by {
        assert(t[i] == word[i - g]);
    }
    first_char_is(t, g, white, g + w);
    assert(t.subrange(g, g + w) =~= word);
    first_char_is(t, g + w, black, g + w);
    assert(words_from(t, g + w) =~= seq![]);
    assert(words(t) =~= seq![word]);
    assert forall|i: int| 0 <= i < g implies !black(#[trigger] gap[i]) by {}
    first_char_is(gap, 0, black, g);
}

proof fn trim_end_leaves(s: Seq<char>)
    ensures
        trim_end(s).len() <= s.len(),
        trim_end(s) == s.take(trim_end(s).len() as int),
        all_white(s.skip(trim_end(s).len() as int)),
        trim_end(s).len() > 0 ==> !is_white(trim_end(s).last()),
    decreases s.len(),
{
    if s.len() > 0 && is_white(s.last()) {
        let less = s.drop_last();
        trim_end_leaves(less);
        let n = trim_end(less).len() as int;
        assert(less.take(n) =~= s.take(n));
        assert forall|i: int| 0 <= i < s.skip(n).len() implies is_white(
            #[trigger] s.skip(n)[i],
        ) by {
            if n + i < less.len() {
                assert(less.skip(n)[i] == s.skip(n)[i]);
            }
        }
    } else {
        assert(s.take(s.len() as int) =~= s);
    }
}

/// Trimming takes away all white space at either end, and nothing else.
pub proof fn trim_takes_white_ends(s: Seq<char>)
    ensures
        exists|a: Seq<char>, b: Seq<char>|
            all_white(a) && all_white(b) && s == #[trigger] ((a + trim(s)) + b),
        trim(s).len() > 0 ==> !is_white(trim(s)[0]) && !is_white(trim(s).last()),
{
    let k = first_char(s, 0, white_is(false));
    first_char_is_least(s, 0, white_is(false));
    let middle = trim_start(s);
    trim_end_leaves(middle);
    let n = trim(s).len() as int;
    let a = s.take(k);
    let b = middle.skip(n);
    assert forall|i: int| 0 <= i < a.len() implies is_white(#[trigger] a[i]) by {
        assert(a[i] == s[i]);
        assert(!white_is(false)(s[i]));
    }
    assert(s =~= (a + trim(s)) + b);
    if n > 0 {
        assert(trim(s)[0] == s[k]);
        assert(white_is(false)(s[k]));
    }
}

/// A text contains another exactly if it is that with something before and behind.
pub proof fn contained_text_stands_between(s: Seq<char>, pat: Seq<char>)
    ensures
        contains(s, pat) <==> exists|a: Seq<char>, b: Seq<char>| s == #[trigger] ((a + pat) + b),
{
    if contains(s, pat) {
        let i = choose|i: int| #[trigger] stands_at(s, pat, i);
        assert(s =~= (s.take(i) + pat) + s.skip(i + pat.len()));
    }
    if exists|a: Seq<char>, b: Seq<char>| s == #[trigger] ((a + pat) + b) {
        let (a, b) = choose|a: Seq<char>, b: Seq<char>| s == #[trigger] ((a + pat) + b);
        assert(s.subrange(a.len() as int, (a.len() + pat.len()) as int) =~= pat);
        assert(stands_at(s, pat, a.len() as int));
    }
}

/// A text begins with another exactly if that stands at its front.
pub proof fn prefix_stands_at_the_front(pat: Seq<char>, rest: Seq<char>, s: Seq<char>)
    ensures
        stands_at(pat + rest, pat, 0),
        stands_at(s, pat, 0) ==> s == pat + s.skip(pat.len() as int),
{
    assert((pat + rest).subrange(0, pat.len() as int) =~= pat);
    if stands_at(s, pat, 0) {
        assert(s =~= pat + s.skip(pat.len() as int));
    }
}

/// A prefix is stripped as often as it stands in front, and nothing else is.
pub proof fn prefixes_are_stripped(pat: Seq<char>, rest: Seq<char>)
    requires
        pat.len() > 0,
    ensures
        strip_all(pat + rest, pat) == strip_all(rest, pat),
        !stands_at(rest, pat, 0) ==> strip_all(rest, pat) == rest,
{
    assert((pat + rest).subrange(0, pat.len() as int) =~= pat);
    assert((pat + rest).skip(pat.len() as int) =~= rest);
}

/// A search gives the first place where a text stands.
pub proof fn search_gives_the_first_place(s: Seq<char>, pat: Seq<char>, from: int)
    requires
        0 <= from <= s.len(),
    ensures
        from <= first_standing(s, pat, from) <= s.len(),
        first_standing(s, pat, from) < s.len() ==> stands_at(
            s,
            pat,
            first_standing(s, pat, from),
        ),
        forall|i: int|
            from <= i < first_standing(s, pat, from) ==> !#[trigger] stands_at(s, pat, i),
    decreases s.len() - from,
{
    if from < s.len() && !stands_at(s, pat, from) {
        search_gives_the_first_place(s, pat, from + 1);
    }
}

/// Padding keeps a text and puts spaces behind it up to the width.
pub proof fn padding_keeps_the_text(s: Seq<char>, width: int)
    requires
        0 <= width,
    ensures
        pad_right(s, width).len() == if s.len() < width {
            width
        } else {
            s.len() as int
        },
        pad_right(s, width).take(s.len() as int) == s,
        forall|i: int|
            s.len() <= i < pad_right(s, width).len() ==> #[trigger] pad_right(s, width)[i] == ' ',
{
    assert(pad_right(s, width).take(s.len() as int) =~= s);
}

/// `c` is the character of the digit `d`.
pub open spec fn is_digit_of(c: char, d: int) -> bool {
    ||| 0 <= d < 10 && c as int == '0' as int + d
    ||| 10 <= d < 16 && c as int == 'a' as int + d - 10
}

/// A number is written digit by digit: the last digit stands for the ones, and what
/// stands before it for the tens, in hexadecimal for the sixteens.
pub proof fn numbers_are_written_digit_by_digit(n: nat, d: int, h: int)
    requires
        0 <= d < 10,
        0 <= h < 16,
    ensures
        decimal(d as nat).len() == 1 && is_digit_of(decimal(d as nat)[0], d),
        n > 0 ==> decimal((10 * n + d) as nat).drop_last() == decimal(n) && is_digit_of(
            decimal((10 * n + d) as nat).last(),
            d,
        ),
        hexadecimal(h as nat).len() == 3 && hexadecimal(h as nat)[0] == '0' && hexadecimal(
            h as nat,
        )[1] == 'x' && is_digit_of(hexadecimal(h as nat)[2], h),
        n > 0 ==> hexadecimal((16 * n + h) as nat).drop_last() == hexadecimal(n) && is_digit_of(
            hexadecimal((16 * n + h) as nat).last(),
            h,
        ),
{
    if n > 0 {
        let m = (10 * n + d) as nat;
        assert(m / 10 == n && m % 10 == d);
        assert(decimal(m).drop_last() =~= decimal(n));
        let k = (16 * n + h) as nat;
        assert(k / 16 == n && k % 16 == h);
        assert(hexadecimal(k).drop_last() =~= hexadecimal(n));
        assert(hexadecimal(k).last() == hex_digits(k).last());
    }
    assert(hexadecimal(h as nat)[2] == hex_digits(h as nat)[0]);
}

/// The number that hexadecimal digits spell.
pub open spec fn hex_value(s: Seq<char>) -> int
    decreases s.len(),
{
    if s.len() == 0 {
        0
    } else {
        hex_value(s.drop_last()) * 16 + if s.last() as int >= 'a' as int {
            s.last() as int - 'a' as int + 10
        } else {
            s.last() as int - '0' as int
        }
    }
}

/// Hexadecimal reads back: behind its `0x` stands the number, in digits alone.
pub proof fn hexadecimal_reads_back(n: nat)
    ensures
        hexadecimal(n).len() > 2,
        hexadecimal(n)[0] == '0' && hexadecimal(n)[1] == 'x',
        hex_value(hexadecimal(n).skip(2)) == n,
        forall|i: int|
            2 <= i < hexadecimal(n).len() ==> '0' as int <= #[trigger] hexadecimal(n)[i] as int
                <= '9' as int || 'a' as int <= hexadecimal(n)[i] as int <= 'f' as int,
    decreases n,
{
    reveal_with_fuel(hex_value, 2);
    let t = hexadecimal(n);
    let digits = hex_digits(n);
    assert(t.skip(2) =~= digits);
    if n >= 16 {
        hexadecimal_reads_back(n / 16);
        let before = hexadecimal(n / 16);
        assert(before.skip(2) =~= hex_digits(n / 16));
        assert(digits.drop_last() =~= hex_digits(n / 16));
        assert forall|i: int| 2 <= i < t.len() implies '0' as int <= #[trigger] t[i] as int
            <= '9' as int || 'a' as int <= t[i] as int <= 'f' as int by {
            if i < before.len() {
                assert(t[i] == before[i]);
            } else {
                assert(t[i] == digits.last());
            }
        }
    } else {
        assert(t[2] == digits[0]);
        assert(digits.drop_last() =~= seq![]);
    }
}

/// Two numbers that are written the same are the same.
pub proof fn numbers_written_the_same_are_equal(a: nat, b: nat)
    ensures
        hexadecimal(a) == hexadecimal(b) ==> a == b,
        decimal(a) == decimal(b) ==> a == b,
{
    hexadecimal_reads_back(a);
    hexadecimal_reads_back(b);
    let max = if a < b {
        b as int
    } else {
        a as int
    };
    crate::numbers::decimal_reads_back(a, max);
    crate::numbers::decimal_reads_back(b, max);
}

/// What is read as a number: decimal digits and nothing else, but for a plus sign in
/// front, with a value up to the limit.
pub proof fn numbers_are_digits_alone(s: Seq<char>, max: int)
    ensures
        parse_number(s, max) matches Some(n) ==> {
            let digits = if s[0] == '+' {
                s.skip(1)
            } else {
                s
            };
            &&& s.len() > 0 && digits.len() > 0
            &&& n <= max
            &&& forall|i: int|
                0 <= i < digits.len() ==> '0' as u32 <= #[trigger] digits[i] as u32 <= '9' as u32
        },
{
    let digits = unsigned_digits(s);
    if parse_number(s, max) is Some {
        assert forall|i: int| 0 <= i < digits.len() implies '0' as u32
            <= #[trigger] digits[i] as u32 <= '9' as u32 by {
            assert(is_decimal_digit(digits[i]));
        }
    }
}

/// `c` is a decimal digit.
pub open spec fn is_ten_digit(c: char) -> bool {
    '0' as u32 <= c as u32 <= '9' as u32
}

/// The number that decimal digits spell, each worth a tenth of the one before it.
pub open spec fn spelled(s: Seq<char>) -> int
    decreases s.len(),
{
    if s.len() == 0 {
        0
    } else {
        10 * spelled(s.drop_last()) + (s.last() as u32 - '0' as u32)
    }
}

proof fn digits_spell(s: Seq<char>)
    ensures
        digits_value(s) == spelled(s),
    decreases s.len(),
{
    if s.len() > 0 {
        digits_spell(s.drop_last());
    }
}

/// Digits are read as the number that they spell; a plus sign in front changes nothing,
/// and what goes over the limit is no number.
pub proof fn digits_are_read(s: Seq<char>, max: int)
    requires
        s.len() > 0,
        forall|i: int| 0 <= i < s.len() ==> is_ten_digit(#[trigger] s[i]),
    ensures
        spelled(s) <= max ==> parse_number(s, max) == Some(spelled(s)) && parse_number(
            seq!['+'] + s,
            max,
        ) == Some(spelled(s)),
        spelled(s) > max ==> parse_number(s, max) is None && parse_number(
            seq!['+'] + s,
            max,
        ) is None,
        parse_number(seq![], max) is None,
        parse_number(seq!['+'], max) is None,
{
    digits_spell(s);
    assert forall|i: int| 0 <= i < s.len() implies is_decimal_digit(#[trigger] s[i]) by {
        assert(is_ten_digit(s[i]));
    }
    assert(s[0] != '+') by {
        assert(is_ten_digit(s[0]));
    }
    let signed = seq!['+'] + s;
    assert(signed.skip(1) =~= s);
    assert(unsigned_digits(seq!['+']).len() == 0);
}

/// What a decimal text holds beside digits makes it no number.
pub proof fn other_characters_make_no_number(s: Seq<char>, i: int, max: int)
    requires
        0 <= i < s.len(),
        !is_ten_digit(s[i]),
        i > 0 || s[0] != '+',
    ensures
        parse_number(s, max) is None,
{
    let digits = unsigned_digits(s);
    if s[0] == '+' {
        assert(digits[i - 1] == s[i]);
        assert(!is_decimal_digit(digits[i - 1]));
    } else {
        assert(!is_decimal_digit(digits[i]));
    }
}

/// The encoding of a text is that of its parts.
pub proof fn encoding_goes_on(front: Seq<char>, rest: Seq<char>)
    ensures
        encode_utf8(front + rest) == encode_utf8(front) + encode_utf8(rest),
    decreases front.len(),
{
    if front.len() == 0 {
        assert(front + rest =~= rest);
        assert(encode_utf8(front) + encode_utf8(rest) =~= encode_utf8(rest));
    } else {
        encoding_goes_on(front.drop_first(), rest);
        assert((front + rest).drop_first() =~= front.drop_first() + rest);
        assert(encode_utf8(front + rest) =~= encode_utf8(front) + encode_utf8(rest));
    }
}

/// A text can be cut behind each of its characters.
pub proof fn text_is_cut_between_characters(front: Seq<char>, rest: Seq<char>)
    ensures
        is_char_boundary(encode_utf8(front + rest), encode_utf8(front).len() as int),
    decreases front.len(),
{
    let whole = encode_utf8(front + rest);
    encode_utf8_valid_utf8(front + rest);
    if front.len() == 0 {
        vstd::utf8::is_char_boundary_start_end_of_seq(whole);
    } else {
        text_is_cut_between_characters(front.drop_first(), rest);
        vstd::utf8::encode_utf8_first_scalar(front + rest);
        encoding_goes_on(front, rest);
        let behind = front.drop_first() + rest;
        assert((front + rest).drop_first() =~= behind);
        assert(vstd::utf8::pop_first_scalar(whole) =~= encode_utf8(behind));
    }
}

/// A text cannot be cut inside a character.
pub proof fn text_is_not_cut_inside_a_character(
    front: Seq<char>,
    c: char,
    rest: Seq<char>,
    at: int,
)
    requires
        encode_utf8(front).len() < at < encode_utf8(front + seq![c]).len(),
    ensures
        !is_char_boundary(encode_utf8(front + (seq![c] + rest)), at),
    decreases front.len(),
{
    let text = front + (seq![c] + rest);
    let whole = encode_utf8(text);
    encode_utf8_valid_utf8(text);
    vstd::utf8::encode_utf8_first_scalar(text);
    assert(vstd::utf8::pop_first_scalar(whole) =~= encode_utf8(text.drop_first()));
    encode_utf8_valid_utf8(text.drop_first());
    if front.len() == 0 {
        assert(front + seq![c] =~= seq![c]);
        encoding_goes_on(seq![c], rest);
        reveal_with_fuel(encode_utf8, 2);
        assert(encode_utf8(seq![c]) =~= vstd::utf8::encode_scalar(c as u32));
        reveal_with_fuel(is_char_boundary, 2);
    } else {
        let less = front.drop_first();
        assert((front + seq![c]).drop_first() =~= less + seq![c]);
        assert(text.drop_first() =~= less + (seq![c] + rest));
        text_is_not_cut_inside_a_character(
            less,
            c,
            rest,
            at - vstd::utf8::encode_scalar(front[0] as u32).len(),
        );
    }
}

/// No byte of `b` is 0.
pub open spec fn no_zero(b: Seq<u8>) -> bool {
    forall|i: int| 0 <= i < b.len() ==> #[trigger] b[i] != 0
}

proof fn nul_behind(b: Seq<u8>, rest: Seq<u8>)
    requires
        no_zero(b),
    ensures
        nul_at(b + seq![0u8] + rest) == b.len(),
        (b + seq![0u8] + rest).take(b.len() as int) == b,
        nul_at(b) == b.len(),
        b.take(b.len() as int) == b,
{
    let field = b + seq![0u8] + rest;
    let zero = |x: u8| x == 0;
    assert forall|i: int| 0 <= i < b.len() implies !zero(#[trigger] field[i]) by {
        assert(field[i] == b[i]);
    }
    assert(zero(field[b.len() as int]));
    first_where_unique(field, 0, field.len() as int, zero, b.len() as int);
    assert(field.take(b.len() as int) =~= b);
    assert forall|i: int| 0 <= i < b.len() implies !zero(#[trigger] b[i]) by {}
    first_where_unique(b, 0, b.len() as int, zero, b.len() as int);
    assert(b.take(b.len() as int) =~= b);
}

/// A text that was put into a field with a NUL byte behind it is read back, whatever
/// follows; a text that fills its field is read back where the field may fill up, and
/// not where it must end in a NUL byte.
pub proof fn field_text_reads_back(text: Seq<char>, rest: Seq<u8>, otherwise: Seq<char>)
    requires
        no_zero(encode_utf8(text)),
    ensures
        terminated_field_text(encode_utf8(text) + seq![0u8] + rest) == text,
        filled_field_text(encode_utf8(text) + seq![0u8] + rest, otherwise) == text,
        filled_field_text(encode_utf8(text), otherwise) == text,
        terminated_field_text(encode_utf8(text)).len() == 0,
{
    nul_behind(encode_utf8(text), rest);
    encode_utf8_valid_utf8(text);
    encode_utf8_decode_utf8(text);
}

/// A field that must end in a NUL byte and does not gives no text.
pub proof fn unended_field_gives_no_text(b: Seq<u8>)
    requires
        no_zero(b),
    ensures
        terminated_field_text(b).len() == 0,
{
    nul_behind(b, seq![]);
}

/// Bytes that are no UTF-8 give no text, or the text that stands for them.
pub proof fn other_bytes_give_no_text(b: Seq<u8>, rest: Seq<u8>, otherwise: Seq<char>)
    requires
        no_zero(b),
        !valid_utf8(b),
    ensures
        terminated_field_text(b + seq![0u8] + rest).len() == 0,
        terminated_field_text(b).len() == 0,
        filled_field_text(b + seq![0u8] + rest, otherwise) == otherwise,
        filled_field_text(b, otherwise) == otherwise,
{
    nul_behind(b, rest);
}

} // verus!
