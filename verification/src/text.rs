//! Text, character by character: lines, pieces, words, numbers.

use vstd::prelude::*;
use vstd::string::*;

verus! {

/// `String::push` puts one character at the end.
pub assume_specification[ String::push ](s: &mut String, c: char)
    ensures
        final(s)@ == old(s)@.push(c),
;

/// Whether a character is white space: it has the Unicode property White_Space.
pub open spec fn is_white(c: char) -> bool {
    let n = c as u32;
    9 <= n <= 13 || n == 0x20 || n == 0x85 || n == 0xa0 || n == 0x1680 || 0x2000 <= n <= 0x200a || n
        == 0x2028 || n == 0x2029 || n == 0x202f || n == 0x205f || n == 0x3000
}

/// Whether a character is white space.
pub fn is_whitespace(c: char) -> (r: bool)
    ensures
        r == is_white(c),
{
    let n = c as u32;
    (9 <= n && n <= 13) || n == 0x20 || n == 0x85 || n == 0xa0 || n == 0x1680 || (0x2000 <= n && n
        <= 0x200a) || n == 0x2028 || n == 0x2029 || n == 0x202f || n == 0x205f || n == 0x3000
}

/// Being this character.
pub open spec fn equals(c: char) -> spec_fn(char) -> bool {
    |x: char| x == c
}

/// Being white space, or with `white` unset, being none.
pub open spec fn white_is(white: bool) -> spec_fn(char) -> bool {
    |x: char| is_white(x) == white
}

/// The first index at or behind `from` whose character satisfies `pred`, the
/// length if there is none.
pub open spec fn first_char(s: Seq<char>, from: int, pred: spec_fn(char) -> bool) -> int
    decreases s.len() - from,
{
    if from >= s.len() {
        s.len() as int
    } else if pred(s[from]) {
        from
    } else {
        first_char(s, from + 1, pred)
    }
}

/// [`first_char`] lies behind `from`, and none in between satisfies `pred`.
pub proof fn first_char_is_least(s: Seq<char>, from: int, pred: spec_fn(char) -> bool)
    requires
        0 <= from <= s.len(),
    ensures
        from <= first_char(s, from, pred) <= s.len(),
        first_char(s, from, pred) < s.len() ==> pred(s[first_char(s, from, pred)]),
        forall|i: int| from <= i < first_char(s, from, pred) ==> !pred(#[trigger] s[i]),
    decreases s.len() - from,
{
    if from < s.len() && !pred(s[from]) {
        first_char_is_least(s, from + 1, pred);
    }
}

/// The characters of a text.
pub fn chars_of(s: &str) -> (r: Vec<char>)
    ensures
        r@ == s@,
{
    let mut r: Vec<char> = Vec::new();
    for c in it: s.chars()
        invariant
            r@ == s@.take(it.index() as int),
            it.seq() == s@,
    {
        r.push(c);
    }
    r
}

/// The text of the characters in `from..to`.
pub fn text_of(v: &[char], from: usize, to: usize) -> (r: String)
    requires
        from <= to <= v@.len(),
    ensures
        r@ == v@.subrange(from as int, to as int),
{
    let mut r = String::new();
    let mut i: usize = from;
    while i < to
        invariant
            from <= i <= to <= v@.len(),
            r@ =~= v@.subrange(from as int, i as int),
        decreases to - i,
    {
        r.push(v[i]);
        i = i + 1;
    }
    r
}

/// Finds a character.
pub fn find_char(v: &[char], from: usize, c: char) -> (r: usize)
    requires
        from <= v@.len(),
    ensures
        r == first_char(v@, from as int, equals(c)),
        from <= r <= v@.len(),
{
    let len = v.len();
    let mut i: usize = from;
    while i < len
        invariant
            from <= i <= len == v@.len(),
            first_char(v@, from as int, equals(c)) == first_char(
                v@,
                i as int,
                equals(c),
            ),
        decreases len - i,
    {
        if v[i] == c {
            return i;
        }
        i = i + 1;
    }
    i
}

/// Finds the first white space, or with `white` unset, the first character
/// that is none.
pub fn find_white(v: &[char], from: usize, white: bool) -> (r: usize)
    requires
        from <= v@.len(),
    ensures
        r == first_char(v@, from as int, white_is(white)),
        from <= r <= v@.len(),
        r < v@.len() ==> is_white(v@[r as int]) == white,
{
    let len = v.len();
    let mut i: usize = from;
    while i < len
        invariant
            from <= i <= len == v@.len(),
            first_char(v@, from as int, white_is(white)) == first_char(
                v@,
                i as int,
                white_is(white),
            ),
        decreases len - i,
    {
        if is_whitespace(v[i]) == white {
            return i;
        }
        i = i + 1;
    }
    i
}

/// `s` without white space at its front.
pub open spec fn trim_start(s: Seq<char>) -> Seq<char> {
    s.skip(first_char(s, 0, white_is(false)))
}

/// `s` without white space at its end.
pub open spec fn trim_end(s: Seq<char>) -> Seq<char>
    decreases s.len(),
{
    if s.len() > 0 && is_white(s.last()) {
        trim_end(s.drop_last())
    } else {
        s
    }
}

/// `s` without white space at either end.
pub open spec fn trim(s: Seq<char>) -> Seq<char> {
    trim_end(trim_start(s))
}

/// The range of a text that is left of `from..to` without white space at
/// either end.
pub fn trim_range(v: &[char], from: usize, to: usize) -> (r: (usize, usize))
    requires
        from <= to <= v@.len(),
    ensures
        from <= r.0 <= r.1 <= to,
        v@.subrange(r.0 as int, r.1 as int) == trim(v@.subrange(from as int, to as int)),
{
    let ghost s = v@.subrange(from as int, to as int);
    let ghost black = white_is(false);
    let mut a: usize = from;
    while a < to && is_whitespace(v[a])
        invariant
            from <= a <= to <= v@.len(),
            s == v@.subrange(from as int, to as int),
            black == white_is(false),
            first_char(s, 0, black) == first_char(s, a - from, black),
        decreases to - a,
    {
        assert(s[a - from] == v@[a as int]);
        a = a + 1;
    }
    proof {
        if a < to {
            assert(s[a - from] == v@[a as int]);
        }
        assert(first_char(s, 0, black) == a - from);
        assert(trim_start(s) =~= v@.subrange(a as int, to as int));
    }
    let mut b: usize = to;
    while b > a && is_whitespace(v[b - 1])
        invariant
            a <= b <= to <= v@.len(),
            trim_end(v@.subrange(a as int, to as int)) == trim_end(
                v@.subrange(a as int, b as int),
            ),
        decreases b,
    {
        assert(v@.subrange(a as int, b as int).last() == v@[b - 1]);
        assert(v@.subrange(a as int, b as int).drop_last() =~= v@.subrange(a as int, b - 1));
        b = b - 1;
    }
    proof {
        if b > a {
            assert(v@.subrange(a as int, b as int).last() == v@[b - 1]);
        }
    }
    (a, b)
}

/// A line without the carriage return at its end.
pub open spec fn strip_return(s: Seq<char>) -> Seq<char> {
    if s.len() > 0 && s.last() == '\r' {
        s.drop_last()
    } else {
        s
    }
}

/// The lines of `s` from `from` on. A line ends at a line feed, or at a
/// carriage return with one behind it; the last may end without.
pub open spec fn lines_from(s: Seq<char>, from: int) -> Seq<Seq<char>>
    decreases s.len() - from,
    when 0 <= from
{
    if from >= s.len() {
        seq![]
    } else {
        let end = first_char(s, from, equals('\n'));
        if from <= end < s.len() {
            seq![strip_return(s.subrange(from, end))] + lines_from(s, end + 1)
        } else {
            seq![s.subrange(from, s.len() as int)]
        }
    }
}

/// The lines of `s`.
pub open spec fn lines(s: Seq<char>) -> Seq<Seq<char>> {
    lines_from(s, 0)
}

/// The pieces of `s` from `from` on that `sep` parts.
pub open spec fn split_from(s: Seq<char>, sep: char, from: int) -> Seq<Seq<char>>
    decreases s.len() - from,
    when 0 <= from <= s.len()
{
    let end = first_char(s, from, equals(sep));
    if from <= end < s.len() {
        seq![s.subrange(from, end)] + split_from(s, sep, end + 1)
    } else {
        seq![s.subrange(from, s.len() as int)]
    }
}

/// The pieces of `s` that `sep` parts.
pub open spec fn split(s: Seq<char>, sep: char) -> Seq<Seq<char>> {
    split_from(s, sep, 0)
}

/// A character that satisfies `pred` and that none from `from` on up to it
/// does is [`first_char`].
pub proof fn first_char_is(s: Seq<char>, from: int, pred: spec_fn(char) -> bool, k: int)
    requires
        0 <= from <= k <= s.len(),
        forall|i: int| from <= i < k ==> !pred(#[trigger] s[i]),
        k < s.len() ==> pred(s[k]),
    ensures
        first_char(s, from, pred) == k,
    decreases k - from,
{
    if from < k {
        first_char_is(s, from + 1, pred, k);
    }
}

/// Splitting goes on behind `front` as it would without it.
proof fn split_behind(front: Seq<char>, s: Seq<char>, sep: char, from: int)
    requires
        0 <= from <= s.len(),
    ensures
        split_from(front + s, sep, front.len() + from) == split_from(s, sep, from),
    decreases s.len() - from,
{
    let whole = front + s;
    let n = front.len() as int;
    let end = first_char(s, from, equals(sep));
    first_char_is_least(s, from, equals(sep));
    assert forall|i: int| n + from <= i < n + end implies !equals(sep)(#[trigger] whole[i]) by {
        assert(whole[i] == s[i - n]);
        assert(!equals(sep)(s[i - n]));
    }
    if end < s.len() {
        assert(whole[n + end] == s[end]);
    }
    first_char_is(whole, n + from, equals(sep), n + end);
    assert(whole.subrange(n + from, n + end) =~= s.subrange(from, end));
    if end < s.len() {
        split_behind(front, s, sep, end + 1);
    }
}

/// A text without `sep` in it is one piece.
pub proof fn split_of_one(a: Seq<char>, sep: char)
    requires
        !a.contains(sep),
    ensures
        split(a, sep) == seq![a],
{
    first_char_is(a, 0, equals(sep), a.len() as int);
    assert(a.subrange(0, a.len() as int) =~= a);
}

proof fn split_at_from(a: Seq<char>, sep: char, rest: Seq<char>, from: int)
    requires
        0 <= from <= a.len(),
    ensures
        split_from(a + seq![sep] + rest, sep, from) == split_from(a, sep, from) + split(rest, sep),
    decreases a.len() - from,
{
    let whole = a + seq![sep] + rest;
    let n = a.len() as int;
    let end = first_char(a, from, equals(sep));
    first_char_is_least(a, from, equals(sep));
    assert forall|i: int| from <= i < end implies !equals(sep)(#[trigger] whole[i]) by {
        assert(whole[i] == a[i]);
        assert(!equals(sep)(a[i]));
    }
    if end < n {
        assert(whole[end] == a[end]);
    } else {
        assert(whole[n] == sep);
    }
    first_char_is(whole, from, equals(sep), end);
    assert(whole.subrange(from, end) =~= a.subrange(from, end));
    if end < n {
        split_at_from(a, sep, rest, end + 1);
    } else {
        assert(whole =~= (a + seq![sep]) + rest);
        split_behind(a + seq![sep], rest, sep, 0);
    }
    assert(split_from(whole, sep, from) =~= split_from(a, sep, from) + split(rest, sep));
}

/// What stands before a `sep` and what stands behind it are split on their own.
pub proof fn split_at_sep(a: Seq<char>, sep: char, rest: Seq<char>)
    ensures
        split(a + seq![sep] + rest, sep) == split(a, sep) + split(rest, sep),
{
    split_at_from(a, sep, rest, 0);
}

/// A text without white space in it is not changed by trimming.
pub proof fn trim_keeps_black(s: Seq<char>)
    requires
        forall|i: int| 0 <= i < s.len() ==> !is_white(#[trigger] s[i]),
    ensures
        trim(s) == s,
{
    first_char_is(s, 0, white_is(false), 0);
    assert(s.skip(0) =~= s);
}

/// The words of `s` from `from` on: what white space parts.
pub open spec fn words_from(s: Seq<char>, from: int) -> Seq<Seq<char>>
    decreases s.len() - from,
    when 0 <= from <= s.len()
{
    let start = first_char(s, from, white_is(false));
    let end = first_char(s, start, white_is(true));
    if from <= start < s.len() && start < end <= s.len() {
        seq![s.subrange(start, end)] + words_from(s, end)
    } else {
        seq![]
    }
}

/// The words of `s`.
pub open spec fn words(s: Seq<char>) -> Seq<Seq<char>> {
    words_from(s, 0)
}

/// What each text of a list spells.
pub open spec fn views(v: Seq<String>) -> Seq<Seq<char>> {
    v.map_values(|t: String| t@)
}

/// The lines of a text.
pub fn split_lines(s: &str) -> (r: Vec<String>)
    ensures
        views(r@) == lines(s@),
{
    let v = chars_of(s);
    let len = v.len();
    let mut r: Vec<String> = Vec::new();
    let mut from: usize = 0;
    while from < len
        invariant
            from <= len == v@.len(),
            v@ == s@,
            lines(s@) =~= views(r@) + lines_from(s@, from as int),
        decreases len - from,
    {
        let end = find_char(v.as_slice(), from, '\n');
        let ghost before = r@;
        if end < len {
            let stop = if end > from && v[end - 1] == '\r' {
                end - 1
            } else {
                end
            };
            let line = text_of(v.as_slice(), from, stop);
            assert(line@ =~= strip_return(s@.subrange(from as int, end as int)));
            r.push(line);
            assert(views(r@) =~= views(before).push(line@));
            from = end + 1;
        } else {
            let line = text_of(v.as_slice(), from, len);
            r.push(line);
            assert(views(r@) =~= views(before).push(line@));
            from = len;
        }
    }
    assert(lines_from(s@, from as int) =~= seq![]);
    r
}

/// The pieces of a text that `sep` parts.
pub fn split_on(s: &str, sep: char) -> (r: Vec<String>)
    ensures
        views(r@) == split(s@, sep),
{
    let v = chars_of(s);
    let len = v.len();
    let mut r: Vec<String> = Vec::new();
    let mut from: usize = 0;
    loop
        invariant
            from <= len == v@.len(),
            v@ == s@,
            split(s@, sep) =~= views(r@) + split_from(s@, sep, from as int),
        decreases len - from,
    {
        let end = find_char(v.as_slice(), from, sep);
        let ghost before = r@;
        let piece = text_of(v.as_slice(), from, end);
        r.push(piece);
        assert(views(r@) =~= views(before).push(piece@));
        if end >= len {
            return r;
        }
        from = end + 1;
    }
}

/// The words of a text.
pub fn split_words(s: &str) -> (r: Vec<String>)
    ensures
        views(r@) == words(s@),
{
    let v = chars_of(s);
    let len = v.len();
    let mut r: Vec<String> = Vec::new();
    let mut from: usize = 0;
    loop
        invariant
            from <= len == v@.len(),
            v@ == s@,
            words(s@) =~= views(r@) + words_from(s@, from as int),
        decreases len - from,
    {
        let start = find_white(v.as_slice(), from, false);
        if start >= len {
            assert(words_from(s@, from as int) =~= seq![]);
            return r;
        }
        let end = find_white(v.as_slice(), start, true);
        let ghost before = r@;
        let word = text_of(v.as_slice(), start, end);
        r.push(word);
        assert(views(r@) =~= views(before).push(word@));
        from = end;
    }
}

/// Whether `pat` stands in `s` at `i`.
pub open spec fn stands_at(s: Seq<char>, pat: Seq<char>, i: int) -> bool {
    0 <= i && i + pat.len() <= s.len() && s.subrange(i, i + pat.len()) == pat
}

/// Whether `pat` stands anywhere in `s`.
pub open spec fn contains(s: Seq<char>, pat: Seq<char>) -> bool {
    exists|i: int| #[trigger] stands_at(s, pat, i)
}

/// The first place at or behind `from` where `pat` stands, the length if there
/// is none.
pub open spec fn first_standing(s: Seq<char>, pat: Seq<char>, from: int) -> int
    decreases s.len() - from,
{
    if from >= s.len() {
        s.len() as int
    } else if stands_at(s, pat, from) {
        from
    } else {
        first_standing(s, pat, from + 1)
    }
}

/// Whether `pat` stands in `v` at `i`.
pub fn is_at(v: &[char], pat: &[char], i: usize) -> (r: bool)
    requires
        i <= v@.len(),
    ensures
        r == stands_at(v@, pat@, i as int),
{
    if pat.len() > v.len() - i {
        return false;
    }
    let mut k: usize = 0;
    while k < pat.len()
        invariant
            k <= pat@.len(),
            i + pat@.len() <= v.len(),
            v@.subrange(i as int, i + k) =~= pat@.subrange(0, k as int),
        decreases pat@.len() - k,
    {
        if v[i + k] != pat[k] {
            assert(v@.subrange(i as int, i + pat@.len())[k as int] == v@[i + k]);
            return false;
        }
        k = k + 1;
    }
    assert(pat@.subrange(0, k as int) =~= pat@);
    true
}

/// Finds `pat`, which is not empty.
pub fn find_text(v: &[char], pat: &[char], from: usize) -> (r: usize)
    requires
        from <= v@.len(),
    ensures
        r == first_standing(v@, pat@, from as int),
        from <= r <= v@.len(),
        r < v@.len() ==> stands_at(v@, pat@, r as int),
{
    let len = v.len();
    let mut i: usize = from;
    while i < len
        invariant
            from <= i <= len == v@.len(),
            first_standing(v@, pat@, from as int) == first_standing(v@, pat@, i as int),
        decreases len - i,
    {
        if is_at(v, pat, i) {
            return i;
        }
        i = i + 1;
    }
    i
}

/// Whether `pat` stands anywhere in a text.
pub fn has_text(s: &str, pat: &str) -> (r: bool)
    ensures
        r == contains(s@, pat@),
{
    let v = chars_of(s);
    let p = chars_of(pat);
    let len = v.len();
    let mut i: usize = 0;
    while i < len
        invariant
            i <= len == v@.len(),
            v@ == s@,
            p@ == pat@,
            forall|k: int| 0 <= k < i ==> !#[trigger] stands_at(s@, pat@, k),
        decreases len - i,
    {
        if is_at(v.as_slice(), p.as_slice(), i) {
            return true;
        }
        i = i + 1;
    }
    is_at(v.as_slice(), p.as_slice(), len)
}

/// Whether a text begins with `pat`.
pub fn begins_with(s: &str, pat: &str) -> (r: bool)
    ensures
        r == stands_at(s@, pat@, 0),
{
    let v = chars_of(s);
    let p = chars_of(pat);
    is_at(v.as_slice(), p.as_slice(), 0)
}

/// `s` without `pat`, and without it again, at its front.
pub open spec fn strip_all(s: Seq<char>, pat: Seq<char>) -> Seq<char>
    decreases s.len(),
{
    if pat.len() > 0 && stands_at(s, pat, 0) {
        strip_all(s.skip(pat.len() as int), pat)
    } else {
        s
    }
}

/// A text without `pat`, and without it again, at its front.
pub fn strip_prefixes(s: &str, pat: &str) -> (r: String)
    ensures
        r@ == strip_all(s@, pat@),
{
    let v = chars_of(s);
    let p = chars_of(pat);
    let mut i: usize = 0;
    assert(s@.skip(0) =~= s@);
    while p.len() > 0 && is_at(v.as_slice(), p.as_slice(), i)
        invariant
            i <= v@.len(),
            v@ == s@,
            p@ == pat@,
            strip_all(s@, pat@) == strip_all(s@.skip(i as int), pat@),
        decreases v@.len() - i,
    {
        proof {
            let rest = s@.skip(i as int);
            let n = pat@.len() as int;
            assert(rest.subrange(0, n) =~= s@.subrange(i as int, i + n));
            assert(stands_at(rest, pat@, 0));
            assert(rest.skip(n) =~= s@.skip(i + n));
        }
        assert(i + p@.len() <= v.len());
        i = i + p.len();
    }
    proof {
        let rest = s@.skip(i as int);
        let n = pat@.len() as int;
        if n > 0 && stands_at(rest, pat@, 0) {
            assert(rest.subrange(0, n) =~= s@.subrange(i as int, i + n));
        }
        assert(rest =~= s@.subrange(i as int, s@.len() as int));
    }
    text_of(v.as_slice(), i, v.len())
}

/// The text of `s` without white space at either end.
pub fn trimmed(s: &str) -> (r: String)
    ensures
        r@ == trim(s@),
{
    let v = chars_of(s);
    let (a, b) = trim_range(v.as_slice(), 0, v.len());
    assert(v@.subrange(0, v@.len() as int) =~= s@);
    text_of(v.as_slice(), a, b)
}

/// `n` spaces.
pub open spec fn spaces(n: int) -> Seq<char> {
    Seq::new(
        if n < 0 {
            0
        } else {
            n as nat
        },
        |i: int| ' ',
    )
}

/// `s` with spaces behind it up to `width` characters.
pub open spec fn pad_right(s: Seq<char>, width: int) -> Seq<char> {
    s + spaces(width - s.len())
}

/// A text with spaces behind it up to `width` characters.
pub fn padded(s: &str, width: usize) -> (r: String)
    ensures
        r@ == pad_right(s@, width as int),
{
    let mut r = String::new();
    r.append(s);
    let len = s.unicode_len();
    let mut n: usize = len;
    while n < width
        invariant
            len == s@.len(),
            len <= n,
            n == len || n <= width,
            r@ =~= s@ + spaces(n - len),
        decreases width - n,
    {
        r.push(' ');
        n = n + 1;
    }
    r
}

/// Whether two texts are the same.
pub fn same_text(a: &str, b: &str) -> (r: bool)
    ensures
        r == (a@ == b@),
{
    let v = chars_of(a);
    let w = chars_of(b);
    if v.len() != w.len() {
        return false;
    }
    let r = is_at(v.as_slice(), w.as_slice(), 0);
    assert(v@.subrange(0, w@.len() as int) =~= v@);
    r
}

} // verus!
