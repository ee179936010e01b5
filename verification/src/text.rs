//! Character and string utilities shared by the whole library.
//!
//! Text is modelled as `Seq<char>` in specifications. The executable side
//! works on `Vec<char>` and converts to `String` only at the boundary.

use vstd::prelude::*;

verus! {

/// Whether `char::is_whitespace` holds of `c`; the result depends on the
/// character alone.
pub uninterp spec fn is_unicode_whitespace(c: char) -> bool;

/// Relies on char::is_whitespace. Its documentation fixes the ASCII
/// whitespace characters: space, tab, line feed, vertical tab, form feed,
/// carriage return.
#[verifier::external_body]
pub(crate) fn char_is_whitespace(c: char) -> (r: bool)
    ensures
        r == is_unicode_whitespace(c),
        (c as u32) < 128 ==> r == (c == ' ' || c == '\t' || c == '\n' || c == '\u{b}'
            || c == '\u{c}' || c == '\r'),
{
    c.is_whitespace()
}

/// Relies on str::chars: it yields exactly the characters of the string, in
/// order.
#[verifier::external_body]
pub(crate) fn chars_of_str(s: &str) -> (r: Vec<char>)
    ensures
        r@ == s@,
{
    s.chars().collect()
}

/// Relies on String's FromIterator over chars: collecting characters builds
/// the string of exactly those characters.
#[verifier::external_body]
pub(crate) fn string_of_chars(v: &Vec<char>) -> (r: String)
    ensures
        r@ == v@,
{
    v.iter().collect()
}

/// Compares a character vector against a string slice.
pub fn chars_eq_str(v: &Vec<char>, s: &str) -> (r: bool)
    ensures
        r == (v@ == s@),
{
    let n = s.unicode_len();
    if v.len() != n {
        assert(v@.len() != s@.len());
        return false;
    }
    let mut i: usize = 0;
    while i < n
        invariant
            i <= n,
            n == s@.len(),
            v@.len() == n,
            forall|j: int| 0 <= j < i ==> v@[j] == s@[j],
        decreases n - i,
    {
        if v[i] != s.get_char(i) {
            return false;
        }
        i = i + 1;
    }
    assert(v@ =~= s@);
    true
}

/// Appends every character of `src` to `dst`.
pub fn push_chars(dst: &mut Vec<char>, src: &Vec<char>)
    ensures
        final(dst)@ == old(dst)@ + src@,
{
    let mut i: usize = 0;
    while i < src.len()
        invariant
            i <= src@.len(),
            dst@ == old(dst)@ + src@.subrange(0, i as int),
        decreases src@.len() - i,
    {
        dst.push(src[i]);
        assert(dst@ =~= old(dst)@ + src@.subrange(0, i + 1 as int));
        i = i + 1;
    }
    assert(dst@ =~= old(dst)@ + src@);
}

/// Appends every character of the string slice `src` to `dst`.
pub fn push_str_chars(dst: &mut Vec<char>, src: &str)
    ensures
        final(dst)@ == old(dst)@ + src@,
{
    let n = src.unicode_len();
    let mut i: usize = 0;
    while i < n
        invariant
            i <= n,
            n == src@.len(),
            dst@ == old(dst)@ + src@.subrange(0, i as int),
        decreases n - i,
    {
        dst.push(src.get_char(i));
        assert(dst@ =~= old(dst)@ + src@.subrange(0, i + 1 as int));
        i = i + 1;
    }
    assert(dst@ =~= old(dst)@ + src@);
}

/// The number of characters of `s` that are not whitespace.
pub open spec fn spec_count_words(s: Seq<char>) -> nat
    decreases s.len(),
{
    if s.len() == 0 {
        0
    } else {
        spec_count_words(s.drop_last()) + if is_unicode_whitespace(s.last()) {
            0nat
        } else {
            1nat
        }
    }
}

/// Word count of a text: the number of non-whitespace characters.
pub fn count_words(content: &str) -> (r: u32)
    ensures
        spec_count_words(content@) <= u32::MAX ==> r == spec_count_words(content@),
        r <= spec_count_words(content@),
{
    let chars = chars_of_str(content);
    let mut count: u32 = 0;
    let mut i: usize = 0;
    while i < chars.len()
        invariant
            i <= chars@.len(),
            chars@ == content@,
            count <= spec_count_words(chars@.subrange(0, i as int)),
            spec_count_words(chars@.subrange(0, i as int)) <= u32::MAX ==> count
                == spec_count_words(chars@.subrange(0, i as int)),
            spec_count_words(chars@.subrange(0, i as int)) <= i,
        decreases chars@.len() - i,
    {
        let ghost pre = chars@.subrange(0, i as int);
        let ghost post = chars@.subrange(0, i + 1 as int);
        assert(post.drop_last() =~= pre);
        assert(post.last() == chars@[i as int]);
        if !char_is_whitespace(chars[i]) {
            if count < u32::MAX {
                count = count + 1;
            }
        }
        i = i + 1;
    }
    assert(chars@.subrange(0, chars@.len() as int) =~= chars@);
    count
}

/// The decimal digit characters of `n`, most significant first.
pub open spec fn spec_decimal(n: nat) -> Seq<char>
    decreases n,
{
    if n < 10 {
        seq![spec_digit_char(n)]
    } else {
        spec_decimal(n / 10).push(spec_digit_char(n % 10))
    }
}

/// The character for a single decimal digit.
pub open spec fn spec_digit_char(d: nat) -> char {
    if d == 0 {
        '0'
    } else if d == 1 {
        '1'
    } else if d == 2 {
        '2'
    } else if d == 3 {
        '3'
    } else if d == 4 {
        '4'
    } else if d == 5 {
        '5'
    } else if d == 6 {
        '6'
    } else if d == 7 {
        '7'
    } else if d == 8 {
        '8'
    } else {
        '9'
    }
}

fn digit_char(d: u64) -> (c: char)
    requires
        d < 10,
    ensures
        c == spec_digit_char(d as nat),
{
    if d == 0 {
        '0'
    } else if d == 1 {
        '1'
    } else if d == 2 {
        '2'
    } else if d == 3 {
        '3'
    } else if d == 4 {
        '4'
    } else if d == 5 {
        '5'
    } else if d == 6 {
        '6'
    } else if d == 7 {
        '7'
    } else if d == 8 {
        '8'
    } else {
        '9'
    }
}

/// The decimal representation of `n` as characters.
pub fn decimal_chars(n: u64) -> (v: Vec<char>)
    ensures
        v@ == spec_decimal(n as nat),
    decreases n,
{
    if n < 10 {
        let mut v: Vec<char> = Vec::new();
        v.push(digit_char(n));
        assert(v@ =~= spec_decimal(n as nat));
        v
    } else {
        let mut v = decimal_chars(n / 10);
        v.push(digit_char(n % 10));
        v
    }
}

/// `n` in decimal, left-padded with zeros to at least `width` characters.
pub open spec fn spec_zero_padded(n: nat, width: nat) -> Seq<char> {
    let digits = spec_decimal(n);
    if digits.len() >= width {
        digits
    } else {
        Seq::new((width - digits.len()) as nat, |i: int| '0') + digits
    }
}

/// The decimal representation of `n`, zero-padded to at least `width`
/// characters.
pub fn zero_padded_decimal(n: u64, width: usize) -> (v: Vec<char>)
    ensures
        v@ == spec_zero_padded(n as nat, width as nat),
{
    let digits = decimal_chars(n);
    if digits.len() >= width {
        return digits;
    }
    let mut v: Vec<char> = Vec::new();
    let pad = width - digits.len();
    let mut i: usize = 0;
    while i < pad
        invariant
            i <= pad,
            v@ =~= Seq::new(i as nat, |j: int| '0'),
        decreases pad - i,
    {
        v.push('0');
        assert(v@ =~= Seq::new((i + 1) as nat, |j: int| '0'));
        i = i + 1;
    }
    let mut out = v;
    push_chars(&mut out, &digits);
    out
}

} // verus!

verus! {

/// Splits `s` on `sep`. Every separator ends a segment; the result always
/// holds one more segment than there are separators.
pub open spec fn spec_split(s: Seq<char>, sep: char) -> Seq<Seq<char>>
    decreases s.len(),
{
    if s.len() == 0 {
        seq![Seq::empty()]
    } else if s.last() == sep {
        spec_split(s.drop_last(), sep).push(Seq::empty())
    } else {
        let parts = spec_split(s.drop_last(), sep);
        parts.update(parts.len() - 1, parts.last().push(s.last()))
    }
}

/// Splits a character vector on a separator character.
pub fn split_chars(s: &Vec<char>, sep: char) -> (parts: Vec<Vec<char>>)
    ensures
        parts.deep_view() == spec_split(s@, sep),
{
    let mut parts: Vec<Vec<char>> = Vec::new();
    parts.push(Vec::new());
    assert(parts.deep_view() =~~= spec_split(s@.subrange(0, 0), sep));
    let mut i: usize = 0;
    while i < s.len()
        invariant
            i <= s@.len(),
            parts@.len() >= 1,
            parts.deep_view() == spec_split(s@.subrange(0, i as int), sep),
        decreases s@.len() - i,
    {
        let ghost pre = s@.subrange(0, i as int);
        let ghost post = s@.subrange(0, i + 1 as int);
        assert(post.drop_last() =~= pre);
        assert(post.last() == s@[i as int]);
        if s[i] == sep {
            parts.push(Vec::new());
            assert(parts.deep_view() =~~= spec_split(post, sep));
        } else {
            let c = s[i];
            let ghost old_parts = parts.deep_view();
            let mut segment = parts.pop().unwrap();
            segment.push(c);
            parts.push(segment);
            assert(parts.deep_view() =~~= old_parts.update(
                old_parts.len() - 1,
                old_parts.last().push(c),
            ));
        }
        i = i + 1;
    }
    assert(s@.subrange(0, s@.len() as int) =~= s@);
    parts
}

/// Whether `needle` occurs as a contiguous subsequence of `hay`.
pub open spec fn spec_contains(hay: Seq<char>, needle: Seq<char>) -> bool {
    exists|i: int|
        0 <= i && i + needle.len() <= hay.len() && #[trigger] hay.subrange(i, i + needle.len())
            == needle
}

/// Whether `hay` starts with `prefix` at position `at`.
fn matches_at(hay: &Vec<char>, needle: &Vec<char>, at: usize) -> (r: bool)
    requires
        at + needle@.len() <= hay@.len(),
    ensures
        r == (hay@.subrange(at as int, at + needle@.len()) == needle@),
{
    let n = needle.len();
    let hn = hay.len();
    let mut j: usize = 0;
    while j < n
        invariant
            j <= n,
            n == needle@.len(),
            hn == hay@.len(),
            at + n <= hn,
            forall|k: int| 0 <= k < j ==> hay@[at + k] == needle@[k],
        decreases n - j,
    {
        if hay[at + j] != needle[j] {
            assert(hay@.subrange(at as int, at + needle@.len()) != needle@) by {
                assert(hay@.subrange(at as int, at + needle@.len())[j as int] == hay@[at + j]);
            }
            return false;
        }
        j = j + 1;
    }
    assert(hay@.subrange(at as int, at + needle@.len()) =~= needle@);
    true
}

/// Substring search: whether `needle` occurs in `hay`.
pub fn contains_chars(hay: &Vec<char>, needle: &Vec<char>) -> (r: bool)
    ensures
        r == spec_contains(hay@, needle@),
{
    if needle.len() > hay.len() {
        return false;
    }
    let stop = hay.len() - needle.len();
    let mut i: usize = 0;
    while i < stop
        invariant
            stop == hay@.len() - needle@.len(),
            i <= stop,
            forall|k: int|
                0 <= k < i ==> #[trigger] hay@.subrange(k, k + needle@.len()) != needle@,
        decreases stop - i,
    {
        if matches_at(hay, needle, i) {
            return true;
        }
        i = i + 1;
    }
    if matches_at(hay, needle, stop) {
        return true;
    }
    false
}

/// `s` with leading and trailing whitespace removed.
pub open spec fn spec_trim(s: Seq<char>) -> Seq<char>
    decreases s.len(),
{
    if s.len() == 0 {
        s
    } else if is_unicode_whitespace(s.first()) {
        spec_trim(s.drop_first())
    } else if is_unicode_whitespace(s.last()) {
        spec_trim(s.drop_last())
    } else {
        s
    }
}

/// Removes leading and trailing whitespace characters.
pub fn trim_chars(s: &Vec<char>) -> (r: Vec<char>)
    ensures
        r@ == spec_trim(s@),
        spec_trim(r@) == r@,
{
    let mut start: usize = 0;
    let mut end: usize = s.len();
    assert(s@.subrange(0, s@.len() as int) =~= s@);
    while start < end
        invariant_except_break
            start <= end <= s@.len(),
            spec_trim(s@) == spec_trim(s@.subrange(start as int, end as int)),
        ensures
            start <= end <= s@.len(),
            spec_trim(s@) == spec_trim(s@.subrange(start as int, end as int)),
            start < end ==> !is_unicode_whitespace(s@[start as int]),
        decreases end - start,
    {
        if char_is_whitespace(s[start]) {
            assert(s@.subrange(start as int, end as int).drop_first() =~= s@.subrange(
                start + 1 as int,
                end as int,
            ));
            start = start + 1;
        } else {
            break;
        }
    }
    while start < end
        invariant_except_break
            start <= end <= s@.len(),
            spec_trim(s@) == spec_trim(s@.subrange(start as int, end as int)),
            start < end ==> !is_unicode_whitespace(s@[start as int]),
        ensures
            start <= end <= s@.len(),
            spec_trim(s@) == spec_trim(s@.subrange(start as int, end as int)),
            start < end ==> !is_unicode_whitespace(s@[start as int]),
            start < end ==> !is_unicode_whitespace(s@[end - 1]),
        decreases end - start,
    {
        if char_is_whitespace(s[end - 1]) {
            assert(s@.subrange(start as int, end as int).drop_last() =~= s@.subrange(
                start as int,
                end - 1 as int,
            ));
            end = end - 1;
        } else {
            break;
        }
    }
    let mut r: Vec<char> = Vec::new();
    let mut i: usize = start;
    while i < end
        invariant
            start <= i <= end <= s@.len(),
            r@ =~= s@.subrange(start as int, i as int),
        decreases end - i,
    {
        r.push(s[i]);
        assert(r@ =~= s@.subrange(start as int, (i + 1) as int));
        i = i + 1;
    }
    assert(s@.subrange(start as int, end as int) =~= r@);
    assert(spec_trim(r@) == r@) by {
        if r@.len() > 0 {
            assert(!is_unicode_whitespace(r@.first()));
            assert(!is_unicode_whitespace(r@.last()));
        }
    }
    r
}

/// Whether every character of `s` is an ASCII decimal digit.
pub open spec fn spec_all_digits(s: Seq<char>) -> bool {
    forall|i: int| 0 <= i < s.len() ==> '0' <= #[trigger] s[i] && s[i] <= '9'
}

/// The numeric value of a digit sequence, most significant digit first.
pub open spec fn spec_digits_value(s: Seq<char>) -> nat
    decreases s.len(),
{
    if s.len() == 0 {
        0
    } else {
        spec_digits_value(s.drop_last()) * 10 + (if s.last() as nat >= '0' as nat {
            (s.last() as nat - '0' as nat) as nat
        } else {
            0nat
        })
    }
}

/// Whether all of `s` is ASCII digits.
pub fn all_digits(s: &Vec<char>) -> (r: bool)
    ensures
        r == (spec_all_digits(s@)),
{
    let mut i: usize = 0;
    while i < s.len()
        invariant
            i <= s@.len(),
            forall|j: int| 0 <= j < i ==> '0' <= #[trigger] s@[j] && s@[j] <= '9',
        decreases s@.len() - i,
    {
        let c = s[i];
        if !('0' <= c && c <= '9') {
            return false;
        }
        i = i + 1;
    }
    true
}

} // verus!

verus! {

/// Parses an all-digit character sequence as a `u32`; `None` when the value
/// does not fit.
pub fn parse_u32_digits(s: &Vec<char>) -> (r: Option<u32>)
    requires
        spec_all_digits(s@),
        s@.len() > 0,
    ensures
        spec_digits_value(s@) <= u32::MAX ==> r == Some(spec_digits_value(s@) as u32),
        spec_digits_value(s@) > u32::MAX ==> r is None,
{
    let mut acc: u64 = 0;
    let mut i: usize = 0;
    while i < s.len()
        invariant
            i <= s@.len(),
            spec_all_digits(s@),
            spec_digits_value(s@.subrange(0, i as int)) <= u32::MAX ==> acc
                == spec_digits_value(s@.subrange(0, i as int)),
            acc <= u32::MAX as u64 + 1,
            spec_digits_value(s@.subrange(0, i as int)) > u32::MAX ==> acc == u32::MAX as u64 + 1,
            acc == u32::MAX as u64 + 1 ==> spec_digits_value(s@.subrange(0, i as int)) > u32::MAX,
            acc <= spec_digits_value(s@.subrange(0, i as int)),
        decreases s@.len() - i,
    {
        let ghost pre = s@.subrange(0, i as int);
        let ghost post = s@.subrange(0, i + 1 as int);
        assert(post.drop_last() =~= pre);
        assert(post.last() == s@[i as int]);
        let c = s[i];
        let d: u64 = (c as u32) as u64 - ('0' as u32) as u64;
        assert(d < 10);
        proof {
            if spec_digits_value(pre) > u32::MAX {
                assert(spec_digits_value(post) == spec_digits_value(pre) * 10 + (
                post.last() as nat - '0' as nat)) by {
                    assert(post.last() as nat >= '0' as nat);
                };
                assert(spec_digits_value(pre) * 10 >= spec_digits_value(pre)) by (nonlinear_arith)
                    requires
                        spec_digits_value(pre) >= 0,
                ;
            }
        }
        if acc > u32::MAX as u64 / 10 || acc * 10 + d > u32::MAX as u64 {
            proof {
                if spec_digits_value(pre) <= u32::MAX {
                    assert(spec_digits_value(post) == spec_digits_value(pre) * 10 + (
                    post.last() as nat - '0' as nat));
                    assert(spec_digits_value(post) > u32::MAX);
                }
            }
            acc = u32::MAX as u64 + 1;
        } else {
            assert(acc * 10 + d <= u32::MAX);
            proof {
                if spec_digits_value(pre) <= u32::MAX {
                    assert(spec_digits_value(post) == spec_digits_value(pre) * 10 + (
                    post.last() as nat - '0' as nat));
                }
            }
            acc = acc * 10 + d;
        }
        i = i + 1;
    }
    assert(s@.subrange(0, s@.len() as int) =~= s@);
    if acc <= u32::MAX as u64 {
        Some(acc as u32)
    } else {
        None
    }
}

/// The number of bytes of the UTF-8 encoding of one character, as the
/// encoding defines it by code-point ranges.
pub open spec fn spec_utf8_len(c: char) -> nat {
    if (c as u32) < 0x80 {
        1
    } else if (c as u32) < 0x800 {
        2
    } else if (c as u32) < 0x10000 {
        3
    } else {
        4
    }
}

/// The number of bytes of the UTF-8 encoding of a character sequence.
pub open spec fn spec_utf8_len_seq(s: Seq<char>) -> nat
    decreases s.len(),
{
    if s.len() == 0 {
        0
    } else {
        spec_utf8_len_seq(s.drop_last()) + spec_utf8_len(s.last())
    }
}

/// The UTF-8 byte length of one character, computed from its code point.
pub fn utf8_len(c: char) -> (r: usize)
    ensures
        r == spec_utf8_len(c),
        1 <= r <= 4,
{
    let code = c as u32;
    if code < 0x80 {
        1
    } else if code < 0x800 {
        2
    } else if code < 0x10000 {
        3
    } else {
        4
    }
}

/// The UTF-8 byte length of a character vector, saturating at `usize::MAX`.
pub fn utf8_len_chars(s: &Vec<char>) -> (r: usize)
    ensures
        spec_utf8_len_seq(s@) <= usize::MAX ==> r == spec_utf8_len_seq(s@),
        r <= spec_utf8_len_seq(s@),
{
    let mut total: usize = 0;
    let mut i: usize = 0;
    while i < s.len()
        invariant
            i <= s@.len(),
            spec_utf8_len_seq(s@.subrange(0, i as int)) <= usize::MAX ==> total
                == spec_utf8_len_seq(s@.subrange(0, i as int)),
            total <= spec_utf8_len_seq(s@.subrange(0, i as int)),
        decreases s@.len() - i,
    {
        let ghost pre = s@.subrange(0, i as int);
        let ghost post = s@.subrange(0, i + 1 as int);
        assert(post.drop_last() =~= pre);
        assert(post.last() == s@[i as int]);
        let step = utf8_len(s[i]);
        if total <= usize::MAX - step {
            total = total + step;
        } else {
            total = usize::MAX;
        }
        i = i + 1;
    }
    assert(s@.subrange(0, s@.len() as int) =~= s@);
    total
}

} // verus!

verus! {

/// Character-wise equality of two string slices.
pub fn str_eq_str(a: &str, b: &str) -> (r: bool)
    ensures
        r == (a@ == b@),
{
    let na = a.unicode_len();
    let nb = b.unicode_len();
    if na != nb {
        assert(a@.len() != b@.len());
        return false;
    }
    let mut i: usize = 0;
    while i < na
        invariant
            i <= na,
            na == a@.len(),
            na == b@.len(),
            forall|j: int| 0 <= j < i ==> a@[j] == b@[j],
        decreases na - i,
    {
        if a.get_char(i) != b.get_char(i) {
            return false;
        }
        i = i + 1;
    }
    assert(a@ =~= b@);
    true
}

/// Whether `v` starts with the characters of `prefix`.
pub fn starts_with_str(v: &Vec<char>, prefix: &str) -> (r: bool)
    ensures
        r == (v@.len() >= prefix@.len() && v@.subrange(0, prefix@.len() as int) == prefix@),
{
    let n = prefix.unicode_len();
    if v.len() < n {
        return false;
    }
    let mut i: usize = 0;
    while i < n
        invariant
            i <= n,
            n == prefix@.len(),
            v@.len() >= n,
            forall|j: int| 0 <= j < i ==> v@[j] == prefix@[j],
        decreases n - i,
    {
        if v[i] != prefix.get_char(i) {
            assert(v@.subrange(0, prefix@.len() as int)[i as int] == v@[i as int]);
            return false;
        }
        i = i + 1;
    }
    assert(v@.subrange(0, prefix@.len() as int) =~= prefix@);
    true
}

/// Whether `v` ends with the characters of `suffix`.
pub fn ends_with_str(v: &Vec<char>, suffix: &str) -> (r: bool)
    ensures
        r == (v@.len() >= suffix@.len() && v@.subrange(
            v@.len() - suffix@.len(),
            v@.len() as int,
        ) == suffix@),
{
    let n = suffix.unicode_len();
    if v.len() < n {
        return false;
    }
    let vn = v.len();
    let base = vn - n;
    let mut i: usize = 0;
    while i < n
        invariant
            i <= n,
            n == suffix@.len(),
            vn == v@.len(),
            vn >= n,
            base == vn - n,
            forall|j: int| 0 <= j < i ==> v@[base + j] == suffix@[j],
        decreases n - i,
    {
        if v[base + i] != suffix.get_char(i) {
            assert(v@.subrange(v@.len() - suffix@.len(), v@.len() as int)[i as int] == v@[base
                + i]);
            return false;
        }
        i = i + 1;
    }
    assert(v@.subrange(v@.len() - suffix@.len(), v@.len() as int) =~= suffix@);
    true
}

/// The subrange of `v` from `from` (inclusive) to `to` (exclusive).
pub fn subrange_chars(v: &Vec<char>, from: usize, to: usize) -> (r: Vec<char>)
    requires
        from <= to <= v@.len(),
    ensures
        r@ == v@.subrange(from as int, to as int),
{
    let mut r: Vec<char> = Vec::new();
    let mut i: usize = from;
    while i < to
        invariant
            from <= i <= to <= v@.len(),
            r@ =~= v@.subrange(from as int, i as int),
        decreases to - i,
    {
        r.push(v[i]);
        assert(r@ =~= v@.subrange(from as int, (i + 1) as int));
        i = i + 1;
    }
    r
}

/// Parses an all-digit character sequence as a `u64`; `None` when the value
/// does not fit.
pub fn parse_u64_digits(s: &Vec<char>) -> (r: Option<u64>)
    requires
        spec_all_digits(s@),
        s@.len() > 0,
    ensures
        spec_digits_value(s@) <= u64::MAX ==> r == Some(spec_digits_value(s@) as u64),
        spec_digits_value(s@) > u64::MAX ==> r is None,
{
    let mut acc: u64 = 0;
    let mut over: bool = false;
    let mut i: usize = 0;
    while i < s.len()
        invariant
            i <= s@.len(),
            spec_all_digits(s@),
            !over ==> acc == spec_digits_value(s@.subrange(0, i as int)),
            over ==> spec_digits_value(s@.subrange(0, i as int)) > u64::MAX,
        decreases s@.len() - i,
    {
        let ghost pre = s@.subrange(0, i as int);
        let ghost post = s@.subrange(0, i + 1 as int);
        assert(post.drop_last() =~= pre);
        assert(post.last() == s@[i as int]);
        let c = s[i];
        let d: u64 = (c as u32) as u64 - ('0' as u32) as u64;
        assert(d < 10);
        assert(spec_digits_value(post) == spec_digits_value(pre) * 10 + (post.last() as nat
            - '0' as nat)) by {
            assert(post.last() as nat >= '0' as nat);
        }
        if over {
            proof {
                assert(spec_digits_value(pre) * 10 >= spec_digits_value(pre)) by (nonlinear_arith)
                    requires
                        spec_digits_value(pre) >= 0,
                ;
            }
        } else if acc > (u64::MAX - d) / 10 {
            proof {
                assert(acc * 10 + d > u64::MAX) by (nonlinear_arith)
                    requires
                        d < 10,
                        acc > (u64::MAX - d) / 10,
                ;
            }
            over = true;
        } else {
            proof {
                assert(acc * 10 + d <= u64::MAX) by (nonlinear_arith)
                    requires
                        d < 10,
                        acc <= (u64::MAX - d) / 10,
                ;
            }
            acc = acc * 10 + d;
        }
        i = i + 1;
    }
    assert(s@.subrange(0, s@.len() as int) =~= s@);
    if over {
        None
    } else {
        Some(acc)
    }
}

} // verus!

verus! {

/// Splitting never yields an empty list: there is one more segment than
/// there are separators.
pub broadcast proof fn lemma_split_len_pos(s: Seq<char>, sep: char)
    ensures
        (#[trigger] spec_split(s, sep)).len() >= 1,
    decreases s.len(),
{
    if s.len() > 0 {
        lemma_split_len_pos(s.drop_last(), sep);
    }
}

} // verus!

verus! {

/// A sequence's UTF-8 length grows by one character's length per push.
pub broadcast proof fn lemma_utf8_len_push(s: Seq<char>, c: char)
    ensures
        #[trigger] spec_utf8_len_seq(s.push(c)) == spec_utf8_len_seq(s) + spec_utf8_len(c),
{
    assert(s.push(c).drop_last() =~= s);
}

/// UTF-8 length distributes over concatenation.
pub broadcast proof fn lemma_utf8_len_concat(a: Seq<char>, b: Seq<char>)
    ensures
        #[trigger] spec_utf8_len_seq(a + b) == spec_utf8_len_seq(a) + spec_utf8_len_seq(b),
    decreases b.len(),
{
    if b.len() == 0 {
        assert(a + b =~= a);
    } else {
        lemma_utf8_len_concat(a, b.drop_last());
        assert((a + b).drop_last() =~= a + b.drop_last());
    }
}

/// Every character takes between one and four bytes.
pub broadcast proof fn lemma_utf8_len_bounds(s: Seq<char>)
    ensures
        s.len() <= #[trigger] spec_utf8_len_seq(s) <= 4 * s.len(),
    decreases s.len(),
{
    if s.len() > 0 {
        lemma_utf8_len_bounds(s.drop_last());
    }
}

} // verus!

verus! {

/// Ten to the `k`.
pub open spec fn pow10(k: nat) -> nat
    decreases k,
{
    if k == 0 {
        1
    } else {
        10 * pow10((k - 1) as nat)
    }
}

proof fn lemma_decimal_len_pow(n: nat, k: nat)
    requires
        k >= 1,
        n < pow10(k),
    ensures
        spec_decimal(n).len() <= k,
    decreases n,
{
    reveal_with_fuel(pow10, 3);
    if n < 10 {
    } else {
        assert(pow10(1) == 10);
        if k == 1 {
            assert(false);
        }
        assert(pow10(k) == 10 * pow10((k - 1) as nat));
        assert(n / 10 < pow10((k - 1) as nat)) by (nonlinear_arith)
            requires
                n < 10 * pow10((k - 1) as nat),
                n >= 10,
        ;
        lemma_decimal_len_pow(n / 10, (k - 1) as nat);
    }
}

/// A 64-bit number has at most twenty decimal digits.
pub proof fn lemma_decimal_len_u64(n: nat)
    requires
        n <= u64::MAX,
    ensures
        spec_decimal(n).len() <= 20,
{
    reveal_with_fuel(pow10, 21);
    assert(pow10(20) > u64::MAX);
    lemma_decimal_len_pow(n, 20);
}

} // verus!

verus! {

/// Every character of a decimal representation is a digit.
pub proof fn lemma_decimal_all_digits(n: nat)
    ensures
        spec_all_digits(spec_decimal(n)),
    decreases n,
{
    if n < 10 {
    } else {
        lemma_decimal_all_digits(n / 10);
        let prev = spec_decimal(n / 10);
        let whole = spec_decimal(n);
        assert(whole == prev.push(spec_digit_char(n % 10)));
        assert forall|i: int| 0 <= i < whole.len() implies '0' <= #[trigger] whole[i] && whole[i]
            <= '9' by {
            if i < prev.len() {
                assert(whole[i] == prev[i]);
            }
        }
    }
}

proof fn lemma_digit_char_value(d: nat)
    requires
        d < 10,
    ensures
        spec_digit_char(d) as nat == '0' as nat + d,
{
    assert('0' as u32 == 48);
    assert('1' as u32 == 49);
    assert('2' as u32 == 50);
    assert('3' as u32 == 51);
    assert('4' as u32 == 52);
    assert('5' as u32 == 53);
    assert('6' as u32 == 54);
    assert('7' as u32 == 55);
    assert('8' as u32 == 56);
    assert('9' as u32 == 57);
}

/// Reading a decimal representation back gives the number itself.
pub proof fn lemma_decimal_value(n: nat)
    ensures
        spec_digits_value(spec_decimal(n)) == n,
    decreases n,
{
    if n < 10 {
        lemma_digit_char_value(n);
        assert(spec_decimal(n) == seq![spec_digit_char(n)]);
        assert(seq![spec_digit_char(n)].drop_last() =~= Seq::<char>::empty());
        assert(spec_digits_value(Seq::<char>::empty()) == 0);
        assert(spec_digits_value(seq![spec_digit_char(n)]) == n);
    } else {
        lemma_decimal_value(n / 10);
        lemma_digit_char_value(n % 10);
        let prev = spec_decimal(n / 10);
        assert(spec_decimal(n).drop_last() =~= prev);
        assert(spec_decimal(n).last() == spec_digit_char(n % 10));
    }
}

/// Distinct numbers have distinct decimal representations.
pub proof fn lemma_decimal_injective(a: nat, b: nat)
    requires
        a != b,
    ensures
        spec_decimal(a) != spec_decimal(b),
{
    lemma_decimal_value(a);
    lemma_decimal_value(b);
}

} // verus!

verus! {

/// `s` with trailing whitespace removed.
pub open spec fn spec_trim_end(s: Seq<char>) -> Seq<char>
    decreases s.len(),
{
    if s.len() > 0 && is_unicode_whitespace(s.last()) {
        spec_trim_end(s.drop_last())
    } else {
        s
    }
}

/// Removes trailing whitespace characters.
pub fn trim_end_chars(s: &Vec<char>) -> (r: Vec<char>)
    ensures
        r@ == spec_trim_end(s@),
{
    let mut end: usize = s.len();
    assert(s@.subrange(0, s@.len() as int) =~= s@);
    while end > 0
        invariant_except_break
            end <= s@.len(),
            spec_trim_end(s@) == spec_trim_end(s@.subrange(0, end as int)),
        ensures
            end <= s@.len(),
            spec_trim_end(s@) == spec_trim_end(s@.subrange(0, end as int)),
            end > 0 ==> !is_unicode_whitespace(s@[end - 1]),
        decreases end,
    {
        if char_is_whitespace(s[end - 1]) {
            assert(s@.subrange(0, end as int).drop_last() =~= s@.subrange(0, end - 1 as int));
            end = end - 1;
        } else {
            break;
        }
    }
    let r = subrange_chars(s, 0, end);
    assert(spec_trim_end(r@) == r@);
    r
}

} // verus!

verus! {

/// Lexicographic order on character sequences, by code point, shorter
/// prefix first.
pub open spec fn spec_lex_le(a: Seq<char>, b: Seq<char>) -> bool
    decreases a.len(),
{
    if a.len() == 0 {
        true
    } else if b.len() == 0 {
        false
    } else if (a.first() as u32) < (b.first() as u32) {
        true
    } else if (a.first() as u32) > (b.first() as u32) {
        false
    } else {
        spec_lex_le(a.drop_first(), b.drop_first())
    }
}

/// The order is total: two sequences compare one way or the other.
pub proof fn lemma_lex_total(a: Seq<char>, b: Seq<char>)
    ensures
        spec_lex_le(a, b) || spec_lex_le(b, a),
    decreases a.len(),
{
    if a.len() > 0 && b.len() > 0 && (a.first() as u32) == (b.first() as u32) {
        lemma_lex_total(a.drop_first(), b.drop_first());
    }
}

/// Compares two strings lexicographically by character.
pub fn str_lex_le(a: &str, b: &str) -> (r: bool)
    ensures
        r == spec_lex_le(a@, b@),
{
    let na = a.unicode_len();
    let nb = b.unicode_len();
    let mut i: usize = 0;
    assert(a@.skip(0) =~= a@);
    assert(b@.skip(0) =~= b@);
    while i < na && i < nb
        invariant
            i <= na,
            i <= nb,
            na == a@.len(),
            nb == b@.len(),
            spec_lex_le(a@, b@) == spec_lex_le(a@.skip(i as int), b@.skip(i as int)),
        decreases na - i,
    {
        let ca = a.get_char(i);
        let cb = b.get_char(i);
        assert(a@.skip(i as int).first() == a@[i as int]);
        assert(b@.skip(i as int).first() == b@[i as int]);
        if (ca as u32) < (cb as u32) {
            assert(spec_lex_le(a@.skip(i as int), b@.skip(i as int)));
            return true;
        }
        if (ca as u32) > (cb as u32) {
            assert(!spec_lex_le(a@.skip(i as int), b@.skip(i as int)));
            return false;
        }
        assert(a@.skip(i as int).drop_first() =~= a@.skip(i + 1 as int));
        assert(b@.skip(i as int).drop_first() =~= b@.skip(i + 1 as int));
        i = i + 1;
    }
    if i >= na {
        assert(a@.skip(i as int).len() == 0);
        assert(spec_lex_le(a@.skip(i as int), b@.skip(i as int)));
        true
    } else {
        assert(b@.skip(i as int).len() == 0);
        assert(a@.skip(i as int).len() > 0);
        assert(!spec_lex_le(a@.skip(i as int), b@.skip(i as int)));
        false
    }
}

} // verus!
