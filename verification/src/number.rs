//! Reading decimal numbers, alone and in pairs around a separator.

use vstd::prelude::*;
use crate::text::{decimal, digit_char};

verus! {

/// Whether `c` is one of the ten decimal digits.
pub open spec fn is_digit(c: char) -> bool {
    '0' <= c && c <= '9'
}

/// The number that the digit `c` stands for.
pub open spec fn digit_value(c: char) -> nat
    recommends
        is_digit(c),
{
    (c as u32 - '0' as u32) as nat
}

/// Whether `s` holds decimal digits and nothing else.
pub open spec fn all_digits(s: Seq<char>) -> bool {
    forall|i: int| 0 <= i < s.len() ==> is_digit(#[trigger] s[i])
}

/// The number that the digits of `s` write, read from the left.
pub open spec fn digits_value(s: Seq<char>) -> nat
    recommends
        all_digits(s),
    decreases s.len(),
{
    if s.len() == 0 {
        0
    } else {
        digits_value(s.drop_last()) * 10 + digit_value(s.last())
    }
}

/// `s` without the plus sign that it may begin with.
pub open spec fn unsigned_part(s: Seq<char>) -> Seq<char> {
    if s.len() > 0 && s[0] == '+' {
        s.skip(1)
    } else {
        s
    }
}

/// The number that `s` writes: an optional plus sign, then at least one
/// decimal digit and nothing but digits, with a value that fits 32 bits.
/// Every other text writes no number.
pub open spec fn parsed_u32(s: Seq<char>) -> Option<u32> {
    let digits = unsigned_part(s);
    if digits.len() > 0 && all_digits(digits) && digits_value(digits) <= u32::MAX {
        Some(digits_value(digits) as u32)
    } else {
        None
    }
}

/// `s` without the minus sign that it may begin with.
pub open spec fn magnitude_part(s: Seq<char>) -> Seq<char> {
    if s.len() > 0 && s[0] == '-' {
        s.skip(1)
    } else {
        s
    }
}

/// Whether `body` is a decimal number without sign whose first `k`
/// characters are the digits before the point: at least one digit, and
/// then either nothing, or a point and at least one digit more.
pub open spec fn is_decimal_with(body: Seq<char>, k: int) -> bool {
    &&& 0 < k <= body.len()
    &&& all_digits(body.take(k))
    &&& k < body.len() ==> body[k] == '.' && k + 1 < body.len() && all_digits(body.skip(k + 1))
}

/// Whether `s` writes a decimal number: an optional minus sign, at least
/// one digit, and then either nothing, or a point and at least one digit
/// more. No other character occurs in such a text.
pub open spec fn is_decimal_token(s: Seq<char>) -> bool {
    exists|k: int| is_decimal_with(magnitude_part(s), k)
}

/// Whether `sep` stands at `i` in `s` and nowhere else, with a number on
/// each side.
pub open spec fn splits_at(s: Seq<char>, sep: char, i: int) -> bool {
    &&& 0 <= i < s.len()
    &&& s[i] == sep
    &&& !s.take(i).contains(sep)
    &&& !s.skip(i + 1).contains(sep)
    &&& parsed_u32(s.take(i)) is Some
    &&& parsed_u32(s.skip(i + 1)) is Some
}

/// The two numbers that `s` writes with one `sep` between them; `None`
/// where `s` is not of this form.
pub open spec fn parsed_pair(s: Seq<char>, sep: char) -> Option<(u32, u32)> {
    if exists|i: int| splits_at(s, sep, i) {
        let i = choose|i: int| splits_at(s, sep, i);
        Some((parsed_u32(s.take(i))->0, parsed_u32(s.skip(i + 1))->0))
    } else {
        None
    }
}

/// A decimal number is written with digits, a point and a minus sign
/// alone: it holds no blank, no comma, no quote and no bracket.
pub proof fn lemma_decimal_token_chars(s: Seq<char>)
    requires
        is_decimal_token(s),
    ensures
        forall|i: int|
            0 <= i < s.len() ==> is_digit(#[trigger] s[i]) || s[i] == '.' || s[i] == '-',
{
    let body = magnitude_part(s);
    let k = choose|k: int| is_decimal_with(body, k);
    assert forall|i: int| 0 <= i < s.len() implies is_digit(#[trigger] s[i]) || s[i] == '.'
        || s[i] == '-' by {
        let at = i - (s.len() - body.len());
        if at >= 0 {
            assert(body[at] == s[i]);
            if at < k {
                assert(body.take(k)[at] == body[at]);
            } else if at > k {
                assert(body.skip(k + 1)[at - k - 1] == body[at]);
            }
        }
    }
}

/// The decimal notation of a number holds digits alone, and they write
/// that number: what is written in decimal is read back as it was.
pub proof fn lemma_decimal_reads_back(n: nat)
    ensures
        decimal(n).len() > 0,
        all_digits(decimal(n)),
        digits_value(decimal(n)) == n,
        n <= u32::MAX ==> parsed_u32(decimal(n)) == Some(n as u32),
    decreases n,
{
    let d = digit_char(n % 10);
    assert(is_digit(d) && digit_value(d) == n % 10);
    if n < 10 {
        assert(decimal(n).drop_last() =~= Seq::<char>::empty());
        assert(digits_value(decimal(n).drop_last()) == 0);
    } else {
        lemma_decimal_reads_back(n / 10);
        assert(decimal(n).drop_last() =~= decimal(n / 10));
    }
    assert(decimal(n)[0] != '+') by {
        assert(is_digit(decimal(n)[0]));
    }
}

/// More digits never write a smaller number.
pub proof fn lemma_digits_value_grows(s: Seq<char>, n: int)
    requires
        0 <= n <= s.len(),
    ensures
        digits_value(s.take(n)) <= digits_value(s),
    decreases s.len() - n,
{
    if n < s.len() {
        let longer = s.take(n + 1);
        assert(longer.drop_last() =~= s.take(n));
        lemma_digits_value_grows(s, n + 1);
    } else {
        assert(s.take(n) =~= s);
    }
}

/// A text splits into two numbers in one place at most.
pub proof fn lemma_split_is_unique(s: Seq<char>, sep: char, i: int, j: int)
    requires
        splits_at(s, sep, i),
        splits_at(s, sep, j),
    ensures
        i == j,
{
    if i < j {
        assert(s.take(j)[i] == sep);
    } else if j < i {
        assert(s.take(i)[j] == sep);
    }
}

/// The characters of `s`.
pub fn chars_of(s: &str) -> (out: Vec<char>)
    ensures
        out@ == s@,
{
    let mut out: Vec<char> = Vec::new();
    for c in it: s.chars()
        invariant
            it.seq() == s@,
            out@ == s@.take(it.index()),
    {
        out.push(c);
        assert(out@ =~= s@.take(it.index() + 1));
    }
    assert(s@.take(s@.len() as int) =~= s@);
    out
}

/// Reads the number that the characters from `from` up to `to` write.
pub fn parse_u32_in(text: &Vec<char>, from: usize, to: usize) -> (out: Option<u32>)
    requires
        from <= to <= text.len(),
    ensures
        out == parsed_u32(text@.subrange(from as int, to as int)),
{
    let ghost s = text@.subrange(from as int, to as int);
    let mut i: usize = from;
    if i < to && text[i] == '+' {
        i += 1;
    }
    let ghost digits = unsigned_part(s);
    let start = i;
    assert(digits =~= text@.subrange(start as int, to as int));
    if i == to {
        return None;
    }
    let mut value: u32 = 0;
    while i < to
        invariant
            from <= start <= i <= to <= text.len(),
            s == text@.subrange(from as int, to as int),
            digits == unsigned_part(s),
            digits == text@.subrange(start as int, to as int),
            digits.len() > 0,
            all_digits(digits.take(i - start)),
            value == digits_value(digits.take(i - start)),
        decreases to - i,
    {
        let c = text[i];
        let ghost seen = digits.take(i - start);
        let ghost next = digits.take(i - start + 1);
        assert(next.drop_last() =~= seen);
        assert(next.last() == c);
        if !('0' <= c && c <= '9') {
            assert(!is_digit(digits[i - start]));
            return None;
        }
        let d: u32 = c as u32 - '0' as u32;
        if value > (u32::MAX - d) / 10 {
            proof {
                assert(digits_value(next) == value * 10 + d);
                lemma_digits_value_grows(digits, i - start + 1);
            }
            return None;
        }
        value = value * 10 + d;
        i += 1;
    }
    assert(digits.take(to - start) =~= digits);
    Some(value)
}

/// Whether `s` writes a decimal number.
pub fn is_decimal(s: &str) -> (out: bool)
    ensures
        out == is_decimal_token(s@),
{
    let text = chars_of(s);
    let n = text.len();
    let first: usize = if n > 0 && text[0] == '-' {
        1
    } else {
        0
    };
    let ghost body = magnitude_part(s@);
    assert(body =~= text@.subrange(first as int, n as int));
    let mut i: usize = first;
    while i < n && '0' <= text[i] && text[i] <= '9'
        invariant
            first <= i <= n,
            n == text.len(),
            body == text@.subrange(first as int, n as int),
            all_digits(body.take(i - first)),
        decreases n - i,
    {
        i += 1;
    }
    let ghost k = (i - first) as int;
    assert forall|other: int| is_decimal_with(body, other) implies other == k by {
        if other < k {
            assert(body.take(k)[other] == body[other]);
        } else if other > k {
            assert(body.take(other)[k] == body[k]);
        }
    }
    if i == first {
        return false;
    }
    if i == n {
        assert(is_decimal_with(body, k));
        return true;
    }
    if text[i] != '.' || i + 1 == n {
        return false;
    }
    let mut j: usize = i + 1;
    while j < n && '0' <= text[j] && text[j] <= '9'
        invariant
            first < i < j <= n,
            n == text.len(),
            body == text@.subrange(first as int, n as int),
            forall|m: int| i < m < j ==> is_digit(text@[m]),
        decreases n - j,
    {
        j += 1;
    }
    if j == n {
        assert(all_digits(body.skip(k + 1))) by {
            assert forall|m: int| 0 <= m < body.skip(k + 1).len() implies is_digit(
                #[trigger] body.skip(k + 1)[m],
            ) by {
                assert(body.skip(k + 1)[m] == text@[i + 1 + m]);
            }
        }
        assert(is_decimal_with(body, k));
        true
    } else {
        assert(!is_digit(body.skip(k + 1)[j - i - 1]));
        false
    }
}

/// Reads the number that `s` writes.
pub fn parse_u32(s: &str) -> (out: Option<u32>)
    ensures
        out == parsed_u32(s@),
{
    let text = chars_of(s);
    assert(text@.subrange(0, text@.len() as int) =~= text@);
    parse_u32_in(&text, 0, text.len())
}

/// Reads the two numbers that `s` writes with one `sep` between them.
pub fn parse_pair(s: &str, sep: char) -> (out: Option<(u32, u32)>)
    ensures
        out == parsed_pair(s@, sep),
{
    let text = chars_of(s);
    let n = text.len();
    let mut at: usize = 0;
    while at < n && text[at] != sep
        invariant
            at <= n,
            n == text.len(),
            forall|k: int| 0 <= k < at ==> text@[k] != sep,
        decreases n - at,
    {
        at += 1;
    }
    if at == n {
        assert forall|i: int| !splits_at(s@, sep, i) by {}
        return None;
    }
    let mut next: usize = at + 1;
    while next < n && text[next] != sep
        invariant
            at < next <= n,
            n == text.len(),
            forall|k: int| at < k < next ==> text@[k] != sep,
        decreases n - next,
    {
        next += 1;
    }
    assert forall|i: int| i != at implies !splits_at(s@, sep, i) by {
        if splits_at(s@, sep, i) {
            if i > at {
                assert(s@.take(i)[at as int] == sep);
            }
        }
    }
    if next < n {
        assert(s@.skip(at + 1)[next - at - 1] == sep);
        return None;
    }
    assert(text@.subrange(0, at as int) =~= s@.take(at as int));
    assert(text@.subrange(at + 1, n as int) =~= s@.skip(at + 1));
    let first = parse_u32_in(&text, 0, at);
    let second = parse_u32_in(&text, at + 1, n);
    match (first, second) {
        (Some(a), Some(b)) => {
            proof {
                assert(!s@.take(at as int).contains(sep));
                assert(!s@.skip(at + 1).contains(sep)) by {
                    let tail = s@.skip(at + 1);
                    if tail.contains(sep) {
                        let k = choose|k: int| 0 <= k < tail.len() && tail[k] == sep;
                        assert(text@[at + 1 + k] == sep);
                    }
                }
                assert(splits_at(s@, sep, at as int));
                let i = choose|i: int| splits_at(s@, sep, i);
                lemma_split_is_unique(s@, sep, i, at as int);
            }
            Some((a, b))
        },
        _ => None,
    }
}

} // verus!
