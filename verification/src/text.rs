//! Building text: appending characters, decimal numbers, joining pieces.

use vstd::prelude::*;

verus! {

/// `String::push` appends the character to the end of the string.
pub assume_specification[ String::push ](s: &mut String, c: char)
    ensures
        final(s)@ == old(s)@.push(c),
;

/// The character that writes the decimal digit `d`.
pub open spec fn digit_char(d: nat) -> char
    recommends
        d < 10,
{
    if d == 0 {
        '0'
    } else if d == 1 {
        '1'
    } else if d == 2 {
        '2'
    } else if d == 3 {
        '3'
    } else if d == 4 {
        '4'
    } else if d == 5 {
        '5'
    } else if d == 6 {
        '6'
    } else if d == 7 {
        '7'
    } else if d == 8 {
        '8'
    } else {
        '9'
    }
}

/// The decimal notation of `n`, without sign and without leading zeros.
pub open spec fn decimal(n: nat) -> Seq<char>
    decreases n,
{
    if n < 10 {
        seq![digit_char(n)]
    } else {
        decimal(n / 10).push(digit_char(n % 10))
    }
}

/// The decimal notation of `n`, with a minus sign before it where `n` is
/// negative.
pub open spec fn signed_decimal(n: int) -> Seq<char> {
    if n < 0 {
        seq!['-'] + decimal((-n) as nat)
    } else {
        decimal(n as nat)
    }
}

/// The pieces written one after another, with `sep` between neighbours.
pub open spec fn joined(pieces: Seq<Seq<char>>, sep: Seq<char>) -> Seq<char>
    decreases pieces.len(),
{
    if pieces.len() == 0 {
        Seq::empty()
    } else if pieces.len() == 1 {
        pieces[0]
    } else {
        joined(pieces.drop_last(), sep) + sep + pieces.last()
    }
}

/// Where piece `k` begins in `joined(pieces, sep)`.
pub open spec fn piece_start(pieces: Seq<Seq<char>>, sep: Seq<char>, k: int) -> int {
    if k <= 0 {
        0
    } else {
        (joined(pieces.take(k), sep).len() + sep.len()) as int
    }
}

/// The joined text begins with what its first `k` pieces join to.
pub proof fn lemma_joined_prefix(pieces: Seq<Seq<char>>, sep: Seq<char>, k: int)
    requires
        0 <= k <= pieces.len(),
    ensures
        joined(pieces.take(k), sep).len() <= joined(pieces, sep).len(),
        joined(pieces, sep).take(joined(pieces.take(k), sep).len() as int) == joined(
            pieces.take(k),
            sep,
        ),
    decreases pieces.len(),
{
    let whole = joined(pieces, sep);
    if k == pieces.len() {
        assert(pieces.take(k) =~= pieces);
        assert(whole.take(whole.len() as int) =~= whole);
    } else if k == 0 {
        assert(pieces.take(0) =~= Seq::<Seq<char>>::empty());
        assert(whole.take(0) =~= Seq::<char>::empty());
    } else {
        let shorter = pieces.drop_last();
        assert(shorter.take(k) =~= pieces.take(k));
        lemma_joined_prefix(shorter, sep, k);
        let part = joined(pieces.take(k), sep);
        assert(whole == joined(shorter, sep) + sep + pieces.last());
        assert(whole.take(part.len() as int) =~= joined(shorter, sep).take(part.len() as int));
    }
}

/// Piece `k` stands in the joined text, whole and unchanged, at
/// [`piece_start`], and every later piece begins behind its end.
pub proof fn lemma_joined_piece(pieces: Seq<Seq<char>>, sep: Seq<char>, k: int)
    requires
        0 <= k < pieces.len(),
    ensures
        0 <= piece_start(pieces, sep, k),
        piece_start(pieces, sep, k) + pieces[k].len() <= joined(pieces, sep).len(),
        joined(pieces, sep).subrange(
            piece_start(pieces, sep, k),
            piece_start(pieces, sep, k) + pieces[k].len(),
        ) == pieces[k],
        forall|m: int|
            k < m < pieces.len() ==> piece_start(pieces, sep, k) + pieces[k].len()
                <= #[trigger] piece_start(pieces, sep, m),
{
    let upto = pieces.take(k + 1);
    let start = piece_start(pieces, sep, k);
    assert(upto.drop_last() =~= pieces.take(k));
    assert(upto.last() == pieces[k]);
    assert(joined(upto, sep).len() == start + pieces[k].len()) by {
        if k == 0 {
            assert(upto.len() == 1);
        } else {
            assert(upto.len() > 1);
        }
    }
    assert(joined(upto, sep).subrange(start, start + pieces[k].len()) =~= pieces[k]);
    lemma_joined_prefix(pieces, sep, k + 1);
    let whole = joined(pieces, sep);
    assert(whole.subrange(start, start + pieces[k].len()) =~= whole.take(
        joined(upto, sep).len() as int,
    ).subrange(start, start + pieces[k].len()));
    assert forall|m: int| k < m < pieces.len() implies start + pieces[k].len()
        <= #[trigger] piece_start(pieces, sep, m) by {
        assert(pieces.take(m).take(k + 1) =~= upto);
        lemma_joined_prefix(pieces.take(m), sep, k + 1);
    }
}

/// The views of the strings of `v`, in order.
pub open spec fn texts(v: Seq<String>) -> Seq<Seq<char>> {
    v.map_values(|s: String| s@)
}

fn digit(d: u64) -> (c: char)
    requires
        d < 10,
    ensures
        c == digit_char(d as nat),
{
    if d == 0 {
        '0'
    } else if d == 1 {
        '1'
    } else if d == 2 {
        '2'
    } else if d == 3 {
        '3'
    } else if d == 4 {
        '4'
    } else if d == 5 {
        '5'
    } else if d == 6 {
        '6'
    } else if d == 7 {
        '7'
    } else if d == 8 {
        '8'
    } else {
        '9'
    }
}

/// Writes `n` in decimal behind what `out` holds.
fn push_decimal(out: &mut String, n: u64)
    ensures
        final(out)@ == old(out)@ + decimal(n as nat),
    decreases n,
{
    if n < 10 {
        out.push(digit(n));
        assert(out@ =~= old(out)@ + seq![digit_char(n as nat)]);
    } else {
        push_decimal(out, n / 10);
        out.push(digit(n % 10));
        assert(out@ =~= old(out)@ + decimal((n / 10) as nat).push(digit_char((n % 10) as nat)));
    }
}

/// Writes `n` in decimal.
pub fn fmt_int(n: u32) -> (out: String)
    ensures
        out@ == decimal(n as nat),
{
    let mut out = String::new();
    push_decimal(&mut out, n as u64);
    assert(out@ =~= decimal(n as nat));
    out
}

/// Writes `n` in decimal, with a minus sign where it is negative.
pub fn fmt_signed(n: i64) -> (out: String)
    ensures
        out@ == signed_decimal(n as int),
{
    let mut out = String::new();
    if n < 0 {
        out.push('-');
        let magnitude: u64 = (-(n + 1)) as u64 + 1;
        push_decimal(&mut out, magnitude);
    } else {
        push_decimal(&mut out, n as u64);
        assert(out@ =~= decimal(n as nat));
    }
    out
}

/// Whether two texts hold the same characters.
pub fn same_text(a: &str, b: &str) -> (same: bool)
    ensures
        same == (a@ == b@),
{
    String::from_str(a) == String::from_str(b)
}

/// Writes the strings of `pieces` one after another, with `sep` between
/// neighbours.
pub fn join(pieces: &Vec<String>, sep: &str) -> (out: String)
    ensures
        out@ == joined(texts(pieces@), sep@),
{
    let mut out = String::new();
    let mut i: usize = 0;
    while i < pieces.len()
        invariant
            i <= pieces.len(),
            out@ == joined(texts(pieces@).take(i as int), sep@),
        decreases pieces.len() - i,
    {
        let ghost before = texts(pieces@).take(i as int);
        let ghost after = texts(pieces@).take(i + 1);
        assert(after.drop_last() =~= before);
        assert(after.last() == pieces@[i as int]@);
        if i > 0 {
            out.append(sep);
        } else {
            assert(before =~= Seq::<Seq<char>>::empty());
        }
        out.append(pieces[i].as_str());
        assert(out@ =~= joined(after, sep@));
        i += 1;
    }
    assert(texts(pieces@).take(i as int) =~= texts(pieces@));
    out
}

} // verus!
