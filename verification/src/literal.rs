//! String literals of the generated source: how they are written, how the
//! compiler reads them, and why reading gives back what was written.

use vstd::prelude::*;

verus! {

/// How one character of a string is written inside a literal: a backslash
/// goes before a double quote and before a backslash, every other character
/// stands for itself.
pub open spec fn escaped_char(c: char) -> Seq<char> {
    if c == '"' || c == '\\' {
        seq!['\\', c]
    } else {
        seq![c]
    }
}

/// The characters of `s`, each written as [`escaped_char`] says.
pub open spec fn escaped(s: Seq<char>) -> Seq<char>
    decreases s.len(),
{
    if s.len() == 0 {
        Seq::empty()
    } else {
        escaped_char(s.first()) + escaped(s.drop_first())
    }
}

/// The literal that denotes `s`: its escaped characters between two double
/// quotes.
pub open spec fn quoted(s: Seq<char>) -> Seq<char> {
    seq!['"'] + escaped(s) + seq!['"']
}

/// The position of the double quote that closes a literal, for a reader that
/// stands at `from` inside it: the first double quote at or after `from`
/// that no backslash escapes. `pending` says that the character before
/// `from` was a backslash that escapes the one at `from`.
pub open spec fn closing_quote(text: Seq<char>, from: int, pending: bool) -> Option<int>
    decreases text.len() - from,
{
    if from < 0 || from >= text.len() {
        None
    } else if text[from] == '"' && !pending {
        Some(from)
    } else {
        closing_quote(text, from + 1, text[from] == '\\' && !pending)
    }
}

/// The string that the inside of a literal denotes. A backslash gives, with
/// the character after it, a backslash, a double quote, a line feed, a
/// carriage return or a tab; before any other character it stands for
/// itself. The escape that names a code point in braces is outside this
/// reader: on it the result is `None`.
pub open spec fn unescaped(body: Seq<char>) -> Option<Seq<char>>
    decreases body.len(),
{
    if body.len() == 0 {
        Some(Seq::empty())
    } else if body[0] != '\\' {
        prepend(seq![body[0]], unescaped(body.skip(1)))
    } else if body.len() == 1 {
        Some(seq!['\\'])
    } else if body[1] == 'u' && body.len() > 2 && body[2] == '{' {
        None
    } else {
        prepend(escape_value(body[1]), unescaped(body.skip(2)))
    }
}

/// What a backslash and the character `c` after it denote together.
pub open spec fn escape_value(c: char) -> Seq<char> {
    if c == '\\' || c == '"' {
        seq![c]
    } else if c == 'n' {
        seq!['\n']
    } else if c == 'r' {
        seq!['\r']
    } else if c == 't' {
        seq!['\t']
    } else {
        seq!['\\', c]
    }
}

/// `head` before the rest, where the rest could be read.
pub open spec fn prepend(head: Seq<char>, rest: Option<Seq<char>>) -> Option<Seq<char>> {
    match rest {
        Some(rest) => Some(head + rest),
        None => None,
    }
}

/// Reads the literal that `text` begins with: the string it denotes, and
/// the number of characters it takes up, both quotes included. `None` where
/// `text` does not begin with a double quote, where no unescaped double
/// quote follows, or where [`unescaped`] cannot read the inside.
pub open spec fn read_literal(text: Seq<char>) -> Option<(Seq<char>, int)> {
    if text.len() == 0 || text[0] != '"' {
        None
    } else {
        match closing_quote(text, 1, false) {
            Some(end) => match unescaped(text.subrange(1, end)) {
                Some(value) => Some((value, end + 1)),
                None => None,
            },
            None => None,
        }
    }
}

/// Escaping goes through a concatenation piece by piece.
pub proof fn lemma_escaped_concat(a: Seq<char>, b: Seq<char>)
    ensures
        escaped(a + b) == escaped(a) + escaped(b),
    decreases a.len(),
{
    if a.len() == 0 {
        assert(a + b =~= b);
        assert(escaped(a) + escaped(b) =~= escaped(b));
    } else {
        assert((a + b).first() == a.first());
        assert((a + b).drop_first() =~= a.drop_first() + b);
        lemma_escaped_concat(a.drop_first(), b);
        assert(escaped(a + b) =~= escaped(a) + escaped(b));
    }
}

/// One more character at the end of a string adds its escaped form at the
/// end of the escaped string.
pub proof fn lemma_escaped_push(s: Seq<char>, c: char)
    ensures
        escaped(s.push(c)) == escaped(s) + escaped_char(c),
{
    assert(s.push(c) =~= s + seq![c]);
    lemma_escaped_concat(s, seq![c]);
    assert(seq![c].first() == c);
    assert(escaped(seq![c].drop_first()) =~= Seq::<char>::empty());
    assert(escaped(seq![c]) =~= escaped_char(c));
}

/// A reader that meets the escaped form of `s` at `from`, with a double
/// quote right after it, finds the closing quote exactly there: nothing in
/// `s` ends the literal early.
pub proof fn lemma_closing_quote(text: Seq<char>, from: int, s: Seq<char>)
    requires
        0 <= from,
        from + escaped(s).len() < text.len(),
        text.subrange(from, from + escaped(s).len()) == escaped(s),
        text[from + escaped(s).len()] == '"',
    ensures
        closing_quote(text, from, false) == Some(from + escaped(s).len()),
    decreases s.len(),
{
    if s.len() > 0 {
        let c = s.first();
        let rest = s.drop_first();
        let head = escaped_char(c);
        let here = text.subrange(from, from + escaped(s).len());
        assert(escaped(s) == head + escaped(rest));
        assert forall|i: int| 0 <= i < head.len() implies text[from + i] == head[i] by {
            assert(here[i] == text[from + i]);
        }
        let next = from + head.len();
        assert(text.subrange(next, next + escaped(rest).len()) =~= escaped(rest)) by {
            assert forall|i: int| 0 <= i < escaped(rest).len() implies text[next + i]
                == escaped(rest)[i] by {
                assert(here[head.len() + i] == text[from + head.len() + i]);
            }
        }
        lemma_closing_quote(text, next, rest);
        if c == '"' || c == '\\' {
            assert(text[from] == head[0]);
            assert(text[from + 1] == head[1]);
            assert(closing_quote(text, from, false) == closing_quote(text, from + 1, true));
            assert(closing_quote(text, from + 1, true) == closing_quote(text, from + 2, false));
        } else {
            assert(text[from] == head[0]);
        }
    }
}

/// Reading the escaped form of `s` gives `s`.
pub proof fn lemma_unescaped_escaped(s: Seq<char>)
    ensures
        unescaped(escaped(s)) == Some(s),
    decreases s.len(),
{
    if s.len() > 0 {
        let c = s.first();
        let rest = s.drop_first();
        let body = escaped(s);
        lemma_unescaped_escaped(rest);
        if c == '"' || c == '\\' {
            assert(body.skip(2) =~= escaped(rest));
            assert(escape_value(c) + rest =~= s);
        } else {
            assert(body.skip(1) =~= escaped(rest));
            assert(seq![c] + rest =~= s);
        }
    }
}

/// Whatever characters a string holds, and whatever text follows its
/// literal, reading the literal back gives exactly that string and stops
/// exactly behind the literal's own closing quote.
pub proof fn lemma_literal_round_trip(s: Seq<char>, rest: Seq<char>)
    ensures
        read_literal(quoted(s) + rest) == Some((s, quoted(s).len() as int)),
{
    let text = quoted(s) + rest;
    let end: int = 1 + escaped(s).len() as int;
    assert(text[0] == '"');
    assert(text[end] == '"');
    assert(text.subrange(1, end) =~= escaped(s));
    lemma_closing_quote(text, 1, s);
    lemma_unescaped_escaped(s);
}

/// Writes `s` as a string literal.
pub fn fmt_str(s: &str) -> (out: String)
    ensures
        out@ == quoted(s@),
{
    let mut out = String::new();
    out.push('"');
    for c in it: s.chars()
        invariant
            it.seq() == s@,
            out@ == seq!['"'] + escaped(s@.take(it.index() as int)),
    {
        proof {
            let done = s@.take(it.index() as int);
            assert(s@.take(it.index() + 1) =~= done.push(c));
            lemma_escaped_push(done, c);
        }
        if c == '"' || c == '\\' {
            out.push('\\');
        }
        out.push(c);
        assert(out@ =~= seq!['"'] + escaped(s@.take(it.index() + 1)));
    }
    assert(s@.take(s@.len() as int) =~= s@);
    out.push('"');
    out
}

} // verus!
