//! Putting the entries of a month in chronological order.

use vstd::prelude::*;
use crate::model::{entry_views, Entry, EntryView};
use crate::number::chars_of;

verus! {

/// Whether `a` comes before `b` or is equal to it, character by character:
/// the first place where they differ decides, and a text comes before
/// every text that it begins.
pub open spec fn text_le(a: Seq<char>, b: Seq<char>) -> bool
    decreases a.len(),
{
    if a.len() == 0 {
        true
    } else if b.len() == 0 {
        false
    } else if a[0] != b[0] {
        a[0] < b[0]
    } else {
        text_le(a.skip(1), b.skip(1))
    }
}

/// Whether entry `a` is not later than entry `b`: by day, and within a day
/// by the text of the start.
pub open spec fn not_later(a: EntryView, b: EntryView) -> bool {
    a.day < b.day || (a.day == b.day && text_le(a.start, b.start))
}

/// Whether no entry of `s` is later than one behind it.
pub open spec fn is_chronological(s: Seq<EntryView>) -> bool {
    forall|i: int, j: int| 0 <= i < j < s.len() ==> not_later(s[i], s[j])
}

/// Where `x` goes into the chronological `s`: behind the last entry that
/// is not later than `x`.
pub open spec fn place_for(s: Seq<EntryView>, x: EntryView) -> int
    decreases s.len(),
{
    if s.len() == 0 {
        0
    } else if not_later(s.last(), x) {
        s.len() as int
    } else {
        place_for(s.drop_last(), x)
    }
}

/// The entries of `s` in chronological order. Entries that are equally
/// early keep the order that they have in `s`.
pub open spec fn chronological(s: Seq<EntryView>) -> Seq<EntryView>
    decreases s.len(),
{
    if s.len() == 0 {
        Seq::empty()
    } else {
        let before = chronological(s.drop_last());
        before.insert(place_for(before, s.last()), s.last())
    }
}

/// Of two texts one is not behind the other.
pub proof fn lemma_text_le_total(a: Seq<char>, b: Seq<char>)
    ensures
        text_le(a, b) || text_le(b, a),
    decreases a.len(),
{
    if a.len() > 0 && b.len() > 0 && a[0] == b[0] {
        lemma_text_le_total(a.skip(1), b.skip(1));
    }
}

/// The order of texts is transitive.
pub proof fn lemma_text_le_transitive(a: Seq<char>, b: Seq<char>, c: Seq<char>)
    requires
        text_le(a, b),
        text_le(b, c),
    ensures
        text_le(a, c),
    decreases a.len(),
{
    if a.len() > 0 && b.len() > 0 && c.len() > 0 && a[0] == b[0] && b[0] == c[0] {
        lemma_text_le_transitive(a.skip(1), b.skip(1), c.skip(1));
    }
}

/// Of two entries one is not later than the other.
pub proof fn lemma_not_later_total(a: EntryView, b: EntryView)
    ensures
        not_later(a, b) || not_later(b, a),
{
    lemma_text_le_total(a.start, b.start);
}

/// The order of entries is transitive.
pub proof fn lemma_not_later_transitive(a: EntryView, b: EntryView, c: EntryView)
    requires
        not_later(a, b),
        not_later(b, c),
    ensures
        not_later(a, c),
{
    if a.day == b.day && b.day == c.day {
        lemma_text_le_transitive(a.start, b.start, c.start);
    }
}

/// The place for `x` lies in `s` or at its end; nothing before it is later
/// than `x`, and everything from it on is later than `x`.
pub proof fn lemma_place_for(s: Seq<EntryView>, x: EntryView)
    requires
        is_chronological(s),
    ensures
        0 <= place_for(s, x) <= s.len(),
        forall|i: int| 0 <= i < place_for(s, x) ==> not_later(#[trigger] s[i], x),
        forall|i: int| place_for(s, x) <= i < s.len() ==> !not_later(#[trigger] s[i], x),
    decreases s.len(),
{
    if s.len() > 0 {
        if not_later(s.last(), x) {
            assert forall|i: int| 0 <= i < s.len() implies not_later(#[trigger] s[i], x) by {
                if i < s.len() - 1 {
                    lemma_not_later_transitive(s[i], s.last(), x);
                }
            }
        } else {
            let shorter = s.drop_last();
            assert(is_chronological(shorter)) by {
                assert forall|i: int, j: int| 0 <= i < j < shorter.len() implies not_later(
                    shorter[i],
                    shorter[j],
                ) by {
                    assert(shorter[i] == s[i] && shorter[j] == s[j]);
                }
            }
            lemma_place_for(shorter, x);
            assert forall|i: int| 0 <= i < place_for(s, x) implies not_later(
                #[trigger] s[i],
                x,
            ) by {
                assert(shorter[i] == s[i]);
            }
            assert forall|i: int| place_for(s, x) <= i < s.len() implies !not_later(
                #[trigger] s[i],
                x,
            ) by {
                if i < s.len() - 1 {
                    assert(shorter[i] == s[i]);
                }
            }
        }
    }
}

/// An entry put at its place leaves the order chronological.
pub proof fn lemma_insert_keeps_order(s: Seq<EntryView>, x: EntryView)
    requires
        is_chronological(s),
    ensures
        is_chronological(s.insert(place_for(s, x), x)),
{
    lemma_place_for(s, x);
    let p = place_for(s, x);
    let t = s.insert(p, x);
    assert forall|i: int, j: int| 0 <= i < j < t.len() implies not_later(t[i], t[j]) by {
        if j < p {
            assert(t[i] == s[i] && t[j] == s[j]);
        } else if j == p {
            assert(t[i] == s[i]);
        } else if i < p {
            assert(t[i] == s[i] && t[j] == s[j - 1]);
        } else if i == p {
            assert(t[j] == s[j - 1]);
            lemma_not_later_total(s[j - 1], x);
        } else {
            assert(t[i] == s[i - 1] && t[j] == s[j - 1]);
        }
    }
}

/// Sorting gives a chronological order of the same entries: each entry is
/// there exactly as often as before.
pub proof fn lemma_chronological_sorts(s: Seq<EntryView>)
    ensures
        is_chronological(chronological(s)),
        chronological(s).len() == s.len(),
        chronological(s).to_multiset() == s.to_multiset(),
    decreases s.len(),
{
    broadcast use vstd::seq_lib::group_to_multiset_ensures;

    if s.len() > 0 {
        let shorter = s.drop_last();
        let before = chronological(shorter);
        lemma_chronological_sorts(shorter);
        lemma_place_for(before, s.last());
        lemma_insert_keeps_order(before, s.last());
        let p = place_for(before, s.last());
        assert(s =~= shorter.push(s.last()));
        before.to_multiset_ensures();
        shorter.to_multiset_ensures();
        assert(before.insert(p, s.last()).to_multiset() =~= before.to_multiset().insert(s.last()));
        assert(shorter.push(s.last()).to_multiset() =~= shorter.to_multiset().insert(s.last()));
    } else {
        assert(chronological(s) =~= s);
    }
}

/// Whether two entries are equally early: neither is later than the other.
pub open spec fn as_early(a: EntryView, b: EntryView) -> bool {
    not_later(a, b) && not_later(b, a)
}

/// Where nothing is chosen, nothing is left.
proof fn lemma_filter_none(s: Seq<EntryView>, chosen: spec_fn(EntryView) -> bool)
    requires
        forall|i: int| 0 <= i < s.len() ==> !chosen(#[trigger] s[i]),
    ensures
        s.filter(chosen) == Seq::<EntryView>::empty(),
    decreases s.len(),
{
    reveal(Seq::filter);
    if s.len() > 0 {
        let shorter = s.drop_last();
        assert forall|i: int| 0 <= i < shorter.len() implies !chosen(#[trigger] shorter[i]) by {
            assert(shorter[i] == s[i]);
        }
        lemma_filter_none(shorter, chosen);
    }
}

/// Sorting is stable: the entries that are as early as `x` stand in the
/// sorted list in the order in which they stood before.
pub proof fn lemma_chronological_is_stable(s: Seq<EntryView>, x: EntryView)
    ensures
        chronological(s).filter(|e: EntryView| as_early(e, x)) == s.filter(
            |e: EntryView| as_early(e, x),
        ),
    decreases s.len(),
{
    reveal(Seq::filter);
    let chosen = |e: EntryView| as_early(e, x);
    if s.len() > 0 {
        let shorter = s.drop_last();
        let last = s.last();
        let before = chronological(shorter);
        lemma_chronological_is_stable(shorter, x);
        lemma_chronological_sorts(shorter);
        lemma_place_for(before, last);
        let p = place_for(before, last);
        let head = before.take(p);
        let tail = before.skip(p);
        assert(before =~= head + tail);
        assert(before.insert(p, last) =~= head.push(last) + tail);
        Seq::filter_distributes_over_add(head, tail, chosen);
        Seq::filter_distributes_over_add(head.push(last), tail, chosen);
        assert(head.push(last).drop_last() =~= head);
        if chosen(last) {
            assert forall|i: int| 0 <= i < tail.len() implies !chosen(#[trigger] tail[i]) by {
                assert(tail[i] == before[p + i]);
                if chosen(tail[i]) {
                    lemma_not_later_transitive(tail[i], x, last);
                }
            }
            lemma_filter_none(tail, chosen);
            assert(head.filter(chosen) + Seq::<EntryView>::empty() =~= head.filter(chosen));
            assert(head.filter(chosen).push(last) + Seq::<EntryView>::empty() =~= head.filter(
                chosen,
            ).push(last));
        }
    } else {
        assert(chronological(s) =~= s);
    }
}

/// Entries that are in chronological order already stay as they are.
pub proof fn lemma_chronological_keeps_sorted(s: Seq<EntryView>)
    requires
        is_chronological(s),
    ensures
        chronological(s) == s,
    decreases s.len(),
{
    if s.len() > 0 {
        let shorter = s.drop_last();
        assert(is_chronological(shorter)) by {
            assert forall|i: int, j: int| 0 <= i < j < shorter.len() implies not_later(
                shorter[i],
                shorter[j],
            ) by {
                assert(shorter[i] == s[i] && shorter[j] == s[j]);
            }
        }
        lemma_chronological_keeps_sorted(shorter);
        if shorter.len() > 0 {
            assert(shorter.last() == s[s.len() - 2]);
            assert(not_later(shorter.last(), s.last()));
        }
        assert(place_for(shorter, s.last()) == shorter.len());
        assert(shorter.insert(shorter.len() as int, s.last()) =~= s);
    } else {
        assert(chronological(s) =~= s);
    }
}

/// Whether `a` comes before `b` or is equal to it, character by character.
pub fn text_not_behind(a: &str, b: &str) -> (le: bool)
    ensures
        le == text_le(a@, b@),
{
    let x = chars_of(a);
    let y = chars_of(b);
    let mut i: usize = 0;
    assert(x@.skip(0) =~= x@ && y@.skip(0) =~= y@);
    while i < x.len() && i < y.len() && x[i] == y[i]
        invariant
            i <= x.len(),
            i <= y.len(),
            text_le(x@, y@) == text_le(x@.skip(i as int), y@.skip(i as int)),
        decreases x.len() - i,
    {
        assert(x@.skip(i as int).skip(1) =~= x@.skip(i + 1));
        assert(y@.skip(i as int).skip(1) =~= y@.skip(i + 1));
        i += 1;
    }
    if i == x.len() {
        true
    } else if i == y.len() {
        false
    } else {
        x[i] < y[i]
    }
}

/// Whether entry `a` is not later than entry `b`.
pub fn is_not_later(a: &Entry, b: &Entry) -> (le: bool)
    ensures
        le == not_later(a@, b@),
{
    a.day < b.day || (a.day == b.day && text_not_behind(a.start.as_str(), b.start.as_str()))
}

/// Puts the entries in chronological order: by day, and within a day by
/// the text of the start. Entries that are equally early keep their order.
pub fn sort_entries(entries: Vec<Entry>) -> (out: Vec<Entry>)
    ensures
        entry_views(out@) == chronological(entry_views(entries@)),
{
    let ghost all = entry_views(entries@);
    let mut out: Vec<Entry> = Vec::new();
    for entry in it: entries
        invariant
            entry_views(it.seq()) == all,
            entry_views(out@) == chronological(all.take(it.index())),
    {
        let ghost before = entry_views(out@);
        let mut p: usize = out.len();
        assert(before.take(p as int) =~= before);
        while p > 0 && !is_not_later(&out[p - 1], &entry)
            invariant
                p <= out.len(),
                before == entry_views(out@),
                place_for(before, entry@) == place_for(before.take(p as int), entry@),
            decreases p,
        {
            assert(before.take(p as int).drop_last() =~= before.take(p - 1));
            p -= 1;
        }
        assert(place_for(before, entry@) == p) by {
            if p > 0 {
                assert(before.take(p as int).last() == out@[p - 1]@);
            }
        }
        out.insert(p, entry);
        assert(entry_views(out@) =~= before.insert(p as int, entry@));
        assert(all.take(it.index() + 1).drop_last() =~= all.take(it.index()));
    }
    assert(all.take(all.len() as int) =~= all);
    out
}

} // verus!
