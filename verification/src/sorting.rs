//! The order of texts, and sorting by it.
//!
//! Texts are ordered as strings are: character by character, by code point,
//! a proper prefix before the longer text.

use crate::chars::texts;
use vstd::multiset::Multiset;
use vstd::prelude::*;
use vstd::relations::{sorted_by, total_ordering};
use vstd::seq_lib::lemma_sorted_unique;

verus! {

/// `a` comes before `b`, or is `b`.
pub open spec fn text_le(a: Seq<char>, b: Seq<char>) -> bool
    decreases a.len(),
{
    if a.len() == 0 {
        true
    } else if b.len() == 0 {
        false
    } else if a[0] == b[0] {
        text_le(a.skip(1), b.skip(1))
    } else {
        a[0] < b[0]
    }
}

/// `text_le` as a relation.
pub open spec fn text_order() -> spec_fn(Seq<char>, Seq<char>) -> bool {
    |a: Seq<char>, b: Seq<char>| text_le(a, b)
}

/// `lines` in ascending order.
pub open spec fn sorted_texts(lines: Seq<Seq<char>>) -> Seq<Seq<char>> {
    lines.sort_by(text_order())
}

/// Every text comes before itself or is itself.
pub proof fn text_le_reflexive(a: Seq<char>)
    ensures
        text_le(a, a),
    decreases a.len(),
{
    if a.len() > 0 {
        text_le_reflexive(a.skip(1));
    }
}

/// Two texts that each come before the other are one text.
pub proof fn text_le_antisymmetric(a: Seq<char>, b: Seq<char>)
    requires
        text_le(a, b),
        text_le(b, a),
    ensures
        a == b,
    decreases a.len(),
{
    if a.len() == 0 || b.len() == 0 {
        assert(a =~= b);
    } else {
        text_le_antisymmetric(a.skip(1), b.skip(1));
        assert(a =~= seq![a[0]] + a.skip(1));
        assert(b =~= seq![b[0]] + b.skip(1));
    }
}

/// What comes before a text comes before all that the text comes before.
pub proof fn text_le_transitive(a: Seq<char>, b: Seq<char>, c: Seq<char>)
    requires
        text_le(a, b),
        text_le(b, c),
    ensures
        text_le(a, c),
    decreases a.len(),
{
    if a.len() > 0 && b.len() > 0 && c.len() > 0 && a[0] == b[0] && b[0] == c[0] {
        text_le_transitive(a.skip(1), b.skip(1), c.skip(1));
    }
}

/// Of two texts one comes before the other.
pub proof fn text_le_total(a: Seq<char>, b: Seq<char>)
    ensures
        text_le(a, b) || text_le(b, a),
    decreases a.len(),
{
    if a.len() > 0 && b.len() > 0 {
        if a[0] == b[0] {
            text_le_total(a.skip(1), b.skip(1));
        }
    }
}

/// The order of texts is a total order.
pub proof fn text_order_is_total()
    ensures
        total_ordering(text_order()),
{
    let r = text_order();
    assert forall|a: Seq<char>| #[trigger] r(a, a) by {
        text_le_reflexive(a);
    }
    assert forall|a: Seq<char>, b: Seq<char>| #[trigger] r(a, b) && #[trigger] r(b, a) implies a
        == b by {
        text_le_antisymmetric(a, b);
    }
    assert forall|a: Seq<char>, b: Seq<char>, c: Seq<char>| #[trigger]
        r(a, b) && #[trigger] r(b, c) implies r(a, c) by {
        text_le_transitive(a, b, c);
    }
    assert forall|a: Seq<char>, b: Seq<char>| #[trigger] r(a, b) || #[trigger] r(b, a) by {
        text_le_total(a, b);
    }
}

/// Tells whether `a` comes before `b` or is `b`.
pub fn precedes(a: &[char], b: &[char]) -> (r: bool)
    ensures
        r == text_le(a@, b@),
{
    let mut i: usize = 0;
    assert(a@.skip(0) =~= a@ && b@.skip(0) =~= b@);
    while i < a.len() && i < b.len()
        invariant
            i <= a.len(),
            i <= b.len(),
            text_le(a@, b@) == text_le(a@.skip(i as int), b@.skip(i as int)),
        decreases a.len() - i,
    {
        assert(a@.skip(i as int).skip(1) =~= a@.skip(i + 1));
        assert(b@.skip(i as int).skip(1) =~= b@.skip(i + 1));
        if a[i] != b[i] {
            return a[i] < b[i];
        }
        i += 1;
    }
    i == a.len()
}

/// Puts `line` into the sorted `out`, behind the lines that do not come
/// after it.
pub fn insert_sorted(out: &mut Vec<Vec<char>>, line: Vec<char>)
    requires
        sorted_by(texts(old(out)@), text_order()),
    ensures
        sorted_by(texts(final(out)@), text_order()),
        texts(final(out)@).to_multiset() == texts(old(out)@).to_multiset().insert(line@),
{
    let mut pos: usize = 0;
    while pos < out.len() && precedes(out[pos].as_slice(), line.as_slice())
        invariant
            pos <= out.len(),
            out@ == old(out)@,
            forall|j: int| 0 <= j < pos ==> text_le(#[trigger] out@[j]@, line@),
        decreases out.len() - pos,
    {
        pos += 1;
    }
    let ghost before = texts(out@);
    let ghost width = line@;
    out.insert(pos, line);
    proof {
        let after = texts(out@);
        assert(after =~= before.insert(pos as int, width));
        vstd::seq_lib::to_multiset_insert(before, pos as int, width);
        assert forall|i: int, j: int| 0 <= i < j < after.len() implies #[trigger] text_order()(
            after[i],
            after[j],
        ) by {
            if j < pos {
                assert(text_order()(before[i], before[j]));
            } else if j == pos {
                assert(text_le(old(out)@[i]@, width));
            } else if i == pos {
                // the line at `pos` of the old vector comes after `line`
                text_le_total(before[pos as int], width);
                if j - 1 > pos {
                    assert(text_order()(before[pos as int], before[j - 1]));
                    text_le_transitive(width, before[pos as int], before[j - 1]);
                }
            } else if i < pos {
                assert(text_order()(before[i], before[j - 1]));
            } else {
                assert(text_order()(before[i - 1], before[j - 1]));
            }
        }
    }
}

/// No texts, no members.
proof fn no_texts_no_members()
    ensures
        Seq::<Seq<char>>::empty().to_multiset() == Multiset::<Seq<char>>::empty(),
{
    vstd::seq_lib::to_multiset_len(Seq::<Seq<char>>::empty());
    vstd::multiset::lemma_multiset_empty_len(Seq::<Seq<char>>::empty().to_multiset());
}

/// Sorts the lines in ascending order.
pub fn sort_lines(lines: Vec<Vec<char>>) -> (r: Vec<Vec<char>>)
    ensures
        texts(r@) == sorted_texts(texts(lines@)),
{
    broadcast use vstd::multiset::group_multiset_axioms;

    let ghost all = texts(lines@);
    let mut rest = lines;
    let mut out: Vec<Vec<char>> = Vec::new();
    proof {
        no_texts_no_members();
        assert(texts(out@) =~= Seq::<Seq<char>>::empty());
        assert(texts(out@).to_multiset().add(all.to_multiset()) =~= all.to_multiset());
    }
    while rest.len() > 0
        invariant
            sorted_by(texts(out@), text_order()),
            texts(out@).to_multiset().add(texts(rest@).to_multiset()) == all.to_multiset(),
        decreases rest.len(),
    {
        let ghost prior = texts(rest@);
        let line = rest.pop().unwrap();
        proof {
            assert(prior =~= texts(rest@).push(line@));
            vstd::seq_lib::to_multiset_build(texts(rest@), line@);
        }
        insert_sorted(&mut out, line);
    }
    proof {
        text_order_is_total();
        all.lemma_sort_by_ensures(text_order());
        no_texts_no_members();
        assert(texts(rest@) =~= Seq::<Seq<char>>::empty());
        assert(texts(out@).to_multiset().add(texts(rest@).to_multiset()) =~= texts(
            out@,
        ).to_multiset());
        lemma_sorted_unique(texts(out@), sorted_texts(all), text_order());
    }
    out
}

/// Two sequences with the same members, each as often in the one as in the
/// other, still have the same members after each member is mapped.
pub proof fn mapped_members_agree<A, B>(a: Seq<A>, b: Seq<A>, f: spec_fn(A) -> B)
    requires
        a.to_multiset() == b.to_multiset(),
    ensures
        a.map_values(f).to_multiset() == b.map_values(f).to_multiset(),
    decreases a.len(),
{
    broadcast use vstd::multiset::group_multiset_axioms;

    vstd::seq_lib::to_multiset_len(a);
    vstd::seq_lib::to_multiset_len(b);
    if a.len() == 0 {
        assert(a.map_values(f) =~= b.map_values(f));
    } else {
        let x = a.last();
        let shorter = a.drop_last();
        assert(a =~= shorter.push(x));
        vstd::seq_lib::to_multiset_build(shorter, x);
        vstd::seq_lib::to_multiset_contains(b, x);
        assert(b.contains(x));
        let j = choose|j: int| 0 <= j < b.len() && b[j] == x;
        let rest = b.remove(j);
        vstd::seq_lib::to_multiset_remove(b, j);
        assert(shorter.to_multiset() =~= rest.to_multiset());
        mapped_members_agree(shorter, rest, f);
        assert(a.map_values(f) =~= shorter.map_values(f).push(f(x)));
        vstd::seq_lib::to_multiset_build(shorter.map_values(f), f(x));
        assert(b.map_values(f) =~= rest.map_values(f).insert(j, f(x)));
        vstd::seq_lib::to_multiset_insert(rest.map_values(f), j, f(x));
    }
}

/// Sorting depends on the members alone, not on the order in which they
/// come: two sequences of texts with the same members sort to the same
/// sequence.
pub proof fn sorting_ignores_order(a: Seq<Seq<char>>, b: Seq<Seq<char>>)
    requires
        a.to_multiset() == b.to_multiset(),
    ensures
        sorted_texts(a) == sorted_texts(b),
{
    text_order_is_total();
    a.lemma_sort_by_ensures(text_order());
    b.lemma_sort_by_ensures(text_order());
    lemma_sorted_unique(sorted_texts(a), sorted_texts(b), text_order());
}

} // verus!
