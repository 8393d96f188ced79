//! Removing marked items from a list by swapping the last item into each
//! freed slot, as the simulation does when planets merge or trails expire.
use vstd::prelude::*;

verus! {

/// The list that results from scanning `items` from position `i` on and,
/// whenever the item at the current position is marked, replacing it (and its
/// mark) by the last one and dropping the last slot, as std's
/// `Vec::swap_remove` does; an unmarked item is passed over.
pub open spec fn swap_compact<A>(items: Seq<A>, marks: Seq<bool>, i: nat) -> Seq<A>
    decreases items.len() - i,
{
    if i >= items.len() || i >= marks.len() {
        items
    } else if marks[i as int] {
        swap_compact(
            items.update(i as int, items.last()).drop_last(),
            marks.update(i as int, marks.last()).drop_last(),
            i,
        )
    } else {
        swap_compact(items, marks, i + 1)
    }
}

/// How often `x` occurs at an unmarked position.
pub open spec fn unmarked_count<A>(items: Seq<A>, marks: Seq<bool>, x: A) -> nat
    decreases items.len(),
{
    if items.len() == 0 || marks.len() == 0 {
        0
    } else {
        unmarked_count(items.drop_last(), marks.drop_last(), x) + (if !marks.last()
            && items.last() == x {
            1nat
        } else {
            0nat
        })
    }
}

/// How many positions are unmarked.
pub open spec fn unmarked_len(marks: Seq<bool>) -> nat
    decreases marks.len(),
{
    if marks.len() == 0 {
        0
    } else {
        unmarked_len(marks.drop_last()) + (if marks.last() {
            0nat
        } else {
            1nat
        })
    }
}

/// Removes every item whose mark is set, swapping the last item into each
/// freed slot; the items that stay are unmarked.
pub fn swap_remove_marked<A>(items: &mut Vec<A>, marks: Vec<bool>)
    requires
        old(items).len() == marks.len(),
    ensures
        final(items)@ == swap_compact(old(items)@, marks@, 0),
{
    let ghost orig_items = items@;
    let ghost orig_marks = marks@;
    let mut marks = marks;
    let mut idx: usize = 0;
    while idx < marks.len()
        invariant
            items.len() == marks.len(),
            idx <= marks.len(),
            swap_compact(items@, marks@, idx as nat) == swap_compact(orig_items, orig_marks, 0),
        decreases marks.len() - idx,
    {
        if marks[idx] {
            items.swap_remove(idx);
            marks.swap_remove(idx);
        } else {
            idx = idx + 1;
        }
    }
}

} // verus!

verus! {

/// One position's share of `unmarked_count`.
pub open spec fn share<A>(y: A, marked: bool, x: A) -> nat {
    if !marked && y == x {
        1
    } else {
        0
    }
}

/// One position's share of `unmarked_len`.
pub open spec fn slot(marked: bool) -> nat {
    if marked {
        0
    } else {
        1
    }
}

proof fn lemma_unmarked_update<A>(s: Seq<A>, m: Seq<bool>, i: int, v: A, b: bool, x: A)
    requires
        s.len() == m.len(),
        0 <= i < s.len(),
    ensures
        unmarked_count(s.update(i, v), m.update(i, b), x) + share(s[i], m[i], x)
            == unmarked_count(s, m, x) + share(v, b, x),
    decreases s.len(),
{
    let s2 = s.update(i, v);
    let m2 = m.update(i, b);
    if i == s.len() - 1 {
        assert(s2.drop_last() =~= s.drop_last());
        assert(m2.drop_last() =~= m.drop_last());
    } else {
        assert(s2.drop_last() =~= s.drop_last().update(i, v));
        assert(m2.drop_last() =~= m.drop_last().update(i, b));
        lemma_unmarked_update(s.drop_last(), m.drop_last(), i, v, b, x);
    }
}

proof fn lemma_unmarked_len_update(m: Seq<bool>, i: int, b: bool)
    requires
        0 <= i < m.len(),
    ensures
        unmarked_len(m.update(i, b)) + slot(m[i]) == unmarked_len(m) + slot(b),
    decreases m.len(),
{
    let m2 = m.update(i, b);
    if i == m.len() - 1 {
        assert(m2.drop_last() =~= m.drop_last());
    } else {
        assert(m2.drop_last() =~= m.drop_last().update(i, b));
        lemma_unmarked_len_update(m.drop_last(), i, b);
    }
}

proof fn lemma_all_unmarked<A>(s: Seq<A>, m: Seq<bool>, x: A)
    requires
        s.len() == m.len(),
        forall|j: int| 0 <= j < m.len() ==> !#[trigger] m[j],
    ensures
        unmarked_count(s, m, x) == s.to_multiset().count(x),
    decreases s.len(),
{
    broadcast use vstd::seq_lib::group_to_multiset_ensures;

    if s.len() == 0 {
        assert(s.to_multiset().len() == 0);
    } else {
        let init = s.drop_last();
        assert forall|j: int| 0 <= j < m.drop_last().len() implies !#[trigger] m.drop_last()[j] by {
            assert(m.drop_last()[j] == m[j]);
        }
        lemma_all_unmarked(init, m.drop_last(), x);
        assert(s =~= init.push(s.last()));
        assert(s.to_multiset() =~= init.to_multiset().insert(s.last()));
        assert(!m[m.len() - 1]);
    }
}

proof fn lemma_all_unmarked_len(m: Seq<bool>)
    requires
        forall|j: int| 0 <= j < m.len() ==> !#[trigger] m[j],
    ensures
        unmarked_len(m) == m.len(),
    decreases m.len(),
{
    if m.len() > 0 {
        assert forall|j: int| 0 <= j < m.drop_last().len() implies !#[trigger] m.drop_last()[j] by {
            assert(m.drop_last()[j] == m[j]);
        }
        lemma_all_unmarked_len(m.drop_last());
        assert(!m[m.len() - 1]);
    }
}

proof fn lemma_swap_compact_counts<A>(s: Seq<A>, m: Seq<bool>, i: nat, x: A)
    requires
        s.len() == m.len(),
        i <= s.len(),
        forall|j: int| 0 <= j < i ==> !#[trigger] m[j],
    ensures
        swap_compact(s, m, i).to_multiset().count(x) == unmarked_count(s, m, x),
    decreases s.len() - i,
{
    if i >= s.len() {
        lemma_all_unmarked(s, m, x);
    } else if m[i as int] {
        let s2 = s.update(i as int, s.last()).drop_last();
        let m2 = m.update(i as int, m.last()).drop_last();
        let su = s.update(i as int, s.last());
        let mu = m.update(i as int, m.last());
        lemma_unmarked_update(s, m, i as int, s.last(), m.last(), x);
        assert(su.last() == s.last() && mu.last() == m.last());
        assert(su.drop_last() == s2 && mu.drop_last() == m2);
        assert(unmarked_count(su, mu, x) == unmarked_count(s2, m2, x) + share(
            s.last(),
            m.last(),
            x,
        ));
        assert forall|j: int| 0 <= j < i implies !#[trigger] m2[j] by {
            assert(m2[j] == m[j]);
        }
        lemma_swap_compact_counts(s2, m2, i, x);
    } else {
        lemma_swap_compact_counts(s, m, i + 1, x);
    }
}

proof fn lemma_swap_compact_len<A>(s: Seq<A>, m: Seq<bool>, i: nat)
    requires
        s.len() == m.len(),
        i <= s.len(),
        forall|j: int| 0 <= j < i ==> !#[trigger] m[j],
    ensures
        swap_compact(s, m, i).len() == unmarked_len(m),
    decreases s.len() - i,
{
    if i >= s.len() {
        lemma_all_unmarked_len(m);
    } else if m[i as int] {
        let s2 = s.update(i as int, s.last()).drop_last();
        let m2 = m.update(i as int, m.last()).drop_last();
        let mu = m.update(i as int, m.last());
        lemma_unmarked_len_update(m, i as int, m.last());
        assert(mu.last() == m.last());
        assert(mu.drop_last() == m2);
        assert forall|j: int| 0 <= j < i implies !#[trigger] m2[j] by {
            assert(m2[j] == m[j]);
        }
        lemma_swap_compact_len(s2, m2, i);
    } else {
        lemma_swap_compact_len(s, m, i + 1);
    }
}

/// Compaction keeps exactly the unmarked items: each value occurs in the
/// result as often as it occurs at unmarked positions, and the result is as
/// long as there are unmarked positions.
pub proof fn lemma_swap_compact_keeps_unmarked<A>(items: Seq<A>, marks: Seq<bool>)
    requires
        items.len() == marks.len(),
    ensures
        forall|x: A|
            #[trigger] swap_compact(items, marks, 0).to_multiset().count(x) == unmarked_count(
                items,
                marks,
                x,
            ),
        swap_compact(items, marks, 0).len() == unmarked_len(marks),
{
    assert forall|x: A|
        #[trigger] swap_compact(items, marks, 0).to_multiset().count(x) == unmarked_count(
            items,
            marks,
            x,
        ) by {
        lemma_swap_compact_counts(items, marks, 0, x);
    }
    lemma_swap_compact_len(items, marks, 0);
}

/// Compacting commutes with mapping every item.
pub proof fn lemma_swap_compact_map<A, B>(items: Seq<A>, marks: Seq<bool>, i: nat, f: spec_fn(A) -> B)
    requires
        items.len() == marks.len(),
    ensures
        swap_compact(items.map_values(f), marks, i) == swap_compact(items, marks, i).map_values(f),
    decreases items.len() - i,
{
    let fi = items.map_values(f);
    if i >= items.len() {
    } else if marks[i as int] {
        let s2 = items.update(i as int, items.last()).drop_last();
        let m2 = marks.update(i as int, marks.last()).drop_last();
        assert(fi.update(i as int, fi.last()).drop_last() =~= s2.map_values(f));
        lemma_swap_compact_map(s2, m2, i, f);
    } else {
        lemma_swap_compact_map(items, marks, i + 1, f);
    }
}

/// Every item left by compaction was an item before.
pub proof fn lemma_swap_compact_preserves<A>(
    items: Seq<A>,
    marks: Seq<bool>,
    i: nat,
    p: spec_fn(A) -> bool,
)
    requires
        forall|k: int| 0 <= k < items.len() ==> p(#[trigger] items[k]),
    ensures
        forall|k: int|
            0 <= k < swap_compact(items, marks, i).len() ==> p(
                #[trigger] swap_compact(items, marks, i)[k],
            ),
    decreases items.len() - i,
{
    if i >= items.len() || i >= marks.len() {
        assert(swap_compact(items, marks, i) == items);
    } else if marks[i as int] {
        let s2 = items.update(i as int, items.last()).drop_last();
        let m2 = marks.update(i as int, marks.last()).drop_last();
        assert(swap_compact(items, marks, i) == swap_compact(s2, m2, i));
        assert forall|k: int| 0 <= k < s2.len() implies p(#[trigger] s2[k]) by {
            if k == i {
                assert(s2[k] == items[items.len() - 1]);
            } else {
                assert(s2[k] == items[k]);
            }
        }
        lemma_swap_compact_preserves(s2, m2, i, p);
    } else {
        assert(swap_compact(items, marks, i) == swap_compact(items, marks, i + 1));
        lemma_swap_compact_preserves(items, marks, i + 1, p);
    }
}

} // verus!
