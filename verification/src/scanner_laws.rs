//! What holds of every scan result.

use crate::model::ItemView;
use crate::ordering::{
    lemma_text_le_antisymmetric, lemma_text_le_reflexive, lemma_text_le_total,
    lemma_text_le_transitive,
};
use crate::scanner::{insert_position, item_le, parent_key, sorted_items};
use vstd::prelude::*;

verus! {

/// Every item of `s` is listed before, or at the same place as, each item
/// behind it.
pub open spec fn ordered(s: Seq<ItemView>) -> bool {
    forall|i: int, j: int| 0 <= i < j < s.len() ==> item_le(s[i], s[j])
}

/// Of two items one is listed before the other, or both at the same place.
pub proof fn lemma_item_le_total(a: ItemView, b: ItemView)
    ensures
        item_le(a, b) || item_le(b, a),
{
    lemma_text_le_total(a.name, b.name);
    lemma_text_le_total(parent_key(a), parent_key(b));
}

/// The listing order is transitive.
pub proof fn lemma_item_le_transitive(a: ItemView, b: ItemView, c: ItemView)
    requires
        item_le(a, b),
        item_le(b, c),
    ensures
        item_le(a, c),
{
    let pa = parent_key(a);
    let pb = parent_key(b);
    let pc = parent_key(c);
    if pa == pb && pb == pc {
        lemma_text_le_transitive(a.name, b.name, c.name);
    } else if pa != pb && pb != pc {
        lemma_text_le_transitive(pa, pb, pc);
        if pa == pc {
            lemma_text_le_antisymmetric(pa, pb);
        }
    }
}

/// An item directly under the root is listed before every item in a
/// directory.
pub proof fn lemma_root_items_come_first(a: ItemView, b: ItemView)
    requires
        a.parent_dir is None,
        b.parent_dir is Some,
        b.parent_dir->0.len() > 0,
    ensures
        item_le(a, b),
        !item_le(b, a),
{
}

/// The place of a new item: everything before it is listed before it or at
/// the same place, nothing behind it is.
pub proof fn lemma_insert_position(s: Seq<ItemView>, x: ItemView)
    ensures
        0 <= insert_position(s, x) <= s.len(),
        insert_position(s, x) > 0 ==> item_le(s[insert_position(s, x) - 1], x),
        forall|k: int| insert_position(s, x) <= k < s.len() ==> !item_le(#[trigger] s[k], x),
    decreases s.len(),
{
    if s.len() > 0 && !item_le(s.last(), x) {
        lemma_insert_position(s.drop_last(), x);
        let p = insert_position(s.drop_last(), x);
        assert forall|k: int| p <= k < s.len() implies !item_le(#[trigger] s[k], x) by {
            if k < s.len() - 1 {
                assert(s.drop_last()[k] == s[k]);
            }
        }
        if p > 0 {
            assert(s.drop_last()[p - 1] == s[p - 1]);
        }
    }
}

/// Putting an item at its place keeps an ordered list ordered.
pub proof fn lemma_insert_keeps_order(s: Seq<ItemView>, x: ItemView)
    requires
        ordered(s),
    ensures
        ordered(s.insert(insert_position(s, x), x)),
{
    lemma_insert_position(s, x);
    let p = insert_position(s, x);
    let t = s.insert(p, x);
    assert forall|i: int, j: int| 0 <= i < j < t.len() implies item_le(t[i], t[j]) by {
        if j < p {
            assert(t[i] == s[i] && t[j] == s[j]);
        } else if j == p {
            assert(t[i] == s[i]);
            if i < p - 1 {
                lemma_item_le_transitive(s[i], s[p - 1], x);
            }
        } else if i == p {
            assert(t[j] == s[j - 1]);
            lemma_item_le_total(s[j - 1], x);
        } else if i < p {
            assert(t[i] == s[i] && t[j] == s[j - 1]);
        } else {
            assert(t[i] == s[i - 1] && t[j] == s[j - 1]);
        }
    }
}

/// A scan result is in listing order.
pub proof fn lemma_sorted_items_are_ordered(s: Seq<ItemView>)
    ensures
        ordered(sorted_items(s)),
    decreases s.len(),
{
    if s.len() > 0 {
        lemma_sorted_items_are_ordered(s.drop_last());
        lemma_insert_keeps_order(sorted_items(s.drop_last()), s.last());
    }
}

/// Ordering loses and invents nothing: a scan result holds exactly the books
/// that were found, each as often as it was found.
pub proof fn lemma_sorted_items_are_the_same_items(s: Seq<ItemView>)
    ensures
        sorted_items(s).to_multiset() == s.to_multiset(),
        sorted_items(s).len() == s.len(),
    decreases s.len(),
{
    if s.len() > 0 {
        let front = sorted_items(s.drop_last());
        lemma_sorted_items_are_the_same_items(s.drop_last());
        lemma_insert_position(front, s.last());
        vstd::seq_lib::to_multiset_insert(front, insert_position(front, s.last()), s.last());
        vstd::seq_lib::to_multiset_build(s.drop_last(), s.last());
        assert(s.drop_last().push(s.last()) =~= s);
        assert(sorted_items(s).to_multiset() =~= s.to_multiset());
    } else {
        assert(s =~= Seq::<ItemView>::empty());
    }
}

/// Ordering an ordered list changes nothing: items at the same place keep
/// the order in which they came.
pub proof fn lemma_sorting_ordered_items_is_identity(s: Seq<ItemView>)
    requires
        ordered(s),
    ensures
        sorted_items(s) == s,
    decreases s.len(),
{
    if s.len() > 0 {
        let front = s.drop_last();
        assert(ordered(front)) by {
            assert forall|i: int, j: int| 0 <= i < j < front.len() implies item_le(
                front[i],
                front[j],
            ) by {
                assert(front[i] == s[i] && front[j] == s[j]);
            }
        }
        lemma_sorting_ordered_items_is_identity(front);
        if front.len() > 0 {
            assert(front.last() == s[s.len() - 2]);
            assert(item_le(front.last(), s.last()));
        }
        assert(insert_position(front, s.last()) == front.len());
        assert(front.insert(front.len() as int, s.last()) =~= s);
    }
}

/// The items of `s` that are listed at one place: in the directory `dir`
/// under the name `name`, in the order in which they stand in `s`.
pub open spec fn listed_at(s: Seq<ItemView>, dir: Seq<char>, name: Seq<char>) -> Seq<ItemView> {
    s.filter(|item: ItemView| parent_key(item) == dir && item.name == name)
}

/// Nothing is left of a list none of whose items passes the filter.
pub proof fn lemma_filter_of_none(s: Seq<ItemView>, pred: spec_fn(ItemView) -> bool)
    requires
        forall|i: int| 0 <= i < s.len() ==> !pred(#[trigger] s[i]),
    ensures
        s.filter(pred) == Seq::<ItemView>::empty(),
    decreases s.len(),
{
    reveal(Seq::filter);
    if s.len() > 0 {
        assert forall|i: int| 0 <= i < s.drop_last().len() implies !pred(
            #[trigger] s.drop_last()[i],
        ) by {
            assert(s.drop_last()[i] == s[i]);
        }
        lemma_filter_of_none(s.drop_last(), pred);
        assert(!pred(s[s.len() - 1]));
    }
}

/// Ordering is stable: the items listed at one place stand in a scan result
/// in the order in which they were found.
pub proof fn lemma_sorting_is_stable(s: Seq<ItemView>, dir: Seq<char>, name: Seq<char>)
    ensures
        listed_at(sorted_items(s), dir, name) == listed_at(s, dir, name),
    decreases s.len(),
{
    reveal(Seq::filter);
    let pred = |item: ItemView| parent_key(item) == dir && item.name == name;
    if s.len() > 0 {
        let front = sorted_items(s.drop_last());
        let last = s.last();
        let p = insert_position(front, last);
        lemma_sorting_is_stable(s.drop_last(), dir, name);
        lemma_insert_position(front, last);
        let a = front.subrange(0, p);
        let b = front.subrange(p, front.len() as int);
        let one = seq![last];
        assert(front =~= a + b);
        assert(front.insert(p, last) =~= a + one + b);
        Seq::filter_distributes_over_add(a, b, pred);
        Seq::filter_distributes_over_add(a, one, pred);
        Seq::filter_distributes_over_add(a + one, b, pred);
        assert(one.drop_last() =~= Seq::<ItemView>::empty());
        assert(Seq::<ItemView>::empty().filter(pred) =~= Seq::<ItemView>::empty());
        if pred(last) {
            assert(one.filter(pred) =~= one);
            assert forall|i: int| 0 <= i < b.len() implies !pred(#[trigger] b[i]) by {
                assert(b[i] == front[p + i]);
                assert(!item_le(front[p + i], last));
                if pred(b[i]) {
                    lemma_text_le_reflexive(name);
                }
            }
            lemma_filter_of_none(b, pred);
            assert(a.filter(pred) + b.filter(pred) =~= a.filter(pred));
            assert(a.filter(pred) + one + b.filter(pred) =~= front.filter(pred).push(last));
        } else {
            assert(one.filter(pred) =~= Seq::<ItemView>::empty());
            assert(a.filter(pred) + one.filter(pred) + b.filter(pred) =~= front.filter(pred));
        }
    }
}

} // verus!
