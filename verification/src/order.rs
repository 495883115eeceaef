//! Ascending lists of keyed items.
use vstd::prelude::*;

verus! {

/// An item: the key it is ordered by, and a number that tells items with the
/// same key apart.
pub type Item = (i64, u64);

/// Whether `a` comes before `b`.
pub open spec fn before(a: Item, b: Item) -> bool {
    a.0 < b.0 || (a.0 == b.0 && a.1 < b.1)
}

/// Whether every item comes before all later ones.
pub open spec fn ascending(items: Seq<Item>) -> bool {
    forall|i: int, j: int|
        0 <= i < j < items.len() ==> before(#[trigger] items[i], #[trigger] items[j])
}

/// The items of a set in ascending order.
pub open spec fn in_order(items: Set<Item>) -> Seq<Item> {
    choose|list: Seq<Item>| ascending(list) && #[trigger] list.to_set() == items
}

/// There is one ascending list of a set.
proof fn lemma_unique(a: Seq<Item>, b: Seq<Item>)
    requires
        ascending(a),
        ascending(b),
        a.to_set() == b.to_set(),
    ensures
        a == b,
    decreases a.len(),
{
    if a.len() == 0 {
        if b.len() > 0 {
            assert(a.to_set().contains(b[0]));
        }
        assert(a =~= b);
    } else {
        assert(b.to_set().contains(a.last()));
        assert(b.len() > 0);
        assert(a.to_set().contains(b.last()));
        let i = choose|i: int| 0 <= i < a.len() && a[i] == b.last();
        let j = choose|j: int| 0 <= j < b.len() && b[j] == a.last();
        assert(a.last() == b.last());
        assert forall|x: Item| a.drop_last().to_set().contains(x)
            == b.drop_last().to_set().contains(
            x,
        ) by {
            lemma_without_last(a, x);
            lemma_without_last(b, x);
        }
        assert(a.drop_last().to_set() =~= b.drop_last().to_set());
        lemma_unique(a.drop_last(), b.drop_last());
        assert(a =~= a.drop_last().push(a.last()));
        assert(b =~= b.drop_last().push(b.last()));
    }
}

/// An ascending list without its last item holds all the others.
proof fn lemma_without_last(list: Seq<Item>, x: Item)
    requires
        ascending(list),
        list.len() > 0,
    ensures
        list.drop_last().to_set().contains(x) == (list.to_set().contains(x) && x != list.last()),
{
    if list.to_set().contains(x) && x != list.last() {
        let i = choose|i: int| 0 <= i < list.len() && list[i] == x;
        assert(list.drop_last()[i] == x);
    }
    if list.drop_last().to_set().contains(x) {
        let i = choose|i: int| 0 <= i < list.drop_last().len() && list.drop_last()[i] == x;
        assert(list[i] == x);
        assert(before(list[i], list[list.len() - 1]));
    }
}

/// An ascending list is the ordering of its own items.
pub proof fn lemma_in_order(list: Seq<Item>)
    requires
        ascending(list),
    ensures
        in_order(list.to_set()) == list,
{
    assert(list.to_set() == list.to_set());
    lemma_unique(in_order(list.to_set()), list);
}

/// Distinct items can be put in ascending order, and none is lost or repeated.
pub proof fn lemma_order_exists(items: Seq<Item>)
    requires
        items.no_duplicates(),
    ensures
        ascending(in_order(items.to_set())),
        in_order(items.to_set()).to_set() == items.to_set(),
        in_order(items.to_set()).len() == items.len(),
{
    let leq = |a: Item, b: Item| before(a, b) || a == b;
    let list = items.sort_by(leq);
    items.lemma_sort_by_ensures(leq);
    items.lemma_multiset_has_no_duplicates();
    list.lemma_multiset_has_no_duplicates_conv();
    assert(list.len() == items.len()) by {
        broadcast use vstd::seq_lib::group_to_multiset_ensures;

        assert(list.to_multiset().len() == items.to_multiset().len());
    }
    assert forall|x: Item| list.to_set().contains(x) == items.to_set().contains(x) by {
        broadcast use vstd::seq_lib::group_to_multiset_ensures;

        assert(list.contains(x) == items.contains(x)) by {
            assert(list.to_multiset().count(x) == items.to_multiset().count(x));
        }
    }
    assert(list.to_set() =~= items.to_set());
    assert forall|i: int, j: int| 0 <= i < j < list.len() implies before(
        #[trigger] list[i],
        #[trigger] list[j],
    ) by {
        assert(leq(list[i], list[j]));
    }
    lemma_in_order(list);
}

/// A finite set of items can be listed without repetition.
proof fn lemma_listing(items: Set<Item>) -> (list: Seq<Item>)
    requires
        items.finite(),
    ensures
        list.no_duplicates(),
        list.to_set() == items,
    decreases items.len(),
{
    if items.len() == 0 {
        assert(Seq::<Item>::empty().to_set() =~= items);
        Seq::empty()
    } else {
        let item = items.choose();
        let others = lemma_listing(items.remove(item));
        let list = others.push(item);
        if others.contains(item) {
            assert(others.to_set().contains(item));
        }
        assert forall|x: Item| list.to_set().contains(x) == items.contains(x) by {
            if items.contains(x) {
                if x == item {
                    assert(list[list.len() - 1] == x);
                } else {
                    assert(others.to_set().contains(x));
                    let i = choose|i: int| 0 <= i < others.len() && others[i] == x;
                    assert(list[i] == x);
                }
            }
            if list.to_set().contains(x) {
                let i = choose|i: int| 0 <= i < list.len() && list[i] == x;
                if i < others.len() {
                    assert(others.to_set().contains(others[i]));
                }
            }
        }
        assert(list.to_set() =~= items);
        list
    }
}

/// The items of a finite set can be put in ascending order.
pub proof fn lemma_set_order_exists(items: Set<Item>)
    requires
        items.finite(),
    ensures
        ascending(in_order(items)),
        in_order(items).to_set() == items,
{
    let list = lemma_listing(items);
    lemma_order_exists(list);
}

/// Puts a new item at its place.
pub fn place(list: &mut Vec<Item>, item: Item)
    requires
        ascending(old(list)@),
        !old(list)@.contains(item),
    ensures
        ascending(final(list)@),
        final(list)@.len() == old(list)@.len() + 1,
        final(list)@.to_set() == old(list)@.to_set().insert(item),
{
    let mut at: usize = list.len();
    while at > 0 && (item.0 < list[at - 1].0 || (item.0 == list[at - 1].0 && item.1 < list[at
        - 1].1))
        invariant
            at <= list@.len(),
            list@ == old(list)@,
            forall|j: int| at <= j < list@.len() ==> before(item, #[trigger] list@[j]),
        decreases at,
    {
        at -= 1;
    }
    let ghost start = list@;
    proof {
        assert forall|j: int| 0 <= j < at implies before(#[trigger] list@[j], item) by {
            assert(list@.contains(list@[at - 1]));
            assert(list@[at - 1] != item);
            if j < at - 1 {
                assert(before(list@[j], list@[at - 1]));
            }
        }
    }
    list.insert(at, item);
    proof {
        let done = list@;
        assert(done =~= start.insert(at as int, item));
        assert forall|i: int, j: int| 0 <= i < j < done.len() implies before(
            #[trigger] done[i],
            #[trigger] done[j],
        ) by {
            if i < at && j > at {
                assert(before(start[i], start[j - 1]));
            } else if j < at {
                assert(before(start[i], start[j]));
            } else if i > at {
                assert(before(start[i - 1], start[j - 1]));
            } else if i < at && j == at {
                assert(before(start[i], item));
            } else {
                assert(before(item, start[j - 1]));
            }
        }
        assert forall|x: Item| done.to_set().contains(x) == start.to_set().insert(item).contains(
            x,
        ) by {
            if done.to_set().contains(x) {
                let k = choose|k: int| 0 <= k < done.len() && done[k] == x;
                if k < at {
                    assert(start[k] == x);
                } else if k > at {
                    assert(start[k - 1] == x);
                }
            }
            if start.to_set().contains(x) {
                let k = choose|k: int| 0 <= k < start.len() && start[k] == x;
                if k < at {
                    assert(done[k] == x);
                } else {
                    assert(done[k + 1] == x);
                }
            }
            if x == item {
                assert(done[at as int] == x);
            }
        }
        assert(done.to_set() =~= start.to_set().insert(item));
    }
}

/// The list of a finite set has each item once, by ascending keys, and by ascending
/// numbers where the keys are equal.
pub proof fn law_listed_in_ascending_order(items: Set<Item>, item: Item, i: int, j: int)
    requires
        items.finite(),
    ensures
        in_order(items).contains(item) <==> items.contains(item),
        0 <= i < j < in_order(items).len() ==> in_order(items)[i].0 <= in_order(items)[j].0 && (
        in_order(items)[i].0 == in_order(items)[j].0 ==> in_order(items)[i].1 < in_order(
            items,
        )[j].1),
{
    lemma_set_order_exists(items);
    let list = in_order(items);
    assert(list.to_set().contains(item) == items.contains(item));
}

} // verus!
