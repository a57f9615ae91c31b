//! Ordered, duplicate-free collections: a vector whose items stand in strictly
//! ascending order of their keys, built by inserting one item at a time.

use vstd::prelude::*;
use crate::text::Order;

verus! {

/// Items that are ordered by a key. Two items of which neither comes before the
/// other have the same key.
pub trait Keyed: Sized {
    /// Whether the key of `self` comes strictly before that of `other`.
    spec fn before(&self, other: &Self) -> bool;

    /// `before` is irreflexive and transitive.
    proof fn lemma_strict_order(a: &Self, b: &Self, c: &Self)
        ensures
            !a.before(a),
            a.before(b) && b.before(c) ==> a.before(c),
            a.before(b) && !c.before(b) && !b.before(c) ==> a.before(c),
            !a.before(b) && !b.before(a) && b.before(c) ==> a.before(c),
    ;

    /// Compares the keys of two items.
    fn compare(&self, other: &Self) -> (o: Order)
        ensures
            o is Less <==> self.before(other),
            o is Greater <==> other.before(self),
    ;
}

/// Whether two items have the same key.
pub open spec fn same_key<T: Keyed>(a: T, b: T) -> bool {
    !a.before(&b) && !b.before(&a)
}

/// Whether the items stand in strictly ascending order of their keys. Such a
/// sequence holds no key twice.
pub open spec fn strictly_ascending<T: Keyed>(items: Seq<T>) -> bool {
    forall|i: int, j: int| 0 <= i < j < items.len() ==> #[trigger] items[i].before(&#[trigger] items[j])
}

/// Whether some item of `items` has the key of `item`.
pub open spec fn holds_key<T: Keyed>(items: Seq<T>, item: T) -> bool {
    exists|i: int| 0 <= i < items.len() && same_key(#[trigger] items[i], item)
}

/// `items`, ascending, with `item` put in its place; unchanged where an item
/// with the same key is already there.
pub open spec fn with_item<T: Keyed>(items: Seq<T>, item: T) -> Seq<T>
    decreases items.len(),
{
    if items.len() == 0 {
        seq![item]
    } else if items.last().before(&item) {
        items.push(item)
    } else if item.before(&items.last()) {
        with_item(items.drop_last(), item).push(items.last())
    } else {
        items
    }
}

/// The ordered collection that inserting `items` one after the other gives. Of
/// several items with one key the first is kept.
pub open spec fn ordered<T: Keyed>(items: Seq<T>) -> Seq<T>
    decreases items.len(),
{
    if items.len() == 0 {
        Seq::empty()
    } else {
        with_item(ordered(items.drop_last()), items.last())
    }
}

/// Inserting into an ascending sequence keeps it ascending, keeps what was
/// there, and adds nothing but the new item.
pub proof fn lemma_with_item<T: Keyed>(items: Seq<T>, item: T)
    requires
        strictly_ascending(items),
    ensures
        strictly_ascending(with_item(items, item)),
        holds_key(with_item(items, item), item),
        forall|i: int| 0 <= i < items.len() ==> with_item(items, item).contains(#[trigger] items[i]),
        forall|i: int|
            0 <= i < with_item(items, item).len() ==> #[trigger] with_item(items, item)[i] == item
                || items.contains(with_item(items, item)[i]),
        holds_key(items, item) ==> with_item(items, item) == items,
        !holds_key(items, item) ==> with_item(items, item).contains(item),
    decreases items.len(),
{
    let out = with_item(items, item);
    T::lemma_strict_order(&item, &item, &item);
    if items.len() == 0 {
        assert(out[0] == item);
        assert(same_key(out[0], item));
    } else if items.last().before(&item) {
        assert forall|i: int, j: int| 0 <= i < j < out.len() implies #[trigger] out[i].before(
            &#[trigger] out[j],
        ) by {
            if j == items.len() && i < items.len() - 1 {
                T::lemma_strict_order(&items[i], &items.last(), &item);
            }
        }
        assert(out[items.len() as int] == item);
        assert(same_key(out[items.len() as int], item));
        assert forall|i: int| 0 <= i < items.len() implies out.contains(#[trigger] items[i]) by {
            assert(out[i] == items[i]);
        }
        assert forall|i: int| 0 <= i < out.len() implies #[trigger] out[i] == item
            || items.contains(out[i]) by {
            if i < items.len() {
                assert(items[i] == out[i]);
            }
        }
        if holds_key(items, item) {
            let k = choose|k: int| 0 <= k < items.len() && same_key(#[trigger] items[k], item);
            if k < items.len() - 1 {
                T::lemma_strict_order(&items[k], &items.last(), &item);
            }
        }
    } else if item.before(&items.last()) {
        let front = items.drop_last();
        let inner = with_item(front, item);
        assert(strictly_ascending(front)) by {
            assert forall|i: int, j: int| 0 <= i < j < front.len() implies #[trigger] front[i].before(
                &#[trigger] front[j],
            ) by {
                assert(front[i] == items[i] && front[j] == items[j]);
            }
        }
        lemma_with_item(front, item);
        assert forall|i: int| 0 <= i < inner.len() implies (#[trigger] inner[i]).before(
            &items.last(),
        ) by {
            if inner[i] == item {
            } else {
                let k = choose|k: int| 0 <= k < front.len() && front[k] == inner[i];
                assert(items[k].before(&items[items.len() - 1]));
            }
        }
        assert forall|i: int, j: int| 0 <= i < j < out.len() implies #[trigger] out[i].before(
            &#[trigger] out[j],
        ) by {
            if j < inner.len() {
                assert(out[i] == inner[i] && out[j] == inner[j]);
            } else {
                assert(out[i] == inner[i]);
            }
        }
        let w = choose|w: int| 0 <= w < inner.len() && same_key(#[trigger] inner[w], item);
        assert(out[w] == inner[w]);
        assert forall|i: int| 0 <= i < items.len() implies out.contains(#[trigger] items[i]) by {
            if i < front.len() {
                assert(front[i] == items[i]);
                let k = choose|k: int| 0 <= k < inner.len() && inner[k] == front[i];
                assert(out[k] == items[i]);
            } else {
                assert(out[out.len() - 1] == items[i]);
            }
        }
        assert forall|i: int| 0 <= i < out.len() implies #[trigger] out[i] == item
            || items.contains(out[i]) by {
            if i < inner.len() {
                assert(out[i] == inner[i]);
                if inner[i] != item {
                    let k = choose|k: int| 0 <= k < front.len() && front[k] == inner[i];
                    assert(items[k] == out[i]);
                }
            } else {
                assert(items[items.len() - 1] == out[i]);
            }
        }
        if holds_key(items, item) {
            let k = choose|k: int| 0 <= k < items.len() && same_key(#[trigger] items[k], item);
            assert(k < items.len() - 1);
            assert(same_key(front[k], item));
            assert(inner == front);
            assert(out =~= items);
        } else {
            if holds_key(front, item) {
                let k = choose|k: int| 0 <= k < front.len() && same_key(#[trigger] front[k], item);
                assert(same_key(items[k], item));
            }
            let k = choose|k: int| 0 <= k < inner.len() && inner[k] == item;
            assert(out[k] == item);
        }
    } else {
        assert(same_key(items[items.len() - 1], item));
    }
}

/// An ordered collection is strictly ascending, so it holds no key twice.
pub proof fn lemma_ordered_ascending<T: Keyed>(items: Seq<T>)
    ensures
        strictly_ascending(ordered(items)),
    decreases items.len(),
{
    if items.len() > 0 {
        lemma_ordered_ascending(items.drop_last());
        lemma_with_item(ordered(items.drop_last()), items.last());
    }
}

/// An ordered collection holds items of the input only, and the key of every
/// item of the input.
pub proof fn lemma_ordered_members<T: Keyed>(items: Seq<T>)
    ensures
        forall|i: int| 0 <= i < ordered(items).len() ==> items.contains(#[trigger] ordered(items)[i]),
        forall|i: int| 0 <= i < items.len() ==> holds_key(ordered(items), #[trigger] items[i]),
    decreases items.len(),
{
    if items.len() > 0 {
        let front = items.drop_last();
        let inner = ordered(front);
        let out = ordered(items);
        lemma_ordered_ascending(front);
        lemma_ordered_members(front);
        lemma_with_item(inner, items.last());
        assert forall|i: int| 0 <= i < out.len() implies items.contains(#[trigger] out[i]) by {
            if out[i] == items.last() {
                assert(items[items.len() - 1] == out[i]);
            } else {
                let k = choose|k: int| 0 <= k < inner.len() && inner[k] == out[i];
                let m = choose|m: int| 0 <= m < front.len() && front[m] == inner[k];
                assert(items[m] == out[i]);
            }
        }
        assert forall|i: int| 0 <= i < items.len() implies holds_key(out, #[trigger] items[i]) by {
            if i < front.len() {
                assert(front[i] == items[i]);
                let k = choose|k: int| 0 <= k < inner.len() && same_key(#[trigger] inner[k], front[i]);
                let m = choose|m: int| 0 <= m < out.len() && out[m] == inner[k];
                assert(same_key(out[m], items[i]));
            }
        }
    }
}

/// Puts `item` in its place in the ascending vector `items`, unless an item
/// with the same key is already there.
fn insert_ordered<T: Keyed>(items: &mut Vec<T>, item: T)
    requires
        strictly_ascending(old(items)@),
    ensures
        final(items)@ == with_item(old(items)@, item),
        strictly_ascending(final(items)@),
{
    let ghost before = items@;
    let mut at: usize = items.len();
    let mut found = false;
    proof {
        assert(before.take(at as int) =~= before);
        assert(before.skip(at as int) =~= Seq::<T>::empty());
        assert(with_item(before, item) =~= with_item(before.take(at as int), item) + before.skip(
            at as int,
        ));
    }
    while at > 0 && !found
        invariant
            items@ == before,
            before == old(items)@,
            strictly_ascending(before),
            at <= before.len(),
            !found ==> with_item(before, item) == with_item(before.take(at as int), item)
                + before.skip(at as int),
            found ==> with_item(before, item) == before,
            !found && at < before.len() ==> item.before(&before[at as int]),
        decreases at + if found { 0int } else { 1 },
    {
        let ghost prefix = before.take(at as int);
        proof {
            assert(prefix.last() == before[at - 1]);
            assert(prefix.drop_last() =~= before.take(at - 1));
        }
        match item.compare(&items[at - 1]) {
            Order::Less => {
                proof {
                    assert(with_item(prefix, item) == with_item(before.take(at - 1), item).push(
                        before[at - 1],
                    ));
                    assert(with_item(before.take(at - 1), item).push(before[at - 1]) + before.skip(
                        at as int,
                    ) =~= with_item(before.take(at - 1), item) + before.skip(at - 1));
                }
                at -= 1;
            },
            Order::Equal => {
                proof {
                    assert(with_item(prefix, item) == prefix);
                    assert(prefix + before.skip(at as int) =~= before);
                }
                found = true;
            },
            Order::Greater => {
                proof {
                    assert(with_item(prefix, item) == prefix.push(item));
                    assert(prefix.push(item) + before.skip(at as int) =~= before.insert(
                        at as int,
                        item,
                    ));
                }
                items.insert(at, item);
                proof {
                    lemma_with_item(before, item);
                }
                return ;
            },
        }
    }
    proof {
        lemma_with_item(before, item);
    }
    if !found {
        proof {
            assert(before.take(0) =~= Seq::<T>::empty());
            assert(seq![item] + before.skip(0) =~= before.insert(0, item));
        }
        items.insert(0, item);
    }
}

/// Builds the ordered collection of `items`.
pub fn into_ordered<T: Keyed>(items: Vec<T>) -> (out: Vec<T>)
    ensures
        out@ == ordered(items@),
        strictly_ascending(out@),
{
    let ghost all = items@;
    let mut rest = items;
    let mut stack: Vec<T> = Vec::new();
    // Items are taken from the back, so turn the input round first.
    while rest.len() > 0
        invariant
            rest@ + stack@.reverse() == all,
        decreases rest.len(),
    {
        let ghost old_rest = rest@;
        let ghost old_stack = stack@;
        let item = rest.pop().unwrap();
        stack.push(item);
        proof {
            assert(stack@.reverse() =~= seq![item] + old_stack.reverse());
            assert(old_rest =~= rest@ + seq![item]);
            assert(rest@ + stack@.reverse() =~= old_rest + old_stack.reverse());
        }
    }
    proof {
        assert(stack@.reverse() =~= all);
    }
    let mut out: Vec<T> = Vec::new();
    let ghost mut done: int = 0;
    while stack.len() > 0
        invariant
            0 <= done <= all.len(),
            stack@.reverse() == all.skip(done),
            out@ == ordered(all.take(done)),
            strictly_ascending(out@),
        decreases stack.len(),
    {
        let ghost old_stack = stack@;
        let item = stack.pop().unwrap();
        proof {
            assert(old_stack.reverse().len() == old_stack.len());
            assert(all.skip(done).len() == all.len() - done);
            assert(old_stack.reverse()[0] == item);
            assert(all.skip(done)[0] == all[done]);
            assert(all.take(done + 1).drop_last() =~= all.take(done));
            assert(all.take(done + 1).last() == item);
            assert(stack@.reverse() =~= old_stack.reverse().drop_first());
            assert(all.skip(done).drop_first() =~= all.skip(done + 1));
        }
        insert_ordered(&mut out, item);
        proof {
            done = done + 1;
        }
    }
    proof {
        assert(stack@.reverse().len() == 0);
        assert(all.take(done) =~= all);
    }
    out
}

/// Tells whether the items stand in strictly ascending order of their keys.
pub fn is_ascending<T: Keyed>(items: &Vec<T>) -> (r: bool)
    ensures
        r == strictly_ascending(items@),
{
    if items.len() < 2 {
        return true;
    }
    let mut i: usize = 1;
    while i < items.len()
        invariant
            1 <= i <= items.len(),
            forall|a: int, b: int|
                0 <= a < b < i ==> #[trigger] items@[a].before(&#[trigger] items@[b]),
        decreases items.len() - i,
    {
        match items[i - 1].compare(&items[i]) {
            Order::Less => {
                proof {
                    assert forall|a: int, b: int| 0 <= a < b < i + 1 implies #[trigger] items@[a].before(
                        &#[trigger] items@[b],
                    ) by {
                        if b == i && a < i - 1 {
                            assert(items@[a].before(&items@[i - 1]));
                            T::lemma_strict_order(&items@[a], &items@[i - 1], &items@[i as int]);
                        }
                    }
                }
            },
            _ => {
                proof {
                    assert(!items@[i - 1].before(&items@[i as int]));
                }
                return false;
            },
        }
        i += 1;
    }
    true
}

} // verus!
