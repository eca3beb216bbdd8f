//! Lists whose items are told apart by a key.
//!
//! The bus keeps its subscriptions in such a list, and the client its
//! players. What such a list holds is a map from the keys to what the items
//! stand for, as long as no two items share a key.

use vstd::prelude::*;

verus! {

/// Whether some item of the list has the key.
pub open spec fn holds<T, K>(items: Seq<T>, key: spec_fn(T) -> K, k: K) -> bool {
    exists|i: int| 0 <= i < items.len() && key(#[trigger] items[i]) == k
}

/// Where an item with the key stands in the list, if there is one.
pub open spec fn slot<T, K>(items: Seq<T>, key: spec_fn(T) -> K, k: K) -> int {
    choose|i: int| 0 <= i < items.len() && key(#[trigger] items[i]) == k
}

/// Whether no two items of the list share a key.
pub open spec fn distinct<T, K>(items: Seq<T>, key: spec_fn(T) -> K) -> bool {
    forall|i: int, j: int| 0 <= i < j < items.len() ==> key(#[trigger] items[i]) != key(#[trigger] items[j])
}

/// What the list holds: for every key of an item, what that item stands
/// for.
pub open spec fn by_key<T, K, V>(items: Seq<T>, key: spec_fn(T) -> K, value: spec_fn(T) -> V) -> Map<K, V> {
    Map::new(|k: K| holds(items, key, k), |k: K| value(items[slot(items, key, k)]))
}

/// In a list without shared keys, an item is found where it stands.
pub proof fn lemma_slot<T, K>(items: Seq<T>, key: spec_fn(T) -> K, i: int)
    requires
        distinct(items, key),
        0 <= i < items.len(),
    ensures
        holds(items, key, key(items[i])),
        slot(items, key, key(items[i])) == i,
{
    let k = key(items[i]);
    let s = slot(items, key, k);
    assert(0 <= s < items.len() && key(items[s]) == k);
    if s < i {
        assert(key(items[s]) != key(items[i]));
    } else if i < s {
        assert(key(items[i]) != key(items[s]));
    }
}

/// A key that the list holds is the key of the item at its slot.
pub proof fn lemma_found<T, K>(items: Seq<T>, key: spec_fn(T) -> K, k: K)
    requires
        holds(items, key, k),
    ensures
        0 <= slot(items, key, k) < items.len(),
        key(items[slot(items, key, k)]) == k,
{
}

/// A list without shared keys holds as many keys as it has items.
pub proof fn lemma_count<T, K, V>(items: Seq<T>, key: spec_fn(T) -> K, value: spec_fn(T) -> V)
    requires
        distinct(items, key),
    ensures
        by_key(items, key, value).dom().finite(),
        by_key(items, key, value).dom().len() == items.len(),
    decreases items.len(),
{
    let dom = by_key(items, key, value).dom();
    if items.len() == 0 {
        assert(dom =~= Set::empty());
    } else {
        let rest = items.drop_last();
        let last = items.last();
        assert forall|i: int, j: int| 0 <= i < j < rest.len() implies key(#[trigger] rest[i]) != key(
            #[trigger] rest[j],
        ) by {
            assert(key(items[i]) != key(items[j]));
        }
        lemma_count(rest, key, value);
        let rest_dom = by_key(rest, key, value).dom();
        assert(!rest_dom.contains(key(last))) by {
            if holds(rest, key, key(last)) {
                let s = slot(rest, key, key(last));
                assert(key(items[s]) != key(items[items.len() - 1]));
            }
        }
        assert forall|k: K| dom.contains(k) == rest_dom.insert(key(last)).contains(k) by {
            if holds(items, key, k) {
                let s = slot(items, key, k);
                if s < rest.len() {
                    assert(key(rest[s]) == k);
                }
            }
            if holds(rest, key, k) {
                let s = slot(rest, key, k);
                assert(key(items[s]) == k);
            }
            if k == key(last) {
                assert(key(items[items.len() - 1]) == k);
            }
        }
        assert(dom =~= rest_dom.insert(key(last)));
    }
}

/// An item with a new key, put at the end, is one more entry.
pub proof fn lemma_push<T, K, V>(items: Seq<T>, key: spec_fn(T) -> K, value: spec_fn(T) -> V, item: T)
    requires
        distinct(items, key),
        !holds(items, key, key(item)),
    ensures
        distinct(items.push(item), key),
        by_key(items.push(item), key, value) == by_key(items, key, value).insert(key(item), value(item)),
{
    let after = items.push(item);
    let last = items.len() as int;
    assert(after[last] == item);
    assert forall|i: int, j: int| 0 <= i < j < after.len() implies key(#[trigger] after[i]) != key(
        #[trigger] after[j],
    ) by {
        assert(after[i] == items[i]);
        if j == last {
            assert(key(items[i]) != key(item));
        } else {
            assert(after[j] == items[j]);
        }
    }
    assert forall|k: K| #[trigger] holds(after, key, k) == (holds(items, key, k) || k == key(item)) by {
        if holds(items, key, k) {
            let s = slot(items, key, k);
            assert(key(after[s]) == k);
        }
        if k == key(item) {
            assert(key(after[last]) == k);
        }
        if holds(after, key, k) {
            let s = slot(after, key, k);
            if s < last {
                assert(key(items[s]) == k);
            }
        }
    }
    assert forall|k: K| holds(items, key, k) implies #[trigger] by_key(after, key, value)[k] == by_key(
        items,
        key,
        value,
    )[k] by {
        let s = slot(items, key, k);
        assert(after[s] == items[s]);
        lemma_slot(after, key, s);
    }
    lemma_slot(after, key, last);
    assert(by_key(after, key, value) =~= by_key(items, key, value).insert(key(item), value(item)));
}

/// An item that is taken out takes its entry along.
pub proof fn lemma_remove<T, K, V>(items: Seq<T>, key: spec_fn(T) -> K, value: spec_fn(T) -> V, at: int)
    requires
        distinct(items, key),
        0 <= at < items.len(),
    ensures
        distinct(items.remove(at), key),
        by_key(items.remove(at), key, value) == by_key(items, key, value).remove(key(items[at])),
{
    let after = items.remove(at);
    let gone = key(items[at]);
    assert forall|j: int| 0 <= j < after.len() implies #[trigger] after[j] == items[if j < at {
        j
    } else {
        j + 1
    }] by {}
    assert forall|a: int, b: int| 0 <= a < b < after.len() implies key(#[trigger] after[a]) != key(
        #[trigger] after[b],
    ) by {
        let a0 = if a < at { a } else { a + 1 };
        let b0 = if b < at { b } else { b + 1 };
        assert(after[a] == items[a0]);
        assert(after[b] == items[b0]);
        assert(key(items[a0]) != key(items[b0]));
    }
    assert forall|k: K| #[trigger] holds(after, key, k) == (holds(items, key, k) && k != gone) by {
        if holds(after, key, k) {
            let s = slot(after, key, k);
            let s0 = if s < at { s } else { s + 1 };
            assert(after[s] == items[s0]);
            assert(key(items[s0]) == k);
            if s0 < at {
                assert(key(items[s0]) != key(items[at]));
            } else {
                assert(key(items[at]) != key(items[s0]));
            }
        }
        if holds(items, key, k) && k != gone {
            let s0 = slot(items, key, k);
            let s = if s0 < at { s0 } else { s0 - 1 };
            assert(after[s] == items[s0]);
            assert(key(after[s]) == k);
        }
    }
    assert forall|k: K| holds(after, key, k) implies #[trigger] by_key(after, key, value)[k] == by_key(
        items,
        key,
        value,
    )[k] by {
        let s = slot(after, key, k);
        let s0 = if s < at { s } else { s + 1 };
        assert(after[s] == items[s0]);
        lemma_slot(items, key, s0);
    }
    assert(by_key(after, key, value) =~= by_key(items, key, value).remove(gone));
}

/// Where every item keeps its key, the list keeps its keys, and every key
/// stands for what the item in its old place now stands for.
pub proof fn lemma_same_keys<T, K, V>(before: Seq<T>, after: Seq<T>, key: spec_fn(T) -> K, value: spec_fn(T) -> V)
    requires
        distinct(before, key),
        after.len() == before.len(),
        forall|i: int| 0 <= i < before.len() ==> key(#[trigger] after[i]) == key(before[i]),
    ensures
        distinct(after, key),
        by_key(after, key, value).dom() == by_key(before, key, value).dom(),
        forall|k: K| #[trigger]
            holds(before, key, k) ==> by_key(after, key, value)[k] == value(after[slot(before, key, k)]),
{
    assert forall|a: int, b: int| 0 <= a < b < after.len() implies key(#[trigger] after[a]) != key(
        #[trigger] after[b],
    ) by {
        assert(key(before[a]) != key(before[b]));
    }
    assert forall|k: K| #[trigger] holds(after, key, k) == holds(before, key, k) by {
        if holds(after, key, k) {
            let s = slot(after, key, k);
            assert(key(before[s]) == k);
        }
        if holds(before, key, k) {
            let s = slot(before, key, k);
            assert(key(after[s]) == k);
        }
    }
    assert(by_key(after, key, value).dom() =~= by_key(before, key, value).dom());
    assert forall|k: K| #[trigger] holds(before, key, k) implies by_key(after, key, value)[k] == value(
        after[slot(before, key, k)],
    ) by {
        let s = slot(before, key, k);
        assert(key(after[s]) == k);
        lemma_slot(after, key, s);
    }
}

/// An item that is put in the place of one with the same key takes over
/// its entry.
pub proof fn lemma_replace<T, K, V>(
    before: Seq<T>,
    after: Seq<T>,
    key: spec_fn(T) -> K,
    value: spec_fn(T) -> V,
    at: int,
)
    requires
        distinct(before, key),
        0 <= at < before.len(),
        after.len() == before.len(),
        key(after[at]) == key(before[at]),
        forall|i: int| 0 <= i < before.len() && i != at ==> #[trigger] after[i] == before[i],
    ensures
        distinct(after, key),
        by_key(after, key, value) == by_key(before, key, value).insert(key(before[at]), value(after[at])),
{
    assert forall|i: int| 0 <= i < before.len() implies key(#[trigger] after[i]) == key(before[i]) by {
        if i != at {
            assert(after[i] == before[i]);
        }
    }
    lemma_same_keys(before, after, key, value);
    lemma_slot(before, key, at);
    assert forall|k: K| holds(before, key, k) && k != key(before[at]) implies #[trigger] by_key(
        after,
        key,
        value,
    )[k] == by_key(before, key, value)[k] by {
        let s = slot(before, key, k);
        assert(after[s] == before[s]);
    }
    assert(by_key(after, key, value) =~= by_key(before, key, value).insert(key(before[at]), value(after[at])));
}

} // verus!
