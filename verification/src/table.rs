//! Key order: the one order in which the entries of a table are visited.
use vstd::prelude::*;
use std::collections::BTreeMap;
use core::cmp::Ordering;
use vstd::std_specs::btree::{axiom_increasing_seq_meaning, axiom_spec_btree_map_iter};
use vstd::std_specs::cmp::OrdSpec;
use vstd::std_specs::iter::IteratorSpec;

verus! {

/// Each key is smaller than every key behind it.
pub open spec fn increasing(keys: Seq<u64>) -> bool {
    forall|i: int, j: int| 0 <= i < j < keys.len() ==> keys[i] < keys[j]
}

/// The members of a finite set of keys, smallest first.
pub open spec fn key_order(keys: Set<u64>) -> Seq<u64> {
    choose|order: Seq<u64>| increasing(order) && order.to_set() == keys
}

/// The values of a table, by increasing key.
pub open spec fn values_in_key_order<V>(table: Map<u64, V>) -> Seq<V> {
    key_order(table.dom()).map_values(|key: u64| table[key])
}

/// Two increasing sequences over the same keys are the same sequence.
pub proof fn lemma_increasing_unique(left: Seq<u64>, right: Seq<u64>)
    requires
        increasing(left),
        increasing(right),
        left.to_set() == right.to_set(),
    ensures
        left == right,
    decreases left.len(),
{
    if left.len() == 0 {
        if right.len() > 0 {
            assert(right.to_set().contains(right[0]));
        }
    } else {
        let top = left.last();
        assert(left.to_set().contains(top));
        assert(right.to_set().contains(right.last()));
        let l = left.drop_last();
        let r = right.drop_last();
        assert forall|k: u64| l.to_set().contains(k) == r.to_set().contains(k) by {
            if l.contains(k) {
                assert(left.to_set().contains(k));
                let j = choose|j: int| 0 <= j < right.len() && right[j] == k;
                assert(r[j] == k);
            }
            if r.contains(k) {
                assert(right.to_set().contains(k));
                let i = choose|i: int| 0 <= i < left.len() && left[i] == k;
                assert(l[i] == k);
            }
        }
        assert(l.to_set() =~= r.to_set());
        lemma_increasing_unique(l, r);
        assert(right =~= r.push(top));
    }
}

/// An increasing sequence over the keys of a set is its key order.
pub proof fn lemma_key_order_is(keys: Set<u64>, order: Seq<u64>)
    requires
        increasing(order),
        order.to_set() == keys,
    ensures
        key_order(keys) == order,
{
    lemma_increasing_unique(key_order(keys), order);
}

/// A finite set of keys that is not empty has a greatest member.
pub proof fn lemma_has_greatest(keys: Set<u64>)
    requires
        keys.finite(),
        keys.len() > 0,
    ensures
        exists|top: u64| keys.contains(top) && forall|key: u64| keys.contains(key) ==> key <= top,
    decreases keys.len(),
{
    let one = keys.choose();
    let rest = keys.remove(one);
    if rest.len() == 0 {
        assert forall|key: u64| keys.contains(key) implies key <= one by {}
    } else {
        lemma_has_greatest(rest);
        let top = choose|top: u64|
            rest.contains(top) && forall|key: u64| rest.contains(key) ==> key <= top;
        let greatest = if one <= top {
            top
        } else {
            one
        };
        assert forall|key: u64| keys.contains(key) implies key <= greatest by {}
    }
}

/// The key order of a finite set is increasing and lists the set.
pub proof fn lemma_key_order(keys: Set<u64>)
    requires
        keys.finite(),
    ensures
        increasing(key_order(keys)),
        key_order(keys).to_set() == keys,
        key_order(keys).len() == keys.len(),
    decreases keys.len(),
{
    if keys.len() == 0 {
        let order = Seq::<u64>::empty();
        assert(increasing(order) && order.to_set() == keys);
    } else {
        lemma_has_greatest(keys);
        let top = choose|top: u64|
            keys.contains(top) && forall|key: u64| keys.contains(key) ==> key <= top;
        let rest = keys.remove(top);
        lemma_key_order(rest);
        let below = key_order(rest);
        let order = below.push(top);
        assert forall|i: int, j: int| 0 <= i < j < order.len() implies order[i] < order[j] by {
            assert(rest.contains(below[i]));
        }
        below.lemma_push_to_set_commute(top);
    }
    key_order(keys).unique_seq_to_set();
}

/// The keys of `table`, smallest first.
pub fn keys_in_order<V>(table: &BTreeMap<u64, V>) -> (keys: Vec<u64>)
    ensures
        keys@ == key_order(table@.dom()),
        increasing(keys@),
        keys@.to_set() == table@.dom(),
{
    let mut keys: Vec<u64> = Vec::new();
    let entries = table.iter();
    let ghost all = entries.remaining();
    for entry in walk: entries
        invariant
            keys@.len() == walk.index(),
            walk.seq() == all,
            forall|i: int| 0 <= i < keys@.len() ==> keys@[i] == *all[i].0,
    {
        keys.push(*entry.0);
    }
    proof {
        let listed = all.map_values(|entry: (&u64, &V)| *entry.0);
        axiom_increasing_seq_meaning::<u64>(listed);
        assert forall|i: int, j: int| 0 <= i < j < listed.len() implies listed[i] < listed[j] by {
            assert(listed[i].cmp_spec(&listed[j]) == Ordering::Less);
        }
        axiom_spec_btree_map_iter(table);
        assert forall|key: u64| table@.dom().contains(key) implies listed.to_set().contains(key) by {
            let i = choose|i: int| 0 <= i < all.len() && all[i] == (&key, &table@[key]);
            assert(listed[i] == key);
        }
        assert forall|key: u64| listed.to_set().contains(key) implies table@.dom().contains(key) by {}
        assert(listed.to_set() =~= table@.dom());
        lemma_key_order_is(table@.dom(), listed);
    }
    keys
}

} // verus!
