//! Merging ordered maps and lists where what is already there wins.
use vstd::prelude::*;
use indexmap::IndexMap;
use crate::index_map::{handle_entries, handle_map_into_entries, handle_or_insert, has_key, keys_unique};

verus! {

/// The entries of `base` after the entries of `other` are offered to it one
/// by one, in order: an entry whose key is already there is dropped, any
/// other one is appended.
pub open spec fn merge_entries<V>(base: Seq<(Seq<char>, V)>, other: Seq<(Seq<char>, V)>) -> Seq<
    (Seq<char>, V),
>
    decreases other.len(),
{
    if other.len() == 0 {
        base
    } else {
        let acc = merge_entries(base, other.drop_last());
        if has_key(acc, other.last().0) {
            acc
        } else {
            acc.push(other.last())
        }
    }
}

/// `base` after the items of `other` are offered to it one by one, in order:
/// an item that is already there is dropped, any other one is appended.
pub open spec fn merge_items<T>(base: Seq<T>, other: Seq<T>) -> Seq<T>
    decreases other.len(),
{
    if other.len() == 0 {
        base
    } else {
        let acc = merge_items(base, other.drop_last());
        if acc.contains(other.last()) {
            acc
        } else {
            acc.push(other.last())
        }
    }
}

/// Merges `other` into `base`: each entry of `other` whose key `base` does
/// not hold yet is appended to `base`, in `other`'s order; the entries of
/// `base` stay as they are.
pub fn merge_handle_map(base: &mut IndexMap<String, u64>, other: IndexMap<String, u64>)
    ensures
        handle_entries(*final(base)) == merge_entries(handle_entries(*old(base)), handle_entries(other)),
        keys_unique(handle_entries(other)),
        handle_entries(*final(base)) == handle_entries(*old(base)) + handle_entries(other).filter(
            |e: (Seq<char>, u64)| !has_key(handle_entries(*old(base)), e.0),
        ),
{
    let ghost b0 = handle_entries(*base);
    let ghost oe = handle_entries(other);
    let entries = handle_map_into_entries(other);
    let mut i: usize = 0;
    while i < entries.len()
        invariant
            i <= entries@.len(),
            entries@.len() == oe.len(),
            forall|j: int|
                0 <= j < entries@.len() ==> (#[trigger] entries@[j]).0@ == oe[j].0 && entries@[j].1
                    == oe[j].1,
            handle_entries(*base) == merge_entries(b0, oe.take(i as int)),
        decreases entries@.len() - i,
    {
        let key = entries[i].0.clone();
        let value = entries[i].1;
        assert(oe.take(i + 1).drop_last() =~= oe.take(i as int));
        assert(oe.take(i + 1).last() == (key@, value));
        handle_or_insert(base, key, value);
        i = i + 1;
    }
    assert(oe.take(oe.len() as int) =~= oe);
    proof {
        assert forall|a: int, b: int| 0 <= a < oe.len() && 0 <= b < oe.len() && a != b implies #[trigger] oe[a].0
            != #[trigger] oe[b].0 by {
            assert(entries@[a].0@ != entries@[b].0@);
        }
        law_merge_entries_closed_form(b0, oe);
    }
}

/// Appends to `base` each item of `other` that `base` does not hold yet, in
/// `other`'s order.
pub fn merge_handle_list(base: &mut Vec<u64>, other: Vec<u64>)
    ensures
        final(base)@ == merge_items(old(base)@, other@),
{
    let ghost b0 = base@;
    let mut i: usize = 0;
    while i < other.len()
        invariant
            i <= other@.len(),
            base@ == merge_items(b0, other@.take(i as int)),
        decreases other@.len() - i,
    {
        let item = other[i];
        assert(other@.take(i + 1).drop_last() =~= other@.take(i as int));
        let mut found = false;
        let mut j: usize = 0;
        while j < base.len()
            invariant
                j <= base@.len(),
                found <==> exists|k: int| 0 <= k < j && base@[k] == item,
            decreases base@.len() - j,
        {
            if base[j] == item {
                found = true;
            }
            j = j + 1;
        }
        if !found {
            base.push(item);
        } else {
            assert(base@.contains(item));
        }
        i = i + 1;
    }
    assert(other@.take(other@.len() as int) =~= other@);
}

/// Merging keeps what `base` held: `base` is the start of the result.
pub proof fn law_merge_entries_keeps_base<V>(base: Seq<(Seq<char>, V)>, other: Seq<(Seq<char>, V)>)
    ensures
        merge_entries(base, other).len() >= base.len(),
        merge_entries(base, other).subrange(0, base.len() as int) == base,
    decreases other.len(),
{
    if other.len() > 0 {
        law_merge_entries_keeps_base(base, other.drop_last());
        let acc = merge_entries(base, other.drop_last());
        assert(acc.push(other.last()).subrange(0, base.len() as int) =~= acc.subrange(0, base.len() as int));
    }
}

/// After merging, every key of `base` and of `other` is held, and no other.
pub proof fn law_merge_entries_keys<V>(base: Seq<(Seq<char>, V)>, other: Seq<(Seq<char>, V)>, k: Seq<char>)
    ensures
        has_key(merge_entries(base, other), k) <==> (has_key(base, k) || has_key(other, k)),
    decreases other.len(),
{
    if other.len() > 0 {
        let acc = merge_entries(base, other.drop_last());
        law_merge_entries_keys(base, other.drop_last(), k);
        if has_key(other, k) && !has_key(other.drop_last(), k) {
            assert(other.last().0 == k) by {
                let i = choose|i: int| 0 <= i < other.len() && #[trigger] other[i].0 == k;
                if i < other.len() - 1 {
                    assert(other.drop_last()[i].0 == k);
                }
            }
        }
        if has_key(other.drop_last(), k) {
            let i = choose|i: int| 0 <= i < other.drop_last().len() && #[trigger] other.drop_last()[i].0 == k;
            assert(other[i].0 == k);
        }
        if !has_key(acc, other.last().0) {
            let r = acc.push(other.last());
            if has_key(acc, k) {
                let i = choose|i: int| 0 <= i < acc.len() && #[trigger] acc[i].0 == k;
                assert(r[i].0 == k);
            }
            if has_key(r, k) && !has_key(acc, k) {
                let i = choose|i: int| 0 <= i < r.len() && #[trigger] r[i].0 == k;
                if i < acc.len() {
                    assert(acc[i].0 == k);
                }
                assert(other[other.len() - 1].0 == k);
            }
            if other.last().0 == k {
                assert(r[acc.len() as int].0 == k);
            }
        }
    }
}

/// Merging into a map with distinct keys gives a map with distinct keys.
pub proof fn law_merge_entries_keys_unique<V>(base: Seq<(Seq<char>, V)>, other: Seq<(Seq<char>, V)>)
    requires
        keys_unique(base),
    ensures
        keys_unique(merge_entries(base, other)),
    decreases other.len(),
{
    if other.len() > 0 {
        law_merge_entries_keys_unique(base, other.drop_last());
        let acc = merge_entries(base, other.drop_last());
        if !has_key(acc, other.last().0) {
            let r = acc.push(other.last());
            assert forall|i: int, j: int|
                0 <= i < r.len() && 0 <= j < r.len() && i != j implies #[trigger] r[i].0
                != #[trigger] r[j].0 by {
                if i == acc.len() {
                    assert(acc[j].0 != other.last().0);
                } else if j == acc.len() {
                    assert(acc[i].0 != other.last().0);
                } else {
                    assert(r[i] == acc[i] && r[j] == acc[j]);
                }
            }
        }
    }
}

/// What merging appends comes from `other`, under a key that `base` lacks.
pub proof fn law_merge_entries_added<V>(base: Seq<(Seq<char>, V)>, other: Seq<(Seq<char>, V)>, i: int)
    requires
        base.len() <= i < merge_entries(base, other).len(),
    ensures
        other.contains(merge_entries(base, other)[i]),
        !has_key(base, merge_entries(base, other)[i].0),
    decreases other.len(),
{
    let acc = merge_entries(base, other.drop_last());
    law_merge_entries_keeps_base(base, other.drop_last());
    if i < acc.len() {
        law_merge_entries_added(base, other.drop_last(), i);
        let x = acc[i];
        let k = choose|k: int| 0 <= k < other.drop_last().len() && other.drop_last()[k] == x;
        assert(other[k] == x);
    } else {
        assert(other[other.len() - 1] == other.last());
        if has_key(base, other.last().0) {
            let k = choose|k: int| 0 <= k < base.len() && #[trigger] base[k].0 == other.last().0;
            assert(acc[k] == base[k]);
        }
    }
}

/// Merging changes nothing when `base` already holds every key of `other`:
/// in particular a map merged with itself, or with an empty map, is unchanged.
pub proof fn law_merge_entries_absorbs<V>(base: Seq<(Seq<char>, V)>, other: Seq<(Seq<char>, V)>)
    requires
        forall|i: int| 0 <= i < other.len() ==> has_key(base, #[trigger] other[i].0),
    ensures
        merge_entries(base, other) == base,
    decreases other.len(),
{
    if other.len() > 0 {
        assert forall|i: int| 0 <= i < other.drop_last().len() implies has_key(
            base,
            #[trigger] other.drop_last()[i].0,
        ) by {
            assert(other.drop_last()[i] == other[i]);
        }
        law_merge_entries_absorbs(base, other.drop_last());
        assert(has_key(base, other[other.len() - 1].0));
    }
}

/// Merging into an empty map gives `other` itself, when its keys are distinct.
pub proof fn law_merge_entries_into_empty<V>(other: Seq<(Seq<char>, V)>)
    requires
        keys_unique(other),
    ensures
        merge_entries(Seq::empty(), other) == other,
    decreases other.len(),
{
    if other.len() > 0 {
        let o = other.drop_last();
        assert(keys_unique(o)) by {
            assert forall|i: int, j: int|
                0 <= i < o.len() && 0 <= j < o.len() && i != j implies #[trigger] o[i].0
                != #[trigger] o[j].0 by {
                assert(o[i] == other[i] && o[j] == other[j]);
            }
        }
        law_merge_entries_into_empty(o);
        if has_key(o, other.last().0) {
            let k = choose|k: int| 0 <= k < o.len() && #[trigger] o[k].0 == other.last().0;
            assert(other[k].0 == other[other.len() - 1].0);
        }
        assert(o.push(other.last()) =~= other);
    }
}

/// Merging items keeps what `base` held: `base` is the start of the result.
pub proof fn law_merge_items_keeps_base<T>(base: Seq<T>, other: Seq<T>)
    ensures
        merge_items(base, other).len() >= base.len(),
        merge_items(base, other).subrange(0, base.len() as int) == base,
    decreases other.len(),
{
    if other.len() > 0 {
        law_merge_items_keeps_base(base, other.drop_last());
        let acc = merge_items(base, other.drop_last());
        assert(acc.push(other.last()).subrange(0, base.len() as int) =~= acc.subrange(0, base.len() as int));
    }
}

/// After merging items, every item of `base` and of `other` is held, and no other.
pub proof fn law_merge_items_contents<T>(base: Seq<T>, other: Seq<T>, x: T)
    ensures
        merge_items(base, other).contains(x) <==> (base.contains(x) || other.contains(x)),
    decreases other.len(),
{
    if other.len() > 0 {
        let acc = merge_items(base, other.drop_last());
        law_merge_items_contents(base, other.drop_last(), x);
        if other.contains(x) && !other.drop_last().contains(x) {
            let i = choose|i: int| 0 <= i < other.len() && other[i] == x;
            if i < other.len() - 1 {
                assert(other.drop_last()[i] == x);
            }
        }
        if other.drop_last().contains(x) {
            let i = choose|i: int| 0 <= i < other.drop_last().len() && other.drop_last()[i] == x;
            assert(other[i] == x);
        }
        if !acc.contains(other.last()) {
            let r = acc.push(other.last());
            if acc.contains(x) {
                let i = choose|i: int| 0 <= i < acc.len() && acc[i] == x;
                assert(r[i] == x);
            }
            if r.contains(x) && !acc.contains(x) {
                let i = choose|i: int| 0 <= i < r.len() && r[i] == x;
                if i < acc.len() {
                    assert(acc[i] == x);
                }
                assert(other[other.len() - 1] == x);
            }
            if other.last() == x {
                assert(r[acc.len() as int] == x);
            }
        }
    }
}

/// Merging items into a list without repeats gives a list without repeats.
pub proof fn law_merge_items_no_repeats<T>(base: Seq<T>, other: Seq<T>)
    requires
        base.no_duplicates(),
    ensures
        merge_items(base, other).no_duplicates(),
    decreases other.len(),
{
    if other.len() > 0 {
        law_merge_items_no_repeats(base, other.drop_last());
        let acc = merge_items(base, other.drop_last());
        if !acc.contains(other.last()) {
            let r = acc.push(other.last());
            assert forall|i: int, j: int|
                0 <= i < r.len() && 0 <= j < r.len() && i != j implies r[i] != r[j] by {
                if i == acc.len() {
                    assert(acc[j] != other.last());
                } else if j == acc.len() {
                    assert(acc[i] != other.last());
                }
            }
        }
    }
}

/// Merging items changes nothing when `base` already holds every item of
/// `other`: a list merged with itself, or with an empty list, is unchanged.
pub proof fn law_merge_items_absorbs<T>(base: Seq<T>, other: Seq<T>)
    requires
        forall|i: int| 0 <= i < other.len() ==> base.contains(#[trigger] other[i]),
    ensures
        merge_items(base, other) == base,
    decreases other.len(),
{
    if other.len() > 0 {
        assert forall|i: int| 0 <= i < other.drop_last().len() implies base.contains(
            #[trigger] other.drop_last()[i],
        ) by {
            assert(other.drop_last()[i] == other[i]);
        }
        law_merge_items_absorbs(base, other.drop_last());
        assert(base.contains(other[other.len() - 1]));
    }
}

/// Merging appends, in `other`'s order, exactly the entries of `other` whose
/// key `base` lacks, when the keys of `other` are distinct.
pub proof fn law_merge_entries_closed_form<V>(base: Seq<(Seq<char>, V)>, other: Seq<(Seq<char>, V)>)
    requires
        keys_unique(other),
    ensures
        merge_entries(base, other) == base + other.filter(|e: (Seq<char>, V)| !has_key(base, e.0)),
    decreases other.len(),
{
    let p = |e: (Seq<char>, V)| !has_key(base, e.0);
    broadcast use vstd::seq_lib::group_filter_ensures;
    reveal(Seq::filter);
    if other.len() == 0 {
        assert(base + other.filter(p) =~= base);
    } else {
        let o = other.drop_last();
        let e = other.last();
        assert(keys_unique(o)) by {
            assert forall|i: int, j: int|
                0 <= i < o.len() && 0 <= j < o.len() && i != j implies #[trigger] o[i].0
                != #[trigger] o[j].0 by {
                assert(o[i] == other[i] && o[j] == other[j]);
            }
        }
        law_merge_entries_closed_form(base, o);
        let acc = merge_entries(base, o);
        assert(other.filter(p) == if p(e) { o.filter(p).push(e) } else { o.filter(p) });
        if p(e) {
            assert(!has_key(acc, e.0)) by {
                if has_key(acc, e.0) {
                    let i = choose|i: int| 0 <= i < acc.len() && #[trigger] acc[i].0 == e.0;
                    if i < base.len() {
                        assert(base[i] == acc[i]);
                    } else {
                        let f = o.filter(p);
                        assert(acc[i] == f[i - base.len()]);
                        assert(f.contains(f[i - base.len()]));
                        o.lemma_filter_contains_rev(p, f[i - base.len()]);
                        let k = choose|k: int| 0 <= k < o.len() && o[k] == f[i - base.len()];
                        assert(other[k] == o[k]);
                        assert(other[other.len() - 1] == e);
                    }
                }
            }
            assert(acc.push(e) =~= base + o.filter(p).push(e));
        } else {
            let i = choose|i: int| 0 <= i < base.len() && #[trigger] base[i].0 == e.0;
            assert(acc[i] == base[i]);
        }
    }
}

} // verus!
