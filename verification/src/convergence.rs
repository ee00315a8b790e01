//! The store as a run leaves it: a model of the table as a map from key to
//! description, what the side effects of a run do to it, and the law that a
//! run whose writes all succeed leaves nothing for the next run to do.

use vstd::prelude::*;
use crate::effect::{announce_and_delete, announce_and_put, effects_of, EffectView};
use crate::item::{occurs_in, same_item, Equality, ItemView};
use crate::reconcile::{
    absent_from, diff_of, distinct_keys, keys_of, lemma_same_entries_give_empty_diff,
    same_entries,
};

verus! {

/// The table after `effect` succeeded on it: a put replaces what is stored
/// under the item's key, a delete drops the key, a notice leaves the table
/// alone.
pub open spec fn store_after_effect(
    store: Map<Seq<char>, Seq<char>>,
    effect: EffectView,
) -> Map<Seq<char>, Seq<char>> {
    match effect {
        EffectView::Publish { text } => store,
        EffectView::Put { item } => store.insert(item.key, item.description),
        EffectView::Delete { key } => store.remove(key),
    }
}

/// The table after each of `effects` succeeded on it, in order.
pub open spec fn store_after(
    store: Map<Seq<char>, Seq<char>>,
    effects: Seq<EffectView>,
) -> Map<Seq<char>, Seq<char>>
    decreases effects.len(),
{
    if effects.len() == 0 {
        store
    } else {
        store_after_effect(store_after(store, effects.drop_last()), effects.last())
    }
}

/// `snapshot` is a scan of `store`: one entry for each key of the table, with
/// the description stored under it.
pub open spec fn scan_of(snapshot: Seq<ItemView>, store: Map<Seq<char>, Seq<char>>) -> bool {
    &&& distinct_keys(snapshot)
    &&& forall|i: int|
        0 <= i < snapshot.len() ==> store.dom().contains((#[trigger] snapshot[i]).key)
            && store[snapshot[i].key] == snapshot[i].description
    &&& forall|k: Seq<char>| #[trigger]
        store.dom().contains(k) ==> exists|i: int|
            0 <= i < snapshot.len() && (#[trigger] snapshot[i]).key == k
}

/// No key is both added and removed by the diff of the two snapshots.
pub open spec fn no_key_replaced(
    policy: Equality,
    previous: Seq<ItemView>,
    current: Seq<ItemView>,
) -> bool {
    forall|i: int, j: int|
        0 <= i < absent_from(policy, current, previous).len() && 0 <= j < absent_from(
            policy,
            previous,
            current,
        ).len() ==> (#[trigger] absent_from(policy, current, previous)[i]).key != (
        #[trigger] absent_from(policy, previous, current)[j]).key
}

/// The table after every entry of `added` was put, in order.
spec fn put_all(store: Map<Seq<char>, Seq<char>>, added: Seq<ItemView>) -> Map<
    Seq<char>,
    Seq<char>,
>
    decreases added.len(),
{
    if added.len() == 0 {
        store
    } else {
        put_all(store, added.drop_last()).insert(added.last().key, added.last().description)
    }
}

/// The table after the key of every entry of `removed` was deleted, in order.
spec fn delete_all(store: Map<Seq<char>, Seq<char>>, removed: Seq<ItemView>) -> Map<
    Seq<char>,
    Seq<char>,
>
    decreases removed.len(),
{
    if removed.len() == 0 {
        store
    } else {
        delete_all(store, removed.drop_last()).remove(removed.last().key)
    }
}

proof fn lemma_store_after_concat(
    store: Map<Seq<char>, Seq<char>>,
    first: Seq<EffectView>,
    second: Seq<EffectView>,
)
    ensures
        store_after(store, first + second) == store_after(store_after(store, first), second),
    decreases second.len(),
{
    if second.len() == 0 {
        assert(first + second =~= first);
    } else {
        lemma_store_after_concat(store, first, second.drop_last());
        assert((first + second).drop_last() =~= first + second.drop_last());
        assert((first + second).last() == second.last());
    }
}

proof fn lemma_additions_put_all(store: Map<Seq<char>, Seq<char>>, added: Seq<ItemView>)
    ensures
        store_after(store, announce_and_put(added)) == put_all(store, added),
    decreases added.len(),
{
    let effects = announce_and_put(added);
    if added.len() > 0 {
        let earlier = added.drop_last();
        lemma_additions_put_all(store, earlier);
        let notice = effects.drop_last();
        assert(notice.drop_last() =~= announce_and_put(earlier));
        assert(effects.last() == EffectView::Put { item: added.last() });
        assert(notice.last() is Publish);
        assert(store_after(store, notice) == store_after(store, notice.drop_last()));
        assert(store_after(store, effects) == store_after_effect(
            store_after(store, notice),
            effects.last(),
        ));
    }
}

proof fn lemma_removals_delete_all(store: Map<Seq<char>, Seq<char>>, removed: Seq<ItemView>)
    ensures
        store_after(store, announce_and_delete(removed)) == delete_all(store, removed),
    decreases removed.len(),
{
    let effects = announce_and_delete(removed);
    if removed.len() > 0 {
        let earlier = removed.drop_last();
        lemma_removals_delete_all(store, earlier);
        let notice = effects.drop_last();
        assert(notice.drop_last() =~= announce_and_delete(earlier));
        assert(effects.last() == EffectView::Delete { key: removed.last().key });
        assert(notice.last() is Publish);
        assert(store_after(store, notice) == store_after(store, notice.drop_last()));
        assert(store_after(store, effects) == store_after_effect(
            store_after(store, notice),
            effects.last(),
        ));
    }
}

/// The keys of a list with one more entry are the keys of the list and the
/// key of that entry.
proof fn lemma_keys_of_push(items: Seq<ItemView>)
    requires
        items.len() > 0,
    ensures
        forall|k: Seq<char>| #[trigger]
            keys_of(items).contains(k) <==> (keys_of(items.drop_last()).contains(k) || k
                == items.last().key),
{
    let earlier = items.drop_last();
    assert forall|k: Seq<char>| #[trigger]
        keys_of(items).contains(k) <==> (keys_of(earlier).contains(k) || k
            == items.last().key) by {
        if keys_of(items).contains(k) {
            let i = choose|i: int| 0 <= i < keys_of(items).len() && keys_of(items)[i] == k;
            if i < items.len() - 1 {
                assert(keys_of(earlier)[i] == k);
            }
        }
        if keys_of(earlier).contains(k) {
            let i = choose|i: int| 0 <= i < keys_of(earlier).len() && keys_of(earlier)[i] == k;
            assert(keys_of(items)[i] == k);
        }
        if k == items.last().key {
            assert(keys_of(items)[items.len() - 1] == k);
        }
    }
}

/// What `put_all` leaves: the old keys and the added ones; under an added
/// key the description of some added entry with that key, under any other
/// key what was there.
proof fn lemma_put_all_holds(store: Map<Seq<char>, Seq<char>>, added: Seq<ItemView>, k: Seq<char>)
    ensures
        put_all(store, added).dom().contains(k) <==> (store.dom().contains(k) || keys_of(
            added,
        ).contains(k)),
        !keys_of(added).contains(k) ==> put_all(store, added)[k] == store[k],
        keys_of(added).contains(k) ==> exists|i: int|
            0 <= i < added.len() && (#[trigger] added[i]).key == k && put_all(store, added)[k]
                == added[i].description,
    decreases added.len(),
{
    if added.len() > 0 {
        let earlier = added.drop_last();
        let last = added.last();
        lemma_put_all_holds(store, earlier, k);
        lemma_keys_of_push(added);
        assert(put_all(store, added) == put_all(store, earlier).insert(
            last.key,
            last.description,
        ));
        if k == last.key {
            assert(added[added.len() - 1].key == k);
        } else if keys_of(earlier).contains(k) {
            let i = choose|i: int|
                0 <= i < earlier.len() && (#[trigger] earlier[i]).key == k && put_all(
                    store,
                    earlier,
                )[k] == earlier[i].description;
            assert(added[i].key == k);
        }
    } else {
        assert(keys_of(added).len() == 0);
    }
}

/// What `delete_all` leaves: the keys that no removed entry has, each with
/// what was stored under it.
proof fn lemma_delete_all_holds(
    store: Map<Seq<char>, Seq<char>>,
    removed: Seq<ItemView>,
    k: Seq<char>,
)
    ensures
        delete_all(store, removed).dom().contains(k) <==> (store.dom().contains(k) && !keys_of(
            removed,
        ).contains(k)),
        !keys_of(removed).contains(k) ==> delete_all(store, removed)[k] == store[k],
    decreases removed.len(),
{
    if removed.len() > 0 {
        let earlier = removed.drop_last();
        let last = removed.last();
        lemma_delete_all_holds(store, earlier, k);
        lemma_keys_of_push(removed);
        assert(delete_all(store, removed) == delete_all(store, earlier).remove(last.key));
    } else {
        assert(keys_of(removed).len() == 0);
    }
}

/// Under key-only equality no key is both added and removed.
pub proof fn lemma_key_only_replaces_no_key(previous: Seq<ItemView>, current: Seq<ItemView>)
    ensures
        no_key_replaced(Equality::KeyOnly, previous, current),
{
    let policy = Equality::KeyOnly;
    let added = absent_from(policy, current, previous);
    let removed = absent_from(policy, previous, current);
    let new_here = |item: ItemView| !occurs_in(policy, item, previous);
    let gone_here = |item: ItemView| !occurs_in(policy, item, current);
    assert forall|i: int, j: int| 0 <= i < added.len() && 0 <= j < removed.len() implies (
    #[trigger] added[i]).key != (#[trigger] removed[j]).key by {
        current.lemma_filter_pred(new_here, i);
        assert(removed.contains(removed[j]));
        previous.lemma_filter_contains_rev(gone_here, removed[j]);
        let n = choose|n: int| 0 <= n < previous.len() && previous[n] == removed[j];
        if added[i].key == removed[j].key {
            assert(same_item(policy, added[i], previous[n]));
        }
    }
}

/// A run whose writes all succeed leaves nothing for the next run to do.
///
/// Let `previous` be a scan of the table, let every side effect that the diff
/// of `previous` and `current` calls for succeed, and let `rescanned` be a
/// scan of the table as that leaves it. Then `rescanned` and `current` hold
/// the same entries: a second run over the same scrape publishes no notice
/// and writes nothing.
///
/// Under full equality this needs a current snapshot without repeated keys
/// and a diff that does not add and remove one key at once: an entry whose
/// description changed is stored and then deleted by its key, and the run
/// after that stores it again.
pub proof fn lemma_second_run_is_quiet(
    policy: Equality,
    store: Map<Seq<char>, Seq<char>>,
    previous: Seq<ItemView>,
    current: Seq<ItemView>,
    rescanned: Seq<ItemView>,
)
    requires
        scan_of(previous, store),
        policy == Equality::KeyOnly || (distinct_keys(current) && no_key_replaced(
            policy,
            previous,
            current,
        )),
        scan_of(rescanned, store_after(store, effects_of(diff_of(policy, previous, current)))),
    ensures
        same_entries(policy, rescanned, current),
        effects_of(diff_of(policy, rescanned, current)) == Seq::<EffectView>::empty(),
{
    let added = absent_from(policy, current, previous);
    let removed = absent_from(policy, previous, current);
    let new_here = |item: ItemView| !occurs_in(policy, item, previous);
    let gone_here = |item: ItemView| !occurs_in(policy, item, current);
    let stored = put_all(store, added);
    let left = delete_all(stored, removed);
    assert(store_after(store, effects_of(diff_of(policy, previous, current))) == left) by {
        lemma_store_after_concat(store, announce_and_put(added), announce_and_delete(removed));
        lemma_additions_put_all(store, added);
        lemma_removals_delete_all(stored, removed);
    }
    if policy == Equality::KeyOnly {
        lemma_key_only_replaces_no_key(previous, current);
    }
    // An entry of the previous snapshot whose key no removed entry has is
    // still matched by the current snapshot.
    assert forall|n: int|
        0 <= n < previous.len() && !keys_of(removed).contains(
            (#[trigger] previous[n]).key,
        ) implies occurs_in(policy, previous[n], current) by {
        if gone_here(previous[n]) {
            previous.lemma_filter_contains(gone_here, n);
            let j = choose|j: int| 0 <= j < removed.len() && removed[j] == previous[n];
            assert(keys_of(removed)[j] == previous[n].key);
        }
    }
    // A removed entry is an entry of the previous snapshot without a match.
    assert forall|j: int| 0 <= j < removed.len() implies previous.contains(#[trigger] removed[j])
        && !occurs_in(policy, removed[j], current) by {
        assert(removed.contains(removed[j]));
        previous.lemma_filter_contains_rev(gone_here, removed[j]);
        previous.lemma_filter_pred(gone_here, j);
    }
    // An added entry is an entry of the current snapshot without a match.
    assert forall|i: int| 0 <= i < added.len() implies current.contains(#[trigger] added[i])
        && !occurs_in(policy, added[i], previous) by {
        assert(added.contains(added[i]));
        current.lemma_filter_contains_rev(new_here, added[i]);
        current.lemma_filter_pred(new_here, i);
    }
    assert forall|j: int| 0 <= j < rescanned.len() implies occurs_in(
        policy,
        #[trigger] rescanned[j],
        current,
    ) by {
        let r = rescanned[j];
        let k = r.key;
        lemma_delete_all_holds(stored, removed, k);
        lemma_put_all_holds(store, added, k);
        if keys_of(added).contains(k) {
            let i = choose|i: int|
                0 <= i < added.len() && (#[trigger] added[i]).key == k && stored[k]
                    == added[i].description;
            let m = choose|m: int| 0 <= m < current.len() && current[m] == added[i];
            assert(same_item(policy, r, current[m]));
        } else {
            let n = choose|n: int| 0 <= n < previous.len() && (#[trigger] previous[n]).key == k;
            let m = choose|m: int|
                0 <= m < current.len() && same_item(policy, previous[n], current[m]);
            assert(same_item(policy, r, current[m]));
        }
    }
    assert forall|m: int| 0 <= m < current.len() implies occurs_in(
        policy,
        #[trigger] current[m],
        rescanned,
    ) by {
        let c = current[m];
        let k = c.key;
        lemma_delete_all_holds(stored, removed, k);
        lemma_put_all_holds(store, added, k);
        if new_here(c) {
            current.lemma_filter_contains(new_here, m);
            let i = choose|i: int| 0 <= i < added.len() && added[i] == c;
            assert(keys_of(added)[i] == k);
            if keys_of(removed).contains(k) {
                let j = choose|j: int| 0 <= j < keys_of(removed).len() && keys_of(removed)[j] == k;
                assert(added[i].key != removed[j].key);
            }
        } else {
            let n = choose|n: int|
                0 <= n < previous.len() && same_item(policy, c, previous[n]);
            assert(previous[n].key == k);
            if keys_of(removed).contains(k) {
                let j = choose|j: int| 0 <= j < keys_of(removed).len() && keys_of(removed)[j] == k;
                let n2 = choose|n2: int| 0 <= n2 < previous.len() && previous[n2] == removed[j];
                if n2 < n {
                    assert(previous[n2].key != previous[n].key);
                } else if n < n2 {
                    assert(previous[n].key != previous[n2].key);
                }
                assert(same_item(policy, previous[n], current[m]));
            }
        }
        assert(left.dom().contains(k));
        let j = choose|j: int| 0 <= j < rescanned.len() && (#[trigger] rescanned[j]).key == k;
        if policy == Equality::Full {
            if keys_of(added).contains(k) {
                let i = choose|i: int|
                    0 <= i < added.len() && (#[trigger] added[i]).key == k && stored[k]
                        == added[i].description;
                let m2 = choose|m2: int| 0 <= m2 < current.len() && current[m2] == added[i];
                if m2 < m {
                    assert(current[m2].key != current[m].key);
                } else if m < m2 {
                    assert(current[m].key != current[m2].key);
                }
            } else {
                let n = choose|n: int|
                    0 <= n < previous.len() && same_item(policy, c, previous[n]);
                assert(store[previous[n].key] == previous[n].description);
            }
        }
        assert(same_item(policy, c, rescanned[j]));
    }
    lemma_same_entries_give_empty_diff(policy, rescanned, current);
    assert(effects_of(diff_of(policy, rescanned, current)) =~= Seq::<EffectView>::empty());
}

} // verus!
