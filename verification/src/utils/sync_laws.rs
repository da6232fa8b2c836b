//! Laws of object synchronisation.
use vstd::prelude::*;
use crate::utils::object_sync::{item_ok, keys_of, lemma_tracked_at_dom, sync_run, ItemStep};

verus! {

/// A sync never makes an object anew for a key that was already tracked:
/// the tracked object is handed to `update` for that key's first item. When
/// the map already tracks exactly the items' keys (as after a sync with the
/// same items), nothing is removed and nothing is created.
pub proof fn law_sync_keeps_tracked_objects<Ctx, T, K, V>(
    key: impl Fn(&T) -> K,
    items: Seq<T>,
    start: Map<K, V>,
    end: Map<K, V>,
    c_start: Ctx,
    c_end: Ctx,
    keys: Seq<K>,
    removed: Seq<K>,
    rctxs: Seq<Ctx>,
    steps: Seq<ItemStep<V>>,
    ictxs: Seq<Ctx>,
)
    requires
        sync_run(key, items, start, end, c_start, c_end, keys, removed, rctxs, steps, ictxs),
    ensures
        forall|m: int|
            0 <= m < items.len() && start.dom().contains(keys[m]) ==> (#[trigger] steps[m]).created is None,
        start.dom() == keys.to_set() ==> removed.len() == 0 && forall|m: int|
            0 <= m < items.len() ==> (#[trigger] steps[m]).created is None,
{
    let kept = start.remove_keys(removed.to_set());
    assert forall|m: int| 0 <= m < items.len() && start.dom().contains(keys[m]) implies (
    #[trigger] steps[m]).created is None by {
        assert(item_ok(keys, kept, steps, ictxs, m));
        lemma_tracked_at_dom(kept, keys, steps, m);
        assert(keys.to_set().contains(keys[m])) by {
            broadcast use vstd::seq_lib::group_seq_properties;
        }
        assert(!removed.to_set().contains(keys[m]));
        assert(kept.dom().contains(keys[m]));
    }
    if start.dom() == keys.to_set() {
        assert(removed.to_set() =~= Set::<K>::empty());
        if removed.len() > 0 {
            assert(removed.to_set().contains(removed[0])) by {
                broadcast use vstd::seq_lib::group_seq_properties;
            }
        }
        assert forall|m: int| 0 <= m < items.len() implies (#[trigger] steps[m]).created is None by {
            assert(keys.to_set().contains(keys[m])) by {
                broadcast use vstd::seq_lib::group_seq_properties;
            }
        }
    }
}

/// Syncing twice with the same items, by a key function that gives one key
/// per item, changes nothing the second time but what `update` does: no
/// object is removed or created, the keys stay, and each item gets its one
/// update.
pub proof fn law_second_sync_only_updates<Ctx, T, K, V>(
    key: impl Fn(&T) -> K,
    items: Seq<T>,
    start: Map<K, V>,
    mid: Map<K, V>,
    end: Map<K, V>,
    c0: Ctx,
    c1: Ctx,
    c2: Ctx,
    keys1: Seq<K>,
    removed1: Seq<K>,
    rctxs1: Seq<Ctx>,
    steps1: Seq<ItemStep<V>>,
    ictxs1: Seq<Ctx>,
    keys2: Seq<K>,
    removed2: Seq<K>,
    rctxs2: Seq<Ctx>,
    steps2: Seq<ItemStep<V>>,
    ictxs2: Seq<Ctx>,
)
    requires
        forall|t: &T, a: K, b: K| key.ensures((t,), a) && key.ensures((t,), b) ==> a == b,
        sync_run(key, items, start, mid, c0, c1, keys1, removed1, rctxs1, steps1, ictxs1),
        sync_run(key, items, mid, end, c1, c2, keys2, removed2, rctxs2, steps2, ictxs2),
    ensures
        removed2.len() == 0,
        forall|m: int| 0 <= m < items.len() ==> (#[trigger] steps2[m]).created is None,
        end.dom() == mid.dom(),
        steps2.len() == items.len(),
{
    assert(keys_of(key, items, keys1));
    assert(keys_of(key, items, keys2));
    assert forall|i: int| 0 <= i < keys1.len() implies keys1[i] == keys2[i] by {
        assert(key.ensures((&items[i],), keys1[i]));
        assert(key.ensures((&items[i],), keys2[i]));
    }
    assert(keys1 =~= keys2);
    law_sync_keeps_tracked_objects(
        key,
        items,
        mid,
        end,
        c1,
        c2,
        keys2,
        removed2,
        rctxs2,
        steps2,
        ictxs2,
    );
}

} // verus!
