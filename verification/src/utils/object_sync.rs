//! Keeping a map of tracked objects in step with a list of source items.
use vstd::prelude::*;
use std::collections::{HashMap, HashSet};
use std::hash::Hash;
use vstd::std_specs::hash::obeys_key_model;

verus! {

broadcast use vstd::std_specs::hash::group_hash_axioms, vstd::function::group_function_axioms;

/// The keys `key` gives for `items`, one per item, in order.
pub open spec fn keys_of<T, K>(key: impl Fn(&T) -> K, items: Seq<T>, keys: Seq<K>) -> bool {
    &&& keys.len() == items.len()
    &&& forall|i: int| 0 <= i < items.len() ==> key.ensures((&items[i],), #[trigger] keys[i])
}

/// What the sync did for one item: the object it created for it, if any,
/// and the object `update` was handed (`before`) and left (`after`).
pub struct ItemStep<V> {
    pub created: Option<V>,
    pub before: V,
    pub after: V,
}

/// The tracked objects after the first `m` items were handled, starting
/// from `start`: each handled item's key holds what its update left.
pub open spec fn tracked_at<K, V>(start: Map<K, V>, keys: Seq<K>, steps: Seq<ItemStep<V>>, m: int) -> Map<K, V>
    decreases m,
{
    if m <= 0 {
        start
    } else {
        tracked_at(start, keys, steps, m - 1).insert(keys[m - 1], steps[m - 1].after)
    }
}

/// Item `m` was handled against the objects tracked at its turn: an object
/// is created for it exactly when none is tracked for its key (and only
/// then does the shared state move, `ctxs[2m]` to `ctxs[2m + 1]`), and
/// `update` is handed the created object or the tracked one.
pub open spec fn item_ok<Ctx, K, V>(
    keys: Seq<K>,
    start: Map<K, V>,
    steps: Seq<ItemStep<V>>,
    ctxs: Seq<Ctx>,
    m: int,
) -> bool {
    let cur = tracked_at(start, keys, steps, m);
    let k = keys[m];
    &&& (steps[m].created is Some) == !cur.dom().contains(k)
    &&& match steps[m].created {
        Some(v) => steps[m].before == v,
        None => ctxs[2 * m + 1] == ctxs[2 * m] && steps[m].before == cur[k],
    }
}

/// The shape of a sync run from map `start` and state `c_start` to map `end`
/// and state `c_end`. The keys of `start` that no item has are removed
/// first, each once, in the order of `removed`, with the shared state
/// passing through `rctxs`. Then the items are handled in order, as
/// `item_ok` says, with the state passing through `ictxs`, two steps per
/// item. The map ends as the kept objects with each item's key set to what
/// its last update left, so with exactly the items' keys. What each call did
/// to the state and the objects is stated by `sync_objects` itself.
pub open spec fn sync_run<Ctx, T, K, V>(
    key: impl Fn(&T) -> K,
    items: Seq<T>,
    start: Map<K, V>,
    end: Map<K, V>,
    c_start: Ctx,
    c_end: Ctx,
    keys: Seq<K>,
    removed: Seq<K>,
    rctxs: Seq<Ctx>,
    steps: Seq<ItemStep<V>>,
    ictxs: Seq<Ctx>,
) -> bool {
    let kept = start.remove_keys(removed.to_set());
    &&& keys_of(key, items, keys)
    &&& removed.no_duplicates()
    &&& removed.to_set() == start.dom().difference(keys.to_set())
    &&& rctxs.len() == removed.len() + 1
    &&& rctxs[0] == c_start
    &&& rctxs[removed.len() as int] == ictxs[0]
    &&& steps.len() == items.len()
    &&& ictxs.len() == 2 * items.len() + 1
    &&& ictxs[2 * items.len() as int] == c_end
    &&& forall|m: int| 0 <= m < items.len() ==> #[trigger] item_ok(keys, kept, steps, ictxs, m)
    &&& end == tracked_at(kept, keys, steps, items.len() as int)
    &&& end.dom() == keys.to_set()
}

/// The keys tracked after `m` items are those of `start` and the first `m`
/// item keys.
pub proof fn lemma_tracked_at_dom<K, V>(start: Map<K, V>, keys: Seq<K>, steps: Seq<ItemStep<V>>, m: int)
    requires
        0 <= m <= keys.len(),
    ensures
        tracked_at(start, keys, steps, m).dom() == start.dom().union(keys.take(m).to_set()),
    decreases m,
{
    broadcast use vstd::seq_lib::group_seq_properties;
    if m > 0 {
        lemma_tracked_at_dom(start, keys, steps, m - 1);
        assert(keys.take(m) =~= keys.take(m - 1).push(keys[m - 1]));
        assert(tracked_at(start, keys, steps, m).dom() =~= start.dom().union(keys.take(m).to_set()));
    } else {
        assert(keys.take(0).to_set() =~= Set::<K>::empty());
        assert(start.dom().union(keys.take(0).to_set()) =~= start.dom());
    }
}

/// Handling the first item of a list and then the rest is handling the
/// list: the tracked objects of the rest start from what the first left.
proof fn lemma_tracked_at_shift<K, V>(start: Map<K, V>, keys: Seq<K>, steps: Seq<ItemStep<V>>, m: int)
    requires
        1 <= m <= keys.len(),
        steps.len() == keys.len(),
    ensures
        tracked_at(start, keys, steps, m) == tracked_at(
            start.insert(keys[0], steps[0].after),
            keys.drop_first(),
            steps.drop_first(),
            m - 1,
        ),
    decreases m,
{
    let s1 = start.insert(keys[0], steps[0].after);
    if m > 1 {
        lemma_tracked_at_shift(start, keys, steps, m - 1);
        assert(keys.drop_first()[m - 2] == keys[m - 1]);
        assert(steps.drop_first()[m - 2] == steps[m - 1]);
        assert(tracked_at(s1, keys.drop_first(), steps.drop_first(), m - 1) == tracked_at(
            s1,
            keys.drop_first(),
            steps.drop_first(),
            m - 2,
        ).insert(keys.drop_first()[m - 2], steps.drop_first()[m - 2].after));
    } else {
        assert(tracked_at(start, keys, steps, 0) == start);
        assert(tracked_at(s1, keys.drop_first(), steps.drop_first(), 0) == s1);
    }
}

/// With no key twice in `s`, the key at `j` is not among the first `j`, and
/// the first `j + 1` keys are the first `j` and that one.
proof fn lemma_prefix_set_step<K>(s: Seq<K>, j: int)
    requires
        s.no_duplicates(),
        0 <= j < s.len(),
    ensures
        !s.subrange(0, j).to_set().contains(s[j]),
        s.subrange(0, j + 1).to_set() == s.subrange(0, j).to_set().insert(s[j]),
{
    broadcast use vstd::seq_lib::group_seq_properties;
    if s.subrange(0, j).contains(s[j]) {
        let i = choose|i: int| 0 <= i < j && s.subrange(0, j)[i] == s[j];
        assert(s[i] == s[j]);
    }
    assert(s.subrange(0, j + 1) =~= s.subrange(0, j).push(s[j]));
}

/// The keys of `map` that `wanted` lacks, each once.
fn stale_keys<K, V>(map: &HashMap<K, V>, wanted: &HashSet<K>) -> (r: Vec<K>)
    where K: Eq + Hash + Copy
    requires
        obeys_key_model::<K>(),
    ensures
        r@.no_duplicates(),
        r@.to_set() == map@.dom().difference(wanted@),
{
    let mut stale: Vec<K> = Vec::new();
    for k in it: map.keys()
        invariant
            obeys_key_model::<K>(),
            it.seq().unref().no_duplicates(),
            stale@.no_duplicates(),
            forall|j: int|
                0 <= j < stale@.len() ==> map@.dom().contains(#[trigger] stale@[j])
                    && !wanted@.contains(stale@[j]) && exists|m: int|
                    0 <= m < it.index() && *it.seq()[m] == stale@[j],
            it.seq().unref().to_set() == map@.dom(),
            forall|j: int|
                0 <= j < it.index() && !wanted@.contains(*#[trigger] it.seq()[j]) ==> stale@.contains(
                    *it.seq()[j],
                ),
    {
        let ghost prev = stale@;
        let ghost here = it.index();
        if !wanted.contains(k) {
            proof {
                if prev.contains(*k) {
                    let j = choose|j: int| 0 <= j < prev.len() && prev[j] == *k;
                    let m = choose|m: int| 0 <= m < here && *it.seq()[m] == prev[j];
                    assert(it.seq().unref()[m] == it.seq().unref()[here]);
                }
            }
            stale.push(*k);
        }
        proof {
            assert forall|x: K| prev.contains(x) implies stale@.contains(x) by {
                let j = choose|j: int| 0 <= j < prev.len() && prev[j] == x;
                assert(stale@[j] == x);
            }
            if !wanted@.contains(*k) {
                assert(stale@[stale@.len() - 1] == *k);
            }
            assert forall|j: int| 0 <= j < stale@.len() implies exists|m: int|
                0 <= m < here + 1 && *it.seq()[m] == #[trigger] stale@[j] by {
                if j < prev.len() {
                    let m = choose|m: int| 0 <= m < here && *it.seq()[m] == prev[j];
                    assert(*it.seq()[m] == stale@[j]);
                } else {
                    assert(*it.seq()[here] == stale@[j]);
                }
            }
        }
    }
    assert forall|k: K| #[trigger] map@.dom().contains(k) && !wanted@.contains(k) implies stale@.contains(k) by {
        broadcast use vstd::seq_lib::group_seq_properties;
    }
    assert(stale@.to_set() =~= map@.dom().difference(wanted@)) by {
        broadcast use vstd::seq_lib::group_seq_properties;
    }
    stale
}

/// The keys of `s` from position `j` on are the one at `j` and those after.
proof fn lemma_suffix_set<K>(s: Seq<K>, j: int)
    requires
        0 <= j < s.len(),
    ensures
        s.subrange(j, s.len() as int).to_set() == s.subrange(j + 1, s.len() as int).to_set().insert(s[j]),
{
    broadcast use vstd::seq_lib::group_seq_properties;
    assert(s.subrange(j, s.len() as int) =~= seq![s[j]] + s.subrange(j + 1, s.len() as int));
}

/// Taking one key out of a map and then a set of keys is taking out the set
/// with that key in it.
proof fn lemma_remove_then_remove_keys<K, V>(m: Map<K, V>, k: K, rest: Set<K>)
    ensures
        m.remove(k).remove_keys(rest) == m.remove_keys(rest.insert(k)),
{
    assert(m.remove(k).remove_keys(rest) =~= m.remove_keys(rest.insert(k)));
}

/// Takes the keys of `stale` from position `j` on out of the map, in order,
/// handing each one's object to `remove_stale`; the shared state passes
/// through the returned states, one step per key.
#[verifier::rlimit(100)]
fn remove_keys_from<Ctx, K, V, R>(
    ctx: &mut Ctx,
    map: &mut HashMap<K, V>,
    stale: &Vec<K>,
    j: usize,
    remove_stale: R,
) -> (r: (R, Ghost<Seq<Ctx>>))
    where K: Eq + Hash + Copy, R: FnMut(&mut Ctx, V)
    requires
        obeys_key_model::<K>(),
        j <= stale@.len(),
        stale@.no_duplicates(),
        forall|i: int| j <= i < stale@.len() ==> old(map)@.dom().contains(#[trigger] stale@[i]),
        forall|c: &mut Ctx, v: V| #[trigger] remove_stale.requires((c, v)),
    ensures
        r.0 == remove_stale,
        final(map)@ == old(map)@.remove_keys(stale@.subrange(j as int, stale@.len() as int).to_set()),
        r.1@.len() == stale@.len() - j + 1,
        r.1@[0] == *old(ctx),
        r.1@[stale@.len() - j] == *final(ctx),
        j < stale@.len() ==> exists|c: &mut Ctx, v: V|
            #![trigger remove_stale.ensures((c, v), ())]
            v == old(map)@[stale@[j as int]] && *c == r.1@[0] && *final(c) == r.1@[1]
                && remove_stale.ensures((c, v), ()),
        forall|i: int|
            0 <= i < stale@.len() - j ==> exists|c: &mut Ctx, v: V|
                #![trigger remove_stale.ensures((c, v), ())]
                v == old(map)@[stale@[j + i]] && *c == #[trigger] r.1@[i] && *final(c) == r.1@[i + 1]
                    && remove_stale.ensures((c, v), ()),
    decreases stale@.len() - j,
{
    let mut remove_stale = remove_stale;
    if j == stale.len() {
        proof {
            assert(stale@.subrange(j as int, stale@.len() as int).to_set() =~= Set::<K>::empty());
            assert(map@ =~= old(map)@.remove_keys(Set::<K>::empty()));
        }
        let ghost s = seq![*ctx];
        return (remove_stale, Ghost(s));
    }
    let ghost before = map@;
    let ghost f0 = remove_stale;
    let ghost c0 = *ctx;
    let k = stale[j];
    let removed_now = map.remove(&k);
    let value = removed_now.unwrap();
    remove_stale(ctx, value);
    let ghost c1 = *ctx;
    let ghost mid = map@;
    proof {
        assert(mid == before.remove(k));
        assert forall|i: int| j + 1 <= i < stale@.len() implies mid.dom().contains(#[trigger] stale@[i]) by {
            assert(stale@[i] != stale@[j as int]);
        }
        assert(exists|c: &mut Ctx, v: V|
            #![trigger f0.ensures((c, v), ())]
            v == before[stale@[j as int]] && *c == c0 && *final(c) == c1 && f0.ensures((c, v), ()));
    }
    let (remove_stale, Ghost(rest)) = remove_keys_from(ctx, map, stale, j + 1, remove_stale);
    let ghost ctxs = seq![c0] + rest;
    proof {
        lemma_suffix_set(stale@, j as int);
        lemma_remove_then_remove_keys(before, k, stale@.subrange(j + 1, stale@.len() as int).to_set());
        assert(ctxs[0] == c0 && ctxs[1] == c1);
        assert forall|i: int| 0 <= i < stale@.len() - j implies exists|c: &mut Ctx, v: V|
            #![trigger f0.ensures((c, v), ())]
            v == before[stale@[j + i]] && *c == #[trigger] ctxs[i] && *final(c) == ctxs[i + 1] && f0.ensures(
                (c, v),
                (),
            ) by {
            if i > 0 {
                assert(ctxs[i] == rest[i - 1]);
                assert(ctxs[i + 1] == rest[i]);
                assert(stale@[j + i] == stale@[(j + 1) + (i - 1)]);
                assert(stale@[j + i] != stale@[j as int]);
                assert(mid[stale@[j + i]] == before[stale@[j + i]]);
            }
        }
    }
    (remove_stale, Ghost(ctxs))
}

/// Handles the items from position `n` on, in order: for each, takes its
/// key's object out of the map, or creates one when there is none, runs
/// `update` on it and puts it back. Gives what each item's turn did and the
/// states the shared state passed through, two steps per item.
fn handle_items_from<Ctx, T, K, V, C, U>(
    ctx: &mut Ctx,
    map: &mut HashMap<K, V>,
    items: &[T],
    keys: &Vec<K>,
    n: usize,
    create_new: C,
    update: U,
) -> (r: (C, U, Ghost<Seq<ItemStep<V>>>, Ghost<Seq<Ctx>>))
    where K: Eq + Hash + Copy, C: FnMut(&mut Ctx, &T) -> V, U: FnMut(&mut Ctx, &T, &mut V)
    requires
        obeys_key_model::<K>(),
        n <= items@.len(),
        keys@.len() == items@.len(),
        forall|c: &mut Ctx, t: &T| #[trigger] create_new.requires((c, t)),
        forall|c: &mut Ctx, t: &T, v: &mut V| #[trigger] update.requires((c, t, v)),
    ensures
        r.0 == create_new,
        r.1 == update,
        ({
            let ks = keys@.subrange(n as int, keys@.len() as int);
            let steps = r.2@;
            let ctxs = r.3@;
            let len = items@.len() - n;
            &&& steps.len() == len
            &&& ctxs.len() == 2 * len + 1
            &&& ctxs[0] == *old(ctx)
            &&& ctxs[2 * len] == *final(ctx)
            &&& final(map)@ == tracked_at(old(map)@, ks, steps, len)
            &&& forall|m: int| 0 <= m < len ==> #[trigger] item_ok(ks, old(map)@, steps, ctxs, m)
        }),
        forall|m: int|
            0 <= m < items@.len() - n && (#[trigger] r.2@[m]).created is Some ==> exists|
                c: &mut Ctx,
                t: &T,
            |
                #![trigger create_new.ensures((c, t), r.2@[m].created->0)]
                t == items@[n + m] && *c == r.3@[2 * m] && *final(c) == r.3@[2 * m + 1]
                    && create_new.ensures((c, t), r.2@[m].created->0),
        forall|m: int|
            0 <= m < items@.len() - n ==> exists|c: &mut Ctx, t: &T, w: &mut V|
                #![trigger update.ensures((c, t, w), ())]
                t == items@[n + m] && *c == r.3@[2 * m + 1] && *final(c) == r.3@[2 * m + 2] && *w == (
                #[trigger] r.2@[m]).before && *final(w) == r.2@[m].after && update.ensures(
                    (c, t, w),
                    (),
                ),
    decreases items@.len() - n,
{
    let mut create_new = create_new;
    let mut update = update;
    if n == items.len() {
        let ghost s = seq![*ctx];
        let ghost e = Seq::<ItemStep<V>>::empty();
        return (create_new, update, Ghost(e), Ghost(s));
    }
    let ghost before = map@;
    let ghost cf = create_new;
    let ghost uf = update;
    let ghost c0 = *ctx;
    let k = keys[n];
    let item = &items[n];
    let removed_now = map.remove(&k);
    let ghost mut created: Option<V> = None;
    let mut value = match removed_now {
        Some(v) => v,
        None => {
            let v = create_new(ctx, item);
            proof {
                created = Some(v);
            }
            v
        },
    };
    let ghost c1 = *ctx;
    let ghost v_before = value;
    update(ctx, item, &mut value);
    let ghost v_after = value;
    let ghost c2 = *ctx;
    map.insert(k, value);
    let ghost step = ItemStep { created, before: v_before, after: v_after };
    proof {
        assert(map@ =~= before.insert(k, v_after));
        assert(created is Some ==> exists|c: &mut Ctx, t: &T|
            #![trigger cf.ensures((c, t), v_before)]
            t == items@[n as int] && *c == c0 && *final(c) == c1 && cf.ensures((c, t), v_before));
        assert(exists|c: &mut Ctx, t: &T, w: &mut V|
            #![trigger uf.ensures((c, t, w), ())]
            t == items@[n as int] && *c == c1 && *final(c) == c2 && *w == v_before && *final(w) == v_after
                && uf.ensures((c, t, w), ()));
    }
    let (create_new, update, Ghost(rest), Ghost(rest_ctxs)) = handle_items_from(
        ctx,
        map,
        items,
        keys,
        n + 1,
        create_new,
        update,
    );
    let ghost steps = seq![step] + rest;
    let ghost ctxs = seq![c0, c1] + rest_ctxs;
    proof {
        let ks = keys@.subrange(n as int, keys@.len() as int);
        let len = items@.len() - n;
        assert(ks[0] == k);
        assert(keys@.subrange(n + 1, keys@.len() as int) =~= ks.drop_first());
        assert(steps.drop_first() =~= rest);
        assert(steps[0] == step);
        assert(ctxs[2] == c2);
        assert forall|m: int| 0 <= m < len implies tracked_at(before, ks, steps, m + 1) == tracked_at(
            before.insert(k, v_after),
            ks.drop_first(),
            rest,
            m,
        ) by {
            lemma_tracked_at_shift(before, ks, steps, m + 1);
        }
        assert(map@ == tracked_at(before, ks, steps, len));
        assert(item_ok(ks, before, steps, ctxs, 0));
        assert forall|m: int| 0 <= m < len implies #[trigger] item_ok(ks, before, steps, ctxs, m) by {
            if m > 0 {
                assert(item_ok(ks.drop_first(), before.insert(k, v_after), rest, rest_ctxs, m - 1));
                assert(steps[m] == rest[m - 1]);
                assert(ks[m] == ks.drop_first()[m - 1]);
                assert(ctxs[2 * m] == rest_ctxs[2 * (m - 1)]);
                assert(ctxs[2 * m + 1] == rest_ctxs[2 * (m - 1) + 1]);
                lemma_tracked_at_shift(before, ks, steps, m);
            }
        }
        assert forall|m: int|
            0 <= m < len && (#[trigger] steps[m]).created is Some implies exists|c: &mut Ctx, t: &T|
                #![trigger cf.ensures((c, t), steps[m].created->0)]
                t == items@[n + m] && *c == ctxs[2 * m] && *final(c) == ctxs[2 * m + 1] && cf.ensures(
                    (c, t),
                    steps[m].created->0,
                ) by {
            if m > 0 {
                assert(steps[m] == rest[m - 1]);
                assert(rest[m - 1].created is Some);
                assert(ctxs[2 * m] == rest_ctxs[2 * (m - 1)]);
                assert(ctxs[2 * m + 1] == rest_ctxs[2 * (m - 1) + 1]);
                assert(items@[n + m] == items@[(n + 1) + (m - 1)]);
            }
        }
        assert forall|m: int| 0 <= m < len implies exists|c: &mut Ctx, t: &T, w: &mut V|
            #![trigger uf.ensures((c, t, w), ())]
            t == items@[n + m] && *c == ctxs[2 * m + 1] && *final(c) == ctxs[2 * m + 2] && *w == (
            #[trigger] steps[m]).before && *final(w) == steps[m].after && uf.ensures((c, t, w), ()) by {
            if m > 0 {
                assert(steps[m] == rest[m - 1]);
                assert(ctxs[2 * m + 1] == rest_ctxs[2 * (m - 1) + 1]);
                assert(ctxs[2 * m + 2] == rest_ctxs[2 * (m - 1) + 2]);
                assert(items@[n + m] == items@[(n + 1) + (m - 1)]);
            }
        }
    }
    (create_new, update, Ghost(steps), Ghost(ctxs))
}

/// Syncs a map of tracked objects against a list of source items.
///
/// `remove_stale` gets the tracked object of every key that no longer
/// appears in `items`, after it has left the map; `create_new` makes the
/// object of every item without one, and it is put into the map; `update` is
/// then called for every item, freshly created ones included. `ctx` is the
/// shared state handed to each of them. Afterwards the map holds exactly
/// the keys of the items, and every object that was already tracked for one
/// of them was kept rather than made anew.
#[verifier::rlimit(100)]
pub fn sync_objects<Ctx, T, K, V>(
    ctx: &mut Ctx,
    map: &mut HashMap<K, V>,
    items: &[T],
    key: impl Fn(&T) -> K,
    create_new: impl FnMut(&mut Ctx, &T) -> V,
    remove_stale: impl FnMut(&mut Ctx, V),
    update: impl FnMut(&mut Ctx, &T, &mut V),
) where K: Eq + Hash + Copy
    requires
        obeys_key_model::<K>(),
        forall|t: &T| #[trigger] key.requires((t,)),
        forall|c: &mut Ctx, t: &T| #[trigger] create_new.requires((c, t)),
        forall|c: &mut Ctx, v: V| #[trigger] remove_stale.requires((c, v)),
        forall|c: &mut Ctx, t: &T, v: &mut V| #[trigger] update.requires((c, t, v)),
    ensures
        exists|keys: Seq<K>, removed: Seq<K>, rctxs: Seq<Ctx>, steps: Seq<ItemStep<V>>, ictxs: Seq<Ctx>|
            #[trigger] sync_run(
                key,
                items@,
                old(map)@,
                final(map)@,
                *old(ctx),
                *final(ctx),
                keys,
                removed,
                rctxs,
                steps,
                ictxs,
            ) && (forall|i: int|
                0 <= i < removed.len() ==> exists|c: &mut Ctx, v: V|
                    #![trigger remove_stale.ensures((c, v), ())]
                    v == old(map)@[removed[i]] && *c == #[trigger] rctxs[i] && *final(c) == rctxs[i + 1]
                        && remove_stale.ensures((c, v), ())) && (forall|m: int|
                0 <= m < items@.len() && (#[trigger] steps[m]).created is Some ==> exists|
                    c: &mut Ctx,
                    t: &T,
                |
                    #![trigger create_new.ensures((c, t), steps[m].created->0)]
                    t == items@[m] && *c == ictxs[2 * m] && *final(c) == ictxs[2 * m + 1]
                        && create_new.ensures((c, t), steps[m].created->0)) && (forall|m: int|
                0 <= m < items@.len() ==> exists|c: &mut Ctx, t: &T, w: &mut V|
                    #![trigger update.ensures((c, t, w), ())]
                    t == items@[m] && *c == ictxs[2 * m + 1] && *final(c) == ictxs[2 * m + 2] && *w == (
                    #[trigger] steps[m]).before && *final(w) == steps[m].after && update.ensures(
                        (c, t, w),
                        (),
                    )),
{
    let mut wanted: HashSet<K> = HashSet::new();
    let mut item_keys: Vec<K> = Vec::new();
    let mut i: usize = 0;
    while i < items.len()
        invariant
            obeys_key_model::<K>(),
            forall|t: &T| #[trigger] key.requires((t,)),
            i <= items@.len(),
            item_keys@.len() == i,
            forall|j: int| 0 <= j < i ==> key.ensures((&items@[j],), #[trigger] item_keys@[j]),
            wanted@ == item_keys@.to_set(),
        decreases items@.len() - i,
    {
        let k = key(&items[i]);
        let ghost prev = item_keys@;
        wanted.insert(k);
        item_keys.push(k);
        proof {
            assert(item_keys@ == prev.push(k));
            assert(item_keys@.to_set() =~= prev.to_set().insert(k)) by {
                broadcast use vstd::seq_lib::group_seq_properties;
            }
        }
        i = i + 1;
    }
    let ghost keys = item_keys@;
    assert(keys_of(key, items@, keys));
    let ghost before = map@;
    let ghost c_start = *ctx;
    let stale = stale_keys(map, &wanted);
    proof {
        assert(stale@.subrange(0, stale@.len() as int) =~= stale@);
        assert forall|i: int| 0 <= i < stale@.len() implies before.dom().contains(#[trigger] stale@[i]) by {
            broadcast use vstd::seq_lib::group_seq_properties;
            assert(stale@.to_set().contains(stale@[i]));
        }
    }
    let (_, Ghost(rctxs)) = remove_keys_from(ctx, map, &stale, 0, remove_stale);
    let ghost kept = map@;
    let (_, _, Ghost(steps), Ghost(ictxs)) = handle_items_from(ctx, map, items, &item_keys, 0, create_new, update);
    proof {
        let removed = stale@;
        assert(keys.subrange(0, keys.len() as int) =~= keys);
        assert(kept == before.remove_keys(removed.to_set()));
        lemma_tracked_at_dom(kept, keys, steps, keys.len() as int);
        assert(keys.take(keys.len() as int) =~= keys);
        assert(map@.dom() =~= keys.to_set());
        assert(sync_run(key, items@, before, map@, c_start, *ctx, keys, removed, rctxs, steps, ictxs));
        assert forall|m: int|
            0 <= m < items@.len() && (#[trigger] steps[m]).created is Some implies exists|c: &mut Ctx, t: &T|
                #![trigger create_new.ensures((c, t), steps[m].created->0)]
                t == items@[m] && *c == ictxs[2 * m] && *final(c) == ictxs[2 * m + 1]
                    && create_new.ensures((c, t), steps[m].created->0) by {
            assert(items@[0 + m] == items@[m]);
        }
        assert forall|m: int| 0 <= m < items@.len() implies exists|c: &mut Ctx, t: &T, w: &mut V|
            #![trigger update.ensures((c, t, w), ())]
            t == items@[m] && *c == ictxs[2 * m + 1] && *final(c) == ictxs[2 * m + 2] && *w == (
            #[trigger] steps[m]).before && *final(w) == steps[m].after && update.ensures((c, t, w), ()) by {
            assert(items@[0 + m] == items@[m]);
        }
        assert forall|i: int| 0 <= i < removed.len() implies exists|c: &mut Ctx, v: V|
            #![trigger remove_stale.ensures((c, v), ())]
            v == before[removed[i]] && *c == #[trigger] rctxs[i] && *final(c) == rctxs[i + 1]
                && remove_stale.ensures((c, v), ()) by {
            assert(stale@[0 + i] == stale@[i]);
            assert(0 <= i < stale@.len() - 0);
            assert(exists|c: &mut Ctx, v: V|
                #![trigger remove_stale.ensures((c, v), ())]
                v == before[stale@[0 + i]] && *c == rctxs[i] && *final(c) == rctxs[i + 1]
                    && remove_stale.ensures((c, v), ()));
        }
    }
}

} // verus!
