//! The reconciler: from two snapshots to what was added, removed and kept.

use vstd::prelude::*;
use crate::item::{occurs_in, same_item, views, CatalogItem, Equality, ItemView};

verus! {

/// The entries of `items` that have no counterpart in `other`, in the order of
/// `items`.
pub open spec fn absent_from(policy: Equality, items: Seq<ItemView>, other: Seq<ItemView>) -> Seq<
    ItemView,
> {
    items.filter(|item: ItemView| !occurs_in(policy, item, other))
}

/// The entries of `items` that have a counterpart in `other`, in the order of
/// `items`.
pub open spec fn present_in(policy: Equality, items: Seq<ItemView>, other: Seq<ItemView>) -> Seq<
    ItemView,
> {
    items.filter(|item: ItemView| occurs_in(policy, item, other))
}

/// The result of reconciling a previous snapshot with a current one.
#[derive(Debug)]
pub struct Diff {
    /// Entries of the current snapshot that the previous one lacks.
    pub added: Vec<CatalogItem>,
    /// Entries of the previous snapshot that the current one lacks.
    pub removed: Vec<CatalogItem>,
    /// Entries of the current snapshot that the previous one has too.
    pub unchanged: Vec<CatalogItem>,
}

/// The mathematical content of a `Diff`.
pub struct DiffView {
    pub added: Seq<ItemView>,
    pub removed: Seq<ItemView>,
    pub unchanged: Seq<ItemView>,
}

impl View for Diff {
    type V = DiffView;

    open spec fn view(&self) -> DiffView {
        DiffView {
            added: views(self.added@),
            removed: views(self.removed@),
            unchanged: views(self.unchanged@),
        }
    }
}

/// What reconciling `previous` with `current` yields under `policy`.
pub open spec fn diff_of(policy: Equality, previous: Seq<ItemView>, current: Seq<ItemView>) -> DiffView {
    DiffView {
        added: absent_from(policy, current, previous),
        removed: absent_from(policy, previous, current),
        unchanged: present_in(policy, current, previous),
    }
}

/// Computes diffs under a fixed equality policy.
#[derive(Clone, Copy, Debug)]
pub struct Reconciler {
    pub policy: Equality,
}

/// Copies out of `items` those whose presence in `other` equals `wanted`.
fn select_by_presence(
    policy: Equality,
    items: &[CatalogItem],
    other: &[CatalogItem],
    wanted: bool,
) -> (chosen: Vec<CatalogItem>)
    ensures
        views(chosen@) == views(items@).filter(
            |item: ItemView| occurs_in(policy, item, views(other@)) == wanted,
        ),
{
    let ghost keep = |item: ItemView| occurs_in(policy, item, views(other@)) == wanted;
    let mut chosen: Vec<CatalogItem> = Vec::new();
    let mut i: usize = 0;
    proof {
        reveal(Seq::filter);
        assert(views(items@).take(0) =~= Seq::<ItemView>::empty());
        assert(views(chosen@) =~= Seq::<ItemView>::empty());
    }
    while i < items.len()
        invariant
            i <= items.len(),
            keep == |item: ItemView| occurs_in(policy, item, views(other@)) == wanted,
            views(chosen@) == views(items@).take(i as int).filter(keep),
        decreases items.len() - i,
    {
        let found = policy.finds(&items[i], other);
        let ghost before = views(chosen@);
        if found == wanted {
            chosen.push(items[i].clone());
        }
        proof {
            let head = views(items@).take(i as int);
            let next = views(items@)[i as int];
            assert(views(items@).take(i + 1) =~= head.push(next));
            head.lemma_filter_push(next, keep);
            assert(next == items@[i as int]@);
            if found == wanted {
                assert(views(chosen@) =~= before.push(next));
            } else {
                assert(views(chosen@) =~= before);
            }
        }
        i += 1;
    }
    proof {
        assert(views(items@).take(items.len() as int) =~= views(items@));
    }
    chosen
}

impl Reconciler {
    /// A reconciler that compares items under `policy`.
    pub fn new(policy: Equality) -> (reconciler: Reconciler)
        ensures
            reconciler.policy == policy,
    {
        Reconciler { policy }
    }

    /// Reconciles `previous` with `current`. Each list of the result keeps the
    /// order of the snapshot it is drawn from.
    pub fn diff(&self, previous: &[CatalogItem], current: &[CatalogItem]) -> (diff: Diff)
        ensures
            diff@ == diff_of(self.policy, views(previous@), views(current@)),
    {
        let added = select_by_presence(self.policy, current, previous, false);
        let removed = select_by_presence(self.policy, previous, current, false);
        let unchanged = select_by_presence(self.policy, current, previous, true);
        proof {
            let prev = views(previous@);
            let cur = views(current@);
            let policy = self.policy;
            assert((|item: ItemView| occurs_in(policy, item, prev) == false) =~= (|item: ItemView|
                !occurs_in(policy, item, prev)));
            assert((|item: ItemView| occurs_in(policy, item, cur) == false) =~= (|item: ItemView|
                !occurs_in(policy, item, cur)));
            assert((|item: ItemView| occurs_in(policy, item, prev) == true) =~= (|item: ItemView|
                occurs_in(policy, item, prev)));
        }
        Diff { added, removed, unchanged }
    }
}

/// The keys of a list of items, in the same order.
pub open spec fn keys_of(items: Seq<ItemView>) -> Seq<Seq<char>> {
    items.map_values(|item: ItemView| item.key)
}

/// No two entries of `items` share a key.
pub open spec fn distinct_keys(items: Seq<ItemView>) -> bool {
    forall|i: int, j: int| 0 <= i < j < items.len() ==> items[i].key != items[j].key
}

/// Every entry of each snapshot has a counterpart in the other.
pub open spec fn same_entries(policy: Equality, a: Seq<ItemView>, b: Seq<ItemView>) -> bool {
    &&& forall|i: int| 0 <= i < a.len() ==> occurs_in(policy, #[trigger] a[i], b)
    &&& forall|i: int| 0 <= i < b.len() ==> occurs_in(policy, #[trigger] b[i], a)
}

/// A filter that no entry passes keeps nothing; one that every entry passes
/// keeps everything.
proof fn lemma_filter_all_or_nothing(items: Seq<ItemView>, keep: spec_fn(ItemView) -> bool)
    ensures
        (forall|i: int| 0 <= i < items.len() ==> !keep(#[trigger] items[i])) ==> items.filter(keep)
            == Seq::<ItemView>::empty(),
        (forall|i: int| 0 <= i < items.len() ==> keep(#[trigger] items[i])) ==> items.filter(keep)
            == items,
    decreases items.len(),
{
    reveal(Seq::filter);
    if items.len() > 0 {
        let rest = items.drop_last();
        lemma_filter_all_or_nothing(rest, keep);
        assert(forall|i: int| 0 <= i < rest.len() ==> rest[i] == items[i]);
        if forall|i: int| 0 <= i < items.len() ==> keep(#[trigger] items[i]) {
            assert(keep(items.last()));
            assert(rest.push(items.last()) =~= items);
        }
        if forall|i: int| 0 <= i < items.len() ==> !keep(#[trigger] items[i]) {
            assert(!keep(items.last()));
        }
    }
}

/// A snapshot reconciled with one that holds the same entries under the
/// policy gives no additions and no removals: every current entry is
/// unchanged.
pub proof fn lemma_same_entries_give_empty_diff(
    policy: Equality,
    previous: Seq<ItemView>,
    current: Seq<ItemView>,
)
    requires
        same_entries(policy, previous, current),
    ensures
        diff_of(policy, previous, current).added == Seq::<ItemView>::empty(),
        diff_of(policy, previous, current).removed == Seq::<ItemView>::empty(),
        diff_of(policy, previous, current).unchanged == current,
{
    lemma_filter_all_or_nothing(current, |item: ItemView| !occurs_in(policy, item, previous));
    lemma_filter_all_or_nothing(previous, |item: ItemView| !occurs_in(policy, item, current));
    lemma_filter_all_or_nothing(current, |item: ItemView| occurs_in(policy, item, previous));
}

/// A snapshot reconciled with itself gives no additions and no removals,
/// under either policy.
pub proof fn lemma_self_diff_is_empty(policy: Equality, snapshot: Seq<ItemView>)
    ensures
        diff_of(policy, snapshot, snapshot).added == Seq::<ItemView>::empty(),
        diff_of(policy, snapshot, snapshot).removed == Seq::<ItemView>::empty(),
        diff_of(policy, snapshot, snapshot).unchanged == snapshot,
{
    assert forall|i: int| 0 <= i < snapshot.len() implies occurs_in(
        policy,
        #[trigger] snapshot[i],
        snapshot,
    ) by {
        assert(same_item(policy, snapshot[i], snapshot[i]));
    }
    lemma_same_entries_give_empty_diff(policy, snapshot, snapshot);
}

/// Additions or removals are empty only if every entry has a counterpart on
/// the other side: a diff without additions and removals means the snapshots
/// hold the same entries.
pub proof fn lemma_empty_diff_means_same_entries(
    policy: Equality,
    previous: Seq<ItemView>,
    current: Seq<ItemView>,
)
    requires
        diff_of(policy, previous, current).added.len() == 0,
        diff_of(policy, previous, current).removed.len() == 0,
    ensures
        same_entries(policy, previous, current),
{
    let new_here = |item: ItemView| !occurs_in(policy, item, previous);
    let gone_here = |item: ItemView| !occurs_in(policy, item, current);
    assert forall|i: int| 0 <= i < current.len() implies occurs_in(
        policy,
        #[trigger] current[i],
        previous,
    ) by {
        if new_here(current[i]) {
            current.lemma_filter_contains(new_here, i);
        }
    }
    assert forall|i: int| 0 <= i < previous.len() implies occurs_in(
        policy,
        #[trigger] previous[i],
        current,
    ) by {
        if gone_here(previous[i]) {
            previous.lemma_filter_contains(gone_here, i);
        }
    }
}

/// Every entry of the current snapshot is in exactly one of `added` and
/// `unchanged`, and every entry of the previous one is in `removed` exactly
/// when it has no counterpart in the current one. This holds of all
/// snapshots, with or without repeated keys.
pub proof fn lemma_diff_partitions_entries(
    policy: Equality,
    previous: Seq<ItemView>,
    current: Seq<ItemView>,
)
    ensures
        forall|i: int|
            0 <= i < current.len() ==> (diff_of(policy, previous, current).added.contains(
                #[trigger] current[i],
            ) != diff_of(policy, previous, current).unchanged.contains(current[i])),
        forall|i: int|
            0 <= i < current.len() ==> (diff_of(policy, previous, current).unchanged.contains(
                #[trigger] current[i],
            ) == occurs_in(policy, current[i], previous)),
        forall|i: int|
            0 <= i < previous.len() ==> (diff_of(policy, previous, current).removed.contains(
                #[trigger] previous[i],
            ) == !occurs_in(policy, previous[i], current)),
        forall|x: ItemView|
            diff_of(policy, previous, current).added.contains(x) ==> current.contains(x),
        forall|x: ItemView|
            diff_of(policy, previous, current).unchanged.contains(x) ==> current.contains(x),
        forall|x: ItemView|
            diff_of(policy, previous, current).removed.contains(x) ==> previous.contains(x),
{
    let new_here = |item: ItemView| !occurs_in(policy, item, previous);
    let kept_here = |item: ItemView| occurs_in(policy, item, previous);
    let gone_here = |item: ItemView| !occurs_in(policy, item, current);
    lemma_filter_membership(current, new_here);
    lemma_filter_membership(current, kept_here);
    lemma_filter_membership(previous, gone_here);
}

/// Every key of the current snapshot is a key of exactly one of `added` and
/// `unchanged`. Under key-only equality this holds of every snapshot; under
/// full equality the current snapshot must not repeat a key.
pub proof fn lemma_current_keys_partition(
    policy: Equality,
    previous: Seq<ItemView>,
    current: Seq<ItemView>,
)
    requires
        policy == Equality::KeyOnly || distinct_keys(current),
    ensures
        forall|k: Seq<char>| #[trigger]
            keys_of(current).contains(k) ==> (keys_of(
                diff_of(policy, previous, current).added,
            ).contains(k) != keys_of(diff_of(policy, previous, current).unchanged).contains(k)),
{
    let added = diff_of(policy, previous, current).added;
    let unchanged = diff_of(policy, previous, current).unchanged;
    lemma_filter_membership(current, |item: ItemView| !occurs_in(policy, item, previous));
    lemma_filter_membership(current, |item: ItemView| occurs_in(policy, item, previous));
    assert forall|k: Seq<char>| #[trigger] keys_of(current).contains(k) implies (keys_of(
        added,
    ).contains(k) != keys_of(unchanged).contains(k)) by {
        let i = choose|i: int| 0 <= i < keys_of(current).len() && keys_of(current)[i] == k;
        let c = current[i];
        assert(current.contains(c));
        if occurs_in(policy, c, previous) {
            assert(unchanged.contains(c));
            lemma_key_of_member(unchanged, c);
            if keys_of(added).contains(k) {
                let a = lemma_member_of_key(added, k);
                assert(current.contains(a));
                lemma_same_key_same_presence(policy, previous, current, a, c);
            }
        } else {
            assert(added.contains(c));
            lemma_key_of_member(added, c);
            if keys_of(unchanged).contains(k) {
                let u = lemma_member_of_key(unchanged, k);
                assert(current.contains(u));
                lemma_same_key_same_presence(policy, previous, current, u, c);
            }
        }
    }
}

/// Every key of the previous snapshot is a key of exactly one of `removed`
/// and `unchanged`. Under key-only equality this holds of every snapshot;
/// under full equality the previous snapshot must not repeat a key.
pub proof fn lemma_previous_keys_partition(
    policy: Equality,
    previous: Seq<ItemView>,
    current: Seq<ItemView>,
)
    requires
        policy == Equality::KeyOnly || distinct_keys(previous),
    ensures
        forall|k: Seq<char>| #[trigger]
            keys_of(previous).contains(k) ==> (keys_of(
                diff_of(policy, previous, current).removed,
            ).contains(k) != keys_of(diff_of(policy, previous, current).unchanged).contains(k)),
{
    let removed = diff_of(policy, previous, current).removed;
    let unchanged = diff_of(policy, previous, current).unchanged;
    lemma_filter_membership(previous, |item: ItemView| !occurs_in(policy, item, current));
    lemma_filter_membership(current, |item: ItemView| occurs_in(policy, item, previous));
    assert forall|k: Seq<char>| #[trigger] keys_of(previous).contains(k) implies (keys_of(
        removed,
    ).contains(k) != keys_of(unchanged).contains(k)) by {
        let i = choose|i: int| 0 <= i < keys_of(previous).len() && keys_of(previous)[i] == k;
        let p = previous[i];
        assert(previous.contains(p));
        if occurs_in(policy, p, current) {
            // Its counterpart in the current snapshot is unchanged and has the key.
            let m = choose|m: int| 0 <= m < current.len() && same_item(policy, p, current[m]);
            let c = current[m];
            assert(current.contains(c));
            assert(same_item(policy, c, previous[i]));
            assert(unchanged.contains(c));
            lemma_key_of_member(unchanged, c);
            if keys_of(removed).contains(k) {
                let r = lemma_member_of_key(removed, k);
                assert(previous.contains(r));
                lemma_same_key_same_presence(policy, current, previous, r, p);
            }
        } else {
            assert(removed.contains(p));
            lemma_key_of_member(removed, p);
            if keys_of(unchanged).contains(k) {
                // An unchanged entry with this key would be a counterpart of `p`.
                let u = lemma_member_of_key(unchanged, k);
                let n = choose|n: int| 0 <= n < previous.len() && same_item(policy, u, previous[n]);
                let j = choose|j: int| 0 <= j < current.len() && current[j] == u;
                if policy == Equality::Full {
                    if n != i {
                        assert(previous[n].key == previous[i].key);
                        if n < i {
                            assert(previous[n].key != previous[i].key);
                        } else {
                            assert(previous[i].key != previous[n].key);
                        }
                    }
                }
                assert(same_item(policy, p, current[j]));
            }
        }
    }
}

/// The key of a member of a list is among the list's keys.
proof fn lemma_key_of_member(items: Seq<ItemView>, x: ItemView)
    requires
        items.contains(x),
    ensures
        keys_of(items).contains(x.key),
{
    let i = choose|i: int| 0 <= i < items.len() && items[i] == x;
    assert(keys_of(items)[i] == x.key);
}

/// A key among a list's keys belongs to some member of the list.
proof fn lemma_member_of_key(items: Seq<ItemView>, k: Seq<char>) -> (x: ItemView)
    requires
        keys_of(items).contains(k),
    ensures
        items.contains(x),
        x.key == k,
{
    let i = choose|i: int| 0 <= i < keys_of(items).len() && keys_of(items)[i] == k;
    assert(items[i].key == k);
    items[i]
}

/// Two members of one snapshot with the same key are both present in the
/// other snapshot or both absent from it, where the policy compares keys
/// only or the snapshot does not repeat a key.
proof fn lemma_same_key_same_presence(
    policy: Equality,
    other: Seq<ItemView>,
    items: Seq<ItemView>,
    a: ItemView,
    b: ItemView,
)
    requires
        policy == Equality::KeyOnly || distinct_keys(items),
        items.contains(a),
        items.contains(b),
        a.key == b.key,
    ensures
        occurs_in(policy, a, other) == occurs_in(policy, b, other),
{
    let i = choose|i: int| 0 <= i < items.len() && items[i] == a;
    let j = choose|j: int| 0 <= j < items.len() && items[j] == b;
    if policy == Equality::Full {
        if i < j {
            assert(items[i].key != items[j].key);
        } else if j < i {
            assert(items[j].key != items[i].key);
        }
        assert(a == b);
    } else {
        if occurs_in(policy, a, other) {
            let m = choose|m: int| 0 <= m < other.len() && same_item(policy, a, other[m]);
            assert(same_item(policy, b, other[m]));
        }
        if occurs_in(policy, b, other) {
            let m = choose|m: int| 0 <= m < other.len() && same_item(policy, b, other[m]);
            assert(same_item(policy, a, other[m]));
        }
    }
}

/// What a filter holds: the entries of the list that pass it.
proof fn lemma_filter_membership(items: Seq<ItemView>, keep: spec_fn(ItemView) -> bool)
    ensures
        forall|x: ItemView| #[trigger]
            items.filter(keep).contains(x) <==> (items.contains(x) && keep(x)),
{
    assert forall|x: ItemView| #[trigger]
        items.filter(keep).contains(x) <==> (items.contains(x) && keep(x)) by {
        if items.filter(keep).contains(x) {
            items.lemma_filter_contains_rev(keep, x);
            let j = choose|j: int| 0 <= j < items.filter(keep).len() && items.filter(keep)[j] == x;
            items.lemma_filter_pred(keep, j);
        }
        if items.contains(x) && keep(x) {
            let i = choose|i: int| 0 <= i < items.len() && items[i] == x;
            items.lemma_filter_contains(keep, i);
        }
    }
}

} // verus!
