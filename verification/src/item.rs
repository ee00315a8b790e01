//! Catalog items, their mathematical view, and the equality policies under
//! which two items count as the same entry.

use vstd::prelude::*;

verus! {

/// One entry of a catalog: its stable name and a free-text description.
#[derive(Debug)]
pub struct CatalogItem {
    pub key: String,
    pub description: String,
}

/// What a `CatalogItem` is, as plain sequences of characters.
pub struct ItemView {
    pub key: Seq<char>,
    pub description: Seq<char>,
}

impl View for CatalogItem {
    type V = ItemView;

    open spec fn view(&self) -> ItemView {
        ItemView { key: self.key@, description: self.description@ }
    }
}

/// The views of a list of items, in the same order.
pub open spec fn views(items: Seq<CatalogItem>) -> Seq<ItemView> {
    items.map_values(|item: CatalogItem| item@)
}

impl Clone for CatalogItem {
    fn clone(&self) -> (copy: CatalogItem)
        ensures
            copy@ == self@,
    {
        CatalogItem { key: self.key.clone(), description: self.description.clone() }
    }
}

impl PartialEq for CatalogItem {
    fn eq(&self, other: &CatalogItem) -> (same: bool) {
        self.key == other.key && self.description == other.description
    }
}

impl vstd::std_specs::cmp::PartialEqSpecImpl for CatalogItem {
    open spec fn obeys_eq_spec() -> bool {
        true
    }

    open spec fn eq_spec(&self, other: &CatalogItem) -> bool {
        self.key@ == other.key@ && self.description@ == other.description@
    }
}

/// When two items count as the same catalog entry.
#[derive(Clone, Copy, Debug, PartialEq, Eq, Structural)]
pub enum Equality {
    /// The keys match; descriptions are not compared.
    KeyOnly,
    /// Both the keys and the descriptions match.
    Full,
}

/// Whether `a` and `b` are the same entry under `policy`.
pub open spec fn same_item(policy: Equality, a: ItemView, b: ItemView) -> bool {
    match policy {
        Equality::KeyOnly => a.key == b.key,
        Equality::Full => a.key == b.key && a.description == b.description,
    }
}

/// Whether some entry of `snapshot` is the same as `item` under `policy`.
pub open spec fn occurs_in(policy: Equality, item: ItemView, snapshot: Seq<ItemView>) -> bool {
    exists|i: int| 0 <= i < snapshot.len() && same_item(policy, item, #[trigger] snapshot[i])
}

impl Equality {
    /// Compares two items under this policy.
    pub fn matches(&self, a: &CatalogItem, b: &CatalogItem) -> (same: bool)
        ensures
            same == same_item(*self, a@, b@),
    {
        match self {
            Equality::KeyOnly => a.key == b.key,
            Equality::Full => a.key == b.key && a.description == b.description,
        }
    }

    /// Searches `snapshot` for an entry that is the same as `item`.
    pub fn finds(&self, item: &CatalogItem, snapshot: &[CatalogItem]) -> (found: bool)
        ensures
            found == occurs_in(*self, item@, views(snapshot@)),
    {
        let mut i: usize = 0;
        while i < snapshot.len()
            invariant
                i <= snapshot.len(),
                forall|j: int| 0 <= j < i ==> !same_item(*self, item@, #[trigger] views(snapshot@)[j]),
            decreases snapshot.len() - i,
        {
            if self.matches(item, &snapshot[i]) {
                assert(same_item(*self, item@, views(snapshot@)[i as int]));
                return true;
            }
            i += 1;
        }
        false
    }
}

/// Whether `item` is new: no entry of `previous_items` is the same as it
/// under `policy`.
pub fn is_item_new(policy: Equality, item: &CatalogItem, previous_items: &[CatalogItem]) -> (new:
    bool)
    ensures
        new == !occurs_in(policy, item@, views(previous_items@)),
{
    !policy.finds(item, previous_items)
}

} // verus!
