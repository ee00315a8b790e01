//! The texts that a run produces: one notice per change, the summary of a
//! finished run, and the diagnostics of a run that had to stop.

use vstd::prelude::*;
use vstd::string::StringExecFns;
use crate::item::{views, CatalogItem, ItemView};
use crate::reconcile::keys_of;

verus! {

/// The notice for an item that appeared: `*NEW* <key>: <description>`.
pub open spec fn new_item_text(item: ItemView) -> Seq<char> {
    "*NEW* "@ + item.key + ": "@ + item.description
}

/// The notice for an item that disappeared: `<key> is no longer available`.
pub open spec fn removed_item_text(item: ItemView) -> Seq<char> {
    item.key + " is no longer available"@
}

/// `parts`, in order, with `separator` between each two neighbours.
pub open spec fn joined(parts: Seq<Seq<char>>, separator: Seq<char>) -> Seq<char>
    decreases parts.len(),
{
    if parts.len() == 0 {
        Seq::empty()
    } else if parts.len() == 1 {
        parts[0]
    } else {
        joined(parts.drop_last(), separator) + separator + parts.last()
    }
}

/// The summary of a finished run: `Found items: ` and the keys of the
/// current snapshot, in its order, separated by `, `.
pub open spec fn summary_text(current: Seq<ItemView>) -> Seq<char> {
    "Found items: "@ + joined(keys_of(current), ", "@)
}

/// The diagnostic of a run that could not read the previous snapshot.
pub open spec fn scan_failure_text(detail: Seq<char>) -> Seq<char> {
    "Error getting previous items: "@ + detail
}

/// The diagnostic of a run that could not obtain the current snapshot.
pub open spec fn scrape_failure_text(detail: Seq<char>) -> Seq<char> {
    "Error scraping website for new items: "@ + detail
}

/// Formats the notice for an item that appeared.
pub fn new_item_notice(item: &CatalogItem) -> (text: String)
    ensures
        text@ == new_item_text(item@),
{
    let mut text = String::from_str("*NEW* ");
    text.append(item.key.as_str());
    text.append(": ");
    text.append(item.description.as_str());
    text
}

/// Formats the notice for an item that disappeared.
pub fn removed_item_notice(item: &CatalogItem) -> (text: String)
    ensures
        text@ == removed_item_text(item@),
{
    let mut text = item.key.clone();
    text.append(" is no longer available");
    text
}

/// Formats the summary of a finished run.
pub fn summary_message(current: &[CatalogItem]) -> (text: String)
    ensures
        text@ == summary_text(views(current@)),
{
    let ghost keys = keys_of(views(current@));
    let mut list = String::new();
    let mut i: usize = 0;
    proof {
        assert(keys.take(0) =~= Seq::<Seq<char>>::empty());
    }
    while i < current.len()
        invariant
            i <= current.len(),
            keys == keys_of(views(current@)),
            list@ == joined(keys.take(i as int), ", "@),
        decreases current.len() - i,
    {
        proof {
            let head = keys.take(i + 1);
            assert(head.drop_last() =~= keys.take(i as int));
            assert(head.last() == current@[i as int].key@);
            if i == 0 {
                assert(joined(head, ", "@) == head[0]);
                assert(Seq::<char>::empty() + head[0] =~= head[0]);
            }
        }
        if i > 0 {
            list.append(", ");
        }
        list.append(current[i].key.as_str());
        i += 1;
    }
    proof {
        assert(keys.take(current.len() as int) =~= keys);
    }
    let mut text = String::from_str("Found items: ");
    text.append(list.as_str());
    text
}

/// Formats the diagnostic of a failed read of the previous snapshot.
pub fn scan_failure_message(detail: &str) -> (text: String)
    ensures
        text@ == scan_failure_text(detail@),
{
    let mut text = String::from_str("Error getting previous items: ");
    text.append(detail);
    text
}

/// Formats the diagnostic of a failed scrape.
pub fn scrape_failure_message(detail: &str) -> (text: String)
    ensures
        text@ == scrape_failure_text(detail@),
{
    let mut text = String::from_str("Error scraping website for new items: ");
    text.append(detail);
    text
}

} // verus!
