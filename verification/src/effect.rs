//! The side effects that a diff calls for, in the order in which a run
//! attempts them, and what is recorded of one that failed.

use vstd::prelude::*;
use crate::item::{views, CatalogItem, ItemView};
use crate::notice::{new_item_notice, new_item_text, removed_item_notice, removed_item_text};
use crate::reconcile::{Diff, DiffView};

verus! {

/// One side effect on a collaborator.
#[derive(Debug, PartialEq)]
pub enum Effect {
    /// Publish `text` through the notifier.
    Publish { text: String },
    /// Store `item` under its key, replacing what is there.
    Put { item: CatalogItem },
    /// Delete what is stored under `key`.
    Delete { key: String },
}

/// What an `Effect` is, over plain sequences of characters.
pub enum EffectView {
    Publish { text: Seq<char> },
    Put { item: ItemView },
    Delete { key: Seq<char> },
}

impl View for Effect {
    type V = EffectView;

    open spec fn view(&self) -> EffectView {
        match self {
            Effect::Publish { text } => EffectView::Publish { text: text@ },
            Effect::Put { item } => EffectView::Put { item: item@ },
            Effect::Delete { key } => EffectView::Delete { key: key@ },
        }
    }
}

impl Clone for Effect {
    fn clone(&self) -> (copy: Effect)
        ensures
            copy@ == self@,
    {
        match self {
            Effect::Publish { text } => Effect::Publish { text: text.clone() },
            Effect::Put { item } => Effect::Put { item: item.clone() },
            Effect::Delete { key } => Effect::Delete { key: key.clone() },
        }
    }
}

/// The views of a list of effects, in the same order.
pub open spec fn effect_views(effects: Seq<Effect>) -> Seq<EffectView> {
    effects.map_values(|effect: Effect| effect@)
}

/// For each added item, in order: its notice, then its storing.
pub open spec fn announce_and_put(added: Seq<ItemView>) -> Seq<EffectView> {
    Seq::new(
        2 * added.len(),
        |i: int|
            if i % 2 == 0 {
                EffectView::Publish { text: new_item_text(added[i / 2]) }
            } else {
                EffectView::Put { item: added[i / 2] }
            },
    )
}

/// For each removed item, in order: its notice, then its deletion by key.
pub open spec fn announce_and_delete(removed: Seq<ItemView>) -> Seq<EffectView> {
    Seq::new(
        2 * removed.len(),
        |i: int|
            if i % 2 == 0 {
                EffectView::Publish { text: removed_item_text(removed[i / 2]) }
            } else {
                EffectView::Delete { key: removed[i / 2].key }
            },
    )
}

/// The effects that `diff` calls for: the additions first, then the
/// removals. Unchanged items call for nothing.
pub open spec fn effects_of(diff: DiffView) -> Seq<EffectView> {
    announce_and_put(diff.added) + announce_and_delete(diff.removed)
}

/// Lists the effects that `diff` calls for, in the order of their attempt.
pub fn plan(diff: &Diff) -> (effects: Vec<Effect>)
    ensures
        effect_views(effects@) == effects_of(diff@),
{
    let mut effects: Vec<Effect> = Vec::new();
    let ghost added = views(diff.added@);
    let ghost removed = views(diff.removed@);
    let mut i: usize = 0;
    proof {
        assert(effect_views(effects@) =~= announce_and_put(added.take(0)));
    }
    while i < diff.added.len()
        invariant
            i <= diff.added.len(),
            added == views(diff.added@),
            effect_views(effects@) == announce_and_put(added.take(i as int)),
        decreases diff.added.len() - i,
    {
        let ghost before = effect_views(effects@);
        effects.push(Effect::Publish { text: new_item_notice(&diff.added[i]) });
        effects.push(Effect::Put { item: diff.added[i].clone() });
        proof {
            let item = added[i as int];
            assert(item == diff.added@[i as int]@);
            assert(effect_views(effects@) =~= before.push(
                EffectView::Publish { text: new_item_text(item) },
            ).push(EffectView::Put { item }));
            assert(effect_views(effects@) =~= announce_and_put(added.take(i + 1)));
        }
        i += 1;
    }
    proof {
        assert(added.take(diff.added.len() as int) =~= added);
        assert(effect_views(effects@) =~= announce_and_put(added) + announce_and_delete(
            removed.take(0),
        ));
    }
    let mut j: usize = 0;
    while j < diff.removed.len()
        invariant
            j <= diff.removed.len(),
            added == views(diff.added@),
            removed == views(diff.removed@),
            effect_views(effects@) == announce_and_put(added) + announce_and_delete(
                removed.take(j as int),
            ),
        decreases diff.removed.len() - j,
    {
        let ghost before = effect_views(effects@);
        effects.push(Effect::Publish { text: removed_item_notice(&diff.removed[j]) });
        effects.push(Effect::Delete { key: diff.removed[j].key.clone() });
        proof {
            let item = removed[j as int];
            assert(item == diff.removed@[j as int]@);
            assert(effect_views(effects@) =~= before.push(
                EffectView::Publish { text: removed_item_text(item) },
            ).push(EffectView::Delete { key: item.key }));
            assert(announce_and_delete(removed.take(j + 1)) =~= announce_and_delete(
                removed.take(j as int),
            ).push(EffectView::Publish { text: removed_item_text(item) }).push(
                EffectView::Delete { key: item.key },
            ));
            assert(effect_views(effects@) =~= announce_and_put(added) + announce_and_delete(
                removed.take(j + 1),
            ));
        }
        j += 1;
    }
    proof {
        assert(removed.take(diff.removed.len() as int) =~= removed);
    }
    effects
}

/// A side effect that failed and was passed over.
#[derive(Debug, PartialEq)]
pub enum ItemError {
    /// The notice `text` could not be published.
    Notification { text: String, detail: String },
    /// The item named `key` could not be stored or deleted.
    Persistence { key: String, detail: String },
}

/// What an `ItemError` is, over plain sequences of characters.
pub enum ItemErrorView {
    Notification { text: Seq<char>, detail: Seq<char> },
    Persistence { key: Seq<char>, detail: Seq<char> },
}

impl View for ItemError {
    type V = ItemErrorView;

    open spec fn view(&self) -> ItemErrorView {
        match self {
            ItemError::Notification { text, detail } => ItemErrorView::Notification {
                text: text@,
                detail: detail@,
            },
            ItemError::Persistence { key, detail } => ItemErrorView::Persistence {
                key: key@,
                detail: detail@,
            },
        }
    }
}

impl Clone for ItemError {
    fn clone(&self) -> (copy: ItemError)
        ensures
            copy@ == self@,
    {
        match self {
            ItemError::Notification { text, detail } => ItemError::Notification {
                text: text.clone(),
                detail: detail.clone(),
            },
            ItemError::Persistence { key, detail } => ItemError::Persistence {
                key: key.clone(),
                detail: detail.clone(),
            },
        }
    }
}

/// The views of a list of recorded failures, in the same order.
pub open spec fn error_views(errors: Seq<ItemError>) -> Seq<ItemErrorView> {
    errors.map_values(|error: ItemError| error@)
}

/// What is recorded when `effect` fails with the diagnostic `detail`: a
/// failed notice is a notification error, a failed write a persistence error
/// on the key concerned.
pub open spec fn failure_of(effect: EffectView, detail: Seq<char>) -> ItemErrorView {
    match effect {
        EffectView::Publish { text } => ItemErrorView::Notification { text, detail },
        EffectView::Put { item } => ItemErrorView::Persistence { key: item.key, detail },
        EffectView::Delete { key } => ItemErrorView::Persistence { key, detail },
    }
}

impl Effect {
    /// Records the failure of this effect with the diagnostic `detail`.
    pub fn failure(&self, detail: String) -> (error: ItemError)
        ensures
            error@ == failure_of(self@, detail@),
    {
        match self {
            Effect::Publish { text } => ItemError::Notification { text: text.clone(), detail },
            Effect::Put { item } => ItemError::Persistence { key: item.key.clone(), detail },
            Effect::Delete { key } => ItemError::Persistence { key: key.clone(), detail },
        }
    }
}

} // verus!
