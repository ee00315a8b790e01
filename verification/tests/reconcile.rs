use catalog_watch::item::{is_item_new, CatalogItem, Equality};
use catalog_watch::reconcile::Reconciler;

fn item(key: &str, description: &str) -> CatalogItem {
    CatalogItem { key: key.to_string(), description: description.to_string() }
}

fn keys(items: &[CatalogItem]) -> Vec<String> {
    items.iter().map(|i| i.key.clone()).collect()
}

#[test]
fn addition_is_reported_once() {
    let previous = vec![item("Vanilla", "classic")];
    let current = vec![item("Vanilla", "classic"), item("Maple", "autumn spice")];
    for policy in [Equality::Full, Equality::KeyOnly] {
        let diff = Reconciler::new(policy).diff(&previous, &current);
        assert_eq!(diff.added, vec![item("Maple", "autumn spice")]);
        assert_eq!(diff.removed, vec![]);
        assert_eq!(diff.unchanged, vec![item("Vanilla", "classic")]);
    }
}

#[test]
fn removal_is_reported_once() {
    let previous = vec![item("Vanilla", "classic"), item("Maple", "autumn spice")];
    let current = vec![item("Vanilla", "classic")];
    for policy in [Equality::Full, Equality::KeyOnly] {
        let diff = Reconciler::new(policy).diff(&previous, &current);
        assert_eq!(diff.added, vec![]);
        assert_eq!(diff.removed, vec![item("Maple", "autumn spice")]);
        assert_eq!(diff.unchanged, vec![item("Vanilla", "classic")]);
    }
}

#[test]
fn empty_previous_adds_everything_in_order() {
    let current = vec![item("A", "first"), item("B", "second")];
    let diff = Reconciler::new(Equality::Full).diff(&[], &current);
    assert_eq!(diff.added, vec![item("A", "first"), item("B", "second")]);
    assert_eq!(diff.removed, vec![]);
    assert_eq!(diff.unchanged, vec![]);
}

#[test]
fn empty_current_removes_everything_in_order() {
    let previous = vec![item("B", "second"), item("A", "first")];
    let diff = Reconciler::new(Equality::KeyOnly).diff(&previous, &[]);
    assert_eq!(diff.added, vec![]);
    assert_eq!(diff.removed, vec![item("B", "second"), item("A", "first")]);
    assert_eq!(diff.unchanged, vec![]);
}

#[test]
fn both_empty_gives_empty_diff() {
    let diff = Reconciler::new(Equality::Full).diff(&[], &[]);
    assert_eq!(diff.added, vec![]);
    assert_eq!(diff.removed, vec![]);
    assert_eq!(diff.unchanged, vec![]);
}

#[test]
fn snapshot_against_itself_is_unchanged() {
    let snapshot = vec![item("Vanilla", "classic"), item("Maple", ""), item("Mint", "fresh")];
    for policy in [Equality::Full, Equality::KeyOnly] {
        let diff = Reconciler::new(policy).diff(&snapshot, &snapshot);
        assert_eq!(diff.added, vec![]);
        assert_eq!(diff.removed, vec![]);
        assert_eq!(diff.unchanged, snapshot);
    }
}

#[test]
fn reordered_snapshot_is_unchanged() {
    let previous = vec![item("Vanilla", "classic"), item("Maple", "autumn spice")];
    let current = vec![item("Maple", "autumn spice"), item("Vanilla", "classic")];
    let diff = Reconciler::new(Equality::Full).diff(&previous, &current);
    assert_eq!(diff.added, vec![]);
    assert_eq!(diff.removed, vec![]);
    assert_eq!(diff.unchanged, current);
}

#[test]
fn edited_description_under_full_equality_is_removed_and_added() {
    let previous = vec![item("Vanilla", "classic")];
    let current = vec![item("Vanilla", "french")];
    let diff = Reconciler::new(Equality::Full).diff(&previous, &current);
    assert_eq!(diff.added, vec![item("Vanilla", "french")]);
    assert_eq!(diff.removed, vec![item("Vanilla", "classic")]);
    assert_eq!(diff.unchanged, vec![]);
}

#[test]
fn edited_description_under_key_only_equality_is_unchanged() {
    let previous = vec![item("Vanilla", "classic")];
    let current = vec![item("Vanilla", "french")];
    let diff = Reconciler::new(Equality::KeyOnly).diff(&previous, &current);
    assert_eq!(diff.added, vec![]);
    assert_eq!(diff.removed, vec![]);
    assert_eq!(diff.unchanged, vec![item("Vanilla", "french")]);
}

#[test]
fn lists_keep_the_order_of_their_snapshot() {
    let previous = vec![item("z", ""), item("keep", ""), item("y", ""), item("x", "")];
    let current = vec![item("c", ""), item("b", ""), item("keep", ""), item("a", "")];
    let diff = Reconciler::new(Equality::Full).diff(&previous, &current);
    assert_eq!(keys(&diff.added), vec!["c", "b", "a"]);
    assert_eq!(keys(&diff.removed), vec!["z", "y", "x"]);
    assert_eq!(keys(&diff.unchanged), vec!["keep"]);
}

#[test]
fn keys_of_each_snapshot_fall_in_exactly_one_list() {
    let previous = vec![item("a", "1"), item("b", "2"), item("c", "3")];
    let current = vec![item("b", "2"), item("c", "changed"), item("d", "4")];
    for policy in [Equality::Full, Equality::KeyOnly] {
        let diff = Reconciler::new(policy).diff(&previous, &current);
        let added = keys(&diff.added);
        let removed = keys(&diff.removed);
        let unchanged = keys(&diff.unchanged);
        for c in &current {
            assert_ne!(added.contains(&c.key), unchanged.contains(&c.key));
        }
        for p in &previous {
            assert_ne!(removed.contains(&p.key), unchanged.contains(&p.key));
        }
        assert_eq!(added.len() + unchanged.len(), current.len());
    }
}

#[test]
fn repeated_key_under_full_equality_breaks_the_key_partition() {
    let previous = vec![item("Vanilla", "classic")];
    let current = vec![item("Vanilla", "classic"), item("Vanilla", "french")];
    let diff = Reconciler::new(Equality::Full).diff(&previous, &current);
    assert_eq!(diff.added, vec![item("Vanilla", "french")]);
    assert_eq!(diff.unchanged, vec![item("Vanilla", "classic")]);
    assert_eq!(diff.removed, vec![]);
}

#[test]
fn repeated_key_under_key_only_equality_is_classified_alike() {
    let current = vec![item("Vanilla", "classic"), item("Vanilla", "french")];
    let diff = Reconciler::new(Equality::KeyOnly).diff(&[], &current);
    assert_eq!(diff.added, current);
    let diff = Reconciler::new(Equality::KeyOnly).diff(&[item("Vanilla", "old")], &current);
    assert_eq!(diff.unchanged, current);
    assert_eq!(diff.added, vec![]);
    assert_eq!(diff.removed, vec![]);
}

#[test]
fn is_item_new_under_full_equality_compares_key_and_description() {
    let previous = vec![item("Vanilla", "classic"), item("Maple", "")];
    assert!(!is_item_new(Equality::Full, &item("Vanilla", "classic"), &previous));
    assert!(!is_item_new(Equality::Full, &item("Maple", ""), &previous));
    assert!(is_item_new(Equality::Full, &item("Vanilla", "french"), &previous));
    assert!(is_item_new(Equality::Full, &item("Mint", "classic"), &previous));
    assert!(is_item_new(Equality::Full, &item("Vanilla", "classic"), &[]));
}

#[test]
fn is_item_new_under_key_only_equality_compares_the_key() {
    let previous = vec![item("Vanilla", "classic")];
    assert!(!is_item_new(Equality::KeyOnly, &item("Vanilla", "new recipe"), &previous));
    assert!(!is_item_new(Equality::KeyOnly, &item("Vanilla", "classic"), &previous));
    assert!(is_item_new(Equality::KeyOnly, &item("Maple", "classic"), &previous));
    assert!(is_item_new(Equality::KeyOnly, &item("vanilla", "classic"), &previous));
    assert!(is_item_new(Equality::KeyOnly, &item("Vanilla", "classic"), &[]));
}

#[test]
fn is_item_new_agrees_with_the_diff() {
    let previous = vec![item("Vanilla", "classic"), item("Maple", "autumn spice")];
    let current = vec![item("Vanilla", "new recipe"), item("Mint", "fresh")];
    for policy in [Equality::Full, Equality::KeyOnly] {
        let diff = Reconciler::new(policy).diff(&previous, &current);
        for c in &current {
            assert_eq!(is_item_new(policy, c, &previous), diff.added.contains(c));
        }
    }
}

#[test]
fn policies_compare_as_named() {
    let a = item("Vanilla", "classic");
    let b = item("Vanilla", "french");
    let c = item("Maple", "classic");
    assert!(Equality::KeyOnly.matches(&a, &b));
    assert!(!Equality::Full.matches(&a, &b));
    assert!(Equality::Full.matches(&a, &a.clone()));
    assert!(!Equality::KeyOnly.matches(&a, &c));
    assert!(Equality::KeyOnly.finds(&b, &[c.clone(), a.clone()]));
    assert!(!Equality::Full.finds(&b, &[c, a]));
}

#[test]
fn items_are_equal_when_both_fields_are() {
    assert_eq!(item("Vanilla", "classic"), item("Vanilla", "classic"));
    assert_ne!(item("Vanilla", "classic"), item("Vanilla", ""));
    assert_ne!(item("Vanilla", "classic"), item("vanilla", "classic"));
}
