use std::collections::BTreeMap;

use catalog_watch::effect::{plan, Effect, ItemError};
use catalog_watch::item::{CatalogItem, Equality};
use catalog_watch::orchestrator::{Action, Event, FetchError, Orchestrator, Phase, Summary};
use catalog_watch::reconcile::Reconciler;

fn item(key: &str, description: &str) -> CatalogItem {
    CatalogItem { key: key.to_string(), description: description.to_string() }
}

fn publish(text: &str) -> Effect {
    Effect::Publish { text: text.to_string() }
}

fn put(key: &str, description: &str) -> Effect {
    Effect::Put { item: item(key, description) }
}

fn delete(key: &str) -> Effect {
    Effect::Delete { key: key.to_string() }
}

/// A table kept in memory, and the effects attempted against it and the notifier.
struct World {
    table: BTreeMap<String, String>,
    attempted: Vec<Effect>,
    failing: Vec<Effect>,
}

fn world(rows: &[CatalogItem]) -> World {
    let table = rows.iter().map(|i| (i.key.clone(), i.description.clone())).collect();
    World { table, attempted: vec![], failing: vec![] }
}

fn scan(world: &World) -> Vec<CatalogItem> {
    world.table.iter().map(|(k, d)| item(k, d)).collect()
}

fn attempt(world: &mut World, effect: Effect) -> Result<(), String> {
    world.attempted.push(effect.clone());
    if world.failing.contains(&effect) {
        return Err("unavailable".to_string());
    }
    match effect {
        Effect::Publish { .. } => {}
        Effect::Put { item } => {
            world.table.insert(item.key, item.description);
        }
        Effect::Delete { key } => {
            world.table.remove(&key);
        }
    }
    Ok(())
}

fn run(
    policy: Equality,
    world: &mut World,
    scraped: Result<Vec<CatalogItem>, String>,
) -> Result<Summary, FetchError> {
    let mut machine = Orchestrator::new(policy, Some("req-1".to_string()));
    let mut scraped = Some(scraped);
    let mut action = machine.pending();
    for _ in 0..1000 {
        let event = match action {
            Action::Scan => Event::Scanned(Ok(scan(world))),
            Action::Fetch => Event::Fetched(scraped.take().unwrap()),
            Action::Apply(effect) => Event::Applied(attempt(world, effect)),
            Action::Finish(outcome) => return outcome,
        };
        (machine, action) = machine.step(event);
    }
    panic!("the run did not end");
}

#[test]
fn plan_announces_then_writes_each_change() {
    let previous = vec![item("Gone", "old"), item("Kept", "same")];
    let current = vec![item("Kept", "same"), item("New", "fresh"), item("Also", "")];
    let diff = Reconciler::new(Equality::Full).diff(&previous, &current);
    assert_eq!(
        plan(&diff),
        vec![
            publish("*NEW* New: fresh"),
            put("New", "fresh"),
            publish("*NEW* Also: "),
            put("Also", ""),
            publish("Gone is no longer available"),
            delete("Gone"),
        ]
    );
}

#[test]
fn plan_of_an_empty_diff_is_empty() {
    let snapshot = vec![item("Kept", "same")];
    let diff = Reconciler::new(Equality::Full).diff(&snapshot, &snapshot);
    assert_eq!(plan(&diff), vec![]);
}

#[test]
fn addition_is_announced_and_stored() {
    let mut w = world(&[item("Vanilla", "classic")]);
    let current = vec![item("Vanilla", "classic"), item("Maple", "autumn spice")];
    let summary = run(Equality::Full, &mut w, Ok(current)).unwrap();
    assert_eq!(w.attempted, vec![publish("*NEW* Maple: autumn spice"), put("Maple", "autumn spice")]);
    assert_eq!(summary.message, "Found items: Vanilla, Maple");
    assert_eq!(summary.recovered, vec![]);
    assert_eq!(w.table.get("Maple").map(String::as_str), Some("autumn spice"));
}

#[test]
fn removal_is_announced_and_deleted() {
    let mut w = world(&[item("Vanilla", "classic"), item("Maple", "autumn spice")]);
    let summary = run(Equality::Full, &mut w, Ok(vec![item("Vanilla", "classic")])).unwrap();
    assert_eq!(w.attempted, vec![publish("Maple is no longer available"), delete("Maple")]);
    assert_eq!(summary.message, "Found items: Vanilla");
    assert!(!w.table.contains_key("Maple"));
}

#[test]
fn empty_store_is_populated_in_scrape_order() {
    let mut w = world(&[]);
    let summary = run(Equality::Full, &mut w, Ok(vec![item("B", "two"), item("A", "one")])).unwrap();
    assert_eq!(
        w.attempted,
        vec![publish("*NEW* B: two"), put("B", "two"), publish("*NEW* A: one"), put("A", "one")]
    );
    assert_eq!(summary.message, "Found items: B, A");
}

#[test]
fn empty_scrape_removes_everything() {
    let mut w = world(&[item("A", "one"), item("B", "two")]);
    let summary = run(Equality::KeyOnly, &mut w, Ok(vec![])).unwrap();
    assert_eq!(
        w.attempted,
        vec![
            publish("A is no longer available"),
            delete("A"),
            publish("B is no longer available"),
            delete("B"),
        ]
    );
    assert_eq!(summary.message, "Found items: ");
    assert!(w.table.is_empty());
}

#[test]
fn failed_scrape_is_fatal_and_touches_nothing() {
    let mut w = world(&[item("Vanilla", "classic")]);
    let error = run(Equality::Full, &mut w, Err("connection refused".to_string())).unwrap_err();
    assert_eq!(
        error,
        FetchError {
            message: "Error scraping website for new items: connection refused".to_string(),
            request_id: Some("req-1".to_string()),
        }
    );
    assert_eq!(w.attempted, vec![]);
    assert_eq!(scan(&w), vec![item("Vanilla", "classic")]);
}

#[test]
fn failed_scan_is_fatal_before_the_scrape() {
    let machine = Orchestrator::new(Equality::Full, None);
    assert_eq!(machine.pending(), Action::Scan);
    let (machine, action) = machine.step(Event::Scanned(Err("throttled".to_string())));
    assert_eq!(
        action,
        Action::Finish(Err(FetchError {
            message: "Error getting previous items: throttled".to_string(),
            request_id: None,
        }))
    );
    assert_eq!(machine.phase(), Phase::Finished);
    let (machine, again) = machine.step(Event::Fetched(Ok(vec![item("Vanilla", "classic")])));
    assert_eq!(again, action);
    assert_eq!(machine.pending(), action);
}

#[test]
fn failed_notice_does_not_block_the_write_or_later_items() {
    let mut w = world(&[item("Gone", "old")]);
    w.failing = vec![publish("*NEW* A: one")];
    let summary = run(Equality::Full, &mut w, Ok(vec![item("A", "one"), item("B", "two")])).unwrap();
    assert_eq!(
        w.attempted,
        vec![
            publish("*NEW* A: one"),
            put("A", "one"),
            publish("*NEW* B: two"),
            put("B", "two"),
            publish("Gone is no longer available"),
            delete("Gone"),
        ]
    );
    assert_eq!(
        summary.recovered,
        vec![ItemError::Notification {
            text: "*NEW* A: one".to_string(),
            detail: "unavailable".to_string(),
        }]
    );
    assert_eq!(summary.message, "Found items: A, B");
    assert_eq!(scan(&w), vec![item("A", "one"), item("B", "two")]);
}

#[test]
fn failed_writes_are_recorded_and_retried_by_the_next_run() {
    let mut w = world(&[item("Gone", "old")]);
    w.failing = vec![put("A", "one"), delete("Gone")];
    let current = vec![item("A", "one")];
    let summary = run(Equality::Full, &mut w, Ok(current.clone())).unwrap();
    assert_eq!(
        summary.recovered,
        vec![
            ItemError::Persistence { key: "A".to_string(), detail: "unavailable".to_string() },
            ItemError::Persistence { key: "Gone".to_string(), detail: "unavailable".to_string() },
        ]
    );
    assert_eq!(scan(&w), vec![item("Gone", "old")]);
    let first = w.attempted.clone();
    w.attempted.clear();
    w.failing.clear();
    let summary = run(Equality::Full, &mut w, Ok(current.clone())).unwrap();
    assert_eq!(w.attempted, first);
    assert_eq!(summary.recovered, vec![]);
    assert_eq!(scan(&w), current);
}

#[test]
fn second_run_over_the_same_scrape_is_quiet() {
    for policy in [Equality::Full, Equality::KeyOnly] {
        let mut w = world(&[item("Gone", "old"), item("Kept", "same")]);
        let current = vec![item("Kept", "same"), item("New", "fresh")];
        run(policy, &mut w, Ok(current.clone())).unwrap();
        assert_eq!(w.attempted.len(), 4);
        w.attempted.clear();
        let summary = run(policy, &mut w, Ok(current.clone())).unwrap();
        assert_eq!(w.attempted, vec![]);
        assert_eq!(summary.message, "Found items: Kept, New");
    }
}

#[test]
fn edited_description_under_full_equality_takes_two_more_runs() {
    let mut w = world(&[item("Vanilla", "classic")]);
    let current = vec![item("Vanilla", "french")];
    run(Equality::Full, &mut w, Ok(current.clone())).unwrap();
    assert_eq!(
        w.attempted,
        vec![
            publish("*NEW* Vanilla: french"),
            put("Vanilla", "french"),
            publish("Vanilla is no longer available"),
            delete("Vanilla"),
        ]
    );
    assert!(w.table.is_empty());
    w.attempted.clear();
    run(Equality::Full, &mut w, Ok(current.clone())).unwrap();
    assert_eq!(w.attempted, vec![publish("*NEW* Vanilla: french"), put("Vanilla", "french")]);
    w.attempted.clear();
    run(Equality::Full, &mut w, Ok(current)).unwrap();
    assert_eq!(w.attempted, vec![]);
}

#[test]
fn edited_description_under_key_only_equality_is_left_alone() {
    let mut w = world(&[item("Vanilla", "classic")]);
    let summary = run(Equality::KeyOnly, &mut w, Ok(vec![item("Vanilla", "french")])).unwrap();
    assert_eq!(w.attempted, vec![]);
    assert_eq!(summary.message, "Found items: Vanilla");
    assert_eq!(scan(&w), vec![item("Vanilla", "classic")]);
}

#[test]
fn event_that_answers_nothing_is_ignored() {
    let machine = Orchestrator::new(Equality::Full, None);
    let (machine, action) = machine.step(Event::Applied(Ok(())));
    assert_eq!(action, Action::Scan);
    let (machine, action) = machine.step(Event::Fetched(Ok(vec![])));
    assert_eq!(action, Action::Scan);
    assert_eq!(machine.phase(), Phase::AwaitingScan);
    let (machine, action) = machine.step(Event::Scanned(Ok(vec![])));
    assert_eq!(action, Action::Fetch);
    let (machine, action) = machine.step(Event::Scanned(Ok(vec![item("late", "")])));
    assert_eq!(action, Action::Fetch);
    assert_eq!(machine.phase(), Phase::AwaitingFetch);
    let (machine, first) = machine.step(Event::Fetched(Ok(vec![item("A", "one")])));
    assert_eq!(first, Action::Apply(publish("*NEW* A: one")));
    let (machine, action) = machine.step(Event::Fetched(Ok(vec![])));
    assert_eq!(action, first);
    assert_eq!(machine.pending(), first);
    assert_eq!(machine.phase(), Phase::Applying);
    let (machine, action) = machine.step(Event::Applied(Ok(())));
    assert_eq!(action, Action::Apply(put("A", "one")));
    let (machine, last) = machine.step(Event::Applied(Err("full".to_string())));
    assert_eq!(
        last,
        Action::Finish(Ok(Summary {
            message: "Found items: A".to_string(),
            recovered: vec![ItemError::Persistence {
                key: "A".to_string(),
                detail: "full".to_string()
            }],
        }))
    );
    let (machine, action) = machine.step(Event::Applied(Ok(())));
    assert_eq!(action, last);
    assert_eq!(machine.phase(), Phase::Finished);
}

#[test]
fn effect_failure_is_classified_by_its_kind() {
    assert_eq!(
        publish("hello").failure("down".to_string()),
        ItemError::Notification { text: "hello".to_string(), detail: "down".to_string() }
    );
    assert_eq!(
        put("A", "one").failure("down".to_string()),
        ItemError::Persistence { key: "A".to_string(), detail: "down".to_string() }
    );
    assert_eq!(
        delete("A").failure("".to_string()),
        ItemError::Persistence { key: "A".to_string(), detail: "".to_string() }
    );
}
