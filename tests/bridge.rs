use script_systems::classify::classify;
use script_systems::engine::{after_step, execution_outcome, RunReport, RunStep, ScriptEngine, UnitError};
use script_systems::key_set::{AssetKey, KeySet};
use script_systems::notification::{drain_notifications, Notification, NotificationKind};
use script_systems::registry::Registry;
use script_systems::store::ScriptStore;
use script_systems::unit::{run_units, ScheduledUnit};

const STEPS: u64 = 1000;

fn key(id: u64) -> AssetKey {
    AssetKey { id }
}

fn note(kind: NotificationKind, id: u64) -> Notification {
    Notification::new(kind, key(id))
}

fn greet() -> AssetKey {
    key(1)
}

fn ping() -> AssetKey {
    key(2)
}

fn store_with(entries: &[(u64, &str)]) -> ScriptStore {
    let mut store = ScriptStore::new();
    for (id, text) in entries {
        store.set(key(*id), text.as_bytes().to_vec());
    }
    store
}

#[test]
fn key_set_insert_and_remove() {
    let mut s = KeySet::new();
    assert!(s.insert(key(3)));
    assert!(!s.insert(key(3)));
    assert!(s.insert(key(4)));
    assert_eq!(s.len(), 2);
    assert!(s.contains(key(3)));
    assert!(s.remove(key(3)));
    assert!(!s.remove(key(3)));
    assert!(!s.contains(key(3)));
    assert_eq!(s.to_vec(), vec![key(4)]);
}

#[test]
fn store_set_replace_remove() {
    let mut store = ScriptStore::new();
    assert!(store.get(key(1)).is_none());
    store.set(key(1), vec![1, 2]);
    store.set(key(1), vec![3]);
    assert_eq!(store.get(key(1)), Some(&vec![3]));
    store.remove(key(1));
    assert!(!store.contains(key(1)));
}

#[test]
fn drain_takes_everything_once() {
    let mut queue = vec![note(NotificationKind::Added, 1), note(NotificationKind::Modified, 2)];
    let drained = drain_notifications(&mut queue);
    assert_eq!(drained.len(), 2);
    assert_eq!(drained[1], note(NotificationKind::Modified, 2));
    assert!(queue.is_empty());
    assert!(drain_notifications(&mut queue).is_empty());
}

#[test]
fn repeated_added_pends_once() {
    let store = store_with(&[(1, "x = 1")]);
    let events = vec![note(NotificationKind::Added, 1); 4];
    let d = classify(&events, &store);
    assert_eq!(d.register.to_vec(), vec![key(1)]);
    assert!(d.unregister.to_vec().is_empty());
}

#[test]
fn added_without_bytes_is_not_pending() {
    let store = ScriptStore::new();
    let d = classify(&vec![note(NotificationKind::Added, 1)], &store);
    assert!(d.register.to_vec().is_empty());
}

#[test]
fn modified_and_loaded_decide_nothing() {
    let store = store_with(&[(1, "x = 1")]);
    let events = vec![note(NotificationKind::Modified, 1), note(NotificationKind::LoadedWithDependencies, 1)];
    let d = classify(&events, &store);
    assert!(d.register.to_vec().is_empty());
    assert!(d.unregister.to_vec().is_empty());
}

#[test]
fn last_deciding_notification_wins() {
    let store = store_with(&[(1, "x = 1"), (2, "x = 2")]);
    let events = vec![
        note(NotificationKind::Added, 1),
        note(NotificationKind::Removed, 1),
        note(NotificationKind::Unused, 2),
        note(NotificationKind::Added, 2),
        note(NotificationKind::Modified, 2),
    ];
    let d = classify(&events, &store);
    assert_eq!(d.register.to_vec(), vec![key(2)]);
    assert_eq!(d.unregister.to_vec(), vec![key(1)]);
}

#[test]
fn phase_builds_one_unit_for_repeated_added() {
    let store = store_with(&[(1, "x = 1")]);
    let mut reg = Registry::new();
    let mut queue = vec![note(NotificationKind::Added, 1); 3];
    let plan = reg.registration_phase(&mut queue, &store);
    assert!(queue.is_empty());
    assert_eq!(plan.built.len(), 1);
    assert_eq!(plan.built[0].key(), key(1));
    assert!(plan.retired.is_empty());
    assert_eq!(reg.units().len(), 1);
}

#[test]
fn re_added_key_replaces_its_unit() {
    let store = store_with(&[(1, "x = 1")]);
    let mut reg = Registry::new();
    let mut queue = vec![note(NotificationKind::Added, 1)];
    reg.registration_phase(&mut queue, &store);
    let mut queue = vec![note(NotificationKind::Unused, 1), note(NotificationKind::Added, 1)];
    let plan = reg.registration_phase(&mut queue, &store);
    assert_eq!(plan.retired, vec![key(1)]);
    assert_eq!(plan.built.len(), 1);
    let units = reg.units();
    assert_eq!(units.len(), 1);
    assert_eq!(units[0].key(), key(1));
}

#[test]
fn removed_or_unused_drops_unit() {
    let store = store_with(&[(1, "x = 1"), (2, "x = 2")]);
    let mut reg = Registry::new();
    let mut queue = vec![note(NotificationKind::Added, 1), note(NotificationKind::Added, 2)];
    reg.registration_phase(&mut queue, &store);
    let mut queue = vec![note(NotificationKind::Removed, 1), note(NotificationKind::Unused, 2)];
    let plan = reg.registration_phase(&mut queue, &store);
    assert_eq!(plan.retired, vec![key(1), key(2)]);
    assert!(plan.built.is_empty());
    assert!(!reg.contains(key(1)));
    assert!(!reg.contains(key(2)));
    assert!(reg.units().is_empty());
}

#[test]
fn removing_unknown_key_retires_nothing() {
    let store = ScriptStore::new();
    let mut reg = Registry::new();
    let mut queue = vec![note(NotificationKind::Removed, 9)];
    let plan = reg.registration_phase(&mut queue, &store);
    assert!(plan.retired.is_empty());
    assert!(reg.units().is_empty());
}

#[test]
fn scenario_greet_loads_and_runs() {
    let store = store_with(&[(1, "print(\"hello\")")]);
    let mut reg = Registry::new();
    let mut queue = vec![note(NotificationKind::Added, 1)];
    let plan = reg.registration_phase(&mut queue, &store);
    assert_eq!(plan.built.len(), 1);
    let unit = plan.built[0];
    assert_eq!(unit.key(), greet());
    assert_eq!(unit, ScheduledUnit::build(greet()));
    let mut engine = ScriptEngine::new();
    assert_eq!(unit.invoke(&mut engine, &store, STEPS).outcome, Ok(()));
    assert_eq!(unit.invoke(&mut engine, &store, STEPS).outcome, Ok(()));
}

#[test]
fn scenario_greet_breaks_while_ping_runs() {
    let mut store = store_with(&[(1, "print(\"hello\")"), (2, "print(\"pong\")")]);
    let mut reg = Registry::new();
    let mut queue = vec![note(NotificationKind::Added, 1), note(NotificationKind::Added, 2)];
    reg.registration_phase(&mut queue, &store);
    store.set(greet(), b"print(\"hello\"".to_vec());
    let mut queue = vec![note(NotificationKind::Modified, 1)];
    let plan = reg.registration_phase(&mut queue, &store);
    assert!(plan.built.is_empty());
    let units = reg.units();
    let mut engine = ScriptEngine::new();
    let outcomes = run_units(&units, &mut engine, &store, STEPS);
    assert_eq!(outcomes[0], RunReport { outcome: Err(UnitError::Compile), steps: 0 });
    assert_eq!(outcomes[1].outcome, Ok(()));
    assert_eq!(units[1].key(), ping());
}

#[test]
fn scenario_greet_removed() {
    let mut store = store_with(&[(1, "print(\"hello\")"), (2, "print(\"pong\")")]);
    let mut reg = Registry::new();
    let mut queue = vec![note(NotificationKind::Added, 1), note(NotificationKind::Added, 2)];
    reg.registration_phase(&mut queue, &store);
    store.remove(greet());
    let mut queue = vec![note(NotificationKind::Removed, 1)];
    reg.registration_phase(&mut queue, &store);
    let units = reg.units();
    assert_eq!(units, vec![ScheduledUnit::build(ping())]);
    let mut engine = ScriptEngine::new();
    let outcomes = run_units(&units, &mut engine, &store, STEPS);
    assert_eq!(outcomes.len(), 1);
    assert_eq!(outcomes[0].outcome, Ok(()));
}

#[test]
fn unit_sees_fresh_bytes() {
    let mut store = store_with(&[(1, "x = 1")]);
    let unit = ScheduledUnit::build(greet());
    let mut engine = ScriptEngine::new();
    assert_eq!(unit.invoke(&mut engine, &store, STEPS).outcome, Ok(()));
    store.set(greet(), b"error(\"boom\")".to_vec());
    assert_eq!(unit.invoke(&mut engine, &store, STEPS).outcome, Err(UnitError::Runtime));
    store.set(greet(), b"x = = 1".to_vec());
    assert_eq!(unit.invoke(&mut engine, &store, STEPS).outcome, Err(UnitError::Compile));
    store.set(greet(), b"x = 2".to_vec());
    assert_eq!(unit.invoke(&mut engine, &store, STEPS).outcome, Ok(()));
}

#[test]
fn missing_bytes_is_retrieval_error() {
    let store = ScriptStore::new();
    let mut engine = ScriptEngine::new();
    assert_eq!(ScheduledUnit::build(greet()).invoke(&mut engine, &store, STEPS).outcome, Err(UnitError::Retrieval));
}

#[test]
fn runaway_script_exhausts_budget() {
    let store = store_with(&[(1, "while true do end")]);
    let mut engine = ScriptEngine::new();
    let unit = ScheduledUnit::build(greet());
    assert_eq!(unit.invoke(&mut engine, &store, 3).outcome, Err(UnitError::Runtime));
    let store = store_with(&[(1, "x = 1")]);
    assert_eq!(unit.invoke(&mut engine, &store, 0).outcome, Err(UnitError::Runtime));
    assert_eq!(unit.invoke(&mut engine, &store, 1).outcome, Ok(()));
}

#[test]
fn failure_does_not_stop_later_units() {
    let store = store_with(&[(1, "error(\"boom\")"), (3, "x = 3")]);
    let units = vec![
        ScheduledUnit::build(key(1)),
        ScheduledUnit::build(key(2)),
        ScheduledUnit::build(key(3)),
    ];
    let mut engine = ScriptEngine::new();
    let outcomes = run_units(&units, &mut engine, &store, STEPS);
    let ends: Vec<Result<(), UnitError>> = outcomes.iter().map(|r| r.outcome).collect();
    assert_eq!(ends, vec![Err(UnitError::Runtime), Err(UnitError::Retrieval), Ok(())]);
    assert_eq!(outcomes[1].steps, 0);
}

#[test]
fn execution_outcome_maps_results() {
    assert_eq!(execution_outcome(None), Err(UnitError::Runtime));
    assert_eq!(execution_outcome(Some(Ok(Some(())))), Ok(()));
    assert_eq!(execution_outcome(Some(Ok(None))), Err(UnitError::Runtime));
}

#[test]
fn engine_runs_source_directly() {
    let mut engine = ScriptEngine::new();
    assert_eq!(engine.run_source(&b"return".to_vec(), STEPS).outcome, Ok(()));
    assert_eq!(engine.run_source(&b"(".to_vec(), STEPS).outcome, Err(UnitError::Compile));
}

#[test]
fn after_step_decides_the_loop() {
    assert_eq!(after_step(Some(true), 5, 5), RunStep::Finished);
    assert_eq!(after_step(None, 1, 5), RunStep::GiveUp);
    assert_eq!(after_step(Some(false), 4, 5), RunStep::Continue);
    assert_eq!(after_step(Some(false), 5, 5), RunStep::GiveUp);
}

#[test]
fn run_reports_count_steps() {
    let mut engine = ScriptEngine::new();
    let spin = b"while true do end".to_vec();
    assert_eq!(engine.run_source(&spin, 3), RunReport { outcome: Err(UnitError::Runtime), steps: 3 });
    assert_eq!(engine.run_source(&spin, 0), RunReport { outcome: Err(UnitError::Runtime), steps: 0 });
    assert_eq!(engine.run_source(&b"x = 1".to_vec(), 7), RunReport { outcome: Ok(()), steps: 1 });
    let store = store_with(&[(1, "while true do end")]);
    let report = ScheduledUnit::build(greet()).invoke(&mut engine, &store, 2);
    assert_eq!(report, RunReport { outcome: Err(UnitError::Runtime), steps: 2 });
}
