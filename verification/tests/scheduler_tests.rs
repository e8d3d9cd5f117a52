use remind_bot::scheduler::{due_reminders, fire_due, remove_delivered, DEFAULT_TICK_INTERVAL_SECS};
use remind_bot::store::ReminderStore;

#[test]
fn default_tick_interval_is_a_minute() {
    assert_eq!(DEFAULT_TICK_INTERVAL_SECS, 60);
}

#[test]
fn due_snapshot_holds_exactly_the_due_entries() {
    let mut store = ReminderStore::new();
    let id1 = store.create(1, "past".to_string(), 100);
    store.create(1, "future".to_string(), 300);
    let id3 = store.create(2, "also past".to_string(), 150);
    let due = due_reminders(&store, 200);
    assert_eq!(due.len(), 2);
    assert_eq!(due[0].id, id1);
    assert_eq!(due[0].description, "past");
    assert_eq!(due[1].id, id3);
    assert_eq!(due[1].description, "also past");
}

#[test]
fn tick_removes_due_and_keeps_future() {
    let mut store = ReminderStore::new();
    store.create(1, "due".to_string(), 100);
    store.create(1, "not yet".to_string(), 999);
    let fired = fire_due(&mut store, 500);
    assert_eq!(fired.len(), 1);
    assert_eq!(fired[0].description, "due");
    let left = store.list_snapshot(1);
    assert_eq!(left.len(), 1);
    assert_eq!(left[0].description, "not yet");
}

#[test]
fn tick_fires_at_the_exact_deadline() {
    let mut store = ReminderStore::new();
    store.create(4, "on the dot".to_string(), 250);
    let fired = fire_due(&mut store, 250);
    assert_eq!(fired.len(), 1);
    assert!(store.list_snapshot(4).is_empty());
}

#[test]
fn tick_with_nothing_due_changes_nothing() {
    let mut store = ReminderStore::new();
    store.create(1, "later".to_string(), 1000);
    store.create(2, "much later".to_string(), 2000);
    let before_1 = store.list_snapshot(1);
    let before_2 = store.list_snapshot(2);
    let fired = fire_due(&mut store, 500);
    assert!(fired.is_empty());
    let after_1 = store.list_snapshot(1);
    let after_2 = store.list_snapshot(2);
    assert_eq!(before_1.len(), after_1.len());
    assert_eq!(before_2.len(), after_2.len());
    assert_eq!(before_1[0].id, after_1[0].id);
    assert_eq!(before_1[0].description, after_1[0].description);
    assert_eq!(before_1[0].fire_at, after_1[0].fire_at);
    assert_eq!(before_2[0].id, after_2[0].id);
    assert_eq!(store.issued_count(), 2);
}

#[test]
fn one_failed_delivery_does_not_hide_the_rest() {
    // both reminders are due; delivery of the first fails, so only the
    // second is handed back as delivered — it alone is removed
    let mut store = ReminderStore::new();
    let id1 = store.create(1, "failed send".to_string(), 10);
    let id2 = store.create(2, "sent".to_string(), 20);
    let due = due_reminders(&store, 100);
    assert_eq!(due.len(), 2);
    let delivered = vec![(2i64, id2)];
    remove_delivered(&mut store, &delivered);
    let chat1 = store.list_snapshot(1);
    assert_eq!(chat1.len(), 1);
    assert_eq!(chat1[0].id, id1);
    assert!(store.list_snapshot(2).is_empty());
}

#[test]
fn remove_delivered_ignores_already_gone_pairs() {
    let mut store = ReminderStore::new();
    let id = store.create(1, "only".to_string(), 10);
    let delivered = vec![(1i64, id), (1i64, id), (9i64, 42u32)];
    remove_delivered(&mut store, &delivered);
    assert!(store.list_snapshot(1).is_empty());
    assert_eq!(store.issued_count(), 1);
}
