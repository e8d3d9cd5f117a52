use remind_bot::dialogue::{transition, Action, Command, Event, State};
use remind_bot::scheduler::fire_due;
use remind_bot::store::ReminderStore;

fn ts(rfc3339: &str) -> i64 {
    chrono::DateTime::parse_from_rfc3339(rfc3339).unwrap().timestamp()
}

#[test]
fn create_then_tick_delivers_and_empties() {
    let t0 = ts("2024-01-01T00:00:00Z");
    let fire = ts("2024-01-01T00:01:00Z");
    let tick = ts("2024-01-01T00:01:05Z");
    let chat: i64 = 42;

    let mut store = ReminderStore::new();
    let (s1, a1) = transition(&mut store, chat, State::Start, Event::Cmd(Command::Remind), t0);
    assert_eq!(s1, State::GettingReminderTime);
    assert!(matches!(a1, Action::PromptTime));

    let (s2, a2) = transition(&mut store, chat, s1, Event::Text("60".to_string()), t0);
    assert_eq!(s2, State::GettingReminderDescription { time_delta: 60 });
    assert!(matches!(a2, Action::PromptDescription));

    let (s3, a3) = transition(&mut store, chat, s2, Event::Text("call mom".to_string()), t0);
    assert_eq!(s3, State::Start);
    assert!(matches!(a3, Action::ReminderCreated(1)));

    let snap = store.list_snapshot(chat);
    assert_eq!(snap.len(), 1);
    assert_eq!(snap[0].id, 1);
    assert_eq!(snap[0].fire_at, fire);
    assert_eq!(snap[0].description, "call mom");
    assert_eq!(snap[0].owner_chat, chat);

    // a tick before the deadline delivers nothing
    let early = fire_due(&mut store, t0);
    assert!(early.is_empty());
    assert_eq!(store.list_snapshot(chat).len(), 1);

    // a tick past the deadline delivers the reminder and removes it
    let fired = fire_due(&mut store, tick);
    assert_eq!(fired.len(), 1);
    assert_eq!(fired[0].description, "call mom");
    assert_eq!(fired[0].owner_chat, chat);
    assert!(store.list_snapshot(chat).is_empty());
}

#[test]
fn cancel_from_start_has_no_side_effects() {
    let mut store = ReminderStore::new();
    let (next, action) = transition(&mut store, 7, State::Start, Event::Cmd(Command::Cancel), 0);
    assert_eq!(next, State::Start);
    assert!(matches!(action, Action::ReportReset));
    assert_eq!(store.issued_count(), 0);
    assert!(store.list_snapshot(7).is_empty());
}

#[test]
fn cancel_discards_the_held_duration() {
    let mut store = ReminderStore::new();
    let held = State::GettingReminderDescription { time_delta: 30 };
    let (next, action) = transition(&mut store, 7, held, Event::Cmd(Command::Cancel), 0);
    assert_eq!(next, State::Start);
    assert!(matches!(action, Action::ReportReset));
    // no reminder was created from the discarded payload
    assert_eq!(store.issued_count(), 0);
    assert!(store.list_snapshot(7).is_empty());
}
