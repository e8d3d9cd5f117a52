//! The per-chat dialogue state machine: the conversation state a chat is
//! in, the commands and text it may send, and the transition rules that
//! validate input, mutate the reminder store, and pick the next state.
//!
//! Sending the resulting prompts and reports is message-transport work
//! and happens outside the library; a transition returns the action to
//! perform as a value.

use vstd::prelude::*;
use vstd::string::StringExecFns;

use crate::parse::{digits_value, is_u32_text, is_u64_text, parse_u32, parse_u64};
use crate::store::{of_chat, without, Reminder, ReminderStore, ReminderV, StoreError};

verus! {

/// The commands a chat can issue.
#[derive(Clone, Copy, Debug, PartialEq, Eq, Structural)]
pub enum Command {
    Help,
    Remind,
    List,
    Remove,
    Cancel,
}

/// A chat's conversation state; every chat starts at `Start`.
#[derive(Clone, Copy, Debug, PartialEq, Eq, Structural)]
pub enum State {
    /// Idle: accepts commands.
    Start,
    /// Waiting for the reminder delay, in seconds.
    GettingReminderTime,
    /// Waiting for the reminder text; carries the parsed delay.
    GettingReminderDescription { time_delta: u64 },
    /// Waiting for the id of the reminder to remove.
    Removing,
}

impl Default for State {
    fn default() -> (r: Self)
        ensures
            r == State::Start,
    {
        State::Start
    }
}

/// An incoming event for a chat: a structured command or free text.
#[derive(Debug)]
pub enum Event {
    Cmd(Command),
    Text(String),
}

/// What a transition asks the surrounding transport to do.
#[derive(Debug)]
pub enum Action {
    /// Prompt for the reminder delay.
    PromptTime,
    /// Prompt for the reminder description.
    PromptDescription,
    /// Prompt for the id of the reminder to remove.
    PromptRemoveId,
    /// Render the command list.
    ShowHelp,
    /// Render the chat's reminders, an independent snapshot.
    ShowReminders(Vec<Reminder>),
    /// A reminder was created under this id.
    ReminderCreated(u32),
    /// The reminder with this id was removed.
    ReminderRemoved(u32),
    /// The removal failed; says whether the chat or only the id is unknown.
    RemoveFailed(StoreError),
    /// Report that the conversation state was reset.
    ReportReset,
    /// Report invalid input for the current state.
    ReportInvalid,
    /// Report that the text did not parse as the number asked for.
    ReportParseError,
}

/// Every command, in the order the command list renders them.
pub fn all_commands() -> (r: Vec<Command>)
    ensures
        r@ == seq![
            Command::Help,
            Command::Remind,
            Command::List,
            Command::Remove,
            Command::Cancel,
        ],
{
    let mut v: Vec<Command> = Vec::new();
    v.push(Command::Help);
    v.push(Command::Remind);
    v.push(Command::List);
    v.push(Command::Remove);
    v.push(Command::Cancel);
    proof {
        assert(v@ =~= seq![
            Command::Help,
            Command::Remind,
            Command::List,
            Command::Remove,
            Command::Cancel,
        ]);
    }
    v
}

impl Command {
    /// The command's display name, as rendered on the command keyboard.
    pub fn label(&self) -> (r: String)
        ensures
            match self {
                Command::Help => r@ == "Help"@,
                Command::Remind => r@ == "Remind"@,
                Command::List => r@ == "List"@,
                Command::Remove => r@ == "Remove"@,
                Command::Cancel => r@ == "Cancel"@,
            },
    {
        match self {
            Command::Help => String::from_str("Help"),
            Command::Remind => String::from_str("Remind"),
            Command::List => String::from_str("List"),
            Command::Remove => String::from_str("Remove"),
            Command::Cancel => String::from_str("Cancel"),
        }
    }
}

/// The command a callback button press carries: only the `Remind` and
/// `Help` buttons are wired; any other payload is rejected.
pub fn callback_command(data: &String) -> (r: Option<Command>)
    ensures
        r == Some(Command::Remind) <==> data@ == "Remind"@,
        r == Some(Command::Help) <==> data@ == "Help"@,
        r is None <==> (data@ != "Remind"@ && data@ != "Help"@),
{
    proof {
        reveal_strlit("Remind");
        reveal_strlit("Help");
        assert("Remind"@.len() == 6);
        assert("Help"@.len() == 4);
    }
    let remind_label = String::from_str("Remind");
    let help_label = String::from_str("Help");
    if *data == remind_label {
        Some(Command::Remind)
    } else if *data == help_label {
        Some(Command::Help)
    } else {
        None
    }
}

/// One dialogue step for `chat`: looks up the event against the current
/// state, validates input, possibly mutates the store, and returns the
/// action to perform together with the chat's next state.
///
/// The transition table: `Cancel` resets any state to `Start` and never
/// touches the store. From `Start`, `Remind` and `Remove` move to the
/// prompting states, `Help` and `List` stay. Numeric text advances
/// `GettingReminderTime` and resolves `Removing`; text that does not
/// parse reports an error and stays. Text in
/// `GettingReminderDescription` creates the reminder with
/// `fire_at = now + time_delta` and returns to `Start`. Every other
/// pair reports invalid input and changes nothing.
pub fn transition(store: &mut ReminderStore, chat: i64, state: State, event: Event, now: i64) -> (r:
    (State, Action))
    requires
        old(store).wf(),
        match (state, event) {
            (State::GettingReminderDescription { time_delta }, Event::Text(_)) => old(
                store,
            ).issued() < u32::MAX && time_delta <= i64::MAX as u64 && now as int
                + time_delta as int <= i64::MAX as int,
            _ => true,
        },
    ensures
        final(store).wf(),
        final(store).issued() >= old(store).issued(),
        ({
            let (next, action) = r;
            match (state, event) {
                (_, Event::Cmd(Command::Cancel)) => next == State::Start && action
                    == Action::ReportReset && *final(store) == *old(store),
                (State::Start, Event::Cmd(Command::Remind)) => next == State::GettingReminderTime
                    && action == Action::PromptTime && *final(store) == *old(store),
                (State::Start, Event::Cmd(Command::Help)) => next == State::Start && action
                    == Action::ShowHelp && *final(store) == *old(store),
                (State::Start, Event::Cmd(Command::List)) => next == State::Start && *final(store)
                    == *old(store) && match action {
                    Action::ShowReminders(v) => v@.map_values(|x: Reminder| x@) == of_chat(
                        old(store).entries(),
                        chat,
                    ),
                    _ => false,
                },
                (State::Start, Event::Cmd(Command::Remove)) => next == State::Removing && action
                    == Action::PromptRemoveId && *final(store) == *old(store),
                (State::Start, Event::Text(_)) => next == State::Start && action
                    == Action::ReportInvalid && *final(store) == *old(store),
                (State::GettingReminderTime, Event::Text(t)) => *final(store) == *old(store) && (
                if is_u64_text(t@) {
                    next == (State::GettingReminderDescription {
                        time_delta: digits_value(t@) as u64,
                    }) && action == Action::PromptDescription
                } else {
                    next == State::GettingReminderTime && action == Action::ReportParseError
                }),
                (State::GettingReminderDescription { time_delta }, Event::Text(desc)) => {
                    &&& next == State::Start
                    &&& final(store).issued() == old(store).issued() + 1
                    &&& final(store).entries() == old(store).entries().push(
                        ReminderV {
                            id: (old(store).issued() + 1) as u32,
                            description: desc@,
                            fire_at: (now + time_delta as i64) as i64,
                            owner_chat: chat,
                        },
                    )
                    &&& action == Action::ReminderCreated((old(store).issued() + 1) as u32)
                },
                (State::Removing, Event::Text(t)) => if is_u32_text(t@) {
                    let id = digits_value(t@) as u32;
                    {
                        &&& next == State::Start
                        &&& final(store).issued() == old(store).issued()
                        &&& final(store).entries() == without(old(store).entries(), chat, id)
                        &&& (if old(store).contains_id(chat, id) {
                            action == Action::ReminderRemoved(id)
                        } else if old(store).has_chat(chat) {
                            &&& action == Action::RemoveFailed(StoreError::ReminderNotFound)
                            &&& *final(store) == *old(store)
                        } else {
                            &&& action == Action::RemoveFailed(StoreError::ChatNotFound)
                            &&& *final(store) == *old(store)
                        })
                    }
                } else {
                    &&& next == State::Removing
                    &&& action == Action::ReportParseError
                    &&& *final(store) == *old(store)
                },
                (State::GettingReminderTime, Event::Cmd(_)) => next == State::GettingReminderTime
                    && action == Action::ReportInvalid && *final(store) == *old(store),
                (State::GettingReminderDescription { .. }, Event::Cmd(_)) => next == state && action
                    == Action::ReportInvalid && *final(store) == *old(store),
                (State::Removing, Event::Cmd(_)) => next == State::Removing && action
                    == Action::ReportInvalid && *final(store) == *old(store),
            }
        }),
{
    match (state, event) {
        (_, Event::Cmd(Command::Cancel)) => (State::Start, Action::ReportReset),
        (State::Start, Event::Cmd(Command::Remind)) => (
            State::GettingReminderTime,
            Action::PromptTime,
        ),
        (State::Start, Event::Cmd(Command::Help)) => (State::Start, Action::ShowHelp),
        (State::Start, Event::Cmd(Command::List)) => {
            let v = store.list_snapshot(chat);
            (State::Start, Action::ShowReminders(v))
        },
        (State::Start, Event::Cmd(Command::Remove)) => (State::Removing, Action::PromptRemoveId),
        (State::Start, Event::Text(_)) => (State::Start, Action::ReportInvalid),
        (State::GettingReminderTime, Event::Text(t)) => {
            match parse_u64(t.as_str()) {
                Some(secs) => (
                    State::GettingReminderDescription { time_delta: secs },
                    Action::PromptDescription,
                ),
                None => (State::GettingReminderTime, Action::ReportParseError),
            }
        },
        (State::GettingReminderDescription { time_delta }, Event::Text(desc)) => {
            let fire_at = now + (time_delta as i64);
            let id = store.create(chat, desc, fire_at);
            (State::Start, Action::ReminderCreated(id))
        },
        (State::Removing, Event::Text(t)) => {
            match parse_u32(t.as_str()) {
                Some(id) => {
                    match store.remove(chat, id) {
                        Ok(()) => (State::Start, Action::ReminderRemoved(id)),
                        Err(e) => (State::Start, Action::RemoveFailed(e)),
                    }
                },
                None => (State::Removing, Action::ReportParseError),
            }
        },
        (State::GettingReminderTime, Event::Cmd(_)) => (
            State::GettingReminderTime,
            Action::ReportInvalid,
        ),
        (State::GettingReminderDescription { .. }, Event::Cmd(_)) => (state, Action::ReportInvalid),
        (State::Removing, Event::Cmd(_)) => (State::Removing, Action::ReportInvalid),
    }
}

} // verus!
