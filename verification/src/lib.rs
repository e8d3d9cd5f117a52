//! A conversational reminder service, verified with Verus.
//!
//! The core pieces: a per-chat dialogue state machine that collects a
//! delay and a description over several message turns ([`dialogue`]), a
//! store of pending reminders with a global monotonic id allocator
//! ([`store`]), the scheduler tick that fires and removes reminders
//! whose time has come ([`scheduler`]), and the bounded backoff policy
//! used when reporting process-level errors to an administrative chat
//! ([`retry`]).
//!
//! All I/O stays outside the library: the message transport delivers the
//! prompts and reminders a transition or a tick hands back as values,
//! and callers inject the current time, so every decision here is
//! deterministic and verified.

pub mod dialogue;
pub mod parse;
pub mod rectangle;
pub mod retry;
pub mod scheduler;
pub mod store;
