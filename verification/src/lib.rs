//! Scheduling and storage of channel reminders.
//!
//! A reminder is a message that is due either once, at a fixed instant, or
//! again and again, at the instants that a cron expression names in the time
//! zone of its channel. The crate holds the data model, the channel-keyed store,
//! the state machine that one timer follows per reminder, and the rules by which
//! the chat commands turn their options into reminders.

pub mod commands;
pub mod db;
pub mod handler;
pub mod manager;
pub mod message;
pub mod reminder;
pub mod reminder_menu;
pub mod schedule;
pub mod slots;
pub mod text;
pub mod zone;
