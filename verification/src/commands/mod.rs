//! The commands: what each is called, the form in which it is offered, and
//! what it does with the options it is called with.

pub mod command;
pub mod list;
pub mod menu;
pub mod remind;
pub mod remindin;
pub mod tz;
