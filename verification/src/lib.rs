//! Core of a goal/reward session tracker: a cursor-addressed text buffer,
//! a modal interaction state machine, a wall-clock countdown timer, an
//! in-memory session store, and the rules that tie them together.
pub mod app;
pub mod chars;
pub mod clock;
pub mod handlers;
pub mod key_event;
pub mod notes;
pub mod process;
pub mod search;
pub mod store;
pub mod strutil;
pub mod text_input;
pub mod timer;
pub mod types;
pub mod ui;
pub mod utils;
