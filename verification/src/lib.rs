//! A train-departure countdown: SNCF journey data, station search state,
//! the key-driven input state machine and the countdown timer, with their
//! contracts.

pub mod digits;
pub mod civil;
pub mod api;
pub mod text;
pub mod state;
pub mod keys;
pub mod display;
pub mod calendar;
pub mod text_order;
