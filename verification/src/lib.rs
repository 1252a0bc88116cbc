//! Controller logic of a small status display: a character LCD with a keypad
//! that pages through host telemetry and raises alarms for degraded RAID
//! arrays.
//!
//! Everything here is pure state and text: the caller owns the serial port,
//! the clock and the metrics source, and hands their readings in as plain
//! values.
//!
//! - `app` holds the appliance as a whole and its four entry points;
//! - `scheduler` decides what a tick of the control loop does next;
//! - `state` and `page` hold what the operator sees and how keys change it;
//! - `raid` turns the status of the arrays into warnings and errors;
//! - `indicator` maps those onto the alarm lights;
//! - `metrics`, `listing` and `render` turn readings into lines and lines
//!   into a screen;
//! - `buffer` is the character grid, `text` the text helpers and `config`
//!   the settings.

pub mod app;
pub mod buffer;
pub mod config;
pub mod indicator;
pub mod listing;
pub mod metrics;
pub mod page;
pub mod raid;
pub mod render;
pub mod scheduler;
pub mod state;
pub mod text;
