//! The logic of a small clock that takes commands over a serial line.
//!
//! The device shows the time of day on a pixel display and draws coloured
//! markers when told to, at once or after a delay. This crate holds what
//! the device decides and computes; it touches no hardware.
//!
//! - [`command`]: the commands and the grammar of a command line.
//! - [`text`]: cutting a line into fields and reading a number.
//! - [`time`]: the clock, digit by digit, and what a tick changes.
//! - [`scheduler`]: the queue of delayed markers and the policy of its alarm.
//! - [`screen`]: where markers, digits and the frame go on the display.
//! - [`dispatch`]: from bytes to lines to what has to be done.

pub mod command;
pub mod dispatch;
pub mod scheduler;
pub mod screen;
pub mod text;
pub mod time;
