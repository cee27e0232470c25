//! A countdown timer for the console.
//!
//! The library holds everything about the timer that is arithmetic or text:
//! how a command-line argument becomes a duration and a reminder interval, how
//! the countdown advances from tick to tick, what a frame of the progress bar
//! looks like for a given console width, and what is announced when the time
//! is over. Times are whole milliseconds. Sleeping, writing to the console and
//! delivering desktop notifications are left to the program around it.

pub mod ansi;
pub mod argument;
pub mod bar;
pub mod countdown;
pub mod decimal;
pub mod frame;
pub mod label;
pub mod notice;
pub mod toast;
