//! A pomodoro timer for the terminal: the cycle of work and breaks, and the
//! text that shows it.

pub mod art;
pub mod cli;
pub mod history;
pub mod input;
pub mod live;
pub mod notify;
pub mod strings;
pub mod text;
pub mod time;
pub mod timer;
