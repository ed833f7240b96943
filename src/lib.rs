//! The control side of a borderless overlay window: the commands that local
//! clients send over a socket, how their lines are parsed, and the decisions
//! of the listener that receives them.

pub mod cli;
pub mod commands;
pub mod error;
pub mod grammar;
pub mod laws;
pub mod listener;
pub mod protocol;
