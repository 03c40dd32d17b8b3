//! The command handlers, one module for each command.

pub mod offtop;
