//! Verified core of autotun: SSH tunnel discovery, reconciliation and the
//! text formats it reads and writes.

pub mod text;
pub mod ports;
pub mod scan;
pub mod engine;
pub mod shell;
pub mod ssh;
pub mod clip;
pub mod open;
pub mod remote_app;
pub mod gui;
pub mod cli;
pub mod tui;
