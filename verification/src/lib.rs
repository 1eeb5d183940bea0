//! The verified core of the `tray` command: the request/response protocol,
//! the tray item model, the daemon's item registry, and the client-side
//! decisions of the command-line tool.
pub mod text;
pub mod protocol;
pub mod icon;
pub mod item;
pub mod manager;
pub mod client;
pub mod runner;
