//! Run commands on another machine and drive them from the local terminal.

pub mod client;
pub mod failure;
pub mod keys;
pub mod laws;
pub mod message;
pub mod path;
pub mod promises;
pub mod protocol;
pub mod server;
pub mod session;
pub mod wire;
