//! A minimal TCP text relay in the manner of a legacy terminal protocol:
//! the decisions of its client and server, stated and proved.
//!
//! The crate holds no socket and reads no terminal. It decides what a
//! program that does must print, write, wait for and stop on.

pub mod args;
pub mod codec;
pub mod telnet;
pub mod session;
pub mod server;
pub mod address;
