//! A point-to-point file-sharing library: a command language, a length-prefixed
//! binary wire format for envelopes exchanged between a client and a server,
//! the command/side execution state machine, worker-pool sizing, and the plain
//! configuration data the programs run on.
//!
//! All I/O (sockets, files, threads) lives in the surrounding programs; this
//! crate holds the verified logic they drive.

use vstd::prelude::*;

pub mod codec;
pub mod command;
pub mod config;
pub mod pool;
pub mod share;

verus! {

} // verus!
