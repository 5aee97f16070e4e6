//! Connection lifecycle management for a validator's transaction relayer,
//! together with the stake-meta snapshot generator that shares its data model.
//!
//! The crate is organised around plain data: socket addresses, tokens,
//! configuration and account state are held as integers, byte vectors and
//! strings, so that every routing, watchdog and accounting decision is a
//! verified function from values to values.  The surrounding transport
//! (sockets, RPC, the ledger) stays outside and feeds events in.

pub mod auth;
pub mod bank;
pub mod config;
pub mod error;
pub mod keys;
pub mod layout;
pub mod net;
pub mod pda;
pub mod router;
pub mod session;
pub mod stake_meta;
pub mod stats;
pub mod supervisor;
pub mod tip_manager;
