//! A string-to-string key-value store together with the request protocols
//! that drive it.
//!
//! The store itself, the decoding of requests, their execution, the encoding
//! of responses, the snapshots for the backing file and the cycle of one
//! connection are verified here. Sockets, files, threads and the lock around
//! the store belong to the program that embeds this library.
//!
//! - [`store`]: the mapping and its operations.
//! - [`protocol`]: requests, responses, and what a request does to a store.
//! - [`text`], [`command`], [`json`]: three ways to put requests on the wire.
//!   A server speaks one of them.
//! - [`connection`]: one connection's cycle in the text protocol.
//! - [`snapshot`]: the mapping as the text of the backing file.
//! - [`storage`], [`node`]: a cached store with initial contents, and a
//!   cluster node's own data.
//! - [`laws`]: what holds of all of these.

pub mod chars;
pub mod command;
pub mod connection;
pub mod json;
pub mod laws;
pub mod node;
pub mod protocol;
pub mod snapshot;
pub mod storage;
pub mod store;
pub mod text;
pub mod words;
