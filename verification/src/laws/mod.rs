//! What holds of every store, request, line and connection.

pub mod connections;
pub mod lines;
pub mod members;
pub mod requests;
