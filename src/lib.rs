//! A reconnecting byte-stream transport, reduced to its decisions.
//!
//! The socket work (connect, read, write, timeouts) is done by the caller;
//! this library decides, from the outcome of each step, whether an operation
//! has finished, must surface its error, or calls for a reconnect to the
//! address captured when the stream was opened.
pub mod drain;
pub mod endpoint;
pub mod kind;
pub mod retry;
