//! A line-oriented arithmetic accumulator server library.
//!
//! Clients submit arithmetic operations over a text protocol; a single
//! shared 8-bit register accumulates them and can be queried.  This crate
//! holds the verified core: the protocol codec, the operation parser, the
//! accumulator, and the per-connection dispatch logic.

pub mod calculator;
pub mod client_error;
pub mod handle_client;
pub mod logger;
pub mod numbers;
pub mod operation;
pub mod protocol;
pub mod server_error;
pub mod text;
