//! A client for the RAC chat protocol: the message codec and the protocol
//! client, without input or output of their own.
//!
//! - `text`, `sanitizer`, `grammar`: characters, the removal of escape
//!   sequences and control characters, and the rules of a line.
//! - `clients`, `message`, `formatter`: the known clients and their
//!   signatures, the structured message, and decoding and encoding.
//! - `wire`: request bytes, the count response, the lines of a batch.
//! - `client`, `server`, `results`: the session as a state machine that
//!   says which bytes to write and how many to read, and what the host is
//!   told.
//! - `session`: what the host decides when it opens a session.
//! - `round_trip`: decoding gives back what encoding wrote.

pub mod client;
pub mod clients;
pub mod formatter;
pub mod grammar;
pub mod message;
pub mod results;
pub mod round_trip;
pub mod sanitizer;
pub mod server;
pub mod session;
pub mod text;
pub mod wire;
