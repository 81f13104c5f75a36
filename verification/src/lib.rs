//! An in-memory key-value store that speaks a Redis-compatible wire protocol.
//!
//! The crate has three layers, and each is specified over a mathematical
//! model and proved against it.
//!
//! The codec turns bytes into protocol elements and back. `grammar` states
//! the wire format over sequences of bytes; `parse` holds the elements, the
//! encoder and the decoder; `round_trip` and `framing` prove that decoding
//! undoes encoding and that an element is decided by its own bytes.
//!
//! The command model turns a decoded element into a typed command and says
//! what carrying it out answers and does. It is in `commands`, with one
//! module for each command that has a type of its own.
//!
//! The store is the mapping from key to value, with per-key expiry, that the
//! commands read and write. It is in `store`; `laws` proves what a client
//! can rely on when it sets and gets.
//!
//! Around these, `config` holds the settings that `CONFIG GET` answers from,
//! `clock` reads the time, and `connection` answers one chunk of input with
//! the bytes to send back. `decimal` and `text` hold what the others share
//! about numbers and strings.

pub mod clock;
pub mod commands;
pub mod config;
pub mod connection;
pub mod decimal;
pub mod framing;
pub mod grammar;
pub mod laws;
pub mod parse;
pub mod round_trip;
pub mod store;
pub mod text;
