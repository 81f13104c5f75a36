//! What a connection does with a chunk of bytes that it has read: decode a
//! request, carry it out, encode the answer.
//!
//! Neither kind of failure ends the connection or touches the store. Each is
//! answered with a simple error.

use vstd::prelude::*;
use crate::commands::{command_of, response_of, store_after, Command};
use crate::config::{Config, OptValueView};
use crate::grammar::{element_at, RespValue};
use crate::parse::{parse_element, RespElement, RespSerialise, SimpleError};
use crate::store::{DbValueView, Store};

verus! {

/// The answer to bytes that do not start with an element.
pub open spec fn decode_failure() -> RespValue {
    RespValue::SimpleError("Unable to parse input"@)
}

/// The answer to an element that is not a command.
pub open spec fn command_failure() -> RespValue {
    RespValue::SimpleError("Unable to parse input into command"@)
}

/// The answer to a chunk that arrives at `now`: the answer to the command
/// that its first element stands for, or one of the two failures.
pub open spec fn reply_to(
    chunk: Seq<u8>,
    store: Map<Seq<char>, DbValueView>,
    config: Map<Seq<char>, OptValueView>,
    now: u64,
) -> RespValue {
    match element_at(chunk, 0) {
        None => decode_failure(),
        Some((request, _)) => match command_of(request) {
            Err(_) => command_failure(),
            Ok(cmd) => response_of(cmd, store, config, now),
        },
    }
}

/// The store after a chunk that arrives at `now` has been answered. A chunk
/// that fails leaves it as it is.
pub open spec fn store_after_chunk(chunk: Seq<u8>, store: Map<Seq<char>, DbValueView>, now: u64)
    -> Map<Seq<char>, DbValueView> {
    match element_at(chunk, 0) {
        None => store,
        Some((request, _)) => match command_of(request) {
            Err(_) => store,
            Ok(cmd) => store_after(cmd, store, now),
        },
    }
}

/// Answers a chunk that arrives at `now`: the bytes to send back.
pub fn respond_at(chunk: &[u8], db: &mut Store, opts: &Config, now: u64) -> (reply: Vec<u8>)
    ensures
        reply@ == reply_to(chunk@, old(db)@, opts@, now).wire(),
        final(db)@ == store_after_chunk(chunk@, old(db)@, now),
{
    let answer = match parse_element(chunk) {
        Err(_) => RespElement::SimpleError(SimpleError("Unable to parse input".to_owned())),
        Ok((_, request)) => match Command::try_from(request) {
            Err(_) => RespElement::SimpleError(
                SimpleError("Unable to parse input into command".to_owned()),
            ),
            Ok(cmd) => cmd.execute_at(db, opts, now),
        },
    };
    answer.serialise()
}

/// Answers a chunk at the instant that the clock shows.
pub fn respond(chunk: &[u8], db: &mut Store, opts: &Config) -> (reply: Vec<u8>)
    ensures
        exists|now: u64|
            reply@ == reply_to(chunk@, old(db)@, opts@, now).wire() && final(db)@
                == store_after_chunk(chunk@, old(db)@, now),
{
    let now = crate::clock::now_millis();
    respond_at(chunk, db, opts, now)
}

} // verus!
