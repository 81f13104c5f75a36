//! `PING`: the server answers `PONG`.

use vstd::prelude::*;
use crate::config::Config;
use crate::grammar::RespValue;
use crate::parse::{RespElement, SimpleString};
use crate::store::Store;

verus! {

/// The command `PING`.
#[derive(Debug, Clone, Copy, PartialEq, Eq)]
pub struct PingCommand;

/// The acknowledgement that answers `PING`.
pub open spec fn pong() -> RespValue {
    RespValue::SimpleString("PONG"@)
}

impl PingCommand {
    /// Answers `PONG`, whatever the store and the configuration hold, and
    /// leaves the store as it is.
    pub fn execute(self, db: &mut Store, opts: &Config) -> (response: RespElement)
        ensures
            response@ == pong(),
            final(db)@ == old(db)@,
    {
        RespElement::SimpleString(SimpleString("PONG".to_owned()))
    }
}

} // verus!
