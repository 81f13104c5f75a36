//! `ECHO <message>`: the server sends the message back.

use vstd::prelude::*;
use crate::commands::{Command, CommandError};
use crate::config::Config;
use crate::grammar::RespValue;
use crate::parse::{views_of, BulkString, RespElement};
use crate::store::Store;
use crate::text::str_equals;

verus! {

/// The command `ECHO`, with its message.
#[derive(Debug, Clone, PartialEq, Eq)]
pub struct EchoCommand(pub String);

impl View for EchoCommand {
    type V = Seq<char>;

    open spec fn view(&self) -> Seq<char> {
        self.0@
    }
}

/// The message of an `ECHO` that is given as `items`: the verb and one bulk
/// string. A first item that is a bulk string must be the verb itself.
pub open spec fn echo_of(items: Seq<RespValue>) -> Result<Seq<char>, CommandError> {
    if items.len() != 2 {
        Err(CommandError::InvalidCommand)
    } else if items[0] matches RespValue::BulkString(verb) && verb != "ECHO"@ {
        Err(CommandError::InvalidCommand)
    } else {
        match items[1] {
            RespValue::BulkString(message) => Ok(message),
            _ => Err(CommandError::InvalidCommand),
        }
    }
}

impl EchoCommand {
    /// Reads the command from the items of a request.
    pub fn from_resp(elements: Vec<RespElement>) -> (r: Result<EchoCommand, CommandError>)
        ensures
            match r {
                Ok(echo) => echo_of(views_of(elements@)) == Ok::<Seq<char>, CommandError>(echo@),
                Err(e) => echo_of(views_of(elements@)) == Err::<Seq<char>, CommandError>(e),
            },
    {
        if elements.len() != 2 {
            return Err(CommandError::InvalidCommand);
        }
        if let RespElement::BulkString(command) = &elements[0] {
            if !str_equals(command.as_str(), "ECHO") {
                return Err(CommandError::InvalidCommand);
            }
        }
        match &elements[1] {
            RespElement::BulkString(message) => Ok(EchoCommand(message.0.clone())),
            _ => Err(CommandError::InvalidCommand),
        }
    }

    /// Answers with the message as a bulk string and leaves the store as it
    /// is.
    pub fn execute(self, db: &mut Store, opts: &Config) -> (response: RespElement)
        ensures
            response@ == RespValue::BulkString(self@),
            final(db)@ == old(db)@,
    {
        RespElement::BulkString(BulkString(self.0))
    }
}

impl From<EchoCommand> for Command {
    fn from(cmd: EchoCommand) -> (r: Command) {
        Command::Echo(cmd)
    }
}

impl vstd::std_specs::convert::FromSpecImpl<EchoCommand> for Command {
    open spec fn obeys_from_spec() -> bool {
        true
    }

    open spec fn from_spec(cmd: EchoCommand) -> Command {
        Command::Echo(cmd)
    }
}

} // verus!
