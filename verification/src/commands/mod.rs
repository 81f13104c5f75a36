//! The command model: typed commands, how a request becomes one, and what
//! carrying one out does to the store.

use vstd::prelude::*;
use vstd::utf8::encode_utf8;
use crate::config::{Config, OptValueView};
use crate::decimal::{parse_unsigned, unsigned_of};
use crate::grammar::RespValue;
use crate::parse::{lemma_array_view, views_of, BulkString, NullBulkString, RespElement};
use crate::store::{live_entry, DbValueView, Store};
use crate::text::str_equals;

pub mod echo;
pub mod ping;
pub mod set;

use echo::{echo_of, EchoCommand};
use ping::{pong, PingCommand};
use set::{set_of, set_response, store_after_set, SetCommand, SetView};

verus! {

/// Why a request is not a command.
#[derive(Debug, Clone, Copy, PartialEq, Eq, Structural)]
pub enum CommandError {
    /// The request is an empty array.
    MissingCommand,
    /// The verb is known, but its arguments are too few, too many or of the
    /// wrong kind.
    InvalidCommand,
    /// The request is no array, its first item is no bulk string, or the
    /// verb is not known.
    UnknownCommand,
    /// The options are malformed: one is given twice, or its argument is
    /// missing or is no number.
    SyntaxError,
}

/// A command, ready to be carried out.
#[derive(Debug, Clone, PartialEq, Eq)]
pub enum Command {
    Ping(PingCommand),
    Echo(EchoCommand),
    Get(String),
    SetKey(SetCommand),
    GetConfig(Vec<String>),
}

/// The model of a `Command`.
pub enum CommandView {
    Ping,
    Echo(Seq<char>),
    Get(Seq<char>),
    SetKey(SetView),
    GetConfig(Seq<Seq<char>>),
}

/// The texts of `names`, in order.
pub open spec fn texts_of(names: Seq<String>) -> Seq<Seq<char>> {
    Seq::new(names.len(), |i: int| names[i]@)
}

impl View for Command {
    type V = CommandView;

    open spec fn view(&self) -> CommandView {
        match self {
            Command::Ping(_) => CommandView::Ping,
            Command::Echo(echo) => CommandView::Echo(echo@),
            Command::Get(key) => CommandView::Get(key@),
            Command::SetKey(set) => CommandView::SetKey(set@),
            Command::GetConfig(names) => CommandView::GetConfig(texts_of(names@)),
        }
    }
}

/// The number that an option's argument stands for.
///
/// An integer element is taken as it is; a negative one counts modulo 2^64.
/// A bulk string must spell an unsigned number: an optional `+`, then
/// digits. Anything else is a syntax error.
pub open spec fn int_of(v: RespValue) -> Result<u64, CommandError> {
    match v {
        RespValue::Integer(i) => Ok(
            if i >= 0 {
                i as u64
            } else {
                (i + 0x1_0000_0000_0000_0000) as u64
            },
        ),
        RespValue::BulkString(text) => match unsigned_of(encode_utf8(text)) {
            Some(n) => Ok(n),
            None => Err(CommandError::SyntaxError),
        },
        _ => Err(CommandError::SyntaxError),
    }
}

/// Reads the argument of an option as a number.
pub fn parse_int(element: &RespElement) -> (r: Result<u64, CommandError>)
    ensures
        r == int_of(element@),
{
    match element {
        RespElement::Integer(value) => {
            let value: i64 = *value;
            if value >= 0 {
                Ok(value as u64)
            } else {
                Ok((value + i64::MAX + 1) as u64 + 9223372036854775808u64)
            }
        },
        RespElement::BulkString(value) => match parse_unsigned(value.as_str().as_bytes()) {
            Some(n) => Ok(n),
            None => Err(CommandError::SyntaxError),
        },
        _ => Err(CommandError::SyntaxError),
    }
}

/// The key of a `GET` that is given as `items`: the verb and one bulk string.
pub open spec fn get_of(items: Seq<RespValue>) -> Result<Seq<char>, CommandError> {
    if items.len() != 2 {
        Err(CommandError::InvalidCommand)
    } else {
        match items[1] {
            RespValue::BulkString(key) => Ok(key),
            _ => Err(CommandError::InvalidCommand),
        }
    }
}

/// The names that a `CONFIG GET` asks for, when it is given as `items`: the
/// verb, the word `GET`, then the names, each a bulk string.
pub open spec fn config_of(items: Seq<RespValue>) -> Result<Seq<Seq<char>>, CommandError> {
    if items.len() < 2 {
        Err(CommandError::SyntaxError)
    } else {
        match items[1] {
            RespValue::BulkString(sub) => if sub == "GET"@ {
                if forall|i: int| 2 <= i < items.len() ==> #[trigger] items[i] is BulkString {
                    Ok(Seq::new((items.len() - 2) as nat, |i: int| items[i + 2]->BulkString_0))
                } else {
                    Err(CommandError::SyntaxError)
                }
            } else {
                Err(CommandError::UnknownCommand)
            },
            _ => Err(CommandError::SyntaxError),
        }
    }
}

/// The command that a request stands for.
///
/// A request is an array whose first item is a bulk string, the verb. The
/// verb is matched as it is written, in upper case.
pub open spec fn command_of(request: RespValue) -> Result<CommandView, CommandError> {
    match request {
        RespValue::Array(items) => if items.len() == 0 {
            Err(CommandError::MissingCommand)
        } else {
            match items[0] {
                RespValue::BulkString(verb) => if verb == "PING"@ {
                    Ok(CommandView::Ping)
                } else if verb == "ECHO"@ {
                    match echo_of(items) {
                        Ok(message) => Ok(CommandView::Echo(message)),
                        Err(e) => Err(e),
                    }
                } else if verb == "GET"@ {
                    match get_of(items) {
                        Ok(key) => Ok(CommandView::Get(key)),
                        Err(e) => Err(e),
                    }
                } else if verb == "SET"@ {
                    match set_of(items) {
                        Ok(set) => Ok(CommandView::SetKey(set)),
                        Err(e) => Err(e),
                    }
                } else if verb == "CONFIG"@ {
                    match config_of(items) {
                        Ok(names) => Ok(CommandView::GetConfig(names)),
                        Err(e) => Err(e),
                    }
                } else {
                    Err(CommandError::UnknownCommand)
                },
                _ => Err(CommandError::UnknownCommand),
            }
        },
        _ => Err(CommandError::UnknownCommand),
    }
}

/// What a `GET` at `now` answers: the payload under the key, or the null bulk
/// string if there is no entry or its instant of expiry has passed.
pub open spec fn get_response(store: Map<Seq<char>, DbValueView>, key: Seq<char>, now: u64)
    -> RespValue {
    match live_entry(store, key, now) {
        Some(entry) => RespValue::BulkString(entry.payload),
        None => RespValue::NullBulkString,
    }
}

/// What one name adds to the answer of a `CONFIG GET`: the name and the
/// value of the setting, or nothing if there is no such setting.
pub open spec fn config_entry(config: Map<Seq<char>, OptValueView>, name: Seq<char>) -> Seq<
    RespValue,
> {
    if config.contains_key(name) {
        seq![RespValue::BulkString(name), config[name].as_value()]
    } else {
        Seq::empty()
    }
}

/// The items of the answer to a `CONFIG GET`: for each name that is set, in
/// the order asked, the name and then the value.
pub open spec fn config_reply(config: Map<Seq<char>, OptValueView>, names: Seq<Seq<char>>) -> Seq<
    RespValue,
>
    decreases names.len(),
{
    if names.len() == 0 {
        Seq::empty()
    } else {
        config_reply(config, names.drop_last()) + config_entry(config, names.last())
    }
}

/// The answer to a command that is carried out at `now`.
pub open spec fn response_of(
    cmd: CommandView,
    store: Map<Seq<char>, DbValueView>,
    config: Map<Seq<char>, OptValueView>,
    now: u64,
) -> RespValue {
    match cmd {
        CommandView::Ping => pong(),
        CommandView::Echo(message) => RespValue::BulkString(message),
        CommandView::Get(key) => get_response(store, key, now),
        CommandView::SetKey(set) => set_response(set, store, now),
        CommandView::GetConfig(names) => RespValue::Array(config_reply(config, names)),
    }
}

/// The store after a command has been carried out at `now`. Only `SET`
/// changes it.
pub open spec fn store_after(cmd: CommandView, store: Map<Seq<char>, DbValueView>, now: u64) -> Map<
    Seq<char>,
    DbValueView,
> {
    match cmd {
        CommandView::SetKey(set) => store_after_set(set, store, now),
        _ => store,
    }
}

/// Reads a `GET` from the items of a request.
fn get_from(elements: &Vec<RespElement>) -> (r: Result<Command, CommandError>)
    ensures
        match r {
            Ok(cmd) => get_of(views_of(elements@)) == Ok::<Seq<char>, CommandError>(
                cmd@->Get_0,
            ) && cmd@ is Get,
            Err(e) => get_of(views_of(elements@)) == Err::<Seq<char>, CommandError>(e),
        },
{
    if elements.len() != 2 {
        return Err(CommandError::InvalidCommand);
    }
    match &elements[1] {
        RespElement::BulkString(key) => Ok(Command::Get(key.0.clone())),
        _ => Err(CommandError::InvalidCommand),
    }
}

/// Reads a `CONFIG GET` from the items of a request.
fn config_from(elements: &Vec<RespElement>) -> (r: Result<Command, CommandError>)
    ensures
        match r {
            Ok(cmd) => config_of(views_of(elements@)) == Ok::<Seq<Seq<char>>, CommandError>(
                cmd@->GetConfig_0,
            ) && cmd@ is GetConfig,
            Err(e) => config_of(views_of(elements@)) == Err::<Seq<Seq<char>>, CommandError>(e),
        },
{
    let ghost items = views_of(elements@);
    if elements.len() < 2 {
        return Err(CommandError::SyntaxError);
    }
    let is_get = match &elements[1] {
        RespElement::BulkString(sub) => str_equals(sub.as_str(), "GET"),
        _ => return Err(CommandError::SyntaxError),
    };
    if !is_get {
        return Err(CommandError::UnknownCommand);
    }
    let mut params: Vec<String> = Vec::new();
    let mut i: usize = 2;
    while i < elements.len()
        invariant
            2 <= i <= elements.len(),
            items == views_of(elements@),
            params@.len() == i - 2,
            items[1] matches RespValue::BulkString(sub) && sub == "GET"@,
            forall|k: int| 2 <= k < i ==> #[trigger] items[k] is BulkString,
            forall|k: int| 0 <= k < i - 2 ==> #[trigger] params@[k]@ == items[k + 2]->BulkString_0,
        decreases elements.len() - i,
    {
        match &elements[i] {
            RespElement::BulkString(param) => {
                params.push(param.0.clone());
            },
            _ => {
                assert(!(items[i as int] is BulkString));
                return Err(CommandError::SyntaxError);
            },
        }
        i += 1;
    }
    assert(texts_of(params@) =~= Seq::new(
        (items.len() - 2) as nat,
        |i: int| items[i + 2]->BulkString_0,
    ));
    Ok(Command::GetConfig(params))
}

impl Command {
    /// Reads a command from a request.
    pub fn try_from(element: RespElement) -> (r: Result<Command, CommandError>)
        ensures
            match r {
                Ok(cmd) => command_of(element@) == Ok::<CommandView, CommandError>(cmd@),
                Err(e) => command_of(element@) == Err::<CommandView, CommandError>(e),
            },
    {
        match element {
            RespElement::Array(elements) => {
                proof {
                    lemma_array_view(elements);
                }
                if elements.len() == 0 {
                    return Err(CommandError::MissingCommand);
                }
                let verb: &str = match &elements[0] {
                    RespElement::BulkString(command) => command.as_str(),
                    _ => return Err(CommandError::UnknownCommand),
                };
                if str_equals(verb, "PING") {
                    Ok(Command::Ping(PingCommand))
                } else if str_equals(verb, "ECHO") {
                    match EchoCommand::from_resp(elements) {
                        Ok(echo) => Ok(Command::Echo(echo)),
                        Err(e) => Err(e),
                    }
                } else if str_equals(verb, "GET") {
                    get_from(&elements)
                } else if str_equals(verb, "SET") {
                    match SetCommand::from_resp(elements) {
                        Ok(set) => Ok(Command::SetKey(set)),
                        Err(e) => Err(e),
                    }
                } else if str_equals(verb, "CONFIG") {
                    config_from(&elements)
                } else {
                    Err(CommandError::UnknownCommand)
                }
            },
            _ => Err(CommandError::UnknownCommand),
        }
    }

    /// Carries the command out at the instant `now`.
    ///
    /// This is one step on the store: a `GET` reads and checks the expiry, a
    /// `SET` checks its condition and writes, and nothing comes in between.
    pub fn execute_at(self, db: &mut Store, opts: &Config, now: u64) -> (response: RespElement)
        ensures
            response@ == response_of(self@, old(db)@, opts@, now),
            final(db)@ == store_after(self@, old(db)@, now),
    {
        match self {
            Command::Ping(ping) => ping.execute(db, opts),
            Command::Echo(echo) => echo.execute(db, opts),
            Command::Get(key) => match db.read(key.as_str(), now) {
                Some(entry) => RespElement::BulkString(BulkString(entry.text())),
                None => RespElement::NullElement(NullBulkString),
            },
            Command::SetKey(set) => set.execute_at(db, opts, now),
            Command::GetConfig(names) => config_answer(&names, opts),
        }
    }

    /// Carries the command out at the instant that the clock shows.
    pub fn execute(self, db: &mut Store, opts: &Config) -> (response: RespElement)
        ensures
            exists|now: u64|
                response@ == response_of(self@, old(db)@, opts@, now) && final(db)@
                    == store_after(self@, old(db)@, now),
    {
        let now = crate::clock::now_millis();
        self.execute_at(db, opts, now)
    }
}

/// Answers a `CONFIG GET`. A name that is not set is passed over.
fn config_answer(names: &Vec<String>, opts: &Config) -> (response: RespElement)
    ensures
        response@ == RespValue::Array(config_reply(opts@, texts_of(names@))),
{
    let ghost asked = texts_of(names@);
    let mut items: Vec<RespElement> = Vec::new();
    let mut i: usize = 0;
    while i < names.len()
        invariant
            i <= names.len(),
            asked == texts_of(names@),
            views_of(items@) == config_reply(opts@, asked.take(i as int)),
        decreases names.len() - i,
    {
        let name = &names[i];
        assert(asked.take(i + 1).drop_last() =~= asked.take(i as int));
        if let Some(value) = opts.get(name.as_str()) {
            let shown = value.to_element();
            items.push(RespElement::BulkString(BulkString(name.clone())));
            items.push(shown);
        }
        i += 1;
    }
    assert(asked.take(names.len() as int) =~= asked);
    proof {
        lemma_array_view(items);
    }
    RespElement::Array(items)
}

} // verus!
