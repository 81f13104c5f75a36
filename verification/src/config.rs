//! The configuration: settings that are fixed at startup and looked up by name.

use vstd::prelude::*;
use vstd::hash_map::StringHashMap;
use crate::grammar::RespValue;
use crate::parse::{BulkString, RespElement};

verus! {

/// The settings that the server is started with.
#[derive(Debug, Clone)]
pub struct Opts {
    /// The port to listen on.
    pub port: u16,
    /// The directory that holds the data.
    pub dir: String,
    /// The name of the database file.
    pub dbfilename: String,
}

/// The value of a setting.
#[derive(Debug, Clone)]
pub enum OptValue {
    String(String),
    UInt(u16),
    Path(String),
}

/// The model of the value of a setting.
pub enum OptValueView {
    String(Seq<char>),
    UInt(u16),
    Path(Seq<char>),
}

impl OptValueView {
    /// The value as it is sent to a client: text as a bulk string, a number
    /// as an integer.
    pub open spec fn as_value(self) -> RespValue {
        match self {
            OptValueView::String(s) => RespValue::BulkString(s),
            OptValueView::UInt(n) => RespValue::Integer(n as i64),
            OptValueView::Path(p) => RespValue::BulkString(p),
        }
    }
}

impl View for OptValue {
    type V = OptValueView;

    open spec fn view(&self) -> OptValueView {
        match self {
            OptValue::String(s) => OptValueView::String(s@),
            OptValue::UInt(n) => OptValueView::UInt(*n),
            OptValue::Path(p) => OptValueView::Path(p@),
        }
    }
}

impl OptValue {
    /// The value as an element to send to a client.
    pub fn to_element(&self) -> (element: RespElement)
        ensures
            element@ == self@.as_value(),
    {
        match self {
            OptValue::String(s) => RespElement::BulkString(BulkString(s.clone())),
            OptValue::UInt(n) => RespElement::Integer(*n as i64),
            OptValue::Path(p) => RespElement::BulkString(BulkString(p.clone())),
        }
    }
}

impl From<&OptValue> for RespElement {
    fn from(value: &OptValue) -> (element: RespElement) {
        match value {
            OptValue::String(s) => RespElement::BulkString(BulkString(s.clone())),
            OptValue::UInt(n) => RespElement::Integer(*n as i64),
            OptValue::Path(p) => RespElement::BulkString(BulkString(p.clone())),
        }
    }
}

impl vstd::std_specs::convert::FromSpecImpl<&OptValue> for RespElement {
    open spec fn obeys_from_spec() -> bool {
        true
    }

    open spec fn from_spec(value: &OptValue) -> RespElement {
        match value {
            OptValue::String(s) => RespElement::BulkString(BulkString(*s)),
            OptValue::UInt(n) => RespElement::Integer(*n as i64),
            OptValue::Path(p) => RespElement::BulkString(BulkString(*p)),
        }
    }
}

/// The settings by name. Nothing changes them once they are loaded.
pub struct Config {
    map: StringHashMap<OptValue>,
}

impl View for Config {
    type V = Map<Seq<char>, OptValueView>;

    closed spec fn view(&self) -> Map<Seq<char>, OptValueView> {
        self.map@.map_values(|v: OptValue| v@)
    }
}

/// The model of an optional reference to the value of a setting.
pub open spec fn setting_view(value: Option<&OptValue>) -> Option<OptValueView> {
    match value {
        Some(v) => Some(v@),
        None => None,
    }
}

impl Config {
    /// A configuration without settings.
    pub fn new() -> (config: Config)
        ensures
            config@ == Map::<Seq<char>, OptValueView>::empty(),
    {
        let config = Config { map: StringHashMap::new() };
        config
    }

    /// Sets `name` to `value`. This is for building a configuration.
    pub fn insert(&mut self, name: String, value: OptValue)
        ensures
            final(self)@ == old(self)@.insert(name@, value@),
    {
        self.map.insert(name, value);
    }

    /// The value of the setting `name`, if there is one.
    pub fn get(&self, name: &str) -> (value: Option<&OptValue>)
        ensures
            setting_view(value) == self@.get(name@),
    {
        self.map.get(name)
    }
}

/// The configuration that `opts` gives: the port under `port`, the data
/// directory under `dir`, the database file's name under `dbfilename`.
pub open spec fn loaded(opts: Opts) -> Map<Seq<char>, OptValueView> {
    Map::<Seq<char>, OptValueView>::empty().insert("port"@, OptValueView::UInt(opts.port)).insert(
        "dir"@,
        OptValueView::Path(opts.dir@),
    ).insert("dbfilename"@, OptValueView::String(opts.dbfilename@))
}

/// Builds the configuration from the startup settings.
pub fn load_opts(opts: Opts) -> (config: Config)
    ensures
        config@ == loaded(opts),
{
    let mut config = Config::new();
    config.insert("port".to_owned(), OptValue::UInt(opts.port));
    config.insert("dir".to_owned(), OptValue::Path(opts.dir));
    config.insert("dbfilename".to_owned(), OptValue::String(opts.dbfilename));
    config
}

} // verus!
