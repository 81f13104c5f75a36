//! `SET <key> <value> [NX|XX] [GET] [EX s|PX ms|EXAT ts|PXAT ts|KEEPTTL]`.

use vstd::prelude::*;
use crate::commands::{int_of, parse_int, Command, CommandError};
use crate::config::Config;
use crate::grammar::RespValue;
use crate::parse::{views_of, BulkString, NullBulkString, RespElement, SimpleString};
use crate::store::{
    apply_decision, view_of, DbValue, DbValueView, Store, WriteDecision, WriteDecisionView,
};
use crate::text::{str_equals, to_uppercase, uppercase_of};

verus! {

/// The condition on the key under which a `SET` writes.
#[derive(Debug, Clone, Copy, PartialEq, Eq, Structural)]
pub enum SetOnlyIf {
    /// `NX`: write only if the key is absent.
    DoesNotExists,
    /// `XX`: write only if the key is present.
    AlreadyExists,
}

/// When the value written by a `SET` expires.
#[derive(Debug, Clone, Copy, PartialEq, Eq, Structural)]
pub enum ExpiryOpt {
    /// `EX`: so many seconds after the write.
    Seconds(u64),
    /// `PX`: so many milliseconds after the write.
    Milliseconds(u64),
    /// `EXAT`: at this instant, in seconds since the Unix epoch.
    TimestampSeconds(u64),
    /// `PXAT`: at this instant, in milliseconds since the Unix epoch.
    TimestampMilliseconds(u64),
    /// `KEEPTTL`: when the entry that is replaced would have expired.
    KeepTtl,
}

/// The command `SET`, with its options.
#[derive(Debug, Clone, PartialEq, Eq)]
pub struct SetCommand {
    pub key: String,
    pub value: String,
    pub only_if: Option<SetOnlyIf>,
    pub get: bool,
    pub expiry: Option<ExpiryOpt>,
}

/// The model of a `SetCommand`.
pub struct SetView {
    pub key: Seq<char>,
    pub value: Seq<char>,
    pub only_if: Option<SetOnlyIf>,
    pub get: bool,
    pub expiry: Option<ExpiryOpt>,
}

impl View for SetCommand {
    type V = SetView;

    open spec fn view(&self) -> SetView {
        SetView {
            key: self.key@,
            value: self.value@,
            only_if: self.only_if,
            get: self.get,
            expiry: self.expiry,
        }
    }
}

/// An option keyword of `SET`.
#[derive(Debug, Clone, Copy, PartialEq, Eq, Structural)]
pub enum SetKeyword {
    Nx,
    Xx,
    Get,
    Ex,
    Px,
    ExAt,
    PxAt,
    KeepTtl,
}

impl SetKeyword {
    /// The keyword that an upper-case token spells, if it spells one.
    pub open spec fn of_upper(upper: Seq<char>) -> Option<SetKeyword> {
        if upper == "NX"@ {
            Some(SetKeyword::Nx)
        } else if upper == "XX"@ {
            Some(SetKeyword::Xx)
        } else if upper == "GET"@ {
            Some(SetKeyword::Get)
        } else if upper == "EX"@ {
            Some(SetKeyword::Ex)
        } else if upper == "PX"@ {
            Some(SetKeyword::Px)
        } else if upper == "EXAT"@ {
            Some(SetKeyword::ExAt)
        } else if upper == "PXAT"@ {
            Some(SetKeyword::PxAt)
        } else if upper == "KEEPTTL"@ {
            Some(SetKeyword::KeepTtl)
        } else {
            None
        }
    }

    /// The keyword that a token spells in any mix of upper and lower case.
    pub open spec fn of_token(token: Seq<char>) -> Option<SetKeyword> {
        Self::of_upper(uppercase_of(token))
    }

    /// Recognises a keyword that is already in upper case.
    pub fn from_upper(upper: &str) -> (keyword: Option<SetKeyword>)
        ensures
            keyword == Self::of_upper(upper@),
    {
        if str_equals(upper, "NX") {
            Some(SetKeyword::Nx)
        } else if str_equals(upper, "XX") {
            Some(SetKeyword::Xx)
        } else if str_equals(upper, "GET") {
            Some(SetKeyword::Get)
        } else if str_equals(upper, "EX") {
            Some(SetKeyword::Ex)
        } else if str_equals(upper, "PX") {
            Some(SetKeyword::Px)
        } else if str_equals(upper, "EXAT") {
            Some(SetKeyword::ExAt)
        } else if str_equals(upper, "PXAT") {
            Some(SetKeyword::PxAt)
        } else if str_equals(upper, "KEEPTTL") {
            Some(SetKeyword::KeepTtl)
        } else {
            None
        }
    }

    /// Recognises a keyword in any mix of upper and lower case.
    pub fn from_token(token: &str) -> (keyword: Option<SetKeyword>)
        ensures
            keyword == Self::of_token(token@),
    {
        let upper = to_uppercase(token);
        Self::from_upper(upper.as_str())
    }
}

/// The expiry that a keyword and its argument stand for.
pub open spec fn expiry_of(keyword: SetKeyword, amount: u64) -> ExpiryOpt {
    match keyword {
        SetKeyword::Ex => ExpiryOpt::Seconds(amount),
        SetKeyword::Px => ExpiryOpt::Milliseconds(amount),
        SetKeyword::ExAt => ExpiryOpt::TimestampSeconds(amount),
        _ => ExpiryOpt::TimestampMilliseconds(amount),
    }
}

/// The command that the options in `items[idx..]` make of `so_far`.
///
/// The options are read from left to right. Each stands alone or takes the
/// item after it as its argument. A condition on the key, `GET`, and an
/// expiry may each be given once. An item that is no bulk string, or no
/// keyword, makes the command invalid; an option that is given twice, or
/// whose argument is missing or is no number, is a syntax error.
pub open spec fn set_options(items: Seq<RespValue>, idx: int, so_far: SetView) -> Result<
    SetView,
    CommandError,
>
    decreases items.len() - idx,
{
    if idx < 0 || idx >= items.len() {
        Ok(so_far)
    } else {
        match items[idx] {
            RespValue::BulkString(token) => match SetKeyword::of_token(token) {
                None => Err(CommandError::InvalidCommand),
                Some(SetKeyword::Nx) => if so_far.only_if is None {
                    set_options(
                        items,
                        idx + 1,
                        SetView { only_if: Some(SetOnlyIf::DoesNotExists), ..so_far },
                    )
                } else {
                    Err(CommandError::SyntaxError)
                },
                Some(SetKeyword::Xx) => if so_far.only_if is None {
                    set_options(
                        items,
                        idx + 1,
                        SetView { only_if: Some(SetOnlyIf::AlreadyExists), ..so_far },
                    )
                } else {
                    Err(CommandError::SyntaxError)
                },
                Some(SetKeyword::Get) => if !so_far.get {
                    set_options(items, idx + 1, SetView { get: true, ..so_far })
                } else {
                    Err(CommandError::SyntaxError)
                },
                Some(SetKeyword::KeepTtl) => if so_far.expiry is None {
                    set_options(
                        items,
                        idx + 1,
                        SetView { expiry: Some(ExpiryOpt::KeepTtl), ..so_far },
                    )
                } else {
                    Err(CommandError::SyntaxError)
                },
                Some(keyword) => if so_far.expiry is None && idx + 1 < items.len() {
                    match int_of(items[idx + 1]) {
                        Ok(amount) => set_options(
                            items,
                            idx + 2,
                            SetView { expiry: Some(expiry_of(keyword, amount)), ..so_far },
                        ),
                        Err(e) => Err(e),
                    }
                } else {
                    Err(CommandError::SyntaxError)
                },
            },
            _ => Err(CommandError::InvalidCommand),
        }
    }
}

/// The `SET` that is given as `items`: the verb, the key, the value, then the
/// options. Key and value must be bulk strings.
pub open spec fn set_of(items: Seq<RespValue>) -> Result<SetView, CommandError> {
    if items.len() < 3 {
        Err(CommandError::InvalidCommand)
    } else {
        match (items[1], items[2]) {
            (RespValue::BulkString(key), RespValue::BulkString(value)) => set_options(
                items,
                3,
                SetView { key, value, only_if: None, get: false, expiry: None },
            ),
            _ => Err(CommandError::InvalidCommand),
        }
    }
}

/// `n`, or the largest instant if `n` is beyond it.
pub open spec fn saturate(n: int) -> u64 {
    if n > u64::MAX {
        u64::MAX
    } else {
        n as u64
    }
}

/// The instant at which a value written at `now` expires.
///
/// Seconds and milliseconds count from `now`. A timestamp is the instant
/// itself. `KEEPTTL` takes over the instant of the entry that is replaced,
/// and gives none if there was no entry. An instant beyond the largest one
/// becomes the largest one.
pub open spec fn deadline(expiry: Option<ExpiryOpt>, prior: Option<DbValueView>, now: u64) -> Option<
    u64,
> {
    match expiry {
        None => None,
        Some(ExpiryOpt::Seconds(s)) => Some(saturate(now + s * 1000)),
        Some(ExpiryOpt::Milliseconds(ms)) => Some(saturate(now + ms)),
        Some(ExpiryOpt::TimestampSeconds(ts)) => Some(saturate(ts * 1000)),
        Some(ExpiryOpt::TimestampMilliseconds(ts)) => Some(ts),
        Some(ExpiryOpt::KeepTtl) => match prior {
            Some(entry) => entry.expires_at,
            None => None,
        },
    }
}

/// The condition on the key forbids the write.
pub open spec fn conflicts(only_if: Option<SetOnlyIf>, present: bool) -> bool {
    match only_if {
        Some(SetOnlyIf::DoesNotExists) => present,
        Some(SetOnlyIf::AlreadyExists) => !present,
        None => false,
    }
}

/// The acknowledgement of a write.
pub open spec fn ok() -> RespValue {
    RespValue::SimpleString("OK"@)
}

/// What a `SET` at `now` decides when the entry under its key is `prior`,
/// and what it answers.
///
/// The condition on the key is checked first, against the entry as it is
/// stored, expired or not. A write that the condition forbids is skipped
/// and answered with the null bulk string. Otherwise the value goes in with
/// its new expiry, and the answer is the acknowledgement or, with `GET`, the
/// payload that was there before, or the null bulk string if there was none.
pub open spec fn decide(cmd: SetView, prior: Option<DbValueView>, now: u64) -> (
    WriteDecisionView,
    RespValue,
) {
    if conflicts(cmd.only_if, prior is Some) {
        (WriteDecisionView::Skip, RespValue::NullBulkString)
    } else {
        (
            WriteDecisionView::Insert(
                DbValueView { payload: cmd.value, expires_at: deadline(cmd.expiry, prior, now) },
            ),
            if cmd.get {
                match prior {
                    Some(entry) => RespValue::BulkString(entry.payload),
                    None => RespValue::NullBulkString,
                }
            } else {
                ok()
            },
        )
    }
}

/// The store after a `SET` at `now`.
pub open spec fn store_after_set(cmd: SetView, store: Map<Seq<char>, DbValueView>, now: u64) -> Map<
    Seq<char>,
    DbValueView,
> {
    apply_decision(store, cmd.key, decide(cmd, store.get(cmd.key), now).0)
}

/// The answer to a `SET` at `now`.
pub open spec fn set_response(cmd: SetView, store: Map<Seq<char>, DbValueView>, now: u64)
    -> RespValue {
    decide(cmd, store.get(cmd.key), now).1
}

/// Computes the instant of expiry.
fn deadline_at(expiry: Option<ExpiryOpt>, prior: Option<&DbValue>, now: u64) -> (at: Option<u64>)
    ensures
        at == deadline(expiry, view_of(prior), now),
{
    match expiry {
        None => None,
        Some(ExpiryOpt::Seconds(s)) => match s.checked_mul(1000) {
            Some(ms) => Some(now.saturating_add(ms)),
            None => Some(u64::MAX),
        },
        Some(ExpiryOpt::Milliseconds(ms)) => Some(now.saturating_add(ms)),
        Some(ExpiryOpt::TimestampSeconds(ts)) => match ts.checked_mul(1000) {
            Some(ms) => Some(ms),
            None => Some(u64::MAX),
        },
        Some(ExpiryOpt::TimestampMilliseconds(ts)) => Some(ts),
        Some(ExpiryOpt::KeepTtl) => match prior {
            Some(entry) => entry.expires_at(),
            None => None,
        },
    }
}

impl SetCommand {
    /// Reads the command from the items of a request.
    pub fn from_resp(elements: Vec<RespElement>) -> (r: Result<SetCommand, CommandError>)
        ensures
            match r {
                Ok(set) => set_of(views_of(elements@)) == Ok::<SetView, CommandError>(set@),
                Err(e) => set_of(views_of(elements@)) == Err::<SetView, CommandError>(e),
            },
    {
        let ghost items = views_of(elements@);
        if elements.len() < 3 {
            return Err(CommandError::InvalidCommand);
        }
        let key = match &elements[1] {
            RespElement::BulkString(key) => key.0.clone(),
            _ => return Err(CommandError::InvalidCommand),
        };
        let value = match &elements[2] {
            RespElement::BulkString(value) => value.0.clone(),
            _ => return Err(CommandError::InvalidCommand),
        };
        let mut only_if: Option<SetOnlyIf> = None;
        let mut get = false;
        let mut expiry: Option<ExpiryOpt> = None;

        let mut idx: usize = 3;
        while idx < elements.len()
            invariant
                3 <= idx <= elements.len(),
                items == views_of(elements@),
                set_of(items) == set_options(
                    items,
                    idx as int,
                    SetView { key: key@, value: value@, only_if, get, expiry },
                ),
            decreases elements.len() - idx,
        {
            let keyword = match &elements[idx] {
                RespElement::BulkString(arg) => SetKeyword::from_token(arg.as_str()),
                _ => return Err(CommandError::InvalidCommand),
            };
            match keyword {
                None => return Err(CommandError::InvalidCommand),
                Some(SetKeyword::Nx) => {
                    if only_if.is_some() {
                        return Err(CommandError::SyntaxError);
                    }
                    only_if = Some(SetOnlyIf::DoesNotExists);
                    idx += 1;
                },
                Some(SetKeyword::Xx) => {
                    if only_if.is_some() {
                        return Err(CommandError::SyntaxError);
                    }
                    only_if = Some(SetOnlyIf::AlreadyExists);
                    idx += 1;
                },
                Some(SetKeyword::Get) => {
                    if get {
                        return Err(CommandError::SyntaxError);
                    }
                    get = true;
                    idx += 1;
                },
                Some(SetKeyword::KeepTtl) => {
                    if expiry.is_some() {
                        return Err(CommandError::SyntaxError);
                    }
                    expiry = Some(ExpiryOpt::KeepTtl);
                    idx += 1;
                },
                Some(timed) => {
                    if expiry.is_some() || elements.len() - idx < 2 {
                        return Err(CommandError::SyntaxError);
                    }
                    let amount = match parse_int(&elements[idx + 1]) {
                        Ok(amount) => amount,
                        Err(e) => return Err(e),
                    };
                    expiry = Some(
                        match timed {
                            SetKeyword::Ex => ExpiryOpt::Seconds(amount),
                            SetKeyword::Px => ExpiryOpt::Milliseconds(amount),
                            SetKeyword::ExAt => ExpiryOpt::TimestampSeconds(amount),
                            _ => ExpiryOpt::TimestampMilliseconds(amount),
                        },
                    );
                    idx += 2;
                },
            }
        }
        Ok(SetCommand { key, value, only_if, get, expiry })
    }

    /// What the command decides when it is shown the entry under its key,
    /// and what it answers.
    fn decide_at(
        value: String,
        only_if: Option<SetOnlyIf>,
        get: bool,
        expiry: Option<ExpiryOpt>,
        prior: Option<&DbValue>,
        now: u64,
    ) -> (r: (WriteDecision, RespElement))
        ensures
            (r.0@, r.1@) == decide(
                SetView { key: Seq::empty(), value: value@, only_if, get, expiry },
                view_of(prior),
                now,
            ),
    {
        let skip = match only_if {
            Some(SetOnlyIf::DoesNotExists) => prior.is_some(),
            Some(SetOnlyIf::AlreadyExists) => prior.is_none(),
            None => false,
        };
        if skip {
            return (WriteDecision::Skip, RespElement::NullElement(NullBulkString));
        }
        let expires_at = deadline_at(expiry, prior, now);
        let response = if get {
            match prior {
                Some(entry) => RespElement::BulkString(BulkString(entry.text())),
                None => RespElement::NullElement(NullBulkString),
            }
        } else {
            RespElement::SimpleString(SimpleString("OK".to_owned()))
        };
        (WriteDecision::Insert(DbValue::new(value, expires_at)), response)
    }

    /// Carries the command out at the instant `now`: checks the condition on
    /// the key and writes, in one step on the store.
    pub fn execute_at(self, db: &mut Store, opts: &Config, now: u64) -> (response: RespElement)
        ensures
            response@ == set_response(self@, old(db)@, now),
            final(db)@ == store_after_set(self@, old(db)@, now),
    {
        let ghost cmd = self@;
        let SetCommand { key, value, only_if, get, expiry } = self;
        let producer = move |prior: Option<&DbValue>| -> (r: (WriteDecision, RespElement))
            ensures
                (r.0@, r.1@) == decide(cmd, view_of(prior), now),
            {
                SetCommand::decide_at(value, only_if, get, expiry, prior, now)
            };
        db.write(key, producer)
    }

    /// Carries the command out at the instant that the clock shows.
    pub fn execute(self, db: &mut Store, opts: &Config) -> (response: RespElement)
        ensures
            exists|now: u64|
                response@ == set_response(self@, old(db)@, now) && final(db)@ == store_after_set(
                    self@,
                    old(db)@,
                    now,
                ),
    {
        let now = crate::clock::now_millis();
        self.execute_at(db, opts, now)
    }
}

impl From<SetCommand> for Command {
    fn from(cmd: SetCommand) -> (r: Command) {
        Command::SetKey(cmd)
    }
}

impl vstd::std_specs::convert::FromSpecImpl<SetCommand> for Command {
    open spec fn obeys_from_spec() -> bool {
        true
    }

    open spec fn from_spec(cmd: SetCommand) -> Command {
        Command::SetKey(cmd)
    }
}

} // verus!
