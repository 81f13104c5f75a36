//! The store: one mapping from key to stored value, with per-key expiry.
//!
//! Expiry is lazy. An entry whose instant has passed stays in the mapping
//! until a write replaces it; `read` only declines to show it.
//!
//! Instants are milliseconds since the Unix epoch.

use vstd::prelude::*;
use vstd::hash_map::StringHashMap;
use vstd::utf8::{
    decode_utf8, encode_utf8, encode_utf8_decode_utf8, encode_utf8_valid_utf8, valid_utf8,
};
use bytes::Bytes;
use crate::text::text_of;

verus! {

/// `bytes::Bytes`, a shared, immutable buffer of bytes. Nothing is known of a
/// value of it but the bytes it holds, which `bytes_content` names.
#[verifier::external_type_specification]
#[verifier::external_body]
pub struct ExBytes(bytes::Bytes);

/// The bytes that a `Bytes` holds.
pub uninterp spec fn bytes_content(b: Bytes) -> Seq<u8>;

/// `Bytes::from(String)`: the buffer takes over the string's allocation and
/// holds its UTF-8 bytes.
#[verifier::external_body]
fn bytes_from_string(s: String) -> (b: Bytes)
    ensures
        bytes_content(b) == encode_utf8(s@),
{
    Bytes::from(s)
}

/// `Bytes::as_ref`: the buffer as a slice, which shows the bytes it holds.
#[verifier::external_body]
fn bytes_as_slice(b: &Bytes) -> (s: &[u8])
    ensures
        s@ == bytes_content(*b),
{
    b.as_ref()
}

/// `Bytes::clone`: a second handle on the same buffer. It holds the bytes
/// that the first one holds.
pub assume_specification[ <Bytes as Clone>::clone ](b: &Bytes) -> (copy: Bytes)
    ensures
        bytes_content(copy) == bytes_content(*b),
;

/// The model of a stored value.
pub struct DbValueView {
    /// The text that was stored.
    pub payload: Seq<char>,
    /// The instant from which on the value is no longer shown, if any.
    pub expires_at: Option<u64>,
}

impl DbValueView {
    /// At `now` the instant of expiry has passed.
    pub open spec fn is_expired(self, now: u64) -> bool {
        self.expires_at matches Some(at) && at < now
    }
}

/// A stored value: the payload and, if it has one, its instant of expiry.
#[derive(Debug, PartialEq, Eq)]
pub struct DbValue {
    value: Bytes,
    expires_at: Option<u64>,
}

impl View for DbValue {
    type V = DbValueView;

    closed spec fn view(&self) -> DbValueView {
        DbValueView { payload: decode_utf8(bytes_content(self.value)), expires_at: self.expires_at }
    }
}

impl Clone for DbValue {
    fn clone(&self) -> (copy: DbValue)
        ensures
            copy@ == self@,
    {
        proof {
            use_type_invariant(self);
        }
        DbValue { value: self.value.clone(), expires_at: self.expires_at }
    }
}

impl DbValue {
    /// The payload is text.
    #[verifier::type_invariant]
    spec fn holds_text(&self) -> bool {
        valid_utf8(bytes_content(self.value))
    }

    /// A value to store, with `value` as its payload.
    pub fn new(value: String, expires_at: Option<u64>) -> (stored: DbValue)
        ensures
            stored@ == (DbValueView { payload: value@, expires_at }),
    {
        broadcast use {encode_utf8_valid_utf8, encode_utf8_decode_utf8};

        DbValue { value: bytes_from_string(value), expires_at }
    }

    /// The payload.
    pub fn text(&self) -> (payload: String)
        ensures
            payload@ == self@.payload,
    {
        proof {
            use_type_invariant(self);
        }
        match text_of(bytes_as_slice(&self.value)) {
            Some(payload) => payload,
            None => String::new(),
        }
    }

    /// The instant of expiry, if the value has one.
    pub fn expires_at(&self) -> (at: Option<u64>)
        ensures
            at == self@.expires_at,
    {
        self.expires_at
    }

    /// At `now` the instant of expiry has passed.
    pub fn is_expired(&self, now: u64) -> (expired: bool)
        ensures
            expired == self@.is_expired(now),
    {
        match self.expires_at {
            Some(at) => at < now,
            None => false,
        }
    }
}

/// What a producer decides when it is shown the entry under a key.
pub enum WriteDecision {
    /// Leave the mapping as it is.
    Skip,
    /// Put this value under the key, in place of what was there.
    Insert(DbValue),
}

/// The model of a `WriteDecision`.
pub enum WriteDecisionView {
    Skip,
    Insert(DbValueView),
}

impl View for WriteDecision {
    type V = WriteDecisionView;

    open spec fn view(&self) -> WriteDecisionView {
        match self {
            WriteDecision::Skip => WriteDecisionView::Skip,
            WriteDecision::Insert(v) => WriteDecisionView::Insert(v@),
        }
    }
}

/// The mapping after `decision` has been carried out for `key`.
pub open spec fn apply_decision(
    store: Map<Seq<char>, DbValueView>,
    key: Seq<char>,
    decision: WriteDecisionView,
) -> Map<Seq<char>, DbValueView> {
    match decision {
        WriteDecisionView::Skip => store,
        WriteDecisionView::Insert(v) => store.insert(key, v),
    }
}

/// The model of an optional reference to a stored value.
pub open spec fn view_of(entry: Option<&DbValue>) -> Option<DbValueView> {
    match entry {
        Some(v) => Some(v@),
        None => None,
    }
}

/// The mapping from key to stored value.
pub struct Store {
    map: StringHashMap<DbValue>,
}

impl View for Store {
    type V = Map<Seq<char>, DbValueView>;

    closed spec fn view(&self) -> Map<Seq<char>, DbValueView> {
        self.map@.map_values(|v: DbValue| v@)
    }
}

impl Store {
    /// A store without entries.
    pub fn new() -> (store: Store)
        ensures
            store@ == Map::<Seq<char>, DbValueView>::empty(),
    {
        let store = Store { map: StringHashMap::new() };
        store
    }

    /// The entry under `key`, whether or not its instant of expiry has passed.
    pub fn get(&self, key: &str) -> (entry: Option<&DbValue>)
        ensures
            view_of(entry) == self@.get(key@),
    {
        self.map.get(key)
    }

    /// The entry under `key` as a reader at `now` sees it: nothing if there
    /// is none or if its instant of expiry has passed. The mapping itself
    /// stays as it is.
    pub fn read(&self, key: &str, now: u64) -> (entry: Option<&DbValue>)
        ensures
            view_of(entry) == live_entry(self@, key@, now),
    {
        match self.map.get(key) {
            Some(v) => if v.is_expired(now) {
                None
            } else {
                Some(v)
            },
            None => None,
        }
    }

    /// Shows `producer` the entry under `key` and carries out what it
    /// decides, in one step. Hands back what the producer gave besides its
    /// decision.
    pub fn write<F, R>(&mut self, key: String, producer: F) -> (given: R) where
        F: FnOnce(Option<&DbValue>) -> (WriteDecision, R),

        requires
            forall|prior: Option<&DbValue>|
                view_of(prior) == old(self)@.get(key@) ==> producer.requires((prior,)),
        ensures
            exists|prior: Option<&DbValue>, decision: WriteDecision|
                view_of(prior) == old(self)@.get(key@) && producer.ensures(
                    (prior,),
                    (decision, given),
                ) && final(self)@ == apply_decision(old(self)@, key@, decision@),
    {
        let prior = self.map.get(key.as_str());
        let (decision, given) = producer(prior);
        match decision {
            WriteDecision::Skip => {},
            WriteDecision::Insert(v) => {
                self.map.insert(key, v);
            },
        }
        given
    }
}

/// The entry under `key` that a reader at `now` sees.
pub open spec fn live_entry(store: Map<Seq<char>, DbValueView>, key: Seq<char>, now: u64) -> Option<
    DbValueView,
> {
    if store.contains_key(key) && !store[key].is_expired(now) {
        Some(store[key])
    } else {
        None
    }
}

} // verus!
