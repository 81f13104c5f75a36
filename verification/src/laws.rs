//! What holds of the commands and the store, whatever the store holds and
//! whenever the commands are carried out.

use vstd::prelude::*;
use vstd::utf8::is_ascii_chars_encode_utf8;
use crate::commands::set::{
    conflicts, deadline, set_response, store_after_set, ExpiryOpt, SetOnlyIf, SetView,
};
use crate::commands::{
    command_of, config_entry, config_reply, get_response, response_of, store_after, CommandView,
};
use crate::connection::{reply_to, store_after_chunk};
use crate::grammar::{element_at, RespValue};
use crate::config::OptValueView;
use crate::store::DbValueView;

verus! {

/// `PING` is answered with exactly `+PONG\r\n`, whatever the store and the
/// configuration hold, and the store stays as it is.
pub proof fn law_ping_answers_pong(
    store: Map<Seq<char>, DbValueView>,
    config: Map<Seq<char>, OptValueView>,
    now: u64,
)
    ensures
        response_of(CommandView::Ping, store, config, now).wire() == seq![
            43u8,
            80u8,
            79u8,
            78u8,
            71u8,
            13u8,
            10u8,
        ],
        store_after(CommandView::Ping, store, now) == store,
{
    reveal_strlit("PONG");
    is_ascii_chars_encode_utf8("PONG"@);
}

/// The command `SET key value` without options.
pub open spec fn plain_set(key: Seq<char>, value: Seq<char>) -> SetView {
    SetView { key, value, only_if: None, get: false, expiry: None }
}

/// The `SET` writes: the condition on its key does not forbid it.
pub open spec fn writes(cmd: SetView, store: Map<Seq<char>, DbValueView>) -> bool {
    !conflicts(cmd.only_if, store.contains_key(cmd.key))
}

/// A `SET` that writes puts its value under its key with the expiry it asks
/// for, and touches no other key.
pub proof fn law_set_writes_one_key(cmd: SetView, store: Map<Seq<char>, DbValueView>, now: u64)
    requires
        writes(cmd, store),
    ensures
        store_after_set(cmd, store, now) == store.insert(
            cmd.key,
            DbValueView {
                payload: cmd.value,
                expires_at: deadline(cmd.expiry, store.get(cmd.key), now),
            },
        ),
{
}

/// A `SET` that does not write leaves the store as it is and is answered
/// with the null bulk string, with `GET` or without.
pub proof fn law_refused_set_changes_nothing(
    cmd: SetView,
    store: Map<Seq<char>, DbValueView>,
    now: u64,
)
    requires
        !writes(cmd, store),
    ensures
        store_after_set(cmd, store, now) == store,
        set_response(cmd, store, now) == RespValue::NullBulkString,
{
}

/// After `SET key value`, `GET key` gives the value.
pub proof fn law_get_after_set(
    store: Map<Seq<char>, DbValueView>,
    key: Seq<char>,
    value: Seq<char>,
    set_at: u64,
    get_at: u64,
)
    ensures
        get_response(store_after_set(plain_set(key, value), store, set_at), key, get_at)
            == RespValue::BulkString(value),
{
}

/// After any `SET` that writes, a `GET` of its key that comes no later than
/// the instant of expiry gives the value.
pub proof fn law_get_after_set_before_expiry(
    cmd: SetView,
    store: Map<Seq<char>, DbValueView>,
    set_at: u64,
    get_at: u64,
)
    requires
        writes(cmd, store),
        deadline(cmd.expiry, store.get(cmd.key), set_at) matches Some(at) ==> get_at <= at,
    ensures
        get_response(store_after_set(cmd, store, set_at), cmd.key, get_at)
            == RespValue::BulkString(cmd.value),
{
}

/// `GET` of a key that was never set gives the null bulk string.
pub proof fn law_get_of_absent_key(store: Map<Seq<char>, DbValueView>, key: Seq<char>, now: u64)
    requires
        !store.contains_key(key),
    ensures
        get_response(store, key, now) == RespValue::NullBulkString,
{
}

/// Of two `SET ... NX` on a key that is absent, the first writes and the
/// second is refused: it is answered with the null bulk string and the store
/// keeps the first value.
pub proof fn law_second_nx_is_refused(
    store: Map<Seq<char>, DbValueView>,
    first: SetView,
    second: SetView,
    first_at: u64,
    second_at: u64,
)
    requires
        !store.contains_key(first.key),
        first.key == second.key,
        first.only_if == Some(SetOnlyIf::DoesNotExists),
        second.only_if == Some(SetOnlyIf::DoesNotExists),
    ensures
        ({
            let between = store_after_set(first, store, first_at);
            let after = store_after_set(second, between, second_at);
            &&& set_response(second, between, second_at) == RespValue::NullBulkString
            &&& after == between
            &&& after.contains_key(first.key)
            &&& after[first.key].payload == first.value
        }),
{
}

/// Once the instant of expiry has passed, `GET` gives the null bulk string,
/// and yet the entry is still in the store: reading removes nothing.
pub proof fn law_expired_entry_is_hidden_and_kept(
    cmd: SetView,
    store: Map<Seq<char>, DbValueView>,
    set_at: u64,
    get_at: u64,
)
    requires
        writes(cmd, store),
        deadline(cmd.expiry, store.get(cmd.key), set_at) matches Some(at) && at < get_at,
    ensures
        ({
            let written = store_after_set(cmd, store, set_at);
            &&& get_response(written, cmd.key, get_at) == RespValue::NullBulkString
            &&& store_after(CommandView::Get(cmd.key), written, get_at) == written
            &&& written.contains_key(cmd.key)
            &&& written[cmd.key].payload == cmd.value
        }),
{
}

/// A value that is set to expire after no time at all is hidden from every
/// later instant on.
pub proof fn law_immediate_expiry(
    store: Map<Seq<char>, DbValueView>,
    key: Seq<char>,
    value: Seq<char>,
    set_at: u64,
    get_at: u64,
)
    requires
        set_at < get_at,
    ensures
        ({
            let cmd = SetView {
                key,
                value,
                only_if: None,
                get: false,
                expiry: Some(ExpiryOpt::Seconds(0)),
            };
            let written = store_after_set(cmd, store, set_at);
            &&& get_response(written, key, get_at) == RespValue::NullBulkString
            &&& written.contains_key(key)
        }),
{
}

/// After `SET key v1`, `SET key v2 GET` is answered with `v1` and leaves
/// `v2` in the store.
pub proof fn law_set_with_get_gives_previous(
    store: Map<Seq<char>, DbValueView>,
    key: Seq<char>,
    v1: Seq<char>,
    v2: Seq<char>,
    first_at: u64,
    second_at: u64,
)
    ensures
        ({
            let between = store_after_set(plain_set(key, v1), store, first_at);
            let second = SetView { key, value: v2, only_if: None, get: true, expiry: None };
            let after = store_after_set(second, between, second_at);
            &&& set_response(second, between, second_at) == RespValue::BulkString(v1)
            &&& after.contains_key(key)
            &&& after[key].payload == v2
        }),
{
}

/// `SET ... XX` on a key that was never set changes nothing and is answered
/// with the null bulk string.
pub proof fn law_xx_on_absent_key(cmd: SetView, store: Map<Seq<char>, DbValueView>, now: u64)
    requires
        cmd.only_if == Some(SetOnlyIf::AlreadyExists),
        !store.contains_key(cmd.key),
    ensures
        store_after_set(cmd, store, now) == store,
        set_response(cmd, store, now) == RespValue::NullBulkString,
{
}

/// Two `SET`s on one key, taking effect one after the other in whichever
/// order: unless neither of them writes, the key then holds the value of
/// exactly one of the two, and every other key holds what it held before.
///
/// Each `SET` is one step on the store, so one of the two orders is what
/// happens when two callers write at once.
pub proof fn law_two_writers_leave_one_value(
    store: Map<Seq<char>, DbValueView>,
    first: SetView,
    second: SetView,
    first_at: u64,
    second_at: u64,
)
    requires
        first.key == second.key,
        writes(first, store) || writes(second, store_after_set(first, store, first_at)),
    ensures
        ({
            let key = first.key;
            let after = store_after_set(
                second,
                store_after_set(first, store, first_at),
                second_at,
            );
            &&& after.contains_key(key)
            &&& after[key].payload == first.value || after[key].payload == second.value
            &&& forall|other: Seq<char>| other != key ==> after.get(other) == store.get(other)
        }),
{
}

/// A name that is not set adds nothing to the answer of `CONFIG GET`.
pub proof fn law_unset_name_is_passed_over(
    config: Map<Seq<char>, OptValueView>,
    names: Seq<Seq<char>>,
    name: Seq<char>,
)
    requires
        !config.contains_key(name),
    ensures
        config_reply(config, names.push(name)) == config_reply(config, names),
{
    assert(names.push(name).drop_last() =~= names);
}

/// A name that is set adds itself and its value at the end of the answer of
/// `CONFIG GET`.
pub proof fn law_set_name_is_answered(
    config: Map<Seq<char>, OptValueView>,
    names: Seq<Seq<char>>,
    name: Seq<char>,
)
    requires
        config.contains_key(name),
    ensures
        config_reply(config, names.push(name)) == config_reply(config, names) + seq![
            RespValue::BulkString(name),
            config[name].as_value(),
        ],
{
    assert(names.push(name).drop_last() =~= names);
}

/// Every item of the answer to a `CONFIG GET` can be sent as it is.
pub proof fn lemma_config_reply_is_well_formed(
    config: Map<Seq<char>, OptValueView>,
    names: Seq<Seq<char>>,
)
    ensures
        RespValue::Array(config_reply(config, names)).wf(),
    decreases names.len(),
{
    if names.len() > 0 {
        lemma_config_reply_is_well_formed(config, names.drop_last());
        let head = config_reply(config, names.drop_last());
        let last = config_entry(config, names.last());
        let all = config_reply(config, names);
        assert(RespValue::Array(head)->Array_0 == head);
        assert forall|i: int| 0 <= i < all.len() implies (#[trigger] all[i]).wf() by {
            if i < head.len() {
                assert(all[i] == head[i]);
            } else {
                assert(all[i] == last[i - head.len()]);
            }
        }
    }
}

/// Whatever a command answers can be sent as it is: a client that decodes the
/// answer gets the answer.
pub proof fn law_answers_are_well_formed(
    cmd: CommandView,
    store: Map<Seq<char>, DbValueView>,
    config: Map<Seq<char>, OptValueView>,
    now: u64,
)
    ensures
        response_of(cmd, store, config, now).wf(),
{
    reveal_strlit("PONG");
    reveal_strlit("OK");
    match cmd {
        CommandView::GetConfig(names) => {
            lemma_config_reply_is_well_formed(config, names);
        },
        _ => {},
    }
}

/// A chunk that does not decode, or that is no command, is answered with a
/// simple error and leaves the store as it is.
pub proof fn law_failures_leave_the_store(
    chunk: Seq<u8>,
    store: Map<Seq<char>, DbValueView>,
    config: Map<Seq<char>, OptValueView>,
    now: u64,
)
    requires
        element_at(chunk, 0) matches Some((request, _)) ==> command_of(request) is Err,
    ensures
        reply_to(chunk, store, config, now) is SimpleError,
        store_after_chunk(chunk, store, now) == store,
{
}

/// Whatever is sent back for a chunk can be sent as it is.
pub proof fn law_replies_are_well_formed(
    chunk: Seq<u8>,
    store: Map<Seq<char>, DbValueView>,
    config: Map<Seq<char>, OptValueView>,
    now: u64,
)
    ensures
        reply_to(chunk, store, config, now).wf(),
{
    reveal_strlit("Unable to parse input");
    reveal_strlit("Unable to parse input into command");
    if let Some((request, _)) = element_at(chunk, 0) {
        if let Ok(cmd) = command_of(request) {
            law_answers_are_well_formed(cmd, store, config, now);
        }
    }
}

} // verus!
