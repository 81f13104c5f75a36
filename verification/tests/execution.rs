use resp_kv::clock::{instant_from, now_millis};
use resp_kv::commands::echo::EchoCommand;
use resp_kv::commands::ping::PingCommand;
use resp_kv::commands::set::{ExpiryOpt, SetCommand, SetOnlyIf};
use resp_kv::commands::Command;
use resp_kv::config::{load_opts, Config, OptValue, Opts};
use resp_kv::parse::{parse_element, NullBulkString, RespElement, RespSerialise};
use resp_kv::store::{DbValue, Store, WriteDecision};

fn simple(text: &str) -> RespElement {
    RespElement::SimpleString(text.to_owned().into())
}

fn bulk(text: &str) -> RespElement {
    RespElement::BulkString(text.to_owned().into())
}

fn null() -> RespElement {
    RespElement::NullElement(NullBulkString)
}

fn set(key: &str, value: &str) -> SetCommand {
    SetCommand {
        key: key.to_owned(),
        value: value.to_owned(),
        only_if: None,
        get: false,
        expiry: None,
    }
}

fn get(key: &str) -> Command {
    Command::Get(key.to_owned())
}

fn stored(db: &Store, key: &str) -> Option<(String, Option<u64>)> {
    db.get(key).map(|entry| (entry.text(), entry.expires_at()))
}

fn run(db: &mut Store, request: &[u8], now: u64) -> Vec<u8> {
    let (_, element) = parse_element(request).unwrap();
    let command = Command::try_from(element).unwrap();
    command.execute_at(db, &Config::new(), now).serialise()
}

#[test]
fn command_test_execute_set_command_with_expiry() {
    let mut db = Store::new();
    let command = Command::SetKey(SetCommand {
        key: "key".to_owned(),
        value: "value".to_owned(),
        only_if: None,
        get: false,
        expiry: Some(ExpiryOpt::Seconds(1)),
    });
    let resp = command.execute(&mut db, &Config::new());
    assert_eq!(db.get("key").unwrap().text(), "value");
    assert_eq!(resp, RespElement::SimpleString("OK".to_owned().into()));
}

#[test]
fn set_test_execute_set_command_with_expiry() {
    let mut db = Store::new();
    let command = Command::SetKey(SetCommand {
        key: "key".to_owned(),
        value: "value".to_owned(),
        only_if: None,
        get: false,
        expiry: Some(ExpiryOpt::Seconds(1)),
    });
    let resp = command.execute(&mut db, &Config::new());
    assert_eq!(db.get("key").unwrap().text(), "value");
    assert_eq!(resp, RespElement::SimpleString("OK".to_owned().into()));
}

#[test]
fn ping_answers_pong_whatever_the_store_holds() {
    let mut db = Store::new();
    let opts = Config::new();
    assert_eq!(PingCommand.execute(&mut db, &opts).serialise(), b"+PONG\r\n");
    set("k", "v").execute_at(&mut db, &opts, 5);
    assert_eq!(Command::Ping(PingCommand).execute_at(&mut db, &opts, 6).serialise(), b"+PONG\r\n");
    assert_eq!(Command::Ping(PingCommand).execute(&mut db, &opts).serialise(), b"+PONG\r\n");
    assert_eq!(stored(&db, "k"), Some(("v".to_owned(), None)));
    assert_eq!(run(&mut db, b"*1\r\n$4\r\nPING\r\n", 7), b"+PONG\r\n");
}

#[test]
fn echo_sends_the_message_back() {
    let mut db = Store::new();
    let opts = Config::new();
    assert_eq!(EchoCommand("hey".to_owned()).execute(&mut db, &opts), bulk("hey"));
    assert_eq!(
        Command::Echo(EchoCommand("a\r\nb".to_owned())).execute_at(&mut db, &opts, 1).serialise(),
        b"$4\r\na\r\nb\r\n"
    );
    assert_eq!(run(&mut db, b"*2\r\n$4\r\nECHO\r\n$0\r\n\r\n", 1), b"$0\r\n\r\n");
    assert!(db.get("hey").is_none());
}

#[test]
fn set_then_get_gives_the_value() {
    let mut db = Store::new();
    let opts = Config::new();
    assert_eq!(Command::SetKey(set("k", "v")).execute_at(&mut db, &opts, 10), simple("OK"));
    assert_eq!(get("k").execute_at(&mut db, &opts, 10), bulk("v"));
    assert_eq!(get("k").execute_at(&mut db, &opts, u64::MAX), bulk("v"));
    assert_eq!(get("k").execute(&mut db, &opts), bulk("v"));
    assert_eq!(stored(&db, "k"), Some(("v".to_owned(), None)));
}

#[test]
fn get_of_a_key_that_was_never_set_gives_null() {
    let mut db = Store::new();
    let opts = Config::new();
    assert_eq!(get("k").execute_at(&mut db, &opts, 10), null());
    set("other", "v").execute_at(&mut db, &opts, 10);
    assert_eq!(get("k").execute_at(&mut db, &opts, 11), null());
    assert_eq!(get("").execute_at(&mut db, &opts, 11), null());
    assert_eq!(get("k").execute_at(&mut db, &opts, 11).serialise(), b"$-1\r\n");
}

#[test]
fn set_over_the_wire() {
    let mut db = Store::new();
    assert_eq!(run(&mut db, b"*3\r\n$3\r\nSET\r\n$1\r\nk\r\n$1\r\nv\r\n", 1), b"+OK\r\n");
    assert_eq!(run(&mut db, b"*2\r\n$3\r\nGET\r\n$1\r\nk\r\n", 2), b"$1\r\nv\r\n");
    assert_eq!(run(&mut db, b"*2\r\n$3\r\nGET\r\n$1\r\nx\r\n", 2), b"$-1\r\n");
}

#[test]
fn a_value_that_is_not_ascii_comes_back_as_it_went_in() {
    let mut db = Store::new();
    let opts = Config::new();
    let text = "gr\u{00fc}\u{00df}e \u{1f600}\r\n\0";
    set("k", text).execute_at(&mut db, &opts, 1);
    assert_eq!(get("k").execute_at(&mut db, &opts, 1), bulk(text));
    assert_eq!(db.get("k").unwrap().text(), text);
}

#[test]
fn the_second_of_two_nx_is_refused() {
    let mut db = Store::new();
    let opts = Config::new();
    let first = SetCommand { only_if: Some(SetOnlyIf::DoesNotExists), ..set("k", "v1") };
    let second = SetCommand { only_if: Some(SetOnlyIf::DoesNotExists), ..set("k", "v2") };
    assert_eq!(first.execute_at(&mut db, &opts, 1), simple("OK"));
    assert_eq!(second.execute_at(&mut db, &opts, 2), null());
    assert_eq!(stored(&db, "k"), Some(("v1".to_owned(), None)));
}

#[test]
fn nx_looks_at_the_entry_even_if_it_has_expired() {
    let mut db = Store::new();
    let opts = Config::new();
    SetCommand { expiry: Some(ExpiryOpt::Milliseconds(1)), ..set("k", "old") }
        .execute_at(&mut db, &opts, 100);
    assert_eq!(get("k").execute_at(&mut db, &opts, 500), null());
    let nx = SetCommand { only_if: Some(SetOnlyIf::DoesNotExists), ..set("k", "new") };
    assert_eq!(nx.execute_at(&mut db, &opts, 500), null());
    assert_eq!(stored(&db, "k"), Some(("old".to_owned(), Some(101))));
}

#[test]
fn a_refused_set_with_get_gives_null_too() {
    let mut db = Store::new();
    let opts = Config::new();
    set("k", "old").execute_at(&mut db, &opts, 1);
    let nx = SetCommand { only_if: Some(SetOnlyIf::DoesNotExists), get: true, ..set("k", "new") };
    assert_eq!(nx.execute_at(&mut db, &opts, 2), null());
    assert_eq!(stored(&db, "k"), Some(("old".to_owned(), None)));
}

#[test]
fn an_expired_value_is_hidden_and_kept() {
    let mut db = Store::new();
    let opts = Config::new();
    let cmd = SetCommand { expiry: Some(ExpiryOpt::Seconds(0)), ..set("k", "v") };
    assert_eq!(cmd.execute_at(&mut db, &opts, 1000), simple("OK"));
    assert_eq!(get("k").execute_at(&mut db, &opts, 1001), null());
    assert_eq!(stored(&db, "k"), Some(("v".to_owned(), Some(1000))));
    assert!(db.read("k", 1001).is_none());
    assert!(db.read("k", 1000).is_some());
    set("k", "again").execute_at(&mut db, &opts, 2000);
    assert_eq!(get("k").execute_at(&mut db, &opts, 3000), bulk("again"));
    assert_eq!(stored(&db, "k"), Some(("again".to_owned(), None)));
}

#[test]
fn a_value_is_shown_up_to_its_instant_of_expiry() {
    let mut db = Store::new();
    let opts = Config::new();
    SetCommand { expiry: Some(ExpiryOpt::Seconds(2)), ..set("k", "v") }
        .execute_at(&mut db, &opts, 1000);
    assert_eq!(stored(&db, "k"), Some(("v".to_owned(), Some(3000))));
    assert_eq!(get("k").execute_at(&mut db, &opts, 2999), bulk("v"));
    assert_eq!(get("k").execute_at(&mut db, &opts, 3000), bulk("v"));
    assert_eq!(get("k").execute_at(&mut db, &opts, 3001), null());
}

#[test]
fn every_expiry_form_gives_its_instant() {
    let opts = Config::new();
    let cases = [
        (ExpiryOpt::Seconds(5), Some(6_000)),
        (ExpiryOpt::Milliseconds(5), Some(1_005)),
        (ExpiryOpt::TimestampSeconds(5), Some(5_000)),
        (ExpiryOpt::TimestampMilliseconds(5), Some(5)),
        (ExpiryOpt::KeepTtl, None),
        (ExpiryOpt::Seconds(u64::MAX), Some(u64::MAX)),
        (ExpiryOpt::Seconds(u64::MAX / 1000), Some(u64::MAX)),
        (ExpiryOpt::Seconds(u64::MAX / 1000 - 1), Some(18446744073709550000 + 1000)),
        (ExpiryOpt::Milliseconds(u64::MAX), Some(u64::MAX)),
        (ExpiryOpt::Milliseconds(u64::MAX - 1000), Some(u64::MAX)),
        (ExpiryOpt::Milliseconds(u64::MAX - 1001), Some(u64::MAX - 1)),
        (ExpiryOpt::TimestampSeconds(u64::MAX), Some(u64::MAX)),
        (ExpiryOpt::TimestampSeconds(u64::MAX / 1000), Some(18446744073709551000)),
        (ExpiryOpt::TimestampMilliseconds(u64::MAX), Some(u64::MAX)),
    ];
    for (expiry, expected) in cases {
        let mut db = Store::new();
        SetCommand { expiry: Some(expiry), ..set("k", "v") }.execute_at(&mut db, &opts, 1_000);
        assert_eq!(stored(&db, "k"), Some(("v".to_owned(), expected)), "with {:?}", expiry);
    }
}

#[test]
fn a_timestamp_in_the_past_has_expired_at_once() {
    let mut db = Store::new();
    let opts = Config::new();
    SetCommand { expiry: Some(ExpiryOpt::TimestampSeconds(1)), ..set("k", "v") }
        .execute_at(&mut db, &opts, 5_000);
    assert_eq!(get("k").execute_at(&mut db, &opts, 5_000), null());
    assert!(db.get("k").is_some());
}

#[test]
fn keepttl_carries_the_instant_of_expiry_over() {
    let mut db = Store::new();
    let opts = Config::new();
    SetCommand { expiry: Some(ExpiryOpt::Milliseconds(500)), ..set("k", "v1") }
        .execute_at(&mut db, &opts, 1_000);
    SetCommand { expiry: Some(ExpiryOpt::KeepTtl), ..set("k", "v2") }
        .execute_at(&mut db, &opts, 1_200);
    assert_eq!(stored(&db, "k"), Some(("v2".to_owned(), Some(1_500))));
    set("k", "v3").execute_at(&mut db, &opts, 1_300);
    assert_eq!(stored(&db, "k"), Some(("v3".to_owned(), None)));
    SetCommand { expiry: Some(ExpiryOpt::KeepTtl), ..set("k", "v4") }
        .execute_at(&mut db, &opts, 1_400);
    assert_eq!(stored(&db, "k"), Some(("v4".to_owned(), None)));
}

#[test]
fn set_with_get_gives_the_previous_value() {
    let mut db = Store::new();
    let opts = Config::new();
    assert_eq!(set("k", "v1").execute_at(&mut db, &opts, 1), simple("OK"));
    let second = SetCommand { get: true, ..set("k", "v2") };
    assert_eq!(second.execute_at(&mut db, &opts, 2), bulk("v1"));
    assert_eq!(stored(&db, "k"), Some(("v2".to_owned(), None)));
    let fresh = SetCommand { get: true, ..set("new", "v") };
    assert_eq!(fresh.execute_at(&mut db, &opts, 3), null());
    assert_eq!(stored(&db, "new"), Some(("v".to_owned(), None)));
}

#[test]
fn set_with_get_gives_the_previous_value_even_if_it_has_expired() {
    let mut db = Store::new();
    let opts = Config::new();
    SetCommand { expiry: Some(ExpiryOpt::Milliseconds(1)), ..set("k", "old") }
        .execute_at(&mut db, &opts, 1);
    let second = SetCommand { get: true, ..set("k", "new") };
    assert_eq!(second.execute_at(&mut db, &opts, 1_000), bulk("old"));
}

#[test]
fn xx_on_a_key_that_was_never_set_changes_nothing() {
    let mut db = Store::new();
    let opts = Config::new();
    let xx = SetCommand { only_if: Some(SetOnlyIf::AlreadyExists), ..set("k", "v") };
    assert_eq!(xx.clone().execute_at(&mut db, &opts, 1), null());
    assert!(db.get("k").is_none());
    set("k", "v0").execute_at(&mut db, &opts, 2);
    assert_eq!(xx.execute_at(&mut db, &opts, 3), simple("OK"));
    assert_eq!(stored(&db, "k"), Some(("v".to_owned(), None)));
}

#[test]
fn two_writers_leave_the_value_of_one() {
    let opts = Config::new();
    let a = set("k", "a");
    let b = set("k", "b");
    let mut db = Store::new();
    set("other", "x").execute_at(&mut db, &opts, 0);
    a.clone().execute_at(&mut db, &opts, 1);
    b.clone().execute_at(&mut db, &opts, 1);
    assert_eq!(stored(&db, "k"), Some(("b".to_owned(), None)));
    assert_eq!(stored(&db, "other"), Some(("x".to_owned(), None)));
    let mut db = Store::new();
    set("other", "x").execute_at(&mut db, &opts, 0);
    b.execute_at(&mut db, &opts, 1);
    a.execute_at(&mut db, &opts, 1);
    assert_eq!(stored(&db, "k"), Some(("a".to_owned(), None)));
    assert_eq!(stored(&db, "other"), Some(("x".to_owned(), None)));
}

#[test]
fn writers_that_share_the_store_behind_a_lock_leave_the_value_of_one() {
    let db = std::sync::Arc::new(std::sync::Mutex::new(Store::new()));
    let mut answers = Vec::new();
    for value in ["a", "b"] {
        let db = db.clone();
        let cmd = SetCommand { only_if: Some(SetOnlyIf::DoesNotExists), ..set("k", value) };
        let mut guard = db.lock().unwrap();
        answers.push(cmd.execute_at(&mut guard, &Config::new(), 1));
    }
    assert_eq!(answers, vec![simple("OK"), null()]);
    assert_eq!(stored(&db.lock().unwrap(), "k"), Some(("a".to_owned(), None)));
}

#[test]
fn the_clock_reads_an_instant_of_this_age() {
    let a = now_millis();
    let b = now_millis();
    assert!(a > 1_600_000_000_000);
    assert!(a < 100_000_000_000_000);
    assert!(b + 60_000 > a);
}

#[test]
fn execute_goes_by_the_clock() {
    let mut db = Store::new();
    let opts = Config::new();
    let before = now_millis();
    SetCommand { expiry: Some(ExpiryOpt::Seconds(100)), ..set("soon", "v") }
        .execute(&mut db, &opts);
    let at = db.get("soon").unwrap().expires_at().unwrap();
    assert!(at >= before + 100_000);
    assert!(at <= now_millis() + 100_000);
    assert_eq!(get("soon").execute(&mut db, &opts), bulk("v"));
    Command::SetKey(SetCommand {
        expiry: Some(ExpiryOpt::TimestampMilliseconds(1)),
        ..set("past", "v")
    })
    .execute(&mut db, &opts);
    assert_eq!(get("past").execute(&mut db, &opts), null());
    assert!(db.get("past").is_some());
}

#[test]
fn the_store_reads_and_writes() {
    let mut db = Store::new();
    assert!(db.get("k").is_none());
    assert!(db.read("k", 0).is_none());
    let seen = db.write("k".to_owned(), |prior| {
        (WriteDecision::Insert(DbValue::new("v".to_owned(), Some(10))), prior.is_some())
    });
    assert_eq!(seen, false);
    assert_eq!(stored(&db, "k"), Some(("v".to_owned(), Some(10))));
    assert_eq!(db.read("k", 10).map(|e| e.text()), Some("v".to_owned()));
    assert!(db.read("k", 11).is_none());
    let seen = db.write("k".to_owned(), |prior| {
        (WriteDecision::Skip, prior.map(|entry| entry.text()))
    });
    assert_eq!(seen, Some("v".to_owned()));
    assert_eq!(stored(&db, "k"), Some(("v".to_owned(), Some(10))));
}

#[test]
fn a_stored_value_knows_when_it_has_expired() {
    let value = DbValue::new("v".to_owned(), Some(10));
    assert_eq!(value.text(), "v");
    assert_eq!(value.expires_at(), Some(10));
    assert!(!value.is_expired(9));
    assert!(!value.is_expired(10));
    assert!(value.is_expired(11));
    let forever = DbValue::new("v".to_owned(), None);
    assert!(!forever.is_expired(u64::MAX));
}

fn sample_opts() -> Opts {
    Opts { port: 6379, dir: "/tmp/redis-data".to_owned(), dbfilename: "rdbfile".to_owned() }
}

#[test]
fn load_opts_names_the_three_settings() {
    let config = load_opts(sample_opts());
    assert!(matches!(config.get("port"), Some(OptValue::UInt(6379))));
    assert!(matches!(config.get("dir"), Some(OptValue::Path(p)) if p == "/tmp/redis-data"));
    assert!(matches!(config.get("dbfilename"), Some(OptValue::String(s)) if s == "rdbfile"));
    assert!(config.get("nonexistent").is_none());
    assert!(config.get("").is_none());
    assert!(config.get("PORT").is_none());
}

#[test]
fn config_get_passes_over_what_is_not_set() {
    let config = load_opts(sample_opts());
    let mut db = Store::new();
    let cmd = Command::GetConfig(vec!["dir".to_owned(), "nonexistent".to_owned()]);
    assert_eq!(
        cmd.execute_at(&mut db, &config, 1),
        RespElement::Array(vec![bulk("dir"), bulk("/tmp/redis-data")])
    );
}

#[test]
fn config_get_answers_in_the_order_asked() {
    let config = load_opts(sample_opts());
    let mut db = Store::new();
    let cmd = Command::GetConfig(vec![
        "dbfilename".to_owned(),
        "nope".to_owned(),
        "port".to_owned(),
        "dir".to_owned(),
        "port".to_owned(),
    ]);
    assert_eq!(
        cmd.execute(&mut db, &config),
        RespElement::Array(vec![
            bulk("dbfilename"),
            bulk("rdbfile"),
            bulk("port"),
            RespElement::Integer(6379),
            bulk("dir"),
            bulk("/tmp/redis-data"),
            bulk("port"),
            RespElement::Integer(6379),
        ])
    );
}

#[test]
fn config_get_of_nothing_known_is_an_empty_array() {
    let config = load_opts(sample_opts());
    let mut db = Store::new();
    assert_eq!(
        Command::GetConfig(vec![]).execute_at(&mut db, &config, 1),
        RespElement::Array(vec![])
    );
    assert_eq!(
        Command::GetConfig(vec!["a".to_owned()]).execute_at(&mut db, &config, 1).serialise(),
        b"*0\r\n"
    );
    assert_eq!(
        Command::GetConfig(vec!["port".to_owned()])
            .execute_at(&mut db, &Config::new(), 1)
            .serialise(),
        b"*0\r\n"
    );
}

#[test]
fn settings_become_elements() {
    assert_eq!(OptValue::String("s".to_owned()).to_element(), bulk("s"));
    assert_eq!(OptValue::UInt(65535).to_element(), RespElement::Integer(65535));
    assert_eq!(OptValue::Path("/p".to_owned()).to_element(), bulk("/p"));
}

#[test]
fn a_configuration_is_built_by_inserting() {
    let mut config = Config::new();
    assert!(config.get("a").is_none());
    config.insert("a".to_owned(), OptValue::UInt(1));
    config.insert("a".to_owned(), OptValue::UInt(2));
    assert!(matches!(config.get("a"), Some(OptValue::UInt(2))));
}

#[test]
fn a_copy_of_a_stored_value_holds_the_same() {
    let value = DbValue::new("payload \u{00e9}".to_owned(), Some(7));
    let copy = value.clone();
    assert_eq!(copy.text(), "payload \u{00e9}");
    assert_eq!(copy.expires_at(), Some(7));
    assert_eq!(copy, value);
    assert_ne!(copy, DbValue::new("payload \u{00e9}".to_owned(), None));
    assert_ne!(copy, DbValue::new("other".to_owned(), Some(7)));
}

#[test]
fn a_chunk_is_answered_with_bytes() {
    let mut db = Store::new();
    let opts = load_opts(sample_opts());
    let answer = |db: &mut Store, chunk: &[u8]| resp_kv::connection::respond_at(chunk, db, &opts, 50);
    assert_eq!(answer(&mut db, b"*1\r\n$4\r\nPING\r\n"), b"+PONG\r\n");
    assert_eq!(answer(&mut db, b"*3\r\n$3\r\nSET\r\n$1\r\nk\r\n$2\r\nv1\r\n"), b"+OK\r\n");
    assert_eq!(
        answer(&mut db, b"*4\r\n$3\r\nSET\r\n$1\r\nk\r\n$2\r\nv2\r\n$3\r\nget\r\n"),
        b"$2\r\nv1\r\n"
    );
    assert_eq!(answer(&mut db, b"*2\r\n$3\r\nGET\r\n$1\r\nk\r\n"), b"$2\r\nv2\r\n");
    assert_eq!(
        answer(&mut db, b"*3\r\n$6\r\nCONFIG\r\n$3\r\nGET\r\n$4\r\nport\r\n"),
        b"*2\r\n$4\r\nport\r\n:6379\r\n"
    );
    assert_eq!(
        answer(&mut db, b"*4\r\n$6\r\nCONFIG\r\n$3\r\nGET\r\n$3\r\ndir\r\n$11\r\nnonexistent\r\n"),
        b"*2\r\n$3\r\ndir\r\n$15\r\n/tmp/redis-data\r\n"
    );
}

#[test]
fn a_chunk_that_fails_is_answered_with_an_error_and_changes_nothing() {
    let mut db = Store::new();
    let opts = Config::new();
    set("k", "v").execute_at(&mut db, &opts, 1);
    for chunk in [&b""[..], b"garbage", b"*1\r\n", b"$5\r\nhel", b"\0\0\0\0"] {
        assert_eq!(
            resp_kv::connection::respond_at(chunk, &mut db, &opts, 2),
            b"-Unable to parse input\r\n",
            "on {:?}",
            chunk
        );
    }
    for chunk in [
        &b"*0\r\n"[..],
        b"+PING\r\n",
        b"*1\r\n$4\r\nping\r\n",
        b"*2\r\n$3\r\nSET\r\n$1\r\nk\r\n",
        b"*5\r\n$3\r\nSET\r\n$1\r\nk\r\n$1\r\nx\r\n$2\r\nNX\r\n$2\r\nXX\r\n",
    ] {
        assert_eq!(
            resp_kv::connection::respond_at(chunk, &mut db, &opts, 2),
            b"-Unable to parse input into command\r\n",
            "on {:?}",
            chunk
        );
    }
    assert_eq!(stored(&db, "k"), Some(("v".to_owned(), None)));
    assert_eq!(resp_kv::connection::respond(b"*1\r\n$4\r\nPING\r\n", &mut db, &opts), b"+PONG\r\n");
}

#[test]
fn only_the_first_request_of_a_chunk_is_answered() {
    let mut db = Store::new();
    let opts = Config::new();
    let chunk = b"*1\r\n$4\r\nPING\r\n*3\r\n$3\r\nSET\r\n$1\r\nk\r\n$1\r\nv\r\n";
    assert_eq!(resp_kv::connection::respond_at(chunk, &mut db, &opts, 2), b"+PONG\r\n");
    assert!(db.get("k").is_none());
}

#[test]
fn a_reading_of_the_clock_becomes_an_instant() {
    assert_eq!(instant_from(None), 0);
    assert_eq!(instant_from(Some(0)), 0);
    assert_eq!(instant_from(Some(1)), 1);
    assert_eq!(instant_from(Some(1_790_000_000_123)), 1_790_000_000_123);
    assert_eq!(instant_from(Some(18446744073709551614)), u64::MAX - 1);
    assert_eq!(instant_from(Some(18446744073709551615)), u64::MAX);
    assert_eq!(instant_from(Some(18446744073709551616)), u64::MAX);
    assert_eq!(instant_from(Some(u128::MAX)), u64::MAX);
}
