use resp_kv::commands::echo::EchoCommand;
use resp_kv::commands::set::{ExpiryOpt, SetCommand, SetKeyword, SetOnlyIf};
use resp_kv::commands::{parse_int, Command, CommandError};
use resp_kv::parse::{NullBulkString, RespElement};

fn bulk(text: &str) -> RespElement {
    RespElement::BulkString(text.to_owned().into())
}

fn request(words: &[&str]) -> RespElement {
    RespElement::Array(words.iter().map(|w| bulk(w)).collect())
}

fn parsed_set(words: &[&str]) -> SetCommand {
    match Command::try_from(request(words)) {
        Ok(Command::SetKey(set)) => set,
        other => panic!("Expected SET command, got {:?}", other),
    }
}

fn error_of(element: RespElement) -> CommandError {
    match Command::try_from(element) {
        Ok(cmd) => panic!("Expected an error, got {:?}", cmd),
        Err(e) => e,
    }
}

#[test]
fn command_test_basic_set_command() {
    let command = Command::try_from(RespElement::Array(vec![
        RespElement::BulkString("SET".to_owned().into()),
        RespElement::BulkString("key".to_owned().into()),
        RespElement::BulkString("value".to_owned().into()),
    ]))
    .unwrap();

    if let Command::SetKey(set_command) = command {
        assert_eq!(set_command.key, "key");
        assert_eq!(set_command.value, "value");
        assert_eq!(set_command.only_if, None);
        assert_eq!(set_command.get, false);
        assert_eq!(set_command.expiry, None);
    } else {
        panic!("Expected SET command");
    }
}

#[test]
fn command_test_set_command_with_px() {
    let command = Command::try_from(RespElement::Array(vec![
        RespElement::BulkString("SET".to_owned().into()),
        RespElement::BulkString("key".to_owned().into()),
        RespElement::BulkString("value".to_owned().into()),
        RespElement::BulkString("PX".to_owned().into()),
        RespElement::Integer(1000),
    ]))
    .unwrap();

    if let Command::SetKey(set_command) = command {
        assert_eq!(set_command.key, "key");
        assert_eq!(set_command.value, "value");
        assert_eq!(set_command.only_if, None);
        assert_eq!(set_command.get, false);
        assert_eq!(set_command.expiry, Some(ExpiryOpt::Milliseconds(1000)));
    } else {
        panic!("Expected SET command");
    }
}

#[test]
fn command_test_set_command_with_px_as_bulk_string() {
    let command = Command::try_from(RespElement::Array(vec![
        RespElement::BulkString("SET".to_owned().into()),
        RespElement::BulkString("key".to_owned().into()),
        RespElement::BulkString("value".to_owned().into()),
        RespElement::BulkString("PX".to_owned().into()),
        RespElement::BulkString("1000".to_owned().into()),
    ]))
    .unwrap();

    if let Command::SetKey(set_command) = command {
        assert_eq!(set_command.key, "key");
        assert_eq!(set_command.value, "value");
        assert_eq!(set_command.only_if, None);
        assert_eq!(set_command.get, false);
        assert_eq!(set_command.expiry, Some(ExpiryOpt::Milliseconds(1000)));
    } else {
        panic!("Expected SET command");
    }
}

#[test]
fn set_test_basic_set_command() {
    let command = Command::try_from(RespElement::Array(vec![
        RespElement::BulkString("SET".to_owned().into()),
        RespElement::BulkString("key".to_owned().into()),
        RespElement::BulkString("value".to_owned().into()),
    ]))
    .unwrap();

    if let Command::SetKey(set_command) = command {
        assert_eq!(set_command.key, "key");
        assert_eq!(set_command.value, "value");
        assert_eq!(set_command.only_if, None);
        assert_eq!(set_command.get, false);
        assert_eq!(set_command.expiry, None);
    } else {
        panic!("Expected SET command");
    }
}

#[test]
fn set_test_set_command_with_px() {
    let command = Command::try_from(RespElement::Array(vec![
        RespElement::BulkString("SET".to_owned().into()),
        RespElement::BulkString("key".to_owned().into()),
        RespElement::BulkString("value".to_owned().into()),
        RespElement::BulkString("PX".to_owned().into()),
        RespElement::Integer(1000),
    ]))
    .unwrap();

    if let Command::SetKey(set_command) = command {
        assert_eq!(set_command.key, "key");
        assert_eq!(set_command.value, "value");
        assert_eq!(set_command.only_if, None);
        assert_eq!(set_command.get, false);
        assert_eq!(set_command.expiry, Some(ExpiryOpt::Milliseconds(1000)));
    } else {
        panic!("Expected SET command");
    }
}

#[test]
fn set_test_set_command_with_px_as_bulk_string() {
    let command = Command::try_from(RespElement::Array(vec![
        RespElement::BulkString("SET".to_owned().into()),
        RespElement::BulkString("key".to_owned().into()),
        RespElement::BulkString("value".to_owned().into()),
        RespElement::BulkString("PX".to_owned().into()),
        RespElement::BulkString("1000".to_owned().into()),
    ]))
    .unwrap();

    if let Command::SetKey(set_command) = command {
        assert_eq!(set_command.key, "key");
        assert_eq!(set_command.value, "value");
        assert_eq!(set_command.only_if, None);
        assert_eq!(set_command.get, false);
        assert_eq!(set_command.expiry, Some(ExpiryOpt::Milliseconds(1000)));
    } else {
        panic!("Expected SET command");
    }
}

#[test]
fn ping_is_read_with_any_number_of_arguments() {
    assert!(matches!(Command::try_from(request(&["PING"])), Ok(Command::Ping(_))));
    assert!(matches!(Command::try_from(request(&["PING", "extra"])), Ok(Command::Ping(_))));
}

#[test]
fn echo_takes_exactly_one_bulk_string() {
    match Command::try_from(request(&["ECHO", "hello"])) {
        Ok(Command::Echo(EchoCommand(message))) => assert_eq!(message, "hello"),
        other => panic!("Expected ECHO, got {:?}", other),
    }
    assert_eq!(error_of(request(&["ECHO"])), CommandError::InvalidCommand);
    assert_eq!(error_of(request(&["ECHO", "a", "b"])), CommandError::InvalidCommand);
    assert_eq!(
        error_of(RespElement::Array(vec![bulk("ECHO"), RespElement::Integer(1)])),
        CommandError::InvalidCommand
    );
}

#[test]
fn echo_from_resp_checks_a_verb_that_is_a_bulk_string() {
    assert_eq!(
        EchoCommand::from_resp(vec![bulk("ECHO"), bulk("hi")]),
        Ok(EchoCommand("hi".to_owned()))
    );
    assert_eq!(
        EchoCommand::from_resp(vec![bulk("PING"), bulk("hi")]),
        Err(CommandError::InvalidCommand)
    );
    assert_eq!(
        EchoCommand::from_resp(vec![RespElement::Integer(1), bulk("hi")]),
        Ok(EchoCommand("hi".to_owned()))
    );
}

#[test]
fn get_takes_exactly_one_bulk_string() {
    match Command::try_from(request(&["GET", "key"])) {
        Ok(Command::Get(key)) => assert_eq!(key, "key"),
        other => panic!("Expected GET, got {:?}", other),
    }
    assert_eq!(error_of(request(&["GET"])), CommandError::InvalidCommand);
    assert_eq!(error_of(request(&["GET", "a", "b"])), CommandError::InvalidCommand);
    assert_eq!(
        error_of(RespElement::Array(vec![bulk("GET"), RespElement::Boolean(true)])),
        CommandError::InvalidCommand
    );
}

#[test]
fn empty_request_is_missing_command() {
    assert_eq!(error_of(RespElement::Array(vec![])), CommandError::MissingCommand);
}

#[test]
fn malformed_requests_are_unknown_commands() {
    assert_eq!(error_of(RespElement::Integer(1)), CommandError::UnknownCommand);
    assert_eq!(error_of(bulk("PING")), CommandError::UnknownCommand);
    assert_eq!(error_of(RespElement::Null), CommandError::UnknownCommand);
    assert_eq!(
        error_of(RespElement::NullElement(NullBulkString)),
        CommandError::UnknownCommand
    );
    assert_eq!(
        error_of(RespElement::Array(vec![RespElement::Integer(1)])),
        CommandError::UnknownCommand
    );
    assert_eq!(
        error_of(RespElement::Array(vec![RespElement::SimpleString("PING".to_owned().into())])),
        CommandError::UnknownCommand
    );
    assert_eq!(error_of(request(&["FLUSHALL"])), CommandError::UnknownCommand);
}

#[test]
fn the_verb_is_case_sensitive() {
    assert_eq!(error_of(request(&["ping"])), CommandError::UnknownCommand);
    assert_eq!(error_of(request(&["Set", "k", "v"])), CommandError::UnknownCommand);
    assert_eq!(error_of(request(&["get", "k"])), CommandError::UnknownCommand);
}

#[test]
fn set_option_keywords_are_case_insensitive() {
    let set = parsed_set(&["SET", "k", "v", "nx", "get", "px", "25"]);
    assert_eq!(set.only_if, Some(SetOnlyIf::DoesNotExists));
    assert_eq!(set.get, true);
    assert_eq!(set.expiry, Some(ExpiryOpt::Milliseconds(25)));

    let set = parsed_set(&["SET", "k", "v", "Xx", "KeepTtl"]);
    assert_eq!(set.only_if, Some(SetOnlyIf::AlreadyExists));
    assert_eq!(set.get, false);
    assert_eq!(set.expiry, Some(ExpiryOpt::KeepTtl));
}

#[test]
fn set_reads_every_expiry_form() {
    assert_eq!(parsed_set(&["SET", "k", "v", "EX", "7"]).expiry, Some(ExpiryOpt::Seconds(7)));
    assert_eq!(parsed_set(&["SET", "k", "v", "PX", "7"]).expiry, Some(ExpiryOpt::Milliseconds(7)));
    assert_eq!(
        parsed_set(&["SET", "k", "v", "EXAT", "7"]).expiry,
        Some(ExpiryOpt::TimestampSeconds(7))
    );
    assert_eq!(
        parsed_set(&["SET", "k", "v", "PXAT", "7"]).expiry,
        Some(ExpiryOpt::TimestampMilliseconds(7))
    );
    assert_eq!(parsed_set(&["SET", "k", "v", "KEEPTTL"]).expiry, Some(ExpiryOpt::KeepTtl));
}

#[test]
fn set_options_may_come_in_any_order() {
    let set = parsed_set(&["SET", "k", "v", "EX", "3", "GET", "XX"]);
    assert_eq!(set.key, "k");
    assert_eq!(set.value, "v");
    assert_eq!(set.only_if, Some(SetOnlyIf::AlreadyExists));
    assert_eq!(set.get, true);
    assert_eq!(set.expiry, Some(ExpiryOpt::Seconds(3)));
}

#[test]
fn set_with_too_few_or_wrong_arguments_is_invalid() {
    assert_eq!(error_of(request(&["SET"])), CommandError::InvalidCommand);
    assert_eq!(error_of(request(&["SET", "k"])), CommandError::InvalidCommand);
    assert_eq!(
        error_of(RespElement::Array(vec![bulk("SET"), RespElement::Integer(1), bulk("v")])),
        CommandError::InvalidCommand
    );
    assert_eq!(
        error_of(RespElement::Array(vec![bulk("SET"), bulk("k"), RespElement::Integer(1)])),
        CommandError::InvalidCommand
    );
}

#[test]
fn set_with_an_unknown_option_is_invalid() {
    assert_eq!(error_of(request(&["SET", "k", "v", "NOPE"])), CommandError::InvalidCommand);
    assert_eq!(error_of(request(&["SET", "k", "v", ""])), CommandError::InvalidCommand);
    assert_eq!(
        error_of(RespElement::Array(vec![
            bulk("SET"),
            bulk("k"),
            bulk("v"),
            RespElement::Integer(5)
        ])),
        CommandError::InvalidCommand
    );
}

#[test]
fn set_with_a_repeated_option_is_a_syntax_error() {
    assert_eq!(error_of(request(&["SET", "k", "v", "NX", "NX"])), CommandError::SyntaxError);
    assert_eq!(error_of(request(&["SET", "k", "v", "NX", "XX"])), CommandError::SyntaxError);
    assert_eq!(error_of(request(&["SET", "k", "v", "XX", "nx"])), CommandError::SyntaxError);
    assert_eq!(error_of(request(&["SET", "k", "v", "GET", "GET"])), CommandError::SyntaxError);
    assert_eq!(
        error_of(request(&["SET", "k", "v", "EX", "1", "PX", "1"])),
        CommandError::SyntaxError
    );
    assert_eq!(
        error_of(request(&["SET", "k", "v", "KEEPTTL", "EXAT", "1"])),
        CommandError::SyntaxError
    );
    assert_eq!(
        error_of(request(&["SET", "k", "v", "PXAT", "1", "KEEPTTL"])),
        CommandError::SyntaxError
    );
}

#[test]
fn set_with_a_missing_or_malformed_argument_is_a_syntax_error() {
    assert_eq!(error_of(request(&["SET", "k", "v", "EX"])), CommandError::SyntaxError);
    assert_eq!(error_of(request(&["SET", "k", "v", "PX"])), CommandError::SyntaxError);
    assert_eq!(error_of(request(&["SET", "k", "v", "EXAT"])), CommandError::SyntaxError);
    assert_eq!(error_of(request(&["SET", "k", "v", "PXAT"])), CommandError::SyntaxError);
    assert_eq!(error_of(request(&["SET", "k", "v", "EX", "soon"])), CommandError::SyntaxError);
    assert_eq!(error_of(request(&["SET", "k", "v", "EX", "-1"])), CommandError::SyntaxError);
    assert_eq!(error_of(request(&["SET", "k", "v", "EX", "1.5"])), CommandError::SyntaxError);
    assert_eq!(
        error_of(RespElement::Array(vec![
            bulk("SET"),
            bulk("k"),
            bulk("v"),
            bulk("EX"),
            RespElement::Boolean(true)
        ])),
        CommandError::SyntaxError
    );
}

#[test]
fn the_first_error_from_the_left_is_reported() {
    assert_eq!(
        error_of(request(&["SET", "k", "v", "NOPE", "NX", "NX"])),
        CommandError::InvalidCommand
    );
    assert_eq!(
        error_of(request(&["SET", "k", "v", "NX", "NX", "NOPE"])),
        CommandError::SyntaxError
    );
}

#[test]
fn set_from_resp_does_not_look_at_the_verb() {
    let set = SetCommand::from_resp(vec![bulk("anything"), bulk("k"), bulk("v"), bulk("GET")])
        .unwrap();
    assert_eq!(
        set,
        SetCommand {
            key: "k".to_owned(),
            value: "v".to_owned(),
            only_if: None,
            get: true,
            expiry: None
        }
    );
    assert_eq!(
        SetCommand::from_resp(vec![bulk("SET"), bulk("k")]),
        Err(CommandError::InvalidCommand)
    );
}

#[test]
fn keywords_are_recognised_in_upper_case_only_by_from_upper() {
    assert_eq!(SetKeyword::from_upper("NX"), Some(SetKeyword::Nx));
    assert_eq!(SetKeyword::from_upper("XX"), Some(SetKeyword::Xx));
    assert_eq!(SetKeyword::from_upper("GET"), Some(SetKeyword::Get));
    assert_eq!(SetKeyword::from_upper("EX"), Some(SetKeyword::Ex));
    assert_eq!(SetKeyword::from_upper("PX"), Some(SetKeyword::Px));
    assert_eq!(SetKeyword::from_upper("EXAT"), Some(SetKeyword::ExAt));
    assert_eq!(SetKeyword::from_upper("PXAT"), Some(SetKeyword::PxAt));
    assert_eq!(SetKeyword::from_upper("KEEPTTL"), Some(SetKeyword::KeepTtl));
    assert_eq!(SetKeyword::from_upper("nx"), None);
    assert_eq!(SetKeyword::from_upper("N"), None);
    assert_eq!(SetKeyword::from_upper("NXX"), None);
    assert_eq!(SetKeyword::from_upper(""), None);
}

#[test]
fn keywords_are_recognised_in_any_case_by_from_token() {
    assert_eq!(SetKeyword::from_token("nx"), Some(SetKeyword::Nx));
    assert_eq!(SetKeyword::from_token("kEePtTl"), Some(SetKeyword::KeepTtl));
    assert_eq!(SetKeyword::from_token("pxat"), Some(SetKeyword::PxAt));
    assert_eq!(SetKeyword::from_token("\u{00e9}x"), None);
}

#[test]
fn parse_int_takes_integers_and_unsigned_text() {
    assert_eq!(parse_int(&RespElement::Integer(0)), Ok(0));
    assert_eq!(parse_int(&RespElement::Integer(1000)), Ok(1000));
    assert_eq!(parse_int(&RespElement::Integer(i64::MAX)), Ok(9223372036854775807));
    assert_eq!(parse_int(&bulk("1000")), Ok(1000));
    assert_eq!(parse_int(&bulk("+5")), Ok(5));
    assert_eq!(parse_int(&bulk("007")), Ok(7));
    assert_eq!(parse_int(&bulk("18446744073709551615")), Ok(u64::MAX));
}

#[test]
fn parse_int_counts_a_negative_integer_modulo_two_to_the_64() {
    assert_eq!(parse_int(&RespElement::Integer(-1)), Ok(18446744073709551615));
    assert_eq!(parse_int(&RespElement::Integer(-2)), Ok(18446744073709551614));
    assert_eq!(parse_int(&RespElement::Integer(i64::MIN)), Ok(9223372036854775808));
}

#[test]
fn parse_int_refuses_everything_else() {
    assert_eq!(parse_int(&bulk("")), Err(CommandError::SyntaxError));
    assert_eq!(parse_int(&bulk("+")), Err(CommandError::SyntaxError));
    assert_eq!(parse_int(&bulk("-5")), Err(CommandError::SyntaxError));
    assert_eq!(parse_int(&bulk("5 ")), Err(CommandError::SyntaxError));
    assert_eq!(parse_int(&bulk(" 5")), Err(CommandError::SyntaxError));
    assert_eq!(parse_int(&bulk("1_000")), Err(CommandError::SyntaxError));
    assert_eq!(parse_int(&bulk("0x10")), Err(CommandError::SyntaxError));
    assert_eq!(parse_int(&bulk("18446744073709551616")), Err(CommandError::SyntaxError));
    assert_eq!(parse_int(&bulk("\u{0663}")), Err(CommandError::SyntaxError));
    assert_eq!(parse_int(&RespElement::Boolean(true)), Err(CommandError::SyntaxError));
    assert_eq!(parse_int(&RespElement::Null), Err(CommandError::SyntaxError));
    assert_eq!(
        parse_int(&RespElement::SimpleString("5".to_owned().into())),
        Err(CommandError::SyntaxError)
    );
}

#[test]
fn parse_int_agrees_with_the_standard_parser_on_text() {
    let samples = [
        "", "0", "1", "+1", "-1", "++1", "+-1", "00", "0009", "9", "10", "99", "100", "12a",
        "a12", " 12", "12 ", "+", "-", "18446744073709551614", "18446744073709551615",
        "18446744073709551616", "99999999999999999999999999", "1e3", "\u{0661}\u{0662}", "12\n",
    ];
    for text in samples {
        let expected: Result<u64, CommandError> =
            text.parse::<u64>().map_err(|_| CommandError::SyntaxError);
        assert_eq!(parse_int(&bulk(text)), expected, "on {:?}", text);
    }
}

#[test]
fn config_get_collects_the_names() {
    match Command::try_from(request(&["CONFIG", "GET", "dir", "port"])) {
        Ok(Command::GetConfig(names)) => assert_eq!(names, vec!["dir", "port"]),
        other => panic!("Expected CONFIG GET, got {:?}", other),
    }
    match Command::try_from(request(&["CONFIG", "GET"])) {
        Ok(Command::GetConfig(names)) => assert!(names.is_empty()),
        other => panic!("Expected CONFIG GET, got {:?}", other),
    }
}

#[test]
fn config_errors() {
    assert_eq!(error_of(request(&["CONFIG"])), CommandError::SyntaxError);
    assert_eq!(
        error_of(RespElement::Array(vec![bulk("CONFIG"), RespElement::Integer(1)])),
        CommandError::SyntaxError
    );
    assert_eq!(
        error_of(RespElement::Array(vec![bulk("CONFIG"), bulk("GET"), RespElement::Integer(1)])),
        CommandError::SyntaxError
    );
    assert_eq!(error_of(request(&["CONFIG", "SET", "dir", "x"])), CommandError::UnknownCommand);
    assert_eq!(error_of(request(&["CONFIG", "get", "dir"])), CommandError::UnknownCommand);
}

#[test]
fn commands_are_made_from_their_parts() {
    let echo = EchoCommand("x".to_owned());
    assert_eq!(Command::from(echo.clone()), Command::Echo(echo));
    let set = SetCommand {
        key: "k".to_owned(),
        value: "v".to_owned(),
        only_if: None,
        get: false,
        expiry: None,
    };
    assert_eq!(Command::from(set.clone()), Command::SetKey(set));
}
