use rustdis::cache::RustdisCache;
use rustdis::codec::{decode_command, decode_response, encode_command, encode_response};
use rustdis::error::RustdisError;
use rustdis::json::Json;
use rustdis::line::{command_from_words, parse_line};
use rustdis::protocol::{answer_query, apply, Command, Response, RustdisProtocol};
use rustdis::store::Store;
use rustdis::render::{decimal_string, response_lines};

#[test]
fn test_protocol_operations() {
    let cache = RustdisCache::new();
    let protocol = RustdisProtocol::new(cache);

    let set_cmd = Command::Put {
        key: "test_key".to_string(),
        value: "test_value".to_string(),
    };
    let response = protocol.execute(set_cmd);
    assert!(matches!(response, Response::Acknowledged));

    let get_cmd = Command::Get {
        key: "test_key".to_string(),
    };
    let response = protocol.execute(get_cmd);
    assert!(matches!(response, Response::StringOption(Some(_))));

    let ping_cmd = Command::Ping;
    let response = protocol.execute(ping_cmd);
    assert!(matches!(response, Response::String(ref s) if s == "PONG"));
}

#[test]
fn test_json_parsing() {
    let json_cmd = r#"{"command": "GET", "args": {"key": "test"}}"#;
    let command = RustdisProtocol::parse_command(json_cmd).unwrap();
    assert!(matches!(command, Command::Get { .. }));

    let response = Response::String("PONG".to_string());
    let json = RustdisProtocol::response_to_json(&response).unwrap();
    assert_eq!(json, r#""PONG""#);
}

fn all_commands() -> Vec<Command> {
    vec![
        Command::Get { key: "k".to_string() },
        Command::Put { key: "k".to_string(), value: "v w".to_string() },
        Command::Del { key: "k".to_string() },
        Command::Exists { key: "k".to_string() },
        Command::Keys,
        Command::Flush,
        Command::Size,
        Command::Ping,
    ]
}

#[test]
fn commands_round_trip_through_structured_form() {
    for c in all_commands() {
        let j = encode_command(&c);
        assert_eq!(decode_command(&j), Ok(c));
    }
}

#[test]
fn responses_round_trip_through_structured_form() {
    let exact = vec![
        Response::String("x".to_string()),
        Response::StringOption(None),
        Response::Boolean(true),
        Response::Boolean(false),
        Response::Number(0),
        Response::Number(1234567),
        Response::Number(usize::MAX),
        Response::StringArray(vec!["a".to_string(), "b".to_string()]),
        Response::StringArray(vec![]),
        Response::Error { error: "bad".to_string() },
    ];
    for r in exact {
        let j = encode_response(&r);
        assert_eq!(decode_response(&j), Some(r));
    }
    let j = encode_response(&Response::StringOption(Some("y".to_string())));
    assert_eq!(decode_response(&j), Some(Response::String("y".to_string())));
    let j = encode_response(&Response::Acknowledged);
    assert_eq!(decode_response(&j), Some(Response::String("OK".to_string())));
}

#[test]
fn structured_names_ignore_case() {
    let c = RustdisProtocol::parse_command(r#"{"command":"set","args":{"key":"a","value":"b c"}}"#);
    assert_eq!(c, Ok(Command::Put { key: "a".to_string(), value: "b c".to_string() }));
    let c = RustdisProtocol::parse_command(r#"{"command":"Ping"}"#);
    assert_eq!(c, Ok(Command::Ping));
    let c = RustdisProtocol::parse_command(r#"{"command":"keys","args":null}"#);
    assert_eq!(c, Ok(Command::Keys));
}

#[test]
fn structured_errors_are_malformed_command() {
    let bad = [
        "not json",
        "[1,2]",
        r#"{"args":{"key":"a"}}"#,
        r#"{"command":"GET"}"#,
        r#"{"command":"GET","args":{"key":5}}"#,
        r#"{"command":"SET","args":{"key":"a"}}"#,
        r#"{"command":"KEYS","args":{"key":"a"}}"#,
        r#"{"command":"NOPE"}"#,
    ];
    for b in bad {
        assert!(matches!(RustdisProtocol::parse_command(b), Err(RustdisError::MalformedCommand(_))), "{}", b);
    }
    assert_eq!(
        RustdisProtocol::parse_command(r#"{"command":"NOPE"}"#),
        Err(RustdisError::MalformedCommand("unknown command: NOPE".to_string()))
    );
}

#[test]
fn decode_command_from_values() {
    let j = Json::Object(vec![
        ("command".to_string(), Json::Str("exists".to_string())),
        ("args".to_string(), Json::Object(vec![("key".to_string(), Json::Str("z".to_string()))])),
    ]);
    assert_eq!(decode_command(&j), Ok(Command::Exists { key: "z".to_string() }));
    let j = Json::Object(vec![("command".to_string(), Json::Bool(true))]);
    assert_eq!(
        decode_command(&j),
        Err(RustdisError::MalformedCommand("missing string field `command`".to_string()))
    );
}

#[test]
fn line_form_words_and_synonyms() {
    assert_eq!(parse_line("  get   k  "), Ok(Command::Get { key: "k".to_string() }));
    assert_eq!(parse_line("delete k"), Ok(Command::Del { key: "k".to_string() }));
    assert_eq!(parse_line("FLUSHALL"), Ok(Command::Flush));
    assert_eq!(parse_line("dbsize"), Ok(Command::Size));
    assert_eq!(
        parse_line("SET k v"),
        Ok(Command::Put { key: "k".to_string(), value: "v".to_string() })
    );
}

#[test]
fn line_form_errors() {
    assert_eq!(
        parse_line("SET a"),
        Err(RustdisError::MalformedCommand(
            "SET requires exactly two arguments: SET <key> <value>".to_string()
        ))
    );
    assert_eq!(parse_line("   "), Err(RustdisError::MalformedCommand("Empty command".to_string())));
    assert_eq!(
        parse_line("frob x"),
        Err(RustdisError::MalformedCommand("Unknown command: frob".to_string()))
    );
    assert_eq!(
        parse_line("SET a b c"),
        Err(RustdisError::MalformedCommand(
            "SET requires exactly two arguments: SET <key> <value>".to_string()
        ))
    );
    assert_eq!(
        parse_line("GET"),
        Err(RustdisError::MalformedCommand("GET requires exactly one argument: GET <key>".to_string()))
    );
}

#[test]
fn command_from_given_words() {
    let words = vec!["exists".to_string(), "k".to_string()];
    assert_eq!(command_from_words(&words, "EXISTS"), Ok(Command::Exists { key: "k".to_string() }));
    let words = vec!["x".to_string()];
    assert_eq!(
        command_from_words(&words, "X"),
        Err(RustdisError::MalformedCommand("Unknown command: x".to_string()))
    );
}

#[test]
fn response_json_text() {
    let t = |r: Response| RustdisProtocol::response_to_json(&r).unwrap();
    assert_eq!(t(Response::StringOption(None)), "null");
    assert_eq!(t(Response::StringOption(Some("a\"b".to_string()))), "\"a\\\"b\"");
    assert_eq!(t(Response::Boolean(false)), "false");
    assert_eq!(t(Response::Number(42)), "42");
    assert_eq!(t(Response::StringArray(vec!["a".to_string(), "b".to_string()])), "[\"a\",\"b\"]");
    assert_eq!(t(Response::StringArray(vec![])), "[]");
    assert_eq!(t(Response::Acknowledged), "\"OK\"");
    assert_eq!(t(Response::Error { error: "boom".to_string() }), "{\"error\":\"boom\"}");
}

#[test]
fn decimal_numerals() {
    assert_eq!(decimal_string(0), "0");
    assert_eq!(decimal_string(9), "9");
    assert_eq!(decimal_string(10), "10");
    assert_eq!(decimal_string(usize::MAX), usize::MAX.to_string());
}

#[test]
fn human_lines() {
    assert_eq!(response_lines(&Response::StringOption(None)), vec!["(nil)".to_string()]);
    assert_eq!(response_lines(&Response::StringOption(Some("v".to_string()))), vec!["\"v\"".to_string()]);
    assert_eq!(response_lines(&Response::Boolean(true)), vec!["1".to_string()]);
    assert_eq!(response_lines(&Response::StringArray(vec![])), vec!["(empty array)".to_string()]);
    assert_eq!(
        response_lines(&Response::StringArray(vec!["a".to_string(), "b".to_string()])),
        vec!["1) \"a\"".to_string(), "2) \"b\"".to_string()]
    );
    assert_eq!(response_lines(&Response::Acknowledged), vec!["OK".to_string()]);
    assert_eq!(
        response_lines(&Response::Error { error: "e".to_string() }),
        vec!["Error: e".to_string()]
    );
}

#[test]
fn bare_line_commands_take_no_arguments() {
    assert_eq!(
        parse_line("KEYS x"),
        Err(RustdisError::MalformedCommand("KEYS takes no arguments".to_string()))
    );
    assert_eq!(
        parse_line("flushall now"),
        Err(RustdisError::MalformedCommand("FLUSHALL takes no arguments".to_string()))
    );
    assert_eq!(
        parse_line("dbsize 1 2"),
        Err(RustdisError::MalformedCommand("DBSIZE takes no arguments".to_string()))
    );
    assert_eq!(
        parse_line("PING pong"),
        Err(RustdisError::MalformedCommand("PING takes no arguments".to_string()))
    );
    assert_eq!(parse_line("ping"), Ok(Command::Ping));
}

#[test]
fn apply_runs_each_command_on_an_owned_store() {
    let mut store = Store::new();
    assert_eq!(
        apply(&mut store, Command::Put { key: "k".to_string(), value: "v".to_string() }),
        Response::Acknowledged
    );
    assert_eq!(
        apply(&mut store, Command::Get { key: "k".to_string() }),
        Response::StringOption(Some("v".to_string()))
    );
    assert_eq!(apply(&mut store, Command::Exists { key: "k".to_string() }), Response::Boolean(true));
    assert_eq!(apply(&mut store, Command::Size), Response::Number(1));
    assert_eq!(apply(&mut store, Command::Keys), Response::StringArray(vec!["k".to_string()]));
    assert_eq!(apply(&mut store, Command::Del { key: "k".to_string() }), Response::Boolean(true));
    assert_eq!(apply(&mut store, Command::Del { key: "k".to_string() }), Response::Boolean(false));
    assert_eq!(apply(&mut store, Command::Get { key: "k".to_string() }), Response::StringOption(None));
    apply(&mut store, Command::Put { key: "a".to_string(), value: "b".to_string() });
    assert_eq!(apply(&mut store, Command::Flush), Response::Acknowledged);
    assert_eq!(store.size(), 0);
    assert_eq!(apply(&mut store, Command::Ping), Response::String("PONG".to_string()));
    assert_eq!(answer_query(&store, Command::Size), Response::Number(0));
}

#[test]
fn string_escapes_in_json_text() {
    let t = |s: &str| RustdisProtocol::response_to_json(&Response::String(s.to_string())).unwrap();
    assert_eq!(t("a\tb\nc"), "\"a\\tb\\nc\"");
    assert_eq!(t("\u{1}\u{1f}"), "\"\\u0001\\u001f\"");
    assert_eq!(t("back\\slash"), "\"back\\\\slash\"");
    assert_eq!(t("é"), "\"é\"");
}

#[test]
fn non_json_text_has_a_description() {
    match RustdisProtocol::parse_command("not json") {
        Err(RustdisError::MalformedCommand(m)) => assert!(!m.is_empty()),
        other => panic!("unexpected {:?}", other),
    }
}
