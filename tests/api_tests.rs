use rustdis::api::RustdisApi;
use rustdis::cache::RustdisCache;
use rustdis::cli::{ReplStep, RustdisCli};
use rustdis::protocol::Response;

#[test]
fn test_api_operations() {
    let cache = RustdisCache::new();
    let api = RustdisApi::new(cache);

    let result = api.api_set("test_key".to_string(), "test_value".to_string()).unwrap();
    assert!(result.contains("OK") || result == "\"OK\"");

    let result = api.api_get("test_key").unwrap();
    assert!(result.contains("test_value"));

    let result = api.api_exists("test_key").unwrap();
    assert!(result.contains("true"));

    let result = api.api_ping().unwrap();
    assert!(result.contains("PONG"));
}

#[test]
fn test_api_command_execution() {
    let cache = RustdisCache::new();
    let api = RustdisApi::new(cache);

    let json_cmd = r#"{"command": "SET", "args": {"key": "api_test", "value": "api_value"}}"#;
    let result = api.api_execute_command(json_cmd).unwrap();
    assert!(result.contains("OK") || result == "\"OK\"");

    let json_cmd = r#"{"command": "GET", "args": {"key": "api_test"}}"#;
    let result = api.api_execute_command(json_cmd).unwrap();
    assert!(result.contains("api_value"));
}

#[test]
fn test_integration() {
    let cache = RustdisCache::new();

    let api = RustdisApi::new(cache.clone());
    api.api_set("integration_test".to_string(), "test_value".to_string()).unwrap();

    let result = api.api_get("integration_test").unwrap();
    assert!(result.contains("test_value"));

    let value = cache.get("integration_test").unwrap();
    assert_eq!(value, Some("test_value".to_string()));
}

#[test]
fn api_answers_in_json() {
    let api = RustdisApi::new(RustdisCache::new());
    assert_eq!(api.api_set("a".to_string(), "1".to_string()).unwrap(), "\"OK\"");
    assert_eq!(api.api_get("a").unwrap(), "\"1\"");
    assert_eq!(api.api_get("b").unwrap(), "null");
    assert_eq!(api.api_exists("a").unwrap(), "true");
    assert_eq!(api.api_keys().unwrap(), "[\"a\"]");
    assert_eq!(api.api_size().unwrap(), "1");
    assert_eq!(api.api_del("a").unwrap(), "true");
    assert_eq!(api.api_del("a").unwrap(), "false");
    assert_eq!(api.api_flush().unwrap(), "\"OK\"");
    assert_eq!(api.api_ping().unwrap(), "\"PONG\"");
    assert!(api.api_docs().starts_with("# Rustdis API Documentation"));
}

#[test]
fn structured_get_of_missing_key_is_null() {
    let api = RustdisApi::new(RustdisCache::new());
    let result = api.api_execute_command(r#"{"command":"GET","args":{"key":"missing"}}"#).unwrap();
    assert_eq!(result, "null");
}

#[test]
fn structured_errors_are_answered_as_error_objects() {
    let api = RustdisApi::new(RustdisCache::new());
    let result = api.api_execute_command(r#"{"command":"NOPE"}"#).unwrap();
    assert_eq!(result, "{\"error\":\"unknown command: NOPE\"}");
    let result = api.api_execute_command("{").unwrap();
    assert!(result.starts_with("{\"error\":"));
}

#[test]
fn line_scenario() {
    let cli = RustdisCli::new(RustdisCache::new());
    assert_eq!(cli.parse_simple_command("SET nome Lucas"), Response::Acknowledged);
    assert_eq!(
        cli.parse_simple_command("GET nome"),
        Response::StringOption(Some("Lucas".to_string()))
    );
    assert_eq!(cli.parse_simple_command("EXISTS nome"), Response::Boolean(true));
    assert_eq!(cli.parse_simple_command("DEL nome"), Response::Boolean(true));
    assert_eq!(cli.parse_simple_command("KEYS"), Response::StringArray(vec![]));
    assert_eq!(cli.parse_simple_command("SIZE"), Response::Number(0));
}

#[test]
fn wrong_arity_leaves_store_unchanged() {
    let cache = RustdisCache::new();
    let cli = RustdisCli::new(cache.clone());
    match cli.parse_simple_command("SET a") {
        Response::Error { error } => assert!(error.contains("requires exactly two arguments")),
        other => panic!("unexpected {:?}", other),
    }
    assert_eq!(cache.size().unwrap(), 0);
    assert_eq!(cache.get("a").unwrap(), None);
}

#[test]
fn prompt_steps() {
    let cli = RustdisCli::new(RustdisCache::new());
    assert_eq!(cli.step("   "), ReplStep::Skip);
    assert_eq!(cli.step(" quit\n"), ReplStep::Quit);
    assert_eq!(cli.step("exit"), ReplStep::Quit);
    assert_eq!(cli.step("help"), ReplStep::Help);
    assert_eq!(cli.step("  ping  "), ReplStep::Show(Response::String("PONG".to_string())));
    assert_eq!(cli.step(r#" {"command":"PING"} "#), ReplStep::Show(Response::String("PONG".to_string())));
    match cli.step("{oops") {
        ReplStep::Show(Response::Error { error }) => assert!(error.starts_with("Invalid JSON: ")),
        other => panic!("unexpected {:?}", other),
    }
    assert_eq!(
        cli.step(r#"{"command":"NOPE"}"#),
        ReplStep::Show(Response::Error { error: "Invalid JSON: unknown command: NOPE".to_string() })
    );
}
