//! Request handlers that answer in JSON text, one per store operation, plus
//! one that takes a whole command as JSON.
use vstd::prelude::*;

use crate::codec::command_of_json;
use crate::error::RustdisError;
use crate::json::{json_of, quoted_of};
use crate::protocol::{Command, CommandModel, Response, ResponseModel, RustdisProtocol, executed};
use crate::render::response_text;

verus! {

/// `t` is the JSON text of what running command `c` answers on some state
/// of the store.
pub open spec fn answers(t: Seq<char>, c: CommandModel) -> bool {
    exists|x: ResponseModel| executed(c, x) && t == response_text(x)
}

/// `t` is the JSON text of a failure with a non-empty description.
pub open spec fn is_failure_text(t: Seq<char>) -> bool {
    exists|m: Seq<char>| m.len() > 0 && t == response_text(ResponseModel::Failure(m))
}

/// The answer, in JSON text, to the command that `input` holds in JSON.
pub open spec fn command_answer(input: Seq<char>, t: Seq<char>) -> bool {
    match json_of(input) {
        None => is_failure_text(t),
        Some(j) => match command_of_json(j) {
            Ok(c) => answers(t, c),
            Err(m) => t == response_text(ResponseModel::Failure(m)),
        },
    }
}

/// The reference for the request handlers.
pub const API_DOCS: &'static str = r#"# Rustdis API Documentation

## Endpoints

### GET /api/get?key=<key>
Get value by key
- **Query Parameter**: `key` - The key to retrieve
- **Response**: JSON with the value or null if not found

### POST /api/set
Set key-value pair
- **Body**: `{"key": "mykey", "value": "myvalue"}`
- **Response**: `"OK"` on success

### DELETE /api/del?key=<key>
Delete key
- **Query Parameter**: `key` - The key to delete
- **Response**: `true` if deleted, `false` if key didn't exist

### GET /api/exists?key=<key>
Check if key exists
- **Query Parameter**: `key` - The key to check
- **Response**: `true` if exists, `false` otherwise

### GET /api/keys
Get all keys
- **Response**: Array of all keys

### DELETE /api/flush
Clear all data
- **Response**: `"OK"` on success

### GET /api/size
Get number of keys
- **Response**: Number of keys in the cache

### GET /api/ping
Test connection
- **Response**: `"PONG"`

### POST /api/command
Execute raw JSON command
- **Body**: JSON command object
- **Response**: JSON response from command execution

## Example Usage

```bash
# Get a value
curl "http://localhost:8080/api/get?key=mykey"

# Set a value
curl -X POST "http://localhost:8080/api/set" \
     -H "Content-Type: application/json" \
     -d '{"key": "mykey", "value": "myvalue"}'

# Check if key exists
curl "http://localhost:8080/api/exists?key=mykey"

# Get all keys
curl "http://localhost:8080/api/keys"

# Execute raw command
curl -X POST "http://localhost:8080/api/command" \
     -H "Content-Type: application/json" \
     -d '{"command": "GET", "args": {"key": "mykey"}}'
```"#;

/// Answers requests against a shared store.
pub struct RustdisApi {
    protocol: RustdisProtocol,
}

impl RustdisApi {
    /// Handlers over the store that `cache` is a handle on.
    pub fn new(cache: crate::cache::RustdisCache) -> (r: RustdisApi) {
        RustdisApi { protocol: RustdisProtocol::new(cache) }
    }

    fn answer(&self, command: Command) -> (r: Result<String, RustdisError>)
        ensures
            r matches Ok(t) && answers(t@, command@),
    {
        let ghost c = command@;
        let response = self.protocol.execute(command);
        let r = RustdisProtocol::response_to_json(&response);
        assert(executed(c, response@));
        r
    }

    /// The value under `key`, or `null`.
    pub fn api_get(&self, key: &str) -> (r: Result<String, RustdisError>)
        ensures
            r matches Ok(t) && answers(t@, CommandModel::Get(key@)),
    {
        self.answer(Command::Get { key: String::from_str(key) })
    }

    /// Stores `value` under `key`; answers `"OK"`.
    pub fn api_set(&self, key: String, value: String) -> (r: Result<String, RustdisError>)
        ensures
            r matches Ok(t) && answers(t@, CommandModel::Put(key@, value@)),
    {
        self.answer(Command::Put { key, value })
    }

    /// Removes `key`; answers whether it had a value.
    pub fn api_del(&self, key: &str) -> (r: Result<String, RustdisError>)
        ensures
            r matches Ok(t) && answers(t@, CommandModel::Del(key@)),
    {
        self.answer(Command::Del { key: String::from_str(key) })
    }

    /// Whether `key` has a value.
    pub fn api_exists(&self, key: &str) -> (r: Result<String, RustdisError>)
        ensures
            r matches Ok(t) && answers(t@, CommandModel::Exists(key@)),
    {
        self.answer(Command::Exists { key: String::from_str(key) })
    }

    /// The keys, as an array of strings.
    pub fn api_keys(&self) -> (r: Result<String, RustdisError>)
        ensures
            r matches Ok(t) && answers(t@, CommandModel::Keys),
    {
        self.answer(Command::Keys)
    }

    /// Removes every entry; answers `"OK"`.
    pub fn api_flush(&self) -> (r: Result<String, RustdisError>)
        ensures
            r matches Ok(t) && answers(t@, CommandModel::Flush),
    {
        self.answer(Command::Flush)
    }

    /// The number of keys.
    pub fn api_size(&self) -> (r: Result<String, RustdisError>)
        ensures
            r matches Ok(t) && answers(t@, CommandModel::Size),
    {
        self.answer(Command::Size)
    }

    /// Answers `"PONG"`.
    pub fn api_ping(&self) -> (r: Result<String, RustdisError>)
        ensures
            r matches Ok(t) && t@ == quoted_of("PONG"@),
    {
        let response = self.protocol.execute(Command::Ping);
        RustdisProtocol::response_to_json(&response)
    }

    /// Runs a command given as JSON text; a command that does not decode is
    /// answered with a failure that describes why.
    pub fn api_execute_command(&self, json_command: &str) -> (r: Result<String, RustdisError>)
        ensures
            r matches Ok(t) && command_answer(json_command@, t@),
    {
        match RustdisProtocol::parse_command(json_command) {
            Ok(command) => self.answer(command),
            Err(e) => {
                let error_response = Response::Error { error: e.message() };
                let r = RustdisProtocol::response_to_json(&error_response);
                assert(r matches Ok(t) && t@ == response_text(ResponseModel::Failure(e.message_view())));
                r
            },
        }
    }

    /// The reference for these handlers, in Markdown.
    pub fn api_docs(&self) -> (r: String)
        ensures
            r@ == API_DOCS@,
    {
        String::from_str(API_DOCS)
    }
}

} // verus!
