//! Commands, responses, and the dispatcher that runs a command against the
//! shared store.
use vstd::prelude::*;

use crate::cache::RustdisCache;
use crate::codec::{command_of_json, decode_command};
use crate::json::{json_of, parse_json};
use crate::line::parsed_as;
use crate::render::{response_json, response_text};
use crate::error::RustdisError;
use crate::store::{views_of, Store};

verus! {

/// A request to perform one store operation.
#[derive(Debug, Clone, PartialEq, Eq)]
pub enum Command {
    Get { key: String },
    Put { key: String, value: String },
    Del { key: String },
    Exists { key: String },
    Keys,
    Flush,
    Size,
    Ping,
}

/// A command, with its strings as characters.
pub enum CommandModel {
    Get(Seq<char>),
    Put(Seq<char>, Seq<char>),
    Del(Seq<char>),
    Exists(Seq<char>),
    Keys,
    Flush,
    Size,
    Ping,
}

impl View for Command {
    type V = CommandModel;

    open spec fn view(&self) -> CommandModel {
        match self {
            Command::Get { key } => CommandModel::Get(key@),
            Command::Put { key, value } => CommandModel::Put(key@, value@),
            Command::Del { key } => CommandModel::Del(key@),
            Command::Exists { key } => CommandModel::Exists(key@),
            Command::Keys => CommandModel::Keys,
            Command::Flush => CommandModel::Flush,
            Command::Size => CommandModel::Size,
            Command::Ping => CommandModel::Ping,
        }
    }
}

/// The outcome of one command.
#[derive(Debug, Clone, PartialEq, Eq)]
pub enum Response {
    /// A text value.
    String(String),
    /// A text value that may be absent.
    StringOption(Option<String>),
    /// A flag.
    Boolean(bool),
    /// A count.
    Number(usize),
    /// An ordered list of texts.
    StringArray(Vec<String>),
    /// The command was carried out.
    Acknowledged,
    /// The command failed, with a message.
    Error { error: String },
}

/// A response, with its strings as characters.
pub enum ResponseModel {
    Text(Seq<char>),
    OptionalText(Option<Seq<char>>),
    Flag(bool),
    Count(nat),
    TextList(Seq<Seq<char>>),
    Acknowledged,
    Failure(Seq<char>),
}

/// The characters of an optional string.
pub open spec fn opt_view(o: Option<String>) -> Option<Seq<char>> {
    match o {
        Some(s) => Some(s@),
        None => None,
    }
}

impl View for Response {
    type V = ResponseModel;

    open spec fn view(&self) -> ResponseModel {
        match self {
            Response::String(s) => ResponseModel::Text(s@),
            Response::StringOption(o) => ResponseModel::OptionalText(opt_view(*o)),
            Response::Boolean(b) => ResponseModel::Flag(*b),
            Response::Number(n) => ResponseModel::Count(*n as nat),
            Response::StringArray(v) => ResponseModel::TextList(views_of(v@)),
            Response::Acknowledged => ResponseModel::Acknowledged,
            Response::Error { error } => ResponseModel::Failure(error@),
        }
    }
}

/// The contents of a store.
pub type Contents = Map<Seq<char>, Seq<char>>;

/// Whether `r` lists each key of `m` once, in some order.
pub open spec fn lists_keys(r: ResponseModel, m: Contents) -> bool {
    r matches ResponseModel::TextList(ks) && ks.no_duplicates() && ks.to_set() == m.dom()
}

/// What running command `c` does: on a store holding `before` it leaves
/// `after` and answers `r`. Reads leave the store as it was; `SET` inserts,
/// `DEL` removes, `FLUSH` empties; `PING` answers `PONG`.
pub open spec fn dispatched(c: CommandModel, before: Contents, after: Contents, r: ResponseModel) -> bool {
    match c {
        CommandModel::Get(k) => after == before && r == ResponseModel::OptionalText(
            if before.contains_key(k) {
                Some(before[k])
            } else {
                None
            },
        ),
        CommandModel::Put(k, v) => after == before.insert(k, v) && r == ResponseModel::Acknowledged,
        CommandModel::Del(k) => after == before.remove(k) && r == ResponseModel::Flag(
            before.contains_key(k),
        ),
        CommandModel::Exists(k) => after == before && r == ResponseModel::Flag(before.contains_key(k)),
        CommandModel::Keys => after == before && lists_keys(r, before),
        CommandModel::Flush => after == Contents::empty() && r == ResponseModel::Acknowledged,
        CommandModel::Size => after == before && r == ResponseModel::Count(before.dom().len()),
        CommandModel::Ping => after == before && r == ResponseModel::Text("PONG"@),
    }
}

/// `r` is what running `c` answers on some state of a store. On a shared
/// store that is all one call can promise: other handles may write between
/// any two calls.
pub open spec fn executed(c: CommandModel, r: ResponseModel) -> bool {
    exists|before: Contents, after: Contents|
        before.dom().finite() && #[trigger] dispatched(c, before, after, r)
}

/// Whether a command only reads the store.
pub open spec fn is_query(c: CommandModel) -> bool {
    match c {
        CommandModel::Put(_, _) | CommandModel::Del(_) | CommandModel::Flush => false,
        _ => true,
    }
}

/// Whether a command only reads the store.
pub fn reads_only(command: &Command) -> (r: bool)
    ensures
        r == is_query(command@),
{
    match command {
        Command::Put { .. } | Command::Del { .. } | Command::Flush => false,
        _ => true,
    }
}

/// Answers a command that only reads the store.
pub fn answer_query(store: &Store, command: Command) -> (r: Response)
    requires
        store.wf(),
        is_query(command@),
    ensures
        dispatched(command@, store@, store@, r@),
{
    match command {
        Command::Get { key } => Response::StringOption(store.get(key.as_str())),
        Command::Exists { key } => Response::Boolean(store.contains_key(key.as_str())),
        Command::Keys => Response::StringArray(store.keys()),
        Command::Size => Response::Number(store.size()),
        _ => Response::String(String::from_str("PONG")),
    }
}

/// Runs a command on an owned store with the one store operation it names.
pub fn apply(store: &mut Store, command: Command) -> (r: Response)
    requires
        old(store).wf(),
    ensures
        final(store).wf(),
        dispatched(command@, old(store)@, final(store)@, r@),
{
    match command {
        Command::Put { key, value } => {
            store.set(key, value);
            Response::Acknowledged
        },
        Command::Del { key } => Response::Boolean(store.del(key.as_str())),
        Command::Flush => {
            store.flush();
            Response::Acknowledged
        },
        _ => answer_query(store, command),
    }
}

/// Runs commands against a shared store.
#[derive(Clone)]
pub struct RustdisProtocol {
    cache: RustdisCache,
}

impl RustdisProtocol {
    /// A dispatcher over the store that `cache` is a handle on.
    pub fn new(cache: RustdisCache) -> (r: RustdisProtocol) {
        RustdisProtocol { cache }
    }

    /// Carries out `command` with one store operation, under the store's
    /// lock, and reports its outcome.
    pub fn execute(&self, command: Command) -> (r: Response)
        ensures
            executed(command@, r@),
    {
        self.cache.execute(command)
    }

    /// Reads a command from JSON text: a malformed-command error with a
    /// non-empty description when the text is not JSON, else the command that the document describes.
    pub fn parse_command(input: &str) -> (r: Result<Command, RustdisError>)
        ensures
            match json_of(input@) {
                None => r matches Err(RustdisError::MalformedCommand(e)) && e@.len() > 0,
                Some(j) => parsed_as(r, command_of_json(j)),
            },
    {
        match parse_json(input) {
            Ok(j) => decode_command(&j),
            Err(m) => {
                if m.as_str().unicode_len() == 0 {
                    proof {
                        reveal_strlit("invalid JSON");
                    }
                    Err(RustdisError::MalformedCommand(String::from_str("invalid JSON")))
                } else {
                    Err(RustdisError::MalformedCommand(m))
                }
            },
        }
    }

    /// Writes a response as JSON text; this always succeeds.
    pub fn response_to_json(response: &Response) -> (r: Result<String, RustdisError>)
        ensures
            r matches Ok(t) && t@ == response_text(response@),
    {
        Ok(response_json(response))
    }
}

} // verus!
