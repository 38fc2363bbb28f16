//! What the interactive prompt decides for each line it reads. Reading and
//! printing are left to the caller.
use vstd::prelude::*;

use crate::cache::RustdisCache;
use crate::codec::command_of_json;
use crate::json::json_of;
use crate::line::{head_of, line_command, parse_line, words_of};
use crate::protocol::{Response, ResponseModel, RustdisProtocol, executed};

verus! {

/// A text without its leading and trailing whitespace.
pub uninterp spec fn trimmed_of(s: Seq<char>) -> Seq<char>;

/// Relies on str::trim: the text without leading and trailing Unicode
/// whitespace.
#[verifier::external_body]
fn trim(s: &str) -> (r: String)
    ensures
        r@ == trimmed_of(s@),
{
    s.trim().to_string()
}

/// What to do with one line of input.
#[derive(Debug, Clone, PartialEq, Eq)]
pub enum ReplStep {
    /// A blank line: prompt again.
    Skip,
    /// `quit` or `exit`: stop.
    Quit,
    /// `help`: show the list of commands.
    Help,
    /// A command was run (or refused): show its response.
    Show(Response),
}

/// The response to a line in line form: what the command gives, or the
/// failure that describes why the line names no command.
pub open spec fn line_answer(line: Seq<char>, r: ResponseModel) -> bool {
    match line_command(words_of(line), head_of(words_of(line))) {
        Ok(c) => executed(c, r),
        Err(m) => r == ResponseModel::Failure(m),
    }
}

/// The response to a line in JSON form: what the command gives, or a
/// failure whose message starts `Invalid JSON: `.
pub open spec fn json_line_answer(line: Seq<char>, r: ResponseModel) -> bool {
    match json_of(line) {
        None => r matches ResponseModel::Failure(m) && m.len() >= 14 && m.subrange(0, 14)
            == "Invalid JSON: "@,
        Some(j) => match command_of_json(j) {
            Ok(c) => executed(c, r),
            Err(m) => r == ResponseModel::Failure("Invalid JSON: "@ + m),
        },
    }
}

/// The interactive prompt's decisions, over a shared store.
pub struct RustdisCli {
    protocol: RustdisProtocol,
}

impl RustdisCli {
    /// A prompt over the store that `cache` is a handle on.
    pub fn new(cache: RustdisCache) -> (r: RustdisCli) {
        RustdisCli { protocol: RustdisProtocol::new(cache) }
    }

    /// Runs a command written in line form.
    pub fn parse_simple_command(&self, input: &str) -> (r: Response)
        ensures
            line_answer(input@, r@),
    {
        match parse_line(input) {
            Ok(command) => self.protocol.execute(command),
            Err(e) => Response::Error { error: e.message() },
        }
    }

    /// Runs a command written in JSON.
    fn run_json(&self, input: &str) -> (r: Response)
        ensures
            json_line_answer(input@, r@),
    {
        match RustdisProtocol::parse_command(input) {
            Ok(command) => self.protocol.execute(command),
            Err(e) => {
                proof {
                    reveal_strlit("Invalid JSON: ");
                }
                let error = String::from_str("Invalid JSON: ").concat(e.message().as_str());
                assert(error@.subrange(0, 14) =~= "Invalid JSON: "@);
                Response::Error { error }
            },
        }
    }

    /// Decides what one line of input asks for, and runs it if it is a
    /// command. Surrounding whitespace is ignored; a line that starts with
    /// `{` is a command in JSON, any other a command in line form.
    pub fn step(&self, line: &str) -> (r: ReplStep)
        ensures
            ({
                let t = trimmed_of(line@);
                if t.len() == 0 {
                    r is Skip
                } else if t == "quit"@ || t == "exit"@ {
                    r is Quit
                } else if t == "help"@ {
                    r is Help
                } else if t[0] == '{' {
                    r matches ReplStep::Show(x) && json_line_answer(t, x@)
                } else {
                    r matches ReplStep::Show(x) && line_answer(t, x@)
                }
            }),
    {
        let t = trim(line);
        if t.as_str().unicode_len() == 0 {
            ReplStep::Skip
        } else if t == String::from_str("quit") || t == String::from_str("exit") {
            ReplStep::Quit
        } else if t == String::from_str("help") {
            ReplStep::Help
        } else if t.as_str().get_char(0) == '{' {
            ReplStep::Show(self.run_json(t.as_str()))
        } else {
            ReplStep::Show(self.parse_simple_command(t.as_str()))
        }
    }
}

} // verus!
