//! The line form of commands: whitespace-separated words, the first naming
//! the command in any letter case, the rest its arguments.
//!
//! A value written in line form is a single word, so it cannot hold
//! whitespace; the structured form has no such limit. The asymmetry is
//! deliberate: the line form is a convenience for typing at a prompt.
use vstd::prelude::*;

use crate::error::RustdisError;
use crate::protocol::{Command, CommandModel};
use crate::store::views_of;

verus! {

/// The whitespace-separated words of a text, in order.
pub uninterp spec fn words_of(s: Seq<char>) -> Seq<Seq<char>>;

/// The upper-case form of a text.
pub uninterp spec fn upper_of(s: Seq<char>) -> Seq<char>;

/// Relies on str::split_whitespace: the words of `s` between runs of
/// Unicode whitespace, in order.
#[verifier::external_body]
fn split_words(s: &str) -> (r: Vec<String>)
    ensures
        views_of(r@) == words_of(s@),
{
    s.split_whitespace().map(|w| w.to_string()).collect()
}

/// Relies on str::to_uppercase: the upper-case mapping of each character.
#[verifier::external_body]
fn to_upper(s: &str) -> (r: String)
    ensures
        r@ == upper_of(s@),
{
    s.to_uppercase()
}

/// Whether `s` is the text `w`.
fn is_word(s: &String, w: &str) -> (r: bool)
    ensures
        r == (s@ == w@),
{
    *s == String::from_str(w)
}

/// A command without arguments, named by a line of one word.
pub open spec fn bare_line(words: Seq<Seq<char>>, head: Seq<char>, c: CommandModel) -> Result<
    CommandModel,
    Seq<char>,
> {
    if words.len() == 1 {
        Ok(c)
    } else {
        Err(head + " takes no arguments"@)
    }
}

/// The command that a line's words name, given the upper-case form `head`
/// of its first word, or the description of why they name none.
pub open spec fn line_command(words: Seq<Seq<char>>, head: Seq<char>) -> Result<
    CommandModel,
    Seq<char>,
> {
    if words.len() == 0 {
        Err("Empty command"@)
    } else if head == "GET"@ {
        if words.len() == 2 {
            Ok(CommandModel::Get(words[1]))
        } else {
            Err("GET requires exactly one argument: GET <key>"@)
        }
    } else if head == "SET"@ {
        if words.len() == 3 {
            Ok(CommandModel::Put(words[1], words[2]))
        } else {
            Err("SET requires exactly two arguments: SET <key> <value>"@)
        }
    } else if head == "DEL"@ || head == "DELETE"@ {
        if words.len() == 2 {
            Ok(CommandModel::Del(words[1]))
        } else {
            Err("DEL requires exactly one argument: DEL <key>"@)
        }
    } else if head == "EXISTS"@ {
        if words.len() == 2 {
            Ok(CommandModel::Exists(words[1]))
        } else {
            Err("EXISTS requires exactly one argument: EXISTS <key>"@)
        }
    } else if head == "KEYS"@ {
        bare_line(words, head, CommandModel::Keys)
    } else if head == "FLUSH"@ || head == "FLUSHALL"@ {
        bare_line(words, head, CommandModel::Flush)
    } else if head == "SIZE"@ || head == "DBSIZE"@ {
        bare_line(words, head, CommandModel::Size)
    } else if head == "PING"@ {
        bare_line(words, head, CommandModel::Ping)
    } else {
        Err("Unknown command: "@ + words[0])
    }
}

/// `r` is the command that `s` gives, or a malformed-command error with the
/// description that `s` gives.
pub open spec fn parsed_as(r: Result<Command, RustdisError>, s: Result<CommandModel, Seq<char>>) -> bool {
    match s {
        Ok(c) => r matches Ok(x) && x@ == c,
        Err(m) => r matches Err(RustdisError::MalformedCommand(e)) && e@ == m,
    }
}

/// The upper-case form of a line's first word, or nothing for a blank line.
pub open spec fn head_of(words: Seq<Seq<char>>) -> Seq<char> {
    if words.len() > 0 {
        upper_of(words[0])
    } else {
        Seq::empty()
    }
}

fn malformed(s: &str) -> (r: Result<Command, RustdisError>)
    ensures
        r matches Err(RustdisError::MalformedCommand(e)) && e@ == s@,
{
    Err(RustdisError::MalformedCommand(String::from_str(s)))
}

fn bare_words(n: usize, head: String, c: Command) -> (r: Result<Command, RustdisError>)
    ensures
        n == 1 ==> r == Ok::<Command, RustdisError>(c),
        n != 1 ==> (r matches Err(RustdisError::MalformedCommand(e)) && e@ == head@
            + " takes no arguments"@),
{
    if n == 1 {
        Ok(c)
    } else {
        Err(RustdisError::MalformedCommand(head.concat(" takes no arguments")))
    }
}

/// Builds the command that `words` name, `head` being the upper-case form
/// of the first word.
pub fn command_from_words(words: &Vec<String>, head: &str) -> (r: Result<Command, RustdisError>)
    ensures
        parsed_as(r, line_command(views_of(words@), head@)),
{
    let n = words.len();
    proof {
        assert(views_of(words@).len() == n);
        if n > 0 {
            assert(views_of(words@)[0] == words@[0]@);
        }
        if n > 1 {
            assert(views_of(words@)[1] == words@[1]@);
        }
        if n > 2 {
            assert(views_of(words@)[2] == words@[2]@);
        }
    }
    if n == 0 {
        return malformed("Empty command");
    }
    let h = String::from_str(head);
    if is_word(&h, "GET") {
        if n == 2 {
            Ok(Command::Get { key: words[1].clone() })
        } else {
            malformed("GET requires exactly one argument: GET <key>")
        }
    } else if is_word(&h, "SET") {
        if n == 3 {
            Ok(Command::Put { key: words[1].clone(), value: words[2].clone() })
        } else {
            malformed("SET requires exactly two arguments: SET <key> <value>")
        }
    } else if is_word(&h, "DEL") || is_word(&h, "DELETE") {
        if n == 2 {
            Ok(Command::Del { key: words[1].clone() })
        } else {
            malformed("DEL requires exactly one argument: DEL <key>")
        }
    } else if is_word(&h, "EXISTS") {
        if n == 2 {
            Ok(Command::Exists { key: words[1].clone() })
        } else {
            malformed("EXISTS requires exactly one argument: EXISTS <key>")
        }
    } else if is_word(&h, "KEYS") {
        bare_words(n, h, Command::Keys)
    } else if is_word(&h, "FLUSH") || is_word(&h, "FLUSHALL") {
        bare_words(n, h, Command::Flush)
    } else if is_word(&h, "SIZE") || is_word(&h, "DBSIZE") {
        bare_words(n, h, Command::Size)
    } else if is_word(&h, "PING") {
        bare_words(n, h, Command::Ping)
    } else {
        let msg = String::from_str("Unknown command: ").concat(words[0].as_str());
        Err(RustdisError::MalformedCommand(msg))
    }
}

/// Reads a command in line form.
pub fn parse_line(input: &str) -> (r: Result<Command, RustdisError>)
    ensures
        parsed_as(r, line_command(words_of(input@), head_of(words_of(input@)))),
{
    let words = split_words(input);
    if words.len() == 0 {
        proof {
            assert(views_of(words@).len() == 0);
        }
        return command_from_words(&words, "");
    }
    let head = to_upper(words[0].as_str());
    proof {
        assert(views_of(words@)[0] == words@[0]@);
    }
    command_from_words(&words, head.as_str())
}

} // verus!
