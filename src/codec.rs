//! The structured form of commands: an object whose `command` member names
//! the command (in any letter case) and whose `args` member holds its
//! parameters.
use vstd::prelude::*;

use crate::error::RustdisError;
use crate::json::Json;
use crate::line::parsed_as;
use crate::protocol::{opt_view, Command, CommandModel, Response, ResponseModel};
use crate::render::{decimal, decimal_string, digit_char};
use crate::store::views_of;

verus! {

/// Whether `s` spells `w` once ASCII letters are compared without case;
/// `w` is written in upper case.
pub open spec fn same_ignoring_case(s: Seq<char>, w: Seq<char>) -> bool {
    &&& s.len() == w.len()
    &&& forall|i: int|
        0 <= i < s.len() ==> #[trigger] s[i] == w[i] || ('A' <= w[i] <= 'Z' && s[i] as u32
            == w[i] as u32 + 32)
}

/// The first member named `name` of an object.
pub open spec fn member_of(es: Seq<(String, Json)>, name: Seq<char>) -> Option<Json>
    decreases es.len(),
{
    if es.len() == 0 {
        None
    } else if es[0].0@ == name {
        Some(es[0].1)
    } else {
        member_of(es.drop_first(), name)
    }
}

/// The text of the string member `name` of `args`, when `args` is an object
/// that has one.
pub open spec fn text_member(args: Option<Json>, name: Seq<char>) -> Option<Seq<char>> {
    match args {
        Some(Json::Object(es)) => match member_of(es@, name) {
            Some(Json::Str(s)) => Some(s@),
            _ => None,
        },
        _ => None,
    }
}

/// Whether `args` carries no parameters: absent, null, or an empty object.
pub open spec fn no_args(args: Option<Json>) -> bool {
    match args {
        None => true,
        Some(Json::Null) => true,
        Some(Json::Object(es)) => es@.len() == 0,
        _ => false,
    }
}

/// The command of a parameterless kind, or the description of why `args`
/// does not fit it.
pub open spec fn bare_command(args: Option<Json>, c: CommandModel, name: Seq<char>) -> Result<
    CommandModel,
    Seq<char>,
> {
    if no_args(args) {
        Ok(c)
    } else {
        Err(name + " takes no arguments"@)
    }
}

/// The command that a document describes, or the description of why it
/// describes none.
pub open spec fn command_of_json(j: Json) -> Result<CommandModel, Seq<char>> {
    match j {
        Json::Object(es) => match member_of(es@, "command"@) {
            Some(Json::Str(tag)) => {
                let args = member_of(es@, "args"@);
                if same_ignoring_case(tag@, "GET"@) {
                    match text_member(args, "key"@) {
                        Some(k) => Ok(CommandModel::Get(k)),
                        None => Err("GET requires a string `key` in `args`"@),
                    }
                } else if same_ignoring_case(tag@, "SET"@) {
                    match (text_member(args, "key"@), text_member(args, "value"@)) {
                        (Some(k), Some(v)) => Ok(CommandModel::Put(k, v)),
                        _ => Err("SET requires string `key` and `value` in `args`"@),
                    }
                } else if same_ignoring_case(tag@, "DEL"@) {
                    match text_member(args, "key"@) {
                        Some(k) => Ok(CommandModel::Del(k)),
                        None => Err("DEL requires a string `key` in `args`"@),
                    }
                } else if same_ignoring_case(tag@, "EXISTS"@) {
                    match text_member(args, "key"@) {
                        Some(k) => Ok(CommandModel::Exists(k)),
                        None => Err("EXISTS requires a string `key` in `args`"@),
                    }
                } else if same_ignoring_case(tag@, "KEYS"@) {
                    bare_command(args, CommandModel::Keys, "KEYS"@)
                } else if same_ignoring_case(tag@, "FLUSH"@) {
                    bare_command(args, CommandModel::Flush, "FLUSH"@)
                } else if same_ignoring_case(tag@, "SIZE"@) {
                    bare_command(args, CommandModel::Size, "SIZE"@)
                } else if same_ignoring_case(tag@, "PING"@) {
                    bare_command(args, CommandModel::Ping, "PING"@)
                } else {
                    Err("unknown command: "@ + tag@)
                }
            },
            _ => Err("missing string field `command`"@),
        },
        _ => Err("a command must be a JSON object"@),
    }
}

/// Whether `s` spells `w`, ASCII letters compared without case.
fn is_name(s: &String, w: &str) -> (r: bool)
    requires
        forall|i: int| 0 <= i < w@.len() ==> 'A' <= #[trigger] w@[i] <= 'Z',
    ensures
        r == same_ignoring_case(s@, w@),
{
    let n = s.as_str().unicode_len();
    if n != w.unicode_len() {
        return false;
    }
    let mut i: usize = 0;
    while i < n
        invariant
            n == s@.len(),
            n == w@.len(),
            i <= n,
            forall|j: int| 0 <= j < w@.len() ==> 'A' <= #[trigger] w@[j] <= 'Z',
            forall|j: int|
                0 <= j < i ==> #[trigger] s@[j] == w@[j] || ('A' <= w@[j] <= 'Z' && s@[j] as u32
                    == w@[j] as u32 + 32),
        decreases n - i,
    {
        let a = s.as_str().get_char(i);
        let b = w.get_char(i);
        if a != b && (a as u32) != (b as u32) + 32 {
            assert(!(s@[i as int] == w@[i as int] || ('A' <= w@[i as int] <= 'Z' && s@[i as int] as u32
                == w@[i as int] as u32 + 32)));
            return false;
        }
        i = i + 1;
    }
    true
}

/// The first member named `name` of an object.
fn member<'a>(es: &'a Vec<(String, Json)>, name: &str) -> (r: Option<&'a Json>)
    ensures
        match r {
            Some(x) => member_of(es@, name@) == Some(*x),
            None => member_of(es@, name@) is None,
        },
{
    let n = es.len();
    let key = String::from_str(name);
    let mut i: usize = 0;
    proof {
        assert(es@.subrange(0, n as int) =~= es@);
    }
    while i < n
        invariant
            n == es@.len(),
            i <= n,
            key@ == name@,
            member_of(es@, name@) == member_of(es@.subrange(i as int, n as int), name@),
        decreases n - i,
    {
        proof {
            assert(es@.subrange(i as int, n as int).drop_first() =~= es@.subrange(i + 1, n as int));
        }
        if es[i].0 == key {
            return Some(&es[i].1);
        }
        i = i + 1;
    }
    None
}

/// The text of the string member `name` of `args`.
fn text_arg(args: Option<&Json>, name: &str) -> (r: Option<String>)
    ensures
        opt_view(r) == text_member(
            match args {
                Some(a) => Some(*a),
                None => None,
            },
            name@,
        ),
{
    match args {
        Some(Json::Object(es)) => match member(es, name) {
            Some(Json::Str(s)) => Some(s.clone()),
            _ => None,
        },
        _ => None,
    }
}

/// Whether `args` carries no parameters.
fn has_no_args(args: Option<&Json>) -> (r: bool)
    ensures
        r == no_args(
            match args {
                Some(a) => Some(*a),
                None => None,
            },
        ),
{
    match args {
        None => true,
        Some(Json::Null) => true,
        Some(Json::Object(es)) => es.len() == 0,
        _ => false,
    }
}

fn bare(args: Option<&Json>, c: Command, name: &str) -> (r: Result<Command, RustdisError>)
    ensures
        parsed_as(
            r,
            bare_command(
                match args {
                    Some(a) => Some(*a),
                    None => None,
                },
                c@,
                name@,
            ),
        ),
{
    if has_no_args(args) {
        Ok(c)
    } else {
        Err(RustdisError::MalformedCommand(String::from_str(name).concat(" takes no arguments")))
    }
}

fn malformed(s: &str) -> (r: Result<Command, RustdisError>)
    ensures
        r matches Err(RustdisError::MalformedCommand(e)) && e@ == s@,
{
    Err(RustdisError::MalformedCommand(String::from_str(s)))
}

/// Reads a command from its structured form.
pub fn decode_command(j: &Json) -> (r: Result<Command, RustdisError>)
    ensures
        parsed_as(r, command_of_json(*j)),
{
    proof {
        reveal_strlit("GET");
        reveal_strlit("SET");
        reveal_strlit("DEL");
        reveal_strlit("EXISTS");
        reveal_strlit("KEYS");
        reveal_strlit("FLUSH");
        reveal_strlit("SIZE");
        reveal_strlit("PING");
    }
    let es = match j {
        Json::Object(es) => es,
        _ => {
            return malformed("a command must be a JSON object");
        },
    };
    let tag = match member(es, "command") {
        Some(Json::Str(t)) => t,
        _ => {
            return malformed("missing string field `command`");
        },
    };
    let args = member(es, "args");
    if is_name(tag, "GET") {
        match text_arg(args, "key") {
            Some(k) => Ok(Command::Get { key: k }),
            None => malformed("GET requires a string `key` in `args`"),
        }
    } else if is_name(tag, "SET") {
        match (text_arg(args, "key"), text_arg(args, "value")) {
            (Some(k), Some(v)) => Ok(Command::Put { key: k, value: v }),
            _ => malformed("SET requires string `key` and `value` in `args`"),
        }
    } else if is_name(tag, "DEL") {
        match text_arg(args, "key") {
            Some(k) => Ok(Command::Del { key: k }),
            None => malformed("DEL requires a string `key` in `args`"),
        }
    } else if is_name(tag, "EXISTS") {
        match text_arg(args, "key") {
            Some(k) => Ok(Command::Exists { key: k }),
            None => malformed("EXISTS requires a string `key` in `args`"),
        }
    } else if is_name(tag, "KEYS") {
        bare(args, Command::Keys, "KEYS")
    } else if is_name(tag, "FLUSH") {
        bare(args, Command::Flush, "FLUSH")
    } else if is_name(tag, "SIZE") {
        bare(args, Command::Size, "SIZE")
    } else if is_name(tag, "PING") {
        bare(args, Command::Ping, "PING")
    } else {
        let msg = String::from_str("unknown command: ").concat(tag.as_str());
        Err(RustdisError::MalformedCommand(msg))
    }
}

/// The name under which a command is written: its kind, in upper case.
pub open spec fn command_name(c: CommandModel) -> Seq<char> {
    match c {
        CommandModel::Get(_) => "GET"@,
        CommandModel::Put(_, _) => "SET"@,
        CommandModel::Del(_) => "DEL"@,
        CommandModel::Exists(_) => "EXISTS"@,
        CommandModel::Keys => "KEYS"@,
        CommandModel::Flush => "FLUSH"@,
        CommandModel::Size => "SIZE"@,
        CommandModel::Ping => "PING"@,
    }
}

/// Whether `j` is the string `s`.
pub open spec fn is_text(j: Json, s: Seq<char>) -> bool {
    j matches Json::Str(x) && x@ == s
}

/// Whether `j` is an object whose one member, `key`, is the string `k`.
pub open spec fn key_args(j: Json, k: Seq<char>) -> bool {
    j matches Json::Object(a) && a@.len() == 1 && a@[0].0@ == "key"@ && is_text(a@[0].1, k)
}

/// Whether `j` is an object whose members are `key`, the string `k`, and
/// `value`, the string `v`.
pub open spec fn put_args(j: Json, k: Seq<char>, v: Seq<char>) -> bool {
    j matches Json::Object(a) && a@.len() == 2 && a@[0].0@ == "key"@ && is_text(a@[0].1, k)
        && a@[1].0@ == "value"@ && is_text(a@[1].1, v)
}

/// Whether `j` is the structured form of `c`: a `command` member with the
/// command's name, then, for a command with parameters, an `args` object
/// holding them.
pub open spec fn encodes_command(j: Json, c: CommandModel) -> bool {
    j matches Json::Object(es) && es@.len() >= 1 && es@[0].0@ == "command"@ && is_text(
        es@[0].1,
        command_name(c),
    ) && match c {
        CommandModel::Get(k) => es@.len() == 2 && es@[1].0@ == "args"@ && key_args(es@[1].1, k),
        CommandModel::Del(k) => es@.len() == 2 && es@[1].0@ == "args"@ && key_args(es@[1].1, k),
        CommandModel::Exists(k) => es@.len() == 2 && es@[1].0@ == "args"@ && key_args(es@[1].1, k),
        CommandModel::Put(k, v) => es@.len() == 2 && es@[1].0@ == "args"@ && put_args(es@[1].1, k, v),
        _ => es@.len() == 1,
    }
}

fn text(s: &str) -> (r: Json)
    ensures
        is_text(r, s@),
{
    Json::Str(String::from_str(s))
}

fn key_object(k: &String) -> (r: Json)
    ensures
        key_args(r, k@),
{
    let mut a: Vec<(String, Json)> = Vec::new();
    a.push((String::from_str("key"), Json::Str(k.clone())));
    Json::Object(a)
}

/// Writes a command in its structured form.
pub fn encode_command(c: &Command) -> (r: Json)
    ensures
        encodes_command(r, c@),
{
    let mut es: Vec<(String, Json)> = Vec::new();
    let name = match c {
        Command::Get { .. } => "GET",
        Command::Put { .. } => "SET",
        Command::Del { .. } => "DEL",
        Command::Exists { .. } => "EXISTS",
        Command::Keys => "KEYS",
        Command::Flush => "FLUSH",
        Command::Size => "SIZE",
        Command::Ping => "PING",
    };
    es.push((String::from_str("command"), text(name)));
    match c {
        Command::Get { key } => es.push((String::from_str("args"), key_object(key))),
        Command::Del { key } => es.push((String::from_str("args"), key_object(key))),
        Command::Exists { key } => es.push((String::from_str("args"), key_object(key))),
        Command::Put { key, value } => {
            let mut a: Vec<(String, Json)> = Vec::new();
            a.push((String::from_str("key"), Json::Str(key.clone())));
            a.push((String::from_str("value"), Json::Str(value.clone())));
            es.push((String::from_str("args"), Json::Object(a)));
        },
        _ => {},
    }
    Json::Object(es)
}

proof fn lemma_names_differ(s: Seq<char>, w: Seq<char>)
    requires
        s.len() > 0,
        s[0] != w[0],
        'A' <= s[0] <= 'Z',
        'A' <= w[0] <= 'Z',
    ensures
        !same_ignoring_case(s, w),
{
    assert(!(s[0] == w[0] || ('A' <= w[0] <= 'Z' && s[0] as u32 == w[0] as u32 + 32)));
}

/// Decoding the structured form of a command gives that command back.
pub proof fn law_command_round_trip(j: Json, c: CommandModel)
    requires
        encodes_command(j, c),
    ensures
        command_of_json(j) == Ok::<CommandModel, Seq<char>>(c),
{
    reveal_strlit("GET");
    reveal_strlit("SET");
    reveal_strlit("DEL");
    reveal_strlit("EXISTS");
    reveal_strlit("KEYS");
    reveal_strlit("FLUSH");
    reveal_strlit("SIZE");
    reveal_strlit("PING");
    reveal_strlit("command");
    reveal_strlit("args");
    reveal_strlit("key");
    reveal_strlit("value");
    let es = j->Object_0@;
    assert(member_of(es, "command"@) == Some(es[0].1));
    assert("command"@.len() == 7 && "args"@.len() == 4);
    assert("key"@.len() == 3 && "value"@.len() == 5);
    assert(es[0].0@ != "args"@);
    if es.len() == 2 {
        assert(es.drop_first()[0] == es[1]);
        assert(member_of(es.drop_first(), "args"@) == Some(es[1].1));
        assert(member_of(es, "args"@) == Some(es[1].1));
        match es[1].1 {
            Json::Object(a) => {
                assert(member_of(a@, "key"@) == Some(a@[0].1));
                if a@.len() == 2 {
                    assert(a@[0].0@ != "value"@);
                    assert(a@.drop_first()[0] == a@[1]);
                    assert(member_of(a@.drop_first(), "value"@) == Some(a@[1].1));
                    assert(member_of(a@, "value"@) == Some(a@[1].1));
                }
            },
            _ => {},
        }
    } else {
        assert(es.drop_first().len() == 0);
        assert(member_of(es.drop_first(), "args"@) is None);
        assert(member_of(es, "args"@) is None);
    }
    let tag = es[0].1->Str_0@;
    assert(same_ignoring_case(tag, command_name(c)));
    lemma_names_differ("SET"@, "GET"@);
    lemma_names_differ("DEL"@, "GET"@);
    lemma_names_differ("DEL"@, "SET"@);
    lemma_names_differ("SIZE"@, "KEYS"@);
    lemma_names_differ("PING"@, "KEYS"@);
    lemma_names_differ("PING"@, "SIZE"@);
}

/// Whether `j` is an array of strings whose texts are `ks`.
pub open spec fn texts_are(j: Json, ks: Seq<Seq<char>>) -> bool {
    j matches Json::Array(items) && items@.len() == ks.len() && forall|i: int|
        0 <= i < ks.len() ==> #[trigger] is_text(items@[i], ks[i])
}

/// Whether `j` is an object whose one member, `error`, is the string `m`.
pub open spec fn error_object(j: Json, m: Seq<char>) -> bool {
    j matches Json::Object(es) && es@.len() == 1 && es@[0].0@ == "error"@ && is_text(es@[0].1, m)
}

/// Whether `j` is the structured form of a response: a string for a text
/// value, a string or null for an optional text, a boolean, a number, an
/// array of strings, the string `OK` for an acknowledgement, and an object
/// with an `error` member for a failure.
pub open spec fn encodes_response(j: Json, r: ResponseModel) -> bool {
    match r {
        ResponseModel::Text(s) => is_text(j, s),
        ResponseModel::OptionalText(Some(s)) => is_text(j, s),
        ResponseModel::OptionalText(None) => j is Null,
        ResponseModel::Flag(b) => j == Json::Bool(b),
        ResponseModel::Count(n) => j matches Json::Number(t) && t@ == decimal(n),
        ResponseModel::TextList(ks) => texts_are(j, ks),
        ResponseModel::Acknowledged => is_text(j, "OK"@),
        ResponseModel::Failure(m) => error_object(j, m),
    }
}

/// Whether every character of `t` is a decimal digit, and there is one.
pub open spec fn is_numeral(t: Seq<char>) -> bool {
    t.len() > 0 && forall|i: int| 0 <= i < t.len() ==> '0' <= #[trigger] t[i] <= '9'
}

/// The number that a string of decimal digits denotes.
pub open spec fn numeral_value(t: Seq<char>) -> nat
    decreases t.len(),
{
    if t.len() == 0 {
        0
    } else {
        numeral_value(t.drop_last()) * 10 + (t.last() as u32 - 48) as nat
    }
}

/// The response that a document describes, if any. A string is read as a
/// text value, the first of the response kinds that it fits.
pub open spec fn response_of_json(j: Json) -> Option<ResponseModel> {
    match j {
        Json::Str(s) => Some(ResponseModel::Text(s@)),
        Json::Null => Some(ResponseModel::OptionalText(None)),
        Json::Bool(b) => Some(ResponseModel::Flag(b)),
        Json::Number(t) => if is_numeral(t@) && numeral_value(t@) <= usize::MAX {
            Some(ResponseModel::Count(numeral_value(t@)))
        } else {
            None
        },
        Json::Array(items) => if forall|i: int| 0 <= i < items@.len() ==> #[trigger] items@[i] is Str {
            Some(ResponseModel::TextList(Seq::new(items@.len(), |i: int| items@[i]->Str_0@)))
        } else {
            None
        },
        Json::Object(es) => match member_of(es@, "error"@) {
            Some(Json::Str(m)) => Some(ResponseModel::Failure(m@)),
            _ => None,
        },
    }
}

/// Writes a response in its structured form.
pub fn encode_response(r: &Response) -> (j: Json)
    ensures
        encodes_response(j, r@),
{
    match r {
        Response::String(s) => Json::Str(s.clone()),
        Response::StringOption(Some(s)) => Json::Str(s.clone()),
        Response::StringOption(None) => Json::Null,
        Response::Boolean(b) => Json::Bool(*b),
        Response::Number(n) => Json::Number(decimal_string(*n)),
        Response::StringArray(ks) => {
            let mut items: Vec<Json> = Vec::new();
            let mut i: usize = 0;
            while i < ks.len()
                invariant
                    i <= ks@.len(),
                    items@.len() == i,
                    forall|k: int| 0 <= k < i ==> #[trigger] is_text(items@[k], ks@[k]@),
                decreases ks@.len() - i,
            {
                items.push(Json::Str(ks[i].clone()));
                i = i + 1;
            }
            let j = Json::Array(items);
            assert forall|k: int| 0 <= k < ks@.len() implies #[trigger] is_text(
                items@[k],
                views_of(ks@)[k],
            ) by {
                assert(is_text(items@[k], ks@[k]@));
            }
            j
        },
        Response::Acknowledged => text("OK"),
        Response::Error { error } => {
            let mut es: Vec<(String, Json)> = Vec::new();
            es.push((String::from_str("error"), Json::Str(error.clone())));
            Json::Object(es)
        },
    }
}

/// The number that `t` denotes, when it is a numeral that fits a `usize`.
fn numeral(t: &String) -> (r: Option<usize>)
    ensures
        match r {
            Some(n) => is_numeral(t@) && n == numeral_value(t@),
            None => !(is_numeral(t@) && numeral_value(t@) <= usize::MAX),
        },
{
    let len = t.as_str().unicode_len();
    if len == 0 {
        return None;
    }
    let mut acc: usize = 0;
    let mut i: usize = 0;
    while i < len
        invariant
            len == t@.len(),
            i <= len,
            forall|k: int| 0 <= k < i ==> '0' <= #[trigger] t@[k] <= '9',
            acc == numeral_value(t@.subrange(0, i as int)),
        decreases len - i,
    {
        let c = t.as_str().get_char(i);
        proof {
            assert(t@.subrange(0, i + 1).drop_last() =~= t@.subrange(0, i as int));
        }
        if c < '0' || c > '9' {
            return None;
        }
        let d = (c as u32 - '0' as u32) as usize;
        if acc > (usize::MAX - d) / 10 {
            proof {
                lemma_numeral_prefix(t@, i + 1);
            }
            return None;
        }
        acc = acc * 10 + d;
        i = i + 1;
    }
    proof {
        assert(t@.subrange(0, len as int) =~= t@);
    }
    Some(acc)
}

proof fn lemma_numeral_prefix(t: Seq<char>, k: int)
    requires
        0 <= k <= t.len(),
        forall|i: int| 0 <= i < k ==> '0' <= #[trigger] t[i] <= '9',
    ensures
        is_numeral(t) ==> numeral_value(t.subrange(0, k)) <= numeral_value(t),
    decreases t.len() - k,
{
    if k < t.len() && is_numeral(t) {
        lemma_numeral_prefix(t, k + 1);
        assert(t.subrange(0, k + 1).drop_last() =~= t.subrange(0, k));
    } else if k == t.len() {
        assert(t.subrange(0, k) =~= t);
    }
}

/// Reads a response from its structured form, where the document describes
/// one.
pub fn decode_response(j: &Json) -> (r: Option<Response>)
    ensures
        match r {
            Some(x) => response_of_json(*j) == Some(x@),
            None => response_of_json(*j) is None,
        },
{
    match j {
        Json::Str(s) => Some(Response::String(s.clone())),
        Json::Null => Some(Response::StringOption(None)),
        Json::Bool(b) => Some(Response::Boolean(*b)),
        Json::Number(t) => match numeral(t) {
            Some(n) => Some(Response::Number(n)),
            None => None,
        },
        Json::Array(items) => {
            let mut out: Vec<String> = Vec::new();
            let mut i: usize = 0;
            while i < items.len()
                invariant
                    *j == Json::Array(*items),
                    i <= items@.len(),
                    out@.len() == i,
                    forall|k: int| 0 <= k < i ==> #[trigger] items@[k] is Str,
                    forall|k: int| 0 <= k < i ==> #[trigger] out@[k]@ == items@[k]->Str_0@,
                decreases items@.len() - i,
            {
                match &items[i] {
                    Json::Str(s) => out.push(s.clone()),
                    _ => {
                        assert(!(items@[i as int] is Str));
                        assert(!(forall|k: int| 0 <= k < items@.len() ==> #[trigger] items@[k] is Str));
                        return None;
                    },
                }
                i = i + 1;
            }
            let ghost ks = Seq::new(items@.len(), |k: int| items@[k]->Str_0@);
            assert(views_of(out@) =~= ks);
            Some(Response::StringArray(out))
        },
        Json::Object(es) => match member(es, "error") {
            Some(Json::Str(m)) => Some(Response::Error { error: m.clone() }),
            _ => None,
        },
    }
}

proof fn lemma_decimal_numeral(n: nat)
    ensures
        is_numeral(decimal(n)),
        numeral_value(decimal(n)) == n,
    decreases n,
{
    let digits = seq!['0', '1', '2', '3', '4', '5', '6', '7', '8', '9'];
    assert(forall|d: int| 0 <= d < 10 ==> #[trigger] digits[d] as u32 == 48 + d);
    let last = digit_char(n % 10);
    assert(last as u32 == 48 + n % 10);
    if n >= 10 {
        lemma_decimal_numeral(n / 10);
        let s = decimal(n);
        assert(s.drop_last() =~= decimal(n / 10));
        assert(s.last() == last);
        assert(numeral_value(s) == (n / 10) * 10 + n % 10);
        assert((n / 10) * 10 + n % 10 == n) by (nonlinear_arith);
        assert forall|i: int| 0 <= i < s.len() implies '0' <= #[trigger] s[i] <= '9' by {
            if i < s.len() - 1 {
                assert(s[i] == decimal(n / 10)[i]);
            }
        }
    } else {
        let s = decimal(n);
        assert(n % 10 == n);
        assert(s.last() == last);
        assert(s.drop_last() =~= Seq::<char>::empty());
        assert(numeral_value(Seq::<char>::empty()) == 0);
        assert(numeral_value(s) == n);
    }
}

/// Decoding the structured form of a response gives a response with the
/// same structured form; it gives the response itself for all but a
/// present optional text and an acknowledgement, which read back as text
/// values.
pub proof fn law_response_round_trip(j: Json, r: ResponseModel)
    requires
        encodes_response(j, r),
        r matches ResponseModel::Count(n) ==> n <= usize::MAX,
    ensures
        response_of_json(j) matches Some(x) && encodes_response(j, x),
        !(r matches ResponseModel::OptionalText(Some(_))) && !(r is Acknowledged) ==> response_of_json(j)
            == Some(r),
{
    reveal_strlit("error");
    match r {
        ResponseModel::Count(n) => {
            lemma_decimal_numeral(n);
        },
        ResponseModel::TextList(ks) => {
            let items = j->Array_0@;
            assert forall|i: int| 0 <= i < items.len() implies #[trigger] items[i] is Str && items[i]->Str_0@
                == ks[i] by {
                assert(is_text(items[i], ks[i]));
            }
            assert(Seq::new(items.len(), |i: int| items[i]->Str_0@) =~= ks);
        },
        ResponseModel::Failure(m) => {
            let es = j->Object_0@;
            assert(member_of(es, "error"@) == Some(es[0].1));
        },
        _ => {},
    }
}

} // verus!
