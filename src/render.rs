//! How responses are written: as JSON text for machines and as lines of
//! text for people.
use vstd::prelude::*;

use crate::json::{quote, quoted_of};
use crate::protocol::{Response, ResponseModel};
use crate::store::views_of;

verus! {

/// The character of a decimal digit.
pub open spec fn digit_char(d: nat) -> char
    recommends
        d < 10,
{
    seq!['0', '1', '2', '3', '4', '5', '6', '7', '8', '9'][d as int]
}

/// The decimal numeral of `n`, without leading zeros.
pub open spec fn decimal(n: nat) -> Seq<char>
    decreases n,
{
    if n < 10 {
        seq![digit_char(n)]
    } else {
        decimal(n / 10).push(digit_char(n % 10))
    }
}

/// The members of a JSON array of strings, separated by commas.
pub open spec fn list_text(items: Seq<Seq<char>>) -> Seq<char>
    decreases items.len(),
{
    if items.len() == 0 {
        Seq::empty()
    } else if items.len() == 1 {
        quoted_of(items[0])
    } else {
        list_text(items.drop_last()) + ","@ + quoted_of(items.last())
    }
}

/// The JSON text of a response: a string, `null`, a boolean, a number, an
/// array of strings, the string `OK`, or an object with an `error` member.
pub open spec fn response_text(r: ResponseModel) -> Seq<char> {
    match r {
        ResponseModel::Text(s) => quoted_of(s),
        ResponseModel::OptionalText(Some(s)) => quoted_of(s),
        ResponseModel::OptionalText(None) => "null"@,
        ResponseModel::Flag(b) => if b {
            "true"@
        } else {
            "false"@
        },
        ResponseModel::Count(n) => decimal(n),
        ResponseModel::TextList(ks) => "["@ + list_text(ks) + "]"@,
        ResponseModel::Acknowledged => quoted_of("OK"@),
        ResponseModel::Failure(m) => "{\"error\":"@ + quoted_of(m) + "}"@,
    }
}

/// The line that shows item `i` of a key list: its position from one, then
/// the key in quotes.
pub open spec fn list_line(i: int, k: Seq<char>) -> Seq<char> {
    decimal((i + 1) as nat) + ") \""@ + k + "\""@
}

/// The lines that show a response to a person.
pub open spec fn display_lines(r: ResponseModel) -> Seq<Seq<char>> {
    match r {
        ResponseModel::Text(s) => seq![s],
        ResponseModel::OptionalText(Some(s)) => seq!["\""@ + s + "\""@],
        ResponseModel::OptionalText(None) => seq!["(nil)"@],
        ResponseModel::Flag(b) => seq![
            if b {
                "1"@
            } else {
                "0"@
            },
        ],
        ResponseModel::Count(n) => seq![decimal(n)],
        ResponseModel::TextList(ks) => if ks.len() == 0 {
            seq!["(empty array)"@]
        } else {
            Seq::new(ks.len(), |i: int| list_line(i, ks[i]))
        },
        ResponseModel::Acknowledged => seq!["OK"@],
        ResponseModel::Failure(m) => seq!["Error: "@ + m],
    }
}

fn digit_str(d: usize) -> (r: &'static str)
    requires
        d < 10,
    ensures
        r@ == seq![digit_char(d as nat)],
{
    proof {
        reveal_strlit("0");
        reveal_strlit("1");
        reveal_strlit("2");
        reveal_strlit("3");
        reveal_strlit("4");
        reveal_strlit("5");
        reveal_strlit("6");
        reveal_strlit("7");
        reveal_strlit("8");
        reveal_strlit("9");
    }
    let r = match d {
        0 => "0",
        1 => "1",
        2 => "2",
        3 => "3",
        4 => "4",
        5 => "5",
        6 => "6",
        7 => "7",
        8 => "8",
        _ => "9",
    };
    assert(r@ =~= seq![digit_char(d as nat)]);
    r
}

/// The decimal numeral of `n`.
pub fn decimal_string(n: usize) -> (r: String)
    ensures
        r@ == decimal(n as nat),
    decreases n,
{
    if n < 10 {
        String::from_str(digit_str(n))
    } else {
        let head = decimal_string(n / 10);
        let r = head.concat(digit_str(n % 10));
        assert(r@ =~= decimal(n as nat));
        r
    }
}

/// Writes a response as JSON text.
pub fn response_json(response: &Response) -> (r: String)
    ensures
        r@ == response_text(response@),
{
    match response {
        Response::String(s) => quote(s.as_str()),
        Response::StringOption(Some(s)) => quote(s.as_str()),
        Response::StringOption(None) => String::from_str("null"),
        Response::Boolean(b) => if *b {
            String::from_str("true")
        } else {
            String::from_str("false")
        },
        Response::Number(n) => decimal_string(*n),
        Response::StringArray(items) => {
            let mut out = String::from_str("[");
            let mut i: usize = 0;
            while i < items.len()
                invariant
                    i <= items@.len(),
                    out@ == "["@ + list_text(views_of(items@).subrange(0, i as int)),
                decreases items@.len() - i,
            {
                let ghost before = out@;
                let ghost sub = views_of(items@).subrange(0, i + 1);
                proof {
                    assert(sub.drop_last() =~= views_of(items@).subrange(0, i as int));
                    assert(sub.last() == items@[i as int]@);
                }
                if i > 0 {
                    out.append(",");
                }
                let q = quote(items[i].as_str());
                out.append(q.as_str());
                proof {
                    if i == 0 {
                        assert(sub.len() == 1);
                        assert(out@ =~= "["@ + list_text(sub));
                    } else {
                        assert(out@ =~= "["@ + list_text(sub));
                    }
                }
                i = i + 1;
            }
            out.append("]");
            proof {
                assert(views_of(items@).subrange(0, items@.len() as int) =~= views_of(items@));
            }
            out
        },
        Response::Acknowledged => quote("OK"),
        Response::Error { error } => {
            let q = quote(error.as_str());
            String::from_str("{\"error\":").concat(q.as_str()).concat("}")
        },
    }
}

fn one_line(s: String) -> (r: Vec<String>)
    ensures
        views_of(r@) == seq![s@],
{
    let mut v: Vec<String> = Vec::new();
    v.push(s);
    assert(views_of(v@) =~= seq![s@]);
    v
}

/// The lines that show a response to a person.
pub fn response_lines(response: &Response) -> (r: Vec<String>)
    ensures
        views_of(r@) == display_lines(response@),
{
    match response {
        Response::String(s) => one_line(s.clone()),
        Response::StringOption(Some(s)) => one_line(
            String::from_str("\"").concat(s.as_str()).concat("\""),
        ),
        Response::StringOption(None) => one_line(String::from_str("(nil)")),
        Response::Boolean(b) => one_line(
            if *b {
                String::from_str("1")
            } else {
                String::from_str("0")
            },
        ),
        Response::Number(n) => one_line(decimal_string(*n)),
        Response::StringArray(items) => {
            if items.len() == 0 {
                return one_line(String::from_str("(empty array)"));
            }
            let ghost ks = views_of(items@);
            let mut out: Vec<String> = Vec::new();
            let mut i: usize = 0;
            while i < items.len()
                invariant
                    i <= items@.len(),
                    ks == views_of(items@),
                    out@.len() == i,
                    forall|j: int| 0 <= j < i ==> #[trigger] out@[j]@ == list_line(j, ks[j]),
                decreases items@.len() - i,
            {
                let num = decimal_string(i + 1);
                let line = num.concat(") \"").concat(items[i].as_str()).concat("\"");
                out.push(line);
                i = i + 1;
            }
            assert(views_of(out@) =~= Seq::new(ks.len(), |j: int| list_line(j, ks[j])));
            out
        },
        Response::Acknowledged => one_line(String::from_str("OK")),
        Response::Error { error } => one_line(String::from_str("Error: ").concat(error.as_str())),
    }
}

} // verus!
