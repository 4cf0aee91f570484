use vstd::prelude::*;
use crate::http::{status_number, StatusCode};
use crate::response::{headers_view, without_name, ResponseWriter};

verus! {

/// Lowercase hexadecimal digits.
pub open spec fn hex_digits() -> Seq<char> {
    seq!['0', '1', '2', '3', '4', '5', '6', '7', '8', '9', 'a', 'b', 'c', 'd', 'e', 'f']
}

/// One character of a string inside a JSON string literal: quote and
/// backslash are escaped, control characters use their short escape or
/// `\u00XX`, and every other character stands as it is.
pub open spec fn json_escape_char(c: char) -> Seq<char> {
    let u = c as u32;
    if c == '"' {
        seq!['\\', '"']
    } else if c == '\\' {
        seq!['\\', '\\']
    } else if u == 0x08 {
        seq!['\\', 'b']
    } else if u == 0x09 {
        seq!['\\', 't']
    } else if u == 0x0A {
        seq!['\\', 'n']
    } else if u == 0x0C {
        seq!['\\', 'f']
    } else if u == 0x0D {
        seq!['\\', 'r']
    } else if u < 0x20 {
        seq!['\\', 'u', '0', '0', hex_digits()[(u / 16) as int], hex_digits()[(u % 16) as int]]
    } else {
        seq![c]
    }
}

/// The characters of `s`, each escaped for a JSON string literal.
pub open spec fn json_escape(s: Seq<char>) -> Seq<char>
    decreases s.len(),
{
    if s.len() == 0 {
        Seq::empty()
    } else {
        json_escape(s.drop_last()) + json_escape_char(s.last())
    }
}

/// The JSON string literal of a text: quoted and escaped.
pub open spec fn json_string(s: Seq<char>) -> Seq<char> {
    seq!['"'] + json_escape(s) + seq!['"']
}

/// Relies on serde_json::to_string on a `str`: a JSON string literal with
/// the escapes of its compact formatter. Serializing a `str` into memory does
/// not fail.
#[verifier::external_body]
fn json_quote(s: &str) -> (r: String)
    ensures
        r@ == json_string(s@),
{
    match serde_json::to_string(s) {
        Ok(t) => t,
        Err(_) => String::new(),
    }
}

/// The character of a decimal digit.
pub open spec fn digit_char(d: nat) -> char {
    if d == 0 {
        '0'
    } else if d == 1 {
        '1'
    } else if d == 2 {
        '2'
    } else if d == 3 {
        '3'
    } else if d == 4 {
        '4'
    } else if d == 5 {
        '5'
    } else if d == 6 {
        '6'
    } else if d == 7 {
        '7'
    } else if d == 8 {
        '8'
    } else {
        '9'
    }
}

/// Decimal notation of a number, without leading zeros.
pub open spec fn decimal_spec(n: nat) -> Seq<char>
    decreases n,
{
    if n < 10 {
        seq![digit_char(n)]
    } else {
        decimal_spec(n / 10).push(digit_char(n % 10))
    }
}

fn digit_str(d: u64) -> (r: &'static str)
    requires
        d < 10,
    ensures
        r@ == seq![digit_char(d as nat)],
{
    proof {
        reveal_strlit("0");
        reveal_strlit("1");
        reveal_strlit("2");
        reveal_strlit("3");
        reveal_strlit("4");
        reveal_strlit("5");
        reveal_strlit("6");
        reveal_strlit("7");
        reveal_strlit("8");
        reveal_strlit("9");
    }
    if d == 0 {
        "0"
    } else if d == 1 {
        "1"
    } else if d == 2 {
        "2"
    } else if d == 3 {
        "3"
    } else if d == 4 {
        "4"
    } else if d == 5 {
        "5"
    } else if d == 6 {
        "6"
    } else if d == 7 {
        "7"
    } else if d == 8 {
        "8"
    } else {
        assert(seq!['9'] =~= "9"@);
        "9"
    }
}

/// Decimal notation of `n`.
pub fn decimal(n: u64) -> (r: String)
    ensures
        r@ == decimal_spec(n as nat),
    decreases n,
{
    if n < 10 {
        String::from_str(digit_str(n))
    } else {
        let mut s = decimal(n / 10);
        s.append(digit_str(n % 10));
        s
    }
}

/// The message that the default error handler shows: the caller's message,
/// or a generic one for server errors so that internals do not leak.
pub open spec fn shown_message(status: u16, msg: Seq<char>) -> Seq<char> {
    if status >= 500 {
        "Internal Server Error"@
    } else {
        msg
    }
}

/// Body written by the default error handler.
pub open spec fn error_json(msg: Seq<char>, status: u16) -> Seq<char> {
    "{\"message\":"@ + json_string(msg) + ",\"status\":"@ + decimal_spec(status as nat) + "}"@
}

/// The default error handler: keeps the status and writes a JSON body with
/// the message and the numeric status; for a status of 500 or more the
/// message is replaced by a generic one.
pub fn default_error_handler(msg: &str, res: &mut ResponseWriter)
    ensures
        final(res).status == old(res).status,
        final(res).has_error == old(res).has_error,
        final(res).body@ == error_json(shown_message(status_number(old(res).status), msg@), status_number(old(res).status)),
        headers_view(final(res).headers@) == without_name(headers_view(old(res).headers@), "Content-Type"@).push(
            ("Content-Type"@, "application/json"@),
        ),
{
    let status = res.get_code(res.status);
    let shown = if status >= 500 {
        "Internal Server Error"
    } else {
        msg
    };
    let mut body = String::from_str("{\"message\":");
    let quoted = json_quote(shown);
    body.append(quoted.as_str());
    body.append(",\"status\":");
    let digits = decimal(status as u64);
    body.append(digits.as_str());
    body.append("}");
    res.set_header("Content-Type", "application/json");
    res.body = body;
}

/// How the work on one request ended.
pub enum Outcome {
    /// The pipeline ran to its end and produced this response.
    Completed(ResponseWriter),
    /// Something in the pipeline faulted.
    Faulted,
    /// The request deadline passed first.
    TimedOut,
}

/// The response for a request, given how its work ended. A fault gives a
/// `500` and a timeout a `408`, both made here without the error handler.
pub fn settle(outcome: Outcome) -> (r: ResponseWriter)
    ensures
        outcome matches Outcome::Completed(w) ==> r == w,
        outcome is Faulted ==> {
            &&& r.status == StatusCode::InternalServerError
            &&& r.body@ == "Internal Server Error"@
            &&& r.has_error
            &&& r.headers@.len() == 0
        },
        outcome is TimedOut ==> {
            &&& r.status == StatusCode::RequestTimeout
            &&& r.body@ == "Request Timeout"@
            &&& r.has_error
            &&& r.headers@.len() == 0
        },
{
    match outcome {
        Outcome::Completed(w) => w,
        Outcome::Faulted => {
            let mut res = ResponseWriter::new();
            res.error(StatusCode::InternalServerError, "Internal Server Error");
            res
        },
        Outcome::TimedOut => {
            let mut res = ResponseWriter::new();
            res.error(StatusCode::RequestTimeout, "Request Timeout");
            res
        },
    }
}

} // verus!
