//! Response bodies and the framing of a response.

use vstd::prelude::*;
use vstd::string::StringExecFns;
use vstd::utf8::encode_utf8;
use crate::error::{Grammar, RequestError};
use crate::measurement::{calc_mould_index, mould_index, TRH};

verus! {

/// The character of a decimal digit.
pub open spec fn digit(d: nat) -> char
    recommends
        d < 10,
{
    if d == 0 {
        '0'
    } else if d == 1 {
        '1'
    } else if d == 2 {
        '2'
    } else if d == 3 {
        '3'
    } else if d == 4 {
        '4'
    } else if d == 5 {
        '5'
    } else if d == 6 {
        '6'
    } else if d == 7 {
        '7'
    } else if d == 8 {
        '8'
    } else {
        '9'
    }
}

/// A natural number in decimal, without leading zeros.
pub open spec fn decimal(n: nat) -> Seq<char>
    decreases n,
{
    if n < 10 {
        seq![digit(n)]
    } else {
        decimal(n / 10) + seq![digit(n % 10)]
    }
}

/// An integer in decimal, with a minus sign where it is negative.
pub open spec fn signed_decimal(i: int) -> Seq<char> {
    if i < 0 {
        seq!['-'] + decimal((-i) as nat)
    } else {
        decimal(i as nat)
    }
}

/// The reason phrase of a status code.
pub open spec fn reason(code: int) -> Seq<char> {
    if code == 200 {
        "OK"@
    } else if code == 400 {
        "Bad Request"@
    } else {
        "Internal Server Error"@
    }
}

/// The number of bytes that a text takes in UTF-8.
pub open spec fn byte_length(text: Seq<char>) -> nat {
    encode_utf8(text).len()
}

/// A response: status line, the body's length in bytes as the only header,
/// an empty line, the body.
pub open spec fn framed(code: int, body: Seq<char>) -> Seq<char> {
    "HTTP/1.1 "@ + signed_decimal(code) + " "@ + reason(code) + "\r\nContent-Length: "@ + decimal(
        byte_length(body),
    ) + "\r\n\r\n"@ + body
}

/// The body that reports an error message.
pub open spec fn error_body_of(message: Seq<char>) -> Seq<char> {
    "{\"message\":\""@ + message + "\"}"@
}

/// The body that reports a dew point, given in decimal, and a mould index.
pub open spec fn success_body_of(dewpoint: Seq<char>, index: int) -> Seq<char> {
    "{\"dewpoint\":"@ + dewpoint + ", \"mould_index\":"@ + signed_decimal(index) + "}"@
}

/// The body that reports a dew point alone, as a quoted text.
pub open spec fn dewpoint_body_of(dewpoint: Seq<char>) -> Seq<char> {
    "{\"dewpoint\":\""@ + dewpoint + "\"}"@
}

/// The text of one decimal digit.
pub fn digit_name(d: u64) -> (s: &'static str)
    requires
        d < 10,
    ensures
        s@ == seq![digit(d as nat)],
{
    proof {
        reveal_strlit("0");
        reveal_strlit("1");
        reveal_strlit("2");
        reveal_strlit("3");
        reveal_strlit("4");
        reveal_strlit("5");
        reveal_strlit("6");
        reveal_strlit("7");
        reveal_strlit("8");
        reveal_strlit("9");
    }
    let s = if d == 0 {
        "0"
    } else if d == 1 {
        "1"
    } else if d == 2 {
        "2"
    } else if d == 3 {
        "3"
    } else if d == 4 {
        "4"
    } else if d == 5 {
        "5"
    } else if d == 6 {
        "6"
    } else if d == 7 {
        "7"
    } else if d == 8 {
        "8"
    } else {
        "9"
    };
    assert(s@ =~= seq![digit(d as nat)]);
    s
}

/// Writes a natural number in decimal.
pub fn decimal_text(n: u64) -> (text: String)
    ensures
        text@ == decimal(n as nat),
    decreases n,
{
    if n < 10 {
        String::from_str(digit_name(n))
    } else {
        let mut text = decimal_text(n / 10);
        text.append(digit_name(n % 10));
        text
    }
}

/// Writes an integer in decimal.
pub fn signed_decimal_text(i: i64) -> (text: String)
    ensures
        text@ == signed_decimal(i as int),
{
    if i < 0 {
        let magnitude: u64 = if i == i64::MIN {
            0x8000_0000_0000_0000
        } else {
            (-i) as u64
        };
        proof {
            reveal_strlit("-");
            assert("-"@ =~= seq!['-']);
        }
        let mut text = String::from_str("-");
        text.append(decimal_text(magnitude).as_str());
        text
    } else {
        decimal_text(i as u64)
    }
}

/// Tells the reason phrase of a status code.
pub fn reason_phrase(code: i32) -> (s: &'static str)
    ensures
        s@ == reason(code as int),
{
    if code == 200 {
        "OK"
    } else if code == 400 {
        "Bad Request"
    } else {
        "Internal Server Error"
    }
}

/// Frames a body as a response with the given status code.
pub fn response(code: i32, body: &str) -> (text: String)
    ensures
        text@ == framed(code as int, body@),
{
    let mut text = String::from_str("HTTP/1.1 ");
    text.append(signed_decimal_text(code as i64).as_str());
    text.append(" ");
    text.append(reason_phrase(code));
    text.append("\r\nContent-Length: ");
    let length: usize = body.as_bytes().len();
    text.append(decimal_text(length as u64).as_str());
    text.append("\r\n\r\n");
    text.append(body);
    text
}

/// Builds the body that reports an error message.
pub fn error_body(message: &str) -> (body: String)
    ensures
        body@ == error_body_of(message@),
{
    let mut body = String::from_str("{\"message\":\"");
    body.append(message);
    body.append("\"}");
    body
}

/// Builds the body that reports a dew point and a mould index.
pub fn success_body(dewpoint: &str, index: i32) -> (body: String)
    ensures
        body@ == success_body_of(dewpoint@, index as int),
{
    let mut body = String::from_str("{\"dewpoint\":");
    body.append(dewpoint);
    body.append(", \"mould_index\":");
    body.append(signed_decimal_text(index as i64).as_str());
    body.append("}");
    body
}

/// Builds the body that reports a dew point alone.
pub fn dewpoint_body(dewpoint: &str) -> (body: String)
    ensures
        body@ == dewpoint_body_of(dewpoint@),
{
    let mut body = String::from_str("{\"dewpoint\":\"");
    body.append(dewpoint);
    body.append("\"}");
    body
}

/// Builds the response that refuses a request: status 400 and the error's
/// message.
pub fn error_response(error: &RequestError) -> (text: String)
    ensures
        text@ == framed(400, error_body_of(error@.message())),
{
    let message = error.message();
    let body = error_body(message.as_str());
    response(error.status_code(), body.as_str())
}

/// Builds the response that reports the dew point, given in decimal, and the
/// mould index of a pair: status 200.
pub fn success_response(trh: &TRH, dewpoint: &str) -> (text: String)
    ensures
        text@ == framed(
            200,
            success_body_of(dewpoint@, mould_index(trh.t_bits(), trh.rh_bits())),
        ),
{
    let index: i32 = calc_mould_index(trh);
    let body = success_body(dewpoint, index);
    response(200, body.as_str())
}

/// The body that answers a valid request under a grammar: dew point and
/// mould index under the plain grammar, the quoted dew point alone under the
/// fixed-prefix grammar.
pub open spec fn report_body_of(grammar: Grammar, t: u64, rh: u64, dewpoint: Seq<char>) -> Seq<
    char,
> {
    match grammar {
        Grammar::Plain => success_body_of(dewpoint, mould_index(t, rh)),
        Grammar::Dewpoint => dewpoint_body_of(dewpoint),
    }
}

/// Builds the response that answers a valid request under a grammar, given
/// the dew point in decimal: status 200.
pub fn report(grammar: Grammar, trh: &TRH, dewpoint: &str) -> (text: String)
    ensures
        text@ == framed(200, report_body_of(grammar, trh.t_bits(), trh.rh_bits(), dewpoint@)),
{
    match grammar {
        Grammar::Plain => success_response(trh, dewpoint),
        Grammar::Dewpoint => dewpoint_response(dewpoint),
    }
}

/// Builds the response that reports the dew point alone: status 200.
pub fn dewpoint_response(dewpoint: &str) -> (text: String)
    ensures
        text@ == framed(200, dewpoint_body_of(dewpoint@)),
{
    let body = dewpoint_body(dewpoint);
    response(200, body.as_str())
}

} // verus!
