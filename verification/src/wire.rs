use crate::protocol::{Rejection, Response};
use vstd::prelude::*;
use vstd::string::*;

verus! {

/// The identity token that the register message carries.
pub const CLIENT_UUID: &'static str = "8a3a3b0e-10b0-4f5e-bb14-7eac9ced0001";

/// The character of one decimal digit.
pub open spec fn digit_char(d: nat) -> char {
    if d == 0 {
        '0'
    } else if d == 1 {
        '1'
    } else if d == 2 {
        '2'
    } else if d == 3 {
        '3'
    } else if d == 4 {
        '4'
    } else if d == 5 {
        '5'
    } else if d == 6 {
        '6'
    } else if d == 7 {
        '7'
    } else if d == 8 {
        '8'
    } else {
        '9'
    }
}

/// The decimal numeral of `n`, without sign or leading zeros.
pub open spec fn decimal(n: nat) -> Seq<char>
    decreases n,
{
    if n < 10 {
        seq![digit_char(n)]
    } else {
        decimal(n / 10).push(digit_char(n % 10))
    }
}

/// The text of a rejection, as it stands in the `message` field.
pub open spec fn rejection_text(message: Rejection) -> Seq<char> {
    match message {
        Rejection::ValueOutOfRange => "value out of range 0..100"@,
        Rejection::MissingValue => "missing value"@,
    }
}

/// The JSON object of a response, without the line terminator.
pub open spec fn response_json(response: Response) -> Seq<char> {
    match response {
        Response::Ack { id } => "{\"type\":\"ack\",\"id\":"@ + decimal(id as nat)
            + ",\"ok\":true}"@,
        Response::Error { id, message } => "{\"type\":\"error\",\"id\":"@ + decimal(id as nat)
            + ",\"message\":\""@ + rejection_text(message) + "\"}"@,
        Response::Value { id, value } => "{\"type\":\"value\",\"id\":"@ + decimal(id as nat)
            + ",\"value\":"@ + decimal(value as nat) + "}"@,
    }
}

/// The JSON object of the register message for an identity token, without
/// the line terminator.
pub open spec fn register_json(uuid: Seq<char>) -> Seq<char> {
    "{\"type\":\"register\",\"uuid\":\""@ + uuid + "\"}"@
}

/// A message as it goes onto the wire: the object and one line feed.
pub open spec fn wire_line(json: Seq<char>) -> Seq<char> {
    json + "\n"@
}

fn digit_text(d: u32) -> (text: &'static str)
    requires
        d < 10,
    ensures
        text@ =~= seq![digit_char(d as nat)],
{
    proof {
        reveal_strlit("0");
        reveal_strlit("1");
        reveal_strlit("2");
        reveal_strlit("3");
        reveal_strlit("4");
        reveal_strlit("5");
        reveal_strlit("6");
        reveal_strlit("7");
        reveal_strlit("8");
        reveal_strlit("9");
    }
    match d {
        0 => "0",
        1 => "1",
        2 => "2",
        3 => "3",
        4 => "4",
        5 => "5",
        6 => "6",
        7 => "7",
        8 => "8",
        _ => "9",
    }
}

/// Appends the decimal numeral of `n` to `out`.
pub fn append_decimal(out: &mut String, n: u32)
    ensures
        final(out)@ == old(out)@ + decimal(n as nat),
    decreases n,
{
    if n >= 10 {
        append_decimal(out, n / 10);
    }
    out.append(digit_text(n % 10));
    proof {
        let digit = seq![digit_char((n % 10) as nat)];
        if n >= 10 {
            assert((old(out)@ + decimal((n / 10) as nat)) + digit =~= old(out)@ + decimal(
                (n / 10) as nat,
            ).push(digit_char((n % 10) as nat)));
        }
    }
}

impl Rejection {
    /// The text of the rejection.
    pub fn text(&self) -> (text: &'static str)
        ensures
            text@ == rejection_text(*self),
    {
        match self {
            Rejection::ValueOutOfRange => "value out of range 0..100",
            Rejection::MissingValue => "missing value",
        }
    }
}

impl Response {
    /// The JSON object of the response.
    pub fn to_json(&self) -> (json: String)
        ensures
            json@ == response_json(*self),
    {
        match *self {
            Response::Ack { id } => {
                let mut out = String::from_str("{\"type\":\"ack\",\"id\":");
                append_decimal(&mut out, id);
                out.append(",\"ok\":true}");
                out
            },
            Response::Error { id, message } => {
                let mut out = String::from_str("{\"type\":\"error\",\"id\":");
                append_decimal(&mut out, id);
                out.append(",\"message\":\"");
                out.append(message.text());
                out.append("\"}");
                out
            },
            Response::Value { id, value } => {
                let mut out = String::from_str("{\"type\":\"value\",\"id\":");
                append_decimal(&mut out, id);
                out.append(",\"value\":");
                append_decimal(&mut out, value as u32);
                out.append("}");
                out
            },
        }
    }

    /// The response as one line of the wire protocol, line feed included.
    pub fn to_line(&self) -> (line: String)
        ensures
            line@ == wire_line(response_json(*self)),
    {
        let mut out = self.to_json();
        out.append("\n");
        out
    }
}

/// The register message for an identity token as one line of the wire
/// protocol, line feed included.
pub fn register_line(uuid: &str) -> (line: String)
    ensures
        line@ == wire_line(register_json(uuid@)),
{
    let mut out = String::from_str("{\"type\":\"register\",\"uuid\":\"");
    out.append(uuid);
    out.append("\"}");
    out.append("\n");
    out
}

} // verus!
