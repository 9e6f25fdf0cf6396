use vstd::prelude::*;

verus! {

/// The GraphQL endpoint that deletes one tweet.
pub const DELETE_URL: &'static str = "https://twitter.com/i/api/graphql/VaenaVgh5q5ih7kvyVjgtg/DeleteTweet";

/// The operation identifier of the delete mutation.
pub const QUERY_ID: &'static str = "VaenaVgh5q5ih7kvyVjgtg";

/// How long one delete request may take, in seconds.
pub const REQUEST_TIMEOUT_SECS: u64 = 15;

/// How each character of a JSON string literal is written between its quotes.
pub open spec fn json_escaped_char(c: char) -> Seq<char> {
    if c == '"' {
        seq!['\\', '"']
    } else if c == '\\' {
        seq!['\\', '\\']
    } else if c == '\u{8}' {
        seq!['\\', 'b']
    } else if c == '\u{c}' {
        seq!['\\', 'f']
    } else if c == '\n' {
        seq!['\\', 'n']
    } else if c == '\r' {
        seq!['\\', 'r']
    } else if c == '\t' {
        seq!['\\', 't']
    } else if (c as u32) < 0x20 {
        seq!['\\', 'u', '0', '0', hex_digit((c as u32) / 16), hex_digit((c as u32) % 16)]
    } else {
        seq![c]
    }
}

/// A lower-case hexadecimal digit.
pub open spec fn hex_digit(d: u32) -> char {
    if d < 10 {
        seq!['0', '1', '2', '3', '4', '5', '6', '7', '8', '9'][d as int]
    } else {
        seq!['a', 'b', 'c', 'd', 'e', 'f'][d - 10]
    }
}

/// The escaped contents of a JSON string literal.
pub open spec fn json_escaped(s: Seq<char>) -> Seq<char>
    decreases s.len(),
{
    if s.len() == 0 {
        seq![]
    } else {
        json_escaped(s.drop_last()) + json_escaped_char(s.last())
    }
}

/// `s` written as a JSON string literal, quotes included.
pub open spec fn json_string_literal(s: Seq<char>) -> Seq<char> {
    seq!['"'] + json_escaped(s) + seq!['"']
}

/// The JSON body of the request that deletes the tweet `id`:
/// `{"variables":{"tweet_id":<id>,"dark_request":false},"queryId":"<QUERY_ID>"}`.
pub open spec fn delete_body_text(id: Seq<char>) -> Seq<char> {
    "{\"variables\":{\"tweet_id\":"@ + json_string_literal(id) + ",\"dark_request\":false},\"queryId\":\""@
        + QUERY_ID@ + "\"}"@
}

#[verifier::external_type_specification]
#[verifier::external_body]
pub struct ExJsonError(serde_json::Error);

/// Relies on serde_json::to_string on a `str`: it writes the string as a JSON
/// literal, escaping `"`, `\` and the control characters (the short forms
/// `\b \f \n \r \t`, else `\u00xx` in lower-case hex), and cannot fail, since
/// it writes into memory.
#[verifier::external_body]
fn to_json_string(s: &str) -> (r: Result<String, serde_json::Error>)
    ensures
        r is Ok,
        r matches Ok(t) ==> t@ == json_string_literal(s@),
{
    serde_json::to_string(s)
}

/// The JSON body of the request that deletes the tweet `id`; the identifier
/// is passed through as it is, empty or not.
pub fn delete_request_body(id: &str) -> (r: String)
    ensures
        r@ == delete_body_text(id@),
{
    let literal = match to_json_string(id) {
        Ok(t) => t,
        Err(_) => String::new(),
    };
    let mut body = String::from_str("{\"variables\":{\"tweet_id\":");
    body.append(literal.as_str());
    body.append(",\"dark_request\":false},\"queryId\":\"");
    body.append(QUERY_ID);
    body.append("\"}");
    body
}

/// How one delete request ended. Every kind is reported to the sequencer as a
/// value: none of them stops a run.
#[derive(Clone, Copy, Debug, PartialEq, Eq, Structural)]
pub enum DeleteOutcome {
    /// The endpoint answered with a success (2xx) status.
    Deleted { status: u16 },
    /// The endpoint answered with any other status.
    Rejected { status: u16 },
    /// No response was obtained: the connection failed, the request timed
    /// out, or the response body could not be read.
    TransportFailed,
}

/// An HTTP status of the success class, 200 to 299.
pub open spec fn is_success_status(status: u16) -> bool {
    200 <= status < 300
}

/// The outcome of a request that obtained a response with `status`.
pub fn classify_status(status: u16) -> (r: DeleteOutcome)
    ensures
        r == (if is_success_status(status) {
            DeleteOutcome::Deleted { status }
        } else {
            DeleteOutcome::Rejected { status }
        }),
{
    if 200 <= status && status < 300 {
        DeleteOutcome::Deleted { status }
    } else {
        DeleteOutcome::Rejected { status }
    }
}

impl DeleteOutcome {
    /// Whether the tweet was deleted.
    pub fn is_deleted(&self) -> (r: bool)
        ensures
            r == (*self is Deleted),
    {
        match self {
            DeleteOutcome::Deleted { .. } => true,
            _ => false,
        }
    }
}

} // verus!
