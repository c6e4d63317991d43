//! The failure kinds of the balancer and their wire format.

use crate::json::{in_quotes, json_quoted, plain_char, quoted, unescaped};
use crate::text::{decimal, decimal_digits, joined};
use vstd::prelude::*;

verus! {

/// The kinds of failure, each with its numeric code.
#[derive(Debug, Clone, Copy, PartialEq, Eq, Structural)]
pub enum ErrorCode {
    BadRequest,
    NotFound,
    InternalServerError,
    RequestTimeout,
    HandleConnectionError,
    UnknownError,
}

impl ErrorCode {
    /// The numeric code of the kind.
    pub open spec fn number(self) -> nat {
        match self {
            ErrorCode::BadRequest => 400,
            ErrorCode::NotFound => 404,
            ErrorCode::InternalServerError => 500,
            ErrorCode::RequestTimeout => 408,
            ErrorCode::HandleConnectionError => 502,
            ErrorCode::UnknownError => 520,
        }
    }

    /// The code of the kind as a number.
    pub fn code(&self) -> (n: u16)
        ensures
            n == self.number(),
    {
        match *self {
            ErrorCode::BadRequest => 400,
            ErrorCode::NotFound => 404,
            ErrorCode::InternalServerError => 500,
            ErrorCode::RequestTimeout => 408,
            ErrorCode::HandleConnectionError => 502,
            ErrorCode::UnknownError => 520,
        }
    }

    /// The code of the kind in decimal.
    pub fn as_str(&self) -> (text: &'static str)
        ensures
            text@ == decimal_digits(self.number()),
    {
        proof {
            reveal_with_fuel(decimal_digits, 3);
            reveal_strlit("400");
            reveal_strlit("404");
            reveal_strlit("500");
            reveal_strlit("408");
            reveal_strlit("502");
            reveal_strlit("520");
        }
        let text: &'static str = match *self {
            ErrorCode::BadRequest => "400",
            ErrorCode::NotFound => "404",
            ErrorCode::InternalServerError => "500",
            ErrorCode::RequestTimeout => "408",
            ErrorCode::HandleConnectionError => "502",
            ErrorCode::UnknownError => "520",
        };
        assert(text@ =~= decimal_digits(self.number()));
        text
    }
}

/// The `error` field of an envelope: the code, a colon and a space, then the
/// message.
pub open spec fn error_text(code: ErrorCode, message: Seq<char>) -> Seq<char> {
    decimal_digits(code.number()) + seq![':', ' '] + message
}

/// A failure: its kind and what to tell the client.
#[derive(Debug)]
pub struct ApplicationError {
    pub code: ErrorCode,
    pub message: String,
}

impl ApplicationError {
    /// A failure of the given kind with the given message.
    pub fn new(code: ErrorCode, message: String) -> (error: Self)
        ensures
            error.code == code,
            error.message == message,
    {
        Self { code, message }
    }

    /// The text of the `error` field.
    pub fn format_error(&self) -> (text: String)
        ensures
            text@ == error_text(self.code, self.message@),
    {
        proof {
            reveal_strlit(": ");
        }
        let head: String = joined(self.code.as_str(), ": ");
        let text: String = joined(head.as_str(), self.message.as_str());
        assert(text@ =~= error_text(self.code, self.message@));
        text
    }
}

/// The `id` field of an envelope as JSON.
pub open spec fn id_text(id: Option<u64>) -> Seq<char> {
    match id {
        Some(n) => decimal_digits(n as nat),
        None => seq!['n', 'u', 'l', 'l'],
    }
}

/// The JSON object with the members `id`, `jsonrpc` and one more, named
/// `last`, in that order; the two texts are written as JSON string literals.
pub open spec fn envelope(id: Option<u64>, jsonrpc: Seq<char>, last: Seq<char>, text: Seq<char>) -> Seq<
    char,
> {
    "{\"id\":"@ + id_text(id) + ",\"jsonrpc\":"@ + json_quoted(jsonrpc) + ",\""@ + last + "\":"@
        + json_quoted(text) + "}"@
}

/// The envelope whose two texts need no escape: each stands as it is between
/// quotation marks.
pub open spec fn plain_envelope(
    id: Option<u64>,
    jsonrpc: Seq<char>,
    last: Seq<char>,
    text: Seq<char>,
) -> Seq<char> {
    "{\"id\":"@ + id_text(id) + ",\"jsonrpc\":"@ + in_quotes(jsonrpc) + ",\""@ + last + "\":"@
        + in_quotes(text) + "}"@
}

/// The first `n` characters of the text stand for themselves in a JSON
/// string literal.
pub open spec fn unescaped_upto(text: Seq<char>, n: nat) -> bool
    decreases n,
{
    n == 0 || (plain_char(text[n - 1]) && unescaped_upto(text, (n - 1) as nat))
}

/// A text whose characters were looked at one by one needs no escape.
pub proof fn lemma_unescaped_upto(text: Seq<char>, n: nat)
    requires
        n <= text.len(),
        unescaped_upto(text, n),
    ensures
        forall|i: int| 0 <= i < n ==> plain_char(#[trigger] text[i]),
    decreases n,
{
    if n > 0 {
        lemma_unescaped_upto(text, (n - 1) as nat);
    }
}

/// The first `n` characters of the two texts are the same.
pub open spec fn same_upto(a: Seq<char>, b: Seq<char>, n: nat) -> bool
    decreases n,
{
    n == 0 || (a[n - 1] == b[n - 1] && same_upto(a, b, (n - 1) as nat))
}

/// Two texts of one length whose characters were compared one by one are
/// the same text.
pub proof fn lemma_same_upto(a: Seq<char>, b: Seq<char>, n: nat)
    requires
        n <= a.len(),
        n <= b.len(),
        same_upto(a, b, n),
    ensures
        forall|i: int| 0 <= i < n ==> a[i] == b[i],
    decreases n,
{
    if n > 0 {
        lemma_same_upto(a, b, (n - 1) as nat);
    }
}

/// The digits of a number need no escape.
pub proof fn lemma_digits_unescaped(n: nat)
    ensures
        unescaped(decimal_digits(n)),
    decreases n,
{
    if n >= 10 {
        lemma_digits_unescaped(n / 10);
        let front = decimal_digits(n / 10);
        let all = decimal_digits(n);
        assert forall|i: int| 0 <= i < all.len() implies plain_char(#[trigger] all[i]) by {
            if i < front.len() {
                assert(all[i] == front[i]);
            }
        }
    }
}

/// The `error` text of a message that needs no escape needs none.
pub proof fn lemma_error_text_unescaped(code: ErrorCode, message: Seq<char>)
    requires
        unescaped(message),
    ensures
        unescaped(error_text(code, message)),
{
    lemma_digits_unescaped(code.number());
    let digits = decimal_digits(code.number());
    let all = error_text(code, message);
    assert forall|i: int| 0 <= i < all.len() implies plain_char(#[trigger] all[i]) by {
        if i < digits.len() {
            assert(all[i] == digits[i]);
        } else if i >= digits.len() + 2 {
            assert(all[i] == message[i - digits.len() - 2]);
        }
    }
}

/// Writes the envelope with the given members.
pub fn write_envelope(id: Option<u64>, jsonrpc: &str, last: &str, text: &str) -> (out: String)
    ensures
        out@ == envelope(id, jsonrpc@, last@, text@),
        unescaped(jsonrpc@) && unescaped(text@) ==> out@ == plain_envelope(
            id,
            jsonrpc@,
            last@,
            text@,
        ),
{
    let id_part: String = match id {
        Some(n) => decimal(n),
        None => {
            proof {
                reveal_strlit("null");
            }
            let word: String = String::from_str("null");
            assert(word@ =~= id_text(None));
            word
        },
    };
    let mut out: String = String::from_str("{\"id\":");
    out.append(id_part.as_str());
    out.append(",\"jsonrpc\":");
    out.append(quoted(jsonrpc).as_str());
    out.append(",\"");
    out.append(last);
    out.append("\":");
    out.append(quoted(text).as_str());
    out.append("}");
    assert(out@ =~= envelope(id, jsonrpc@, last@, text@));
    out
}

/// The envelope of a failure: `id` is null, `jsonrpc` is `2.0`.
#[derive(Debug)]
pub struct JsonRpcErrorResponse {
    pub id: Option<u64>,
    pub jsonrpc: String,
    pub error: ApplicationError,
}

impl JsonRpcErrorResponse {
    /// The envelope of the failure.
    pub fn new(error: ApplicationError) -> (response: Self)
        ensures
            response.id is None,
            response.jsonrpc@ == "2.0"@,
            response.error == error,
    {
        Self { id: None, jsonrpc: String::from_str("2.0"), error }
    }

    /// The envelope as JSON text.
    pub fn to_json(&self) -> (text: String)
        ensures
            text@ == envelope(
                self.id,
                self.jsonrpc@,
                "error"@,
                error_text(self.error.code, self.error.message@),
            ),
            unescaped(self.jsonrpc@) && unescaped(self.error.message@) ==> text@
                == plain_envelope(
                self.id,
                self.jsonrpc@,
                "error"@,
                error_text(self.error.code, self.error.message@),
            ),
    {
        proof {
            if unescaped(self.error.message@) {
                lemma_error_text_unescaped(self.error.code, self.error.message@);
            }
        }
        let error: String = self.error.format_error();
        write_envelope(self.id, self.jsonrpc.as_str(), "error", error.as_str())
    }
}

impl From<ApplicationError> for JsonRpcErrorResponse {
    fn from(error: ApplicationError) -> (response: Self)
        ensures
            response.id is None,
            response.jsonrpc@ == "2.0"@,
            response.error == error,
    {
        Self::new(error)
    }
}

impl vstd::std_specs::convert::FromSpecImpl<ApplicationError> for JsonRpcErrorResponse {
    /// The envelope holds a `String`, which no specification can build:
    /// what `from` returns is stated in its own `ensures`.
    open spec fn obeys_from_spec() -> bool {
        false
    }

    open spec fn from_spec(error: ApplicationError) -> Self {
        arbitrary()
    }
}

} // verus!
