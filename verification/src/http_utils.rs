//! Fetching a contract document over HTTP: the authentication choices, a
//! credential-masking display form, and the classification of a fetch
//! response into a parsed JSON document or an error.
//!
//! Sending the request is work of the shell around the library; the library
//! decides what the response means.

use vstd::prelude::*;
use vstd::string::*;

verus! {

/// Type of authentication to use when fetching a document.
pub enum HttpAuth {
    /// Username and password.
    User(String, Option<String>),
    /// Bearer token.
    Token(String),
}

/// `n` asterisks.
pub open spec fn star_seq(n: nat) -> Seq<char> {
    Seq::new(n, |i: int| '*')
}

/// How many leading characters of a secret a masked display keeps.
pub open spec fn spec_mask_keep(s: Seq<char>) -> int {
    if s.len() >= 4 {
        4
    } else {
        0
    }
}

/// A masked secret: its first four characters and an asterisk for each of the
/// rest, or all asterisks when it is shorter than four characters.
pub open spec fn spec_mask(s: Seq<char>) -> Seq<char> {
    s.subrange(0, spec_mask_keep(s)) + star_seq((s.len() - spec_mask_keep(s)) as nat)
}

/// The display form of an authentication choice, credentials masked.
pub open spec fn spec_masked_display(a: HttpAuth) -> Seq<char> {
    match a {
        HttpAuth::Token(t) => "Token("@ + spec_mask(t@) + ")"@,
        HttpAuth::User(u, Some(p)) => "User("@ + u@ + ", "@ + spec_mask(p@) + ")"@,
        HttpAuth::User(u, None) => "User("@ + u@ + ", [no password])"@,
    }
}

/// A secret with every character after the first four replaced by an
/// asterisk; a secret shorter than four characters comes back all asterisks.
pub fn mask(s: &String) -> (r: String)
    ensures
        r@ == spec_mask(s@),
{
    let n = s.as_str().unicode_len();
    let keep: usize = if n >= 4 {
        4
    } else {
        0
    };
    let prefix = s.as_str().substring_char(0, keep);
    let mut r = String::from_str(prefix);
    let mut i: usize = keep;
    while i < n
        invariant
            keep <= i <= n,
            n == s@.len(),
            keep as int == spec_mask_keep(s@),
            r@ == s@.subrange(0, keep as int) + star_seq((i - keep) as nat),
        decreases n - i,
    {
        r.append("*");
        proof {
            reveal_strlit("*");
            assert(s@.subrange(0, keep as int) + star_seq((i + 1 - keep) as nat) =~= s@.subrange(
                0,
                keep as int,
            ) + star_seq((i - keep) as nat) + "*"@);
        }
        i += 1;
    }
    r
}

impl HttpAuth {
    /// A display form that never reveals a whole credential: the password or
    /// token is masked, the username shown as it is.
    pub fn masked_display(&self) -> (r: String)
        ensures
            r@ == spec_masked_display(*self),
    {
        match self {
            HttpAuth::Token(t) => {
                let mut r = String::from_str("Token(");
                r.append(mask(t).as_str());
                r.append(")");
                r
            },
            HttpAuth::User(u, Some(p)) => {
                let mut r = String::from_str("User(");
                r.append(u.as_str());
                r.append(", ");
                r.append(mask(p).as_str());
                r.append(")");
                r
            },
            HttpAuth::User(u, None) => {
                let mut r = String::from_str("User(");
                r.append(u.as_str());
                r.append(", [no password])");
                r
            },
        }
    }
}

#[verifier::external_type_specification]
#[verifier::external_body]
pub struct ExValue(serde_json::Value);

/// Whether a text parses as one JSON document.
pub uninterp spec fn json_parses(text: Seq<char>) -> bool;

/// The JSON value a parsing text denotes.
pub uninterp spec fn json_value_of(text: Seq<char>) -> serde_json::Value;

/// Relies on serde_json::from_str::<serde_json::Value>: whether a text parses,
/// and the value it denotes, depend on the text alone; the error text comes
/// from the parser.
#[verifier::external_body]
fn parse_json(text: &str) -> (r: Result<serde_json::Value, String>)
    ensures
        r is Ok <==> json_parses(text@),
        (match r {
            Ok(v) => v == json_value_of(text@),
            Err(_) => true,
        }),
{
    match serde_json::from_str(text) {
        Ok(v) => Ok(v),
        Err(e) => Err(e.to_string()),
    }
}

/// Why a fetched document yielded no JSON.
#[derive(Debug)]
#[verifier::ext_equal]
pub enum FetchError {
    /// The response status was outside the success range.
    StatusError(u16),
    /// The response body did not parse as JSON; the parser's message.
    JsonError(String),
}

/// Classify a fetch response: a success status whose body parses as JSON
/// yields the source URL with the document; a status outside 200..300 yields
/// `StatusError`, and an unparsable body `JsonError`.
pub fn process_fetch_response(url: &String, status: u16, body: &String) -> (r: Result<
    (String, serde_json::Value),
    FetchError,
>)
    ensures
        r is Ok <==> (200 <= status < 300 && json_parses(body@)),
        (match r {
            Ok((u, v)) => u@ == url@ && v == json_value_of(body@),
            Err(e) => match e {
                FetchError::StatusError(s) => s == status && !(200 <= status < 300),
                FetchError::JsonError(_) => 200 <= status < 300 && !json_parses(body@),
            },
        }),
{
    if status < 200 || status >= 300 {
        return Err(FetchError::StatusError(status));
    }
    match parse_json(body.as_str()) {
        Ok(v) => Ok((url.clone(), v)),
        Err(e) => Err(FetchError::JsonError(e)),
    }
}

} // verus!
