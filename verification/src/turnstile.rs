//! Cloudflare Turnstile verification results.
use vstd::prelude::*;

use vstd::string::*;
use crate::json::{is_json_string_literal, json_quote, json_string, lemma_json_quote_reads_back};

verus! {

/// Where Turnstile tokens are checked.
pub const SITEVERIFY_URL: &'static str = "https://challenges.cloudflare.com/turnstile/v0/siteverify";

/// The answer of the Turnstile `siteverify` endpoint.
#[derive(Debug, Clone)]
pub struct TurnstileResult {
    pub success: bool,
    pub error_codes: Vec<String>,
    pub challenge_ts: Option<String>,
    pub hostname: Option<String>,
    pub action: Option<String>,
    pub cdata: Option<String>,
    pub metadata: Option<serde_json::Value>,
}

impl TurnstileResult {
    /// The result that stands for a verification that could not be carried out.
    pub open spec fn is_internal_error(&self) -> bool {
        &&& !self.success
        &&& self.error_codes@.len() == 1
        &&& self.error_codes@[0]@ == "internal-error"@
        &&& self.challenge_ts is None
        &&& self.hostname is None
        &&& self.action is None
        &&& self.cdata is None
        &&& self.metadata is None
    }

    /// A failed result with the single error code `internal-error`.
    pub fn internal_error() -> (r: Self)
        ensures
            r.is_internal_error(),
    {
        let mut error_codes: Vec<String> = Vec::new();
        error_codes.push("internal-error".to_owned());
        TurnstileResult {
            success: false,
            error_codes,
            challenge_ts: None,
            hostname: None,
            action: None,
            cdata: None,
            metadata: None,
        }
    }
}

/// The result of a Turnstile check: the endpoint's answer when the request
/// went through, else the internal-error result. `outcome` is what the
/// request to `SITEVERIFY_URL` produced (an error text when it failed).
pub fn validate_turnstile(outcome: Result<TurnstileResult, String>) -> (r: TurnstileResult)
    ensures
        outcome matches Ok(answer) ==> r == answer,
        outcome is Err ==> r.is_internal_error(),
{
    match outcome {
        Ok(answer) => answer,
        Err(_) => TurnstileResult::internal_error(),
    }
}

/// The `siteverify` request body is JSON: an object whose `secret` and
/// `response` members are string literals that read back as the secret and
/// the token.
pub proof fn lemma_request_body_is_json(secret: Seq<char>, token: Seq<char>)
    ensures
        exists|l1: Seq<char>, l2: Seq<char>|
            {
                &&& is_json_string_literal(l1, secret)
                &&& is_json_string_literal(l2, token)
                &&& siteverify_body(secret, token) == "{\"secret\":"@ + l1 + ",\"response\":"@ + l2 + "}"@
            },
{
    lemma_json_quote_reads_back(secret);
    lemma_json_quote_reads_back(token);
    let l1 = json_quote(secret);
    let l2 = json_quote(token);
    assert(siteverify_body(secret, token) == "{\"secret\":"@ + l1 + ",\"response\":"@ + l2 + "}"@);
}

/// The JSON body of a `siteverify` request for `secret` and `token`.
pub open spec fn siteverify_body(secret: Seq<char>, token: Seq<char>) -> Seq<char> {
    "{\"secret\":"@ + json_quote(secret) + ",\"response\":"@ + json_quote(token) + "}"@
}

/// The JSON body of a `siteverify` request: `{"secret":..,"response":..}`.
pub fn turnstile_request_body(secret: &str, token: &str) -> (body: String)
    ensures
        body@ == siteverify_body(secret@, token@),
{
    let mut body = String::new();
    body.append("{\"secret\":");
    body.append(json_string(secret).as_str());
    body.append(",\"response\":");
    body.append(json_string(token).as_str());
    body.append("}");
    body
}

} // verus!
