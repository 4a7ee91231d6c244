use vstd::prelude::*;

use crate::errors::CliError;

verus! {

#[verifier::external_type_specification]
#[verifier::external_body]
pub struct ExJsonValue(serde_json::Value);

/// Whether `serde_json` accepts the text as JSON; a function of the text
/// alone.
pub uninterp spec fn json_accepts(s: Seq<char>) -> bool;

/// Relies on serde_json::from_str::<Value>: it returns Ok exactly when
/// the text is valid JSON, and the outcome depends on the text alone.
#[verifier::external_body]
fn parse_json_value(s: &str) -> (r: Option<serde_json::Value>)
    ensures
        r is Some <==> json_accepts(s@),
{
    serde_json::from_str::<serde_json::Value>(s).ok()
}

/// Parses a user-supplied request body. Fails exactly on text that is not
/// valid JSON.
pub fn parse_body(text: &str) -> (r: Result<serde_json::Value, CliError>)
    ensures
        r is Ok <==> json_accepts(text@),
        r is Err ==> r->Err_0 == CliError::InvalidJsonBody,
{
    match parse_json_value(text) {
        Some(v) => Ok(v),
        None => Err(CliError::InvalidJsonBody),
    }
}

/// A response body after the opportunistic JSON parse: either the parsed
/// value, or the raw text kept as it came.
pub enum ParsedBody {
    Json(serde_json::Value),
    Raw(String),
}

/// Parses a response body as JSON when possible and keeps the raw text
/// otherwise; never an error.
pub fn parse_body_text(text: String) -> (r: ParsedBody)
    ensures
        r is Json <==> json_accepts(text@),
        r matches ParsedBody::Raw(s) ==> s@ == text@,
{
    match parse_json_value(text.as_str()) {
        Some(v) => ParsedBody::Json(v),
        None => ParsedBody::Raw(text),
    }
}

} // verus!
