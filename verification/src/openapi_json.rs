//! Parsing an input's OpenAPI document from JSON text.
use vstd::prelude::*;
use openapiv3::OpenAPI;

verus! {

#[verifier::external_type_specification]
#[verifier::external_body]
pub struct ExOpenAPI(OpenAPI);

#[verifier::external_type_specification]
#[verifier::external_body]
pub struct ExJsonError(serde_json::Error);

/// Whether `text` is JSON that `serde_json` reads as an `openapiv3::OpenAPI`.
pub uninterp spec fn openapi_parses(text: Seq<char>) -> bool;

/// `serde_json::from_str::<OpenAPI>`: the document that `text` holds, or the
/// reason it holds none. Which texts succeed is named by `openapi_parses`;
/// nothing is stated of the parsed document or of the error.
#[verifier::external_body]
pub fn parse_openapi(text: &str) -> (r: Result<OpenAPI, serde_json::Error>)
    ensures
        r is Ok <==> openapi_parses(text@),
{
    serde_json::from_str(text)
}

} // verus!
