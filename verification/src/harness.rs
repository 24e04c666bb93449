//! What the callers of an evaluation make of its outcome: the reply to
//! a request, and the text that a batch run writes out.

use crate::driver::EvalResult;
use crate::eval::LamError;
use vstd::prelude::*;
use vstd::string::*;

verus! {

/// The budget, in seconds, of a batch run that names none.
pub const BATCH_BUDGET: u64 = 30;

/// The budget, in seconds, of a request where the service names none.
pub const SERVICE_BUDGET: u64 = 60;

/// The status of the reply to a request whose evaluation gave a result.
pub const STATUS_OK: u16 = 200;

/// The status of the reply to a request whose evaluation failed.
pub const STATUS_BAD_REQUEST: u16 = 400;

/// The reply to a request.
#[derive(Clone, Debug, PartialEq, Eq)]
pub struct Reply {
    /// The status code.
    pub status: u16,
    /// The body.
    pub body: String,
}

/// How a batch run writes its result out.
#[derive(Clone, Copy, Debug, PartialEq, Eq)]
pub enum OutputFormat {
    /// The result as it is.
    Text,
    /// The result as a JSON string.
    Json,
}

/// Why a result could not be written out.
#[derive(Clone, Debug, PartialEq, Eq)]
pub struct OutputError {
    /// What went wrong.
    pub message: String,
}

/// `serde_json::Error`: what a failed serialization gives. Its text is
/// had through [`json_error_message`].
#[verifier::external_type_specification]
#[verifier::external_body]
pub struct ExJsonError(serde_json::Error);

/// The JSON string that stands for a text: the text between quotes,
/// with what JSON does not take as it is escaped.
pub uninterp spec fn json_of(text: Seq<char>) -> Seq<char>;

/// `serde_json::to_string` on a text. A text is written into memory
/// piece by piece, which cannot fail, so a JSON string comes in every
/// case.
#[verifier::external_body]
fn json_string(text: &str) -> (json: Result<String, serde_json::Error>)
    ensures
        json is Ok,
        json matches Ok(t) ==> t@ == json_of(text@),
{
    serde_json::to_string(text)
}

/// The `Display` form of a serialization error.
#[verifier::external_body]
fn json_error_message(error: &serde_json::Error) -> String {
    error.to_string()
}

/// The reply to a request: the result text with a success status where
/// the evaluation gave a result, an empty body with a client-error
/// status where it failed.
pub fn reply_to(outcome: Result<EvalResult, LamError>) -> (reply: Reply)
    ensures
        outcome matches Ok(res) ==> reply.status == STATUS_OK && reply.body == res.result,
        outcome is Err ==> reply.status == STATUS_BAD_REQUEST && reply.body@ == Seq::<
            char,
        >::empty(),
{
    match outcome {
        Ok(res) => Reply { status: STATUS_OK, body: res.result },
        Err(_) => Reply { status: STATUS_BAD_REQUEST, body: String::new() },
    }
}

/// The text that a batch run writes out for a result: the result
/// itself as text, the JSON string that stands for it as JSON. Neither
/// fails.
pub fn render(format: OutputFormat, result: &str) -> (written: Result<String, OutputError>)
    ensures
        format is Text ==> (written matches Ok(t) && t@ == result@),
        format is Json ==> (written matches Ok(t) && t@ == json_of(result@)),
{
    match format {
        OutputFormat::Text => Ok(result.to_owned()),
        OutputFormat::Json => match json_string(result) {
            Ok(json) => Ok(json),
            Err(error) => Err(OutputError { message: json_error_message(&error) }),
        },
    }
}

} // verus!
