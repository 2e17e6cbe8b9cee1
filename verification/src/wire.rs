//! What goes over the wire to a provider and comes back: the request that
//! the shared HTTP sender posts, and the completion that a response holds.
//! The JSON itself is written and read by `serde_json`.

use vstd::prelude::*;
use crate::error::{ErrorKind, WarpError};
use crate::llm::{clone_opt, opt_text, Adapter, Prompt, Resp};

verus! {

/// `serde_json::Error`: what `serde_json` reports when it cannot read a
/// text as JSON. Nothing is known of what it holds.
#[verifier::external_type_specification]
#[verifier::external_body]
pub struct ExJsonError(serde_json::Error);

/// The compact JSON text that `serde_json` writes for the object with the
/// two members `k1: v1` and `k2: v2`, both strings.
pub uninterp spec fn json_object_text(
    k1: Seq<char>,
    v1: Seq<char>,
    k2: Seq<char>,
    v2: Seq<char>,
) -> Seq<char>;

/// What `serde_json` reads from `body`: `None` where `serde_json::from_slice`
/// fails to read `body` as one JSON value; else what stands in that value
/// under member `outer`, element `index`, member `inner`: the string there,
/// or `None` where that place does not exist or holds something other than
/// a string.
pub uninterp spec fn json_text_at(
    body: Seq<u8>,
    outer: Seq<char>,
    index: int,
    inner: Seq<char>,
) -> Option<Option<Seq<char>>>;

/// Builds the `serde_json::Value` of an object with two string members
/// (`Map::insert`, `Value::String`, `Value::Object`) and writes it as
/// compact JSON through the `Display` impl of `Value`. The contract only
/// names the text that comes out.
#[verifier::external_body]
fn encode_object(k1: &str, v1: &str, k2: &str, v2: &str) -> (text: String)
    ensures
        text@ == json_object_text(k1@, v1@, k2@, v2@),
{
    let mut members = serde_json::Map::new();
    members.insert(k1.to_string(), serde_json::Value::String(v1.to_string()));
    members.insert(k2.to_string(), serde_json::Value::String(v2.to_string()));
    serde_json::Value::Object(members).to_string()
}

/// Parses `body` with `serde_json::from_slice` into a `Value`, indexes it
/// with `outer`, `index` and `inner` (the `Index` impls of `Value`, which
/// give `Null` where a place does not exist) and reads the result with
/// `Value::as_str`. The contract names the outcome: the error case is the
/// one in which `body` is not JSON.
#[verifier::external_body]
fn lookup_text(body: &[u8], outer: &str, index: usize, inner: &str) -> (found: Result<
    Option<String>,
    serde_json::Error,
>)
    ensures
        match found {
            Ok(text) => json_text_at(body@, outer@, index as int, inner@) == Some(opt_text(text)),
            Err(_) => json_text_at(body@, outer@, index as int, inner@) is None,
        },
{
    let value: serde_json::Value = serde_json::from_slice(body)?;
    Ok(value[outer][index][inner].as_str().map(|s| s.to_string()))
}

/// The message of a `serde_json::Error`, through its `Display` impl.
/// Nothing is claimed of the message.
#[verifier::external_body]
fn describe(e: &serde_json::Error) -> String {
    e.to_string()
}

/// What the shared HTTP sender posts.
#[derive(Debug, Clone, PartialEq, Eq)]
pub struct HttpRequest {
    /// Where the request goes.
    pub url: String,
    /// The bearer token, where the request is authenticated.
    pub bearer: Option<String>,
    /// The JSON body.
    pub body: String,
}

/// The body of a completion request: the object of the members `model`
/// and `prompt`.
pub open spec fn request_body(model: Seq<char>, prompt: Seq<char>) -> Seq<char> {
    json_object_text("model"@, model, "prompt"@, prompt)
}

/// The completion that a response body holds: the string at
/// `choices[0].text`, or the empty text where the body is JSON without such
/// a string. `None` where the body cannot be read as JSON.
pub open spec fn completion_in(body: Seq<u8>) -> Option<Seq<char>> {
    match json_text_at(body, "choices"@, 0, "text"@) {
        Some(found) => Some(completion_text(found)),
        None => None,
    }
}

/// The completion for what was found at `choices[0].text`.
pub open spec fn completion_text(found: Option<Seq<char>>) -> Seq<char> {
    match found {
        Some(text) => text,
        None => Seq::empty(),
    }
}

impl Adapter {
    /// The request that asks this adapter's provider to complete `req`:
    /// posted to the base URL, authenticated by the API key where one is
    /// set, with the model and the prompt as its body.
    pub fn request(&self, req: &Prompt) -> (request: HttpRequest)
        ensures
            request.url@ == self.base_url@,
            opt_text(request.bearer) == opt_text(self.api_key),
            request.body@ == request_body(self.model@, req.text@),
    {
        HttpRequest {
            url: self.base_url.clone(),
            bearer: clone_opt(&self.api_key),
            body: encode_object("model", self.model.as_str(), "prompt", req.text.as_str()),
        }
    }
}

impl Resp {
    /// The response for what was found at `choices[0].text` of a body:
    /// that string, or the empty text.
    pub fn from_found(found: Option<String>) -> (resp: Resp)
        ensures
            resp.text@ == completion_text(opt_text(found)),
    {
        match found {
            Some(text) => Resp { text },
            None => Resp { text: String::new() },
        }
    }

    /// Reads the completion from a response body. A body that cannot be
    /// read as JSON is a provider error; JSON of any shape is a response.
    pub fn from_body(body: &[u8]) -> (result: Result<Resp, WarpError>)
        ensures
            match completion_in(body@) {
                Some(text) => result matches Ok(resp) && resp.text@ == text,
                None => result matches Err(e) && e.kind == ErrorKind::Provider,
            },
    {
        match lookup_text(body, "choices", 0, "text") {
            Ok(found) => Ok(Resp::from_found(found)),
            Err(e) => {
                let message = describe(&e);
                Err(WarpError::provider(message.as_str()))
            },
        }
    }
}

} // verus!
