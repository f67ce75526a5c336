//! Reading the JSON replies of the model with `serde_json`.
use vstd::prelude::*;

verus! {

/// `serde_json::Error`, carried through as it is.
#[verifier::external_type_specification]
#[verifier::external_body]
pub struct ExJsonError(serde_json::Error);

/// The `summary` member of a JSON reply: `None` when the text is not JSON, `Some(None)`
/// when it is JSON without a string `summary` member, `Some(Some(s))` when that member
/// is the string `s`.
pub uninterp spec fn json_summary(raw: Seq<char>) -> Option<Option<Seq<char>>>;

/// Parses `raw` with `serde_json::from_str::<serde_json::Value>` and reads
/// `value["summary"].as_str()`. Trusted: the outcome is a fixed function of the text,
/// named `json_summary`; what JSON `serde_json` accepts is not stated.
#[verifier::external_body]
pub(crate) fn summary_member(raw: &str) -> (r: Result<Option<String>, serde_json::Error>)
    ensures
        match r {
            Ok(Some(s)) => json_summary(raw@) == Some(Some(s@)),
            Ok(None) => json_summary(raw@) == Some(None::<Seq<char>>),
            Err(_) => json_summary(raw@) is None,
        },
{
    match serde_json::from_str::<serde_json::Value>(raw) {
        Ok(value) => match value["summary"].as_str() {
            Some(s) => Ok(Some(s.to_string())),
            None => Ok(None),
        },
        Err(e) => Err(e),
    }
}

/// The text of a Gemini reply, `candidates[0].content.parts[0].text`: `None` when the
/// body is not JSON, `Some(None)` when it is JSON without that string.
pub uninterp spec fn gemini_text(raw: Seq<char>) -> Option<Option<Seq<char>>>;

/// Parses `raw` with `serde_json::from_str::<serde_json::Value>` and reads
/// `value["candidates"][0]["content"]["parts"][0]["text"].as_str()`. Trusted: the
/// outcome is a fixed function of the text, named `gemini_text`; what JSON `serde_json`
/// accepts is not stated.
#[verifier::external_body]
pub(crate) fn gemini_reply_text(raw: &str) -> (r: Result<Option<String>, serde_json::Error>)
    ensures
        match r {
            Ok(Some(s)) => gemini_text(raw@) == Some(Some(s@)),
            Ok(None) => gemini_text(raw@) == Some(None::<Seq<char>>),
            Err(_) => gemini_text(raw@) is None,
        },
{
    match serde_json::from_str::<serde_json::Value>(raw) {
        Ok(value) => match value["candidates"][0]["content"]["parts"][0]["text"].as_str() {
            Some(s) => Ok(Some(s.to_string())),
            None => Ok(None),
        },
        Err(e) => Err(e),
    }
}

/// The JSON text `raw`, parsed and written back compactly by `serde_json::to_string`.
pub uninterp spec fn json_compact(raw: Seq<char>) -> Seq<char>;

/// Parses `raw` with `serde_json::from_str::<serde_json::Value>` and writes the value
/// back with `serde_json::to_string` (or its `Debug` form should that fail). Trusted:
/// the text is a fixed function of `raw`, named `json_compact`, and it comes exactly
/// when `raw` parses, which is when `gemini_text(raw)` is `Some`; the JSON grammar is
/// not stated.
#[verifier::external_body]
pub(crate) fn compact_json(raw: &str) -> (r: Option<String>)
    ensures
        match r {
            Some(s) => s@ == json_compact(raw@) && gemini_text(raw@) is Some,
            None => gemini_text(raw@) is None,
        },
{
    match serde_json::from_str::<serde_json::Value>(raw) {
        Ok(value) => Some(serde_json::to_string(&value).unwrap_or_else(|_| format!("{:?}", value))),
        Err(_) => None,
    }
}

/// The text of a Mistral reply, `choices[0].message.content`: `None` when the body is
/// not JSON, `Some(None)` when it is JSON without that string.
pub uninterp spec fn mistral_text(raw: Seq<char>) -> Option<Option<Seq<char>>>;

/// Parses `raw` with `serde_json::from_str::<serde_json::Value>` and reads
/// `value["choices"][0]["message"]["content"].as_str()`. Trusted: the outcome is a
/// fixed function of the text, named `mistral_text`; what JSON `serde_json` accepts is
/// not stated.
#[verifier::external_body]
pub(crate) fn mistral_reply_text(raw: &str) -> (r: Result<Option<String>, serde_json::Error>)
    ensures
        match r {
            Ok(Some(s)) => mistral_text(raw@) == Some(Some(s@)),
            Ok(None) => mistral_text(raw@) == Some(None::<Seq<char>>),
            Err(_) => mistral_text(raw@) is None,
        },
{
    match serde_json::from_str::<serde_json::Value>(raw) {
        Ok(value) => match value["choices"][0]["message"]["content"].as_str() {
            Some(s) => Ok(Some(s.to_string())),
            None => Ok(None),
        },
        Err(e) => Err(e),
    }
}

/// Why a reply of a provider gives no text.
#[derive(Debug)]
pub enum ReplyError {
    /// The body of a successful reply is not JSON.
    Json(serde_json::Error),
    /// The provider answered with an error, or its reply holds no text: the explanation.
    Message(String),
}

} // verus!
