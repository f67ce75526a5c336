//! The Gemini API: its endpoint, and how its replies are read.
use vstd::prelude::*;

use crate::json::{compact_json, gemini_reply_text, gemini_text, json_compact, ReplyError};
use crate::text::string_of;

verus! {

/// The Gemini model that tells the story.
pub const MODEL: &'static str = "gemini-3.1-flash-lite";

/// The endpoint that generates content with `MODEL`.
pub fn url() -> (u: String)
    ensures
        u@ == "https://generativelanguage.googleapis.com/v1beta/models/"@ + MODEL@ + ":generateContent"@,
{
    let mut u = string_of("https://generativelanguage.googleapis.com/v1beta/models/");
    u.append(MODEL);
    u.append(":generateContent");
    u
}

/// What a reply of the Gemini API gives: with an error status, its body as the
/// explanation; otherwise the text of the first part of the first candidate, and when
/// there is none (a safety filter or a quota, most often), the reply's JSON written back
/// compactly as the explanation.
pub open spec fn reply_spec(success: bool, body: Seq<char>, r: Result<String, ReplyError>) -> bool {
    if !success {
        r matches Err(ReplyError::Message(m)) && m@ == "Gemini API returned error: "@ + body
    } else {
        match gemini_text(body) {
            None => r matches Err(ReplyError::Json(_)),
            Some(None) => r matches Err(ReplyError::Message(m)) && m@
                == "Réponse Gemini inattendue (filtrage sécurité ou quota ?) : "@ + json_compact(body),
            Some(Some(t)) => r matches Ok(s) && s@ == t,
        }
    }
}

/// Reads a reply of the Gemini API, given whether its status is a success and its body.
pub fn reply(success: bool, body: &str) -> (r: Result<String, ReplyError>)
    ensures
        reply_spec(success, body@, r),
{
    if !success {
        let mut m = string_of("Gemini API returned error: ");
        m.append(body);
        return Err(ReplyError::Message(m));
    }
    match gemini_reply_text(body) {
        Ok(Some(t)) => Ok(t),
        Ok(None) => {
            let mut m = string_of("Réponse Gemini inattendue (filtrage sécurité ou quota ?) : ");
            match compact_json(body) {
                Some(json) => m.append(json.as_str()),
                None => m.append(body),
            }
            Err(ReplyError::Message(m))
        },
        Err(e) => Err(ReplyError::Json(e)),
    }
}

} // verus!
