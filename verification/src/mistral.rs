//! The Mistral API: its endpoint and models, how the conversation is handed to it, and
//! how its replies are read.
use vstd::prelude::*;

use crate::json::{mistral_reply_text, mistral_text, ReplyError};
use crate::state::{history_view, str_equal, MessageContent, MessageView, Part};
use crate::text::{join, join_strings, string_of, views};

verus! {

/// The chat completions endpoint.
pub const URL: &'static str = "https://api.mistral.ai/v1/chat/completions";

/// The model that tells the story.
pub const MODEL: &'static str = "mistral-large-latest";

/// The model that plans turns and writes summaries.
pub const SUMMARY_MODEL: &'static str = "mistral-small-latest";

/// The Mistral role of a message of the conversation: the narrator's messages (`model`)
/// are the assistant's, all others the user's.
pub open spec fn chat_role_spec(role: Seq<char>) -> Seq<char> {
    if role == "model"@ || role == "assistant"@ {
        "assistant"@
    } else {
        "user"@
    }
}

pub fn chat_role(role: &str) -> (r: &'static str)
    ensures
        r@ == chat_role_spec(role@),
{
    if str_equal(role, "model") || str_equal(role, "assistant") {
        "assistant"
    } else {
        "user"
    }
}

/// A message of a Mistral chat.
#[derive(Clone, Debug)]
pub struct ChatMessage {
    pub role: String,
    pub content: String,
}

impl View for ChatMessage {
    type V = (Seq<char>, Seq<char>);

    open spec fn view(&self) -> (Seq<char>, Seq<char>) {
        (self.role@, self.content@)
    }
}

pub open spec fn chat_views(v: Seq<ChatMessage>) -> Seq<(Seq<char>, Seq<char>)> {
    v.map_values(|m: ChatMessage| m@)
}

/// A message of the conversation as a Mistral chat message: its role mapped, its parts
/// joined by spaces.
pub open spec fn chat_message_spec(m: MessageView) -> (Seq<char>, Seq<char>) {
    (chat_role_spec(m.role), join(m.parts, " "@))
}

/// The chat handed to Mistral: the system instruction, then the conversation.
pub open spec fn chat_spec(system_text: Seq<char>, history: Seq<MessageView>) -> Seq<(Seq<char>, Seq<char>)> {
    seq![("system"@, system_text)] + history.map_values(|m: MessageView| chat_message_spec(m))
}

/// The texts of a message's parts.
fn part_texts(parts: &Vec<Part>) -> (out: Vec<String>)
    ensures
        views(out@) == parts@.map_values(|p: Part| p@),
{
    let mut out: Vec<String> = Vec::new();
    let mut i: usize = 0;
    while i < parts.len()
        invariant
            i <= parts.len(),
            views(out@) == parts@.map_values(|p: Part| p@).take(i as int),
        decreases parts.len() - i,
    {
        let ghost prev = views(out@);
        out.push(parts[i].text.clone());
        assert(views(out@) =~= prev.push(parts@[i as int]@));
        assert(parts@.map_values(|p: Part| p@).take(i + 1) =~= prev.push(parts@[i as int]@));
        i = i + 1;
    }
    assert(parts@.map_values(|p: Part| p@).take(i as int) =~= parts@.map_values(|p: Part| p@));
    out
}

/// The chat for a system instruction and a conversation.
pub fn chat_messages(system_text: &str, history: &[MessageContent]) -> (out: Vec<ChatMessage>)
    ensures
        chat_views(out@) == chat_spec(system_text@, history_view(history@)),
{
    let mut out: Vec<ChatMessage> = Vec::new();
    out.push(ChatMessage { role: string_of("system"), content: string_of(system_text) });
    let ghost h = history_view(history@).map_values(|m: MessageView| chat_message_spec(m));
    let mut i: usize = 0;
    while i < history.len()
        invariant
            i <= history.len(),
            h == history_view(history@).map_values(|m: MessageView| chat_message_spec(m)),
            chat_views(out@) == seq![("system"@, system_text@)] + h.take(i as int),
        decreases history.len() - i,
    {
        let m = &history[i];
        let texts = part_texts(&m.parts);
        let content = join_strings(texts.as_slice(), " ");
        let ghost prev = chat_views(out@);
        let message = ChatMessage { role: string_of(chat_role(m.role.as_str())), content };
        out.push(message);
        proof {
            assert(h[i as int] == chat_message_spec(history@[i as int]@));
            assert(message@ == h[i as int]);
            assert(chat_views(out@) =~= prev.push(message@));
            assert(h.take(i + 1) =~= h.take(i as int).push(h[i as int]));
        }
        i = i + 1;
    }
    assert(h.take(i as int) =~= h);
    out
}

/// What a reply of the Mistral API gives: with an error status, its body as the
/// explanation; otherwise the content of the first choice's message.
pub open spec fn reply_spec(success: bool, body: Seq<char>, r: Result<String, ReplyError>) -> bool {
    if !success {
        r matches Err(ReplyError::Message(m)) && m@ == "Mistral API returned error: "@ + body
    } else {
        match mistral_text(body) {
            None => r matches Err(ReplyError::Json(_)),
            Some(None) => r matches Err(ReplyError::Message(m)) && m@
                == "Failed to extract content from Mistral response"@,
            Some(Some(t)) => r matches Ok(s) && s@ == t,
        }
    }
}

/// Reads a reply of the Mistral API, given whether its status is a success and its body.
pub fn reply(success: bool, body: &str) -> (r: Result<String, ReplyError>)
    ensures
        reply_spec(success, body@, r),
{
    if !success {
        let mut m = string_of("Mistral API returned error: ");
        m.append(body);
        return Err(ReplyError::Message(m));
    }
    match mistral_reply_text(body) {
        Ok(Some(t)) => Ok(t),
        Ok(None) => Err(ReplyError::Message(string_of("Failed to extract content from Mistral response"))),
        Err(e) => Err(ReplyError::Json(e)),
    }
}

} // verus!
