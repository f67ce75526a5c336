use buffy_narrator::gemini;
use buffy_narrator::json::ReplyError;
use buffy_narrator::mistral;
use buffy_narrator::state::{MessageContent, Part};

fn message(r: Result<String, ReplyError>) -> String {
    match r {
        Ok(t) => format!("ok:{}", t),
        Err(ReplyError::Message(m)) => format!("message:{}", m),
        Err(ReplyError::Json(_)) => "json".to_string(),
    }
}

#[test]
fn gemini_is_asked_at_its_model_endpoint() {
    assert_eq!(
        gemini::url(),
        "https://generativelanguage.googleapis.com/v1beta/models/gemini-3.1-flash-lite:generateContent"
    );
}

#[test]
fn gemini_replies_are_read() {
    let body = r#"{"candidates":[{"content":{"parts":[{"text":"{\"story_text\":\"x\"}"}]}}]}"#;
    assert_eq!(message(gemini::reply(true, body)), "ok:{\"story_text\":\"x\"}");
    assert_eq!(message(gemini::reply(false, "quota")), "message:Gemini API returned error: quota");
    assert_eq!(
        message(gemini::reply(true, "{\"candidates\":[]}")),
        "message:Réponse Gemini inattendue (filtrage sécurité ou quota ?) : {\"candidates\":[]}"
    );
    assert_eq!(
        message(gemini::reply(true, "{ \"candidates\" : [ ],\n \"x\": 1 }")),
        "message:Réponse Gemini inattendue (filtrage sécurité ou quota ?) : {\"candidates\":[],\"x\":1}"
    );
    assert_eq!(message(gemini::reply(true, "<html>")), "json");
}

#[test]
fn mistral_replies_are_read() {
    let body = r#"{"choices":[{"message":{"role":"assistant","content":"Bonjour"}}]}"#;
    assert_eq!(message(mistral::reply(true, body)), "ok:Bonjour");
    assert_eq!(message(mistral::reply(false, "refus")), "message:Mistral API returned error: refus");
    assert_eq!(message(mistral::reply(true, "{}")), "message:Failed to extract content from Mistral response");
    assert_eq!(message(mistral::reply(true, "")), "json");
}

#[test]
fn mistral_gets_the_conversation_as_a_chat() {
    let history = vec![
        MessageContent { role: "user".to_string(), parts: vec![Part { text: "Je".to_string() }, Part { text: "cours".to_string() }] },
        MessageContent { role: "model".to_string(), parts: vec![Part { text: "Il court.".to_string() }] },
        MessageContent { role: "assistant".to_string(), parts: vec![] },
        MessageContent { role: "system".to_string(), parts: vec![Part { text: "?".to_string() }] },
    ];
    let chat = mistral::chat_messages("Règles", &history);
    let pairs: Vec<(String, String)> = chat.into_iter().map(|m| (m.role, m.content)).collect();
    assert_eq!(
        pairs,
        vec![
            ("system".to_string(), "Règles".to_string()),
            ("user".to_string(), "Je cours".to_string()),
            ("assistant".to_string(), "Il court.".to_string()),
            ("assistant".to_string(), "".to_string()),
            ("user".to_string(), "?".to_string()),
        ]
    );
}
