use buffy_narrator::dice::RollModifier;
use buffy_narrator::prompts::format_player_action;
use buffy_narrator::replies::{click, Click, PAST_TURN};
use buffy_narrator::state::{ConversationState, MessageContent, ModelProvider, StoryResponse};
use buffy_narrator::turn::{
    begin_turn, finish_summary, summary_request, SummaryStep, TurnError, TurnOutcome, TurnPlan,
    TurnRequest, MAX_RECENT_TURNS,
};

fn plan(requires_roll: bool, story: &str, options: &[&str]) -> TurnPlan {
    TurnPlan {
        requires_roll,
        modifiers: Vec::new(),
        story_text: story.to_string(),
        options: options.iter().map(|o| o.to_string()).collect(),
        action_allowed: true,
        refusal_reason: String::new(),
    }
}

fn texts(history: &[MessageContent]) -> Vec<String> {
    history.iter().map(|m| m.parts[0].text.clone()).collect()
}

#[test]
fn a_turn_starts_with_the_attributed_action() {
    let mut state = ConversationState::default();
    let (pending, req) = begin_turn(&mut state, ModelProvider::Mistral, "Je cours", Some("Buffy"));
    assert_eq!(pending.provider, ModelProvider::Mistral);
    assert!(pending.acting);
    assert!(pending.identity.starts_with("\n\nIDENTITÉS ET RÈGLE D'ACTION\n"));
    match req {
        TurnRequest::PlanTurn { provider, system_text, history } => {
            assert_eq!(provider, ModelProvider::Mistral);
            assert!(system_text.ends_with(&pending.identity));
            assert_eq!(texts(&history), vec![format_player_action("Buffy", "Je cours")]);
            assert_eq!(history[0].role, "user");
        }
        other => panic!("unexpected request: {:?}", other),
    }
    assert_eq!(state.recent.len(), 1);
}

#[test]
fn a_refused_action_leaves_no_trace() {
    let mut state = ConversationState::default();
    let (mut pending, _) = begin_turn(&mut state, ModelProvider::Gemini, "Giles ouvre la porte", Some("Buffy"));
    let mut refused = plan(false, "", &[]);
    refused.action_allowed = false;
    refused.refusal_reason = "  Agis par Buffy.  ".to_string();
    match pending.after_plan(&mut state, refused) {
        TurnRequest::Finished(Ok(TurnOutcome::Refused(reason))) => assert_eq!(reason, "Agis par Buffy."),
        other => panic!("unexpected request: {:?}", other),
    }
    assert!(state.recent.is_empty());
    assert_eq!(state.turn, 0);
}

#[test]
fn an_empty_refusal_gets_the_standard_reason() {
    let mut state = ConversationState::default();
    let (mut pending, _) = begin_turn(&mut state, ModelProvider::Gemini, "x", Some("Buffy"));
    let mut refused = plan(false, "", &[]);
    refused.action_allowed = false;
    match pending.after_plan(&mut state, refused) {
        TurnRequest::Finished(Ok(TurnOutcome::Refused(reason))) => assert_eq!(
            reason,
            "Tu ne peux agir que par ton personnage : reformule ton action à la première personne."
        ),
        other => panic!("unexpected request: {:?}", other),
    }
}

#[test]
fn the_application_cannot_be_refused() {
    let mut state = ConversationState::default();
    let (mut pending, _) = begin_turn(&mut state, ModelProvider::Gemini, "Commence", None);
    let mut p = plan(false, "La nuit tombe.", &[]);
    p.action_allowed = false;
    match pending.after_plan(&mut state, p) {
        TurnRequest::Finished(Ok(TurnOutcome::Story(s))) => assert_eq!(s.story_text, "La nuit tombe."),
        other => panic!("unexpected request: {:?}", other),
    }
}

#[test]
fn a_story_without_roll_is_told_at_once() {
    let mut state = ConversationState::default();
    let (mut pending, _) = begin_turn(&mut state, ModelProvider::Gemini, "J'entre", Some("Buffy"));
    match pending.after_plan(&mut state, plan(false, "La bibliothèque est vide.", &["1. Fouiller", "Partir"])) {
        TurnRequest::Finished(Ok(TurnOutcome::Story(s))) => {
            assert_eq!(s.story_text, "La bibliothèque est vide.");
            assert_eq!(s.options, vec!["Fouiller", "Partir"]);
        }
        other => panic!("unexpected request: {:?}", other),
    }
    assert_eq!(state.turn, 1);
    assert_eq!(state.pending_options, vec!["Fouiller", "Partir"]);
    assert_eq!(state.recent.len(), 2);
    assert_eq!(state.recent[1].role, "model");
    assert_eq!(state.recent[1].parts[0].text, "La bibliothèque est vide.\n\n1. Fouiller\n2. Partir");
}

#[test]
fn the_turn_counter_wraps() {
    let mut state = ConversationState { turn: u64::MAX, ..Default::default() };
    let (mut pending, _) = begin_turn(&mut state, ModelProvider::Gemini, "x", None);
    let _ = pending.after_plan(&mut state, plan(false, "Suite.", &[]));
    assert_eq!(state.turn, 0);
}

#[test]
fn invalid_plans_are_errors() {
    let mut state = ConversationState::default();
    let (mut pending, _) = begin_turn(&mut state, ModelProvider::Gemini, "x", None);
    let mut with_modifiers = plan(false, "Récit", &[]);
    with_modifiers.modifiers = vec![RollModifier::Ally];
    assert!(matches!(
        pending.after_plan(&mut state, with_modifiers),
        TurnRequest::Finished(Err(TurnError::InvalidPlan))
    ));
    assert!(matches!(
        pending.after_plan(&mut state, plan(false, "   ", &[])),
        TurnRequest::Finished(Err(TurnError::InvalidPlan))
    ));
    let mut duplicated = plan(true, "", &[]);
    duplicated.modifiers = vec![RollModifier::Wounded, RollModifier::Wounded];
    assert!(matches!(
        pending.after_plan(&mut state, duplicated),
        TurnRequest::Finished(Err(TurnError::DuplicateModifiers))
    ));
    assert!(matches!(
        pending.after_plan(&mut state, plan(false, &"é".repeat(6001), &[])),
        TurnRequest::Finished(Err(TurnError::InvalidPlan))
    ));
    assert_eq!(state.recent.len(), 1);
    assert_eq!(state.turn, 0);
    assert_eq!(TurnError::InvalidPlan.message(), "Plan de tour sans jet invalide");
}

#[test]
fn a_roll_is_settled_by_the_application() {
    let mut state = ConversationState::default();
    let (mut pending, _) = begin_turn(&mut state, ModelProvider::Gemini, "Je frappe", Some("Buffy"));
    let mut p = plan(true, "", &[]);
    p.modifiers = vec![RollModifier::Specialty];
    match pending.after_plan(&mut state, p) {
        TurnRequest::Narrate { provider, system_text, history } => {
            assert_eq!(provider, ModelProvider::Gemini);
            assert!(system_text.contains("RÉSOLUTION DE CE TOUR, FOURNIE PAR L'APPLICATION : d20 naturel = "));
            assert!(system_text.contains("; modificateurs = spécialité +3; total = "));
            assert_eq!(history.len(), 1);
        }
        other => panic!("unexpected request: {:?}", other),
    }
    let roll = state.last_roll.clone().unwrap();
    assert!((1..=20).contains(&roll.natural));
    assert_eq!(roll.total, roll.natural as i8 + 3);
    assert_eq!(
        pending.roll_display,
        format!("🎲 Lancé de dé : {}/20 — modificateurs : spécialité +3", roll.natural)
    );
    let narration = StoryResponse { story_text: "Le vampire tombe.".to_string(), options: vec!["Fuir".to_string()] };
    match pending.after_narration(&mut state, narration) {
        TurnRequest::Finished(Ok(TurnOutcome::Story(s))) => {
            assert_eq!(s.story_text, format!("{}\n\nLe vampire tombe.", pending.roll_display));
            assert_eq!(s.options, vec!["Fuir"]);
        }
        other => panic!("unexpected request: {:?}", other),
    }
    assert_eq!(state.turn, 1);
}

#[test]
fn an_overlong_narration_is_refused() {
    let mut state = ConversationState::default();
    let (mut pending, _) = begin_turn(&mut state, ModelProvider::Gemini, "Je frappe", None);
    let _ = pending.after_plan(&mut state, plan(true, "", &[]));
    let narration = StoryResponse { story_text: "x".repeat(12_000), options: vec![] };
    assert!(matches!(
        pending.after_narration(&mut state, narration),
        TurnRequest::Finished(Err(TurnError::NarrationTooLong))
    ));
    assert_eq!(state.turn, 0);
    assert_eq!(state.recent.len(), 1);
}

fn long_state() -> ConversationState {
    let mut state = ConversationState { summary: "avant".to_string(), ..Default::default() };
    for i in 0..12 {
        let role = if i % 2 == 0 { "user" } else { "model" };
        state.recent.push(MessageContent::single(role, format!("message {}", i)));
    }
    state
}

#[test]
fn a_long_history_is_summarized_first() {
    let mut state = long_state();
    let (pending, req) = begin_turn(&mut state, ModelProvider::Gemini, "Je lis", None);
    match req {
        TurnRequest::Summarize { provider, prompt } => {
            assert_eq!(provider, ModelProvider::Gemini);
            assert!(prompt.starts_with("<PREVIOUS_MEMO>\navant\n</PREVIOUS_MEMO>\n\n"));
            assert!(prompt.contains("message 5"));
            assert!(!prompt.contains("message 4"));
            assert!(!prompt.contains("message 7"));
        }
        other => panic!("unexpected request: {:?}", other),
    }
    match pending.after_summary(&mut state, "{\"summary\":\"Résumé court\"}") {
        TurnRequest::PlanTurn { history, .. } => {
            assert_eq!(history[0].parts[0].text, "<continuity_context>\nRésumé court\n</continuity_context>");
            assert_eq!(history.len(), MAX_RECENT_TURNS + 1);
        }
        other => panic!("unexpected request: {:?}", other),
    }
    assert_eq!(state.summary, "Résumé court");
    assert_eq!(state.recent.len(), MAX_RECENT_TURNS);
    assert_eq!(state.recent[0].parts[0].text, "message 7");
}

#[test]
fn an_unreadable_summary_changes_nothing() {
    let mut state = long_state();
    let (pending, _) = begin_turn(&mut state, ModelProvider::Gemini, "Je lis", None);
    assert!(matches!(
        pending.after_summary(&mut state, "pas du JSON"),
        TurnRequest::Finished(Err(TurnError::SummaryJson(_)))
    ));
    assert!(matches!(
        pending.after_summary(&mut state, "{\"summary\": 5}"),
        TurnRequest::Finished(Err(TurnError::InvalidSummary))
    ));
    let too_long = format!("{{\"summary\":\"{}\"}}", "é".repeat(2001));
    assert!(matches!(
        pending.after_summary(&mut state, &too_long),
        TurnRequest::Finished(Err(TurnError::InvalidSummary))
    ));
    assert_eq!(state.recent.len(), 13);
    assert_eq!(state.summary, "avant");
}

#[test]
fn summaries_are_read_from_their_member() {
    assert_eq!(finish_summary("{\"summary\":\"ok\",\"x\":1}").unwrap(), "ok");
    assert!(matches!(finish_summary("{}"), Err(TurnError::InvalidSummary)));
    assert!(matches!(finish_summary("[1"), Err(TurnError::SummaryJson(_))));
}

#[test]
fn the_journal_needs_the_model_only_when_something_happened() {
    let empty = ConversationState::default();
    match summary_request(&empty, ModelProvider::Gemini) {
        SummaryStep::Ready(t) => assert_eq!(t, "Aucune aventure n'est en cours."),
        other => panic!("unexpected step: {:?}", other),
    }
    let kept = ConversationState { summary: "Le journal".to_string(), ..Default::default() };
    match summary_request(&kept, ModelProvider::Gemini) {
        SummaryStep::Ready(t) => assert_eq!(t, "Le journal"),
        other => panic!("unexpected step: {:?}", other),
    }
    let mut busy = ConversationState { provider: Some(ModelProvider::Mistral), ..Default::default() };
    busy.recent.push(MessageContent::single("model", "Récit".to_string()));
    match summary_request(&busy, ModelProvider::Gemini) {
        SummaryStep::Summarize { provider, prompt } => {
            assert_eq!(provider, ModelProvider::Mistral);
            assert_eq!(prompt, "<PREVIOUS_MEMO>\n\n</PREVIOUS_MEMO>\n\n<NARRATOR_RECORD>\nRécit\n</NARRATOR_RECORD>");
        }
        other => panic!("unexpected step: {:?}", other),
    }
}

#[test]
fn a_told_story_retires_the_previous_buttons() {
    let mut state = ConversationState { turn: 3, pending_options: vec!["Fuir".to_string()], ..Default::default() };
    state.characters.insert(1, "Buffy".to_string());
    assert!(matches!(click(&state, 1, 3, 0), Click::Play { .. }));
    let (mut pending, _) = begin_turn(&mut state, ModelProvider::Gemini, "Je fuis", Some("Buffy"));
    let _ = pending.after_plan(&mut state, plan(false, "Elle fuit.", &["Se cacher"]));
    assert!(matches!(click(&state, 1, 3, 0), Click::Ephemeral(t) if t == PAST_TURN));
    assert!(matches!(click(&state, 1, 4, 0), Click::Play { option, .. } if option == "Se cacher"));
}
