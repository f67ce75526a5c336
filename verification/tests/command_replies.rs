use buffy_narrator::commands::PlayerInput;
use buffy_narrator::replies::{
    buttons_message, click, model_changed, model_choice, player_turn, refusal_reply, restarted, roster_reminder,
    start_message, summary_reply, Click, PlayerTurn, ANNOUNCE_FIRST, HELP_TEXT, PAST_TURN,
    UNKNOWN_MODEL, UNKNOWN_TYPED_COMMAND,
};
use buffy_narrator::state::{Config, ConversationState, MessageContent, ModelProvider};
use buffy_narrator::text::is_blank;

#[test]
fn a_new_adventure_keeps_the_players_and_the_turn() {
    let mut previous = ConversationState {
        provider: Some(ModelProvider::Mistral),
        turn: 9,
        options_message_id: Some(77),
        last_message_id: Some(5),
        summary: "ancien".to_string(),
        pending_options: vec!["Fuir".to_string()],
        ..Default::default()
    };
    previous.characters.insert(3, "Faith".to_string());
    previous.recent.push(MessageContent::single("user", "x".to_string()));
    let s = restarted(Some(&previous));
    assert_eq!(s.provider, Some(ModelProvider::Mistral));
    assert_eq!(s.character_of(3), Some("Faith"));
    assert_eq!(s.turn, 9);
    assert_eq!(s.options_message_id, Some(77));
    assert_eq!(s.last_message_id, None);
    assert!(s.summary.is_empty() && s.recent.is_empty() && s.pending_options.is_empty());

    let fresh = restarted(None);
    assert_eq!(fresh.turn, 0);
    assert!(fresh.characters.is_empty());
}

#[test]
fn the_start_instruction_names_the_state_and_the_players() {
    let roster = vec!["Buffy".to_string(), "Willow".to_string()];
    assert_eq!(
        start_message("  au lycée ", &roster),
        "Commence une nouvelle aventure dans l'univers de Buffy contre les vampires. État initial : au lycée Les joueurs incarnent déjà ces personnages : Buffy, Willow."
    );
    assert_eq!(
        start_message("", &[]),
        "Commence une nouvelle aventure dans l'univers de Buffy contre les vampires."
    );
    assert_eq!(
        roster_reminder(&roster).unwrap(),
        "🎭 Personnages repris de la partie précédente : Buffy, Willow. Changez-en avec `/personnage`."
    );
    assert_eq!(roster_reminder(&[]), None);
}

#[test]
fn the_journal_is_offered_for_a_new_start() {
    assert_eq!(
        summary_reply("Buffy a vaincu le Maître."),
        "📓 Journal de l'Observateur (copiez-le comme état initial de /start) :\n\nBuffy a vaincu le Maître."
    );
}

#[test]
fn a_model_needs_its_key() {
    let config = Config { default_provider: ModelProvider::Gemini, gemini_key: Some("g".to_string()), mistral_key: None };
    assert_eq!(model_choice(&config, "gemini"), Ok(ModelProvider::Gemini));
    assert_eq!(model_choice(&config, "llama"), Err(UNKNOWN_MODEL.to_string()));
    assert_eq!(
        model_choice(&config, "mistral"),
        Err("⚠️ Aucune clé API configurée pour Mistral (définissez MISTRAL_API_KEY dans l'environnement ou le fichier .env)".to_string())
    );
    assert_eq!(model_changed(ModelProvider::Gemini), "🧛 Modèle changé : la suite de l'aventure sera racontée par Gemini.");
}

#[test]
fn a_player_without_character_cannot_act() {
    let mut state = ConversationState::default();
    match player_turn(&mut state, 42, PlayerInput::Action("Je saute")) {
        PlayerTurn::Answer(t) => assert_eq!(
            t,
            "🧛 <@42>, avant de jouer, dis-moi qui tu es avec la commande `/personnage` (par exemple `/personnage Buffy`). Tape `/personnage` sans rien préciser pour voir les personnages disponibles."
        ),
        other => panic!("unexpected turn: {:?}", other),
    }
    match player_turn(&mut state, 42, PlayerInput::Character("tara")) {
        PlayerTurn::Answer(t) => assert_eq!(t, "🎭 <@42> incarne **Tara**. Dans vos messages, « je » désigne désormais Tara."),
        other => panic!("unexpected turn: {:?}", other),
    }
    match player_turn(&mut state, 42, PlayerInput::Action("Je saute")) {
        PlayerTurn::Play { character, action } => {
            assert_eq!(character, "Tara");
            assert_eq!(action, "Je saute");
        }
        other => panic!("unexpected turn: {:?}", other),
    }
    assert!(matches!(player_turn(&mut state, 1, PlayerInput::Help), PlayerTurn::Answer(t) if t == HELP_TEXT));
    assert!(matches!(
        player_turn(&mut state, 1, PlayerInput::UnknownCommand),
        PlayerTurn::Answer(t) if t == UNKNOWN_TYPED_COMMAND
    ));
    match player_turn(&mut state, 7, PlayerInput::Character("Tara")) {
        PlayerTurn::Answer(t) => assert_eq!(t, "⛔ **Tara** est déjà incarné par <@42>. Choisissez un autre personnage."),
        other => panic!("unexpected turn: {:?}", other),
    }
}

#[test]
fn clicks_play_the_clicking_players_character() {
    let mut state = ConversationState {
        turn: 4,
        pending_options: vec!["Fuir".to_string(), "Combattre".to_string()],
        ..Default::default()
    };
    state.characters.insert(8, "Spike".to_string());
    match click(&state, 8, 4, 1) {
        Click::Play { character, option } => {
            assert_eq!(character, "Spike");
            assert_eq!(option, "Combattre");
        }
        other => panic!("unexpected click: {:?}", other),
    }
    assert!(matches!(click(&state, 8, 3, 1), Click::Ephemeral(t) if t == PAST_TURN));
    assert!(matches!(click(&state, 8, 4, 2), Click::Ephemeral(t) if t == PAST_TURN));
    assert!(matches!(click(&state, 9, 4, 0), Click::Ephemeral(t) if t == ANNOUNCE_FIRST));
}

#[test]
fn only_a_message_with_buttons_is_remembered() {
    assert_eq!(buttons_message(true, Some(5)), Some(5));
    assert_eq!(buttons_message(false, Some(5)), None);
    assert_eq!(buttons_message(true, None), None);
}

#[test]
fn the_help_lists_the_commands() {
    assert!(HELP_TEXT.starts_with("🧛 Bienvenue sur la Bouche de l'Enfer ! 🧛\n\nVous vivez"));
    assert!(HELP_TEXT.ends_with("`/help` — Afficher ce message d'aide"));
    assert!(HELP_TEXT.contains("\n`/deploy [force]` — Déployer la dernière version (admin)\n"));
}

#[test]
fn a_refusal_is_marked() {
    assert_eq!(refusal_reply("Agis par Buffy."), "⛔ Agis par Buffy.");
}

#[test]
fn blank_texts_are_recognized() {
    assert!(is_blank(" \n\t\u{3000}"));
    assert!(is_blank(""));
    assert!(!is_blank("  a "));
}
