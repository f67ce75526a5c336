use buffy_narrator::options::{numbered_options, sanitize_options, MAX_OPTION_CHARS, MAX_STORY_OPTIONS};

#[test]
fn options_become_usable_button_labels() {
    let raw = vec![
        "1. Forcer la porte".to_string(),
        "- Interroger le concierge".to_string(),
        "  forcer LA porte  ".to_string(),
        "Reculer\net\nobserver".to_string(),
        "".to_string(),
        "Appeler Giles".to_string(),
        "Attendre la nuit".to_string(),
    ];

    let options = sanitize_options(&raw);
    assert_eq!(
        options,
        vec!["Forcer la porte", "Interroger le concierge", "Reculer et observer", "Appeler Giles"]
    );
}

#[test]
fn overlong_options_fit_a_discord_button() {
    let long = format!("Forcer {}", "très ".repeat(40));
    let options = sanitize_options(&[long]);
    assert_eq!(options.len(), 1);
    assert_eq!(options[0].chars().count(), MAX_OPTION_CHARS);
    assert!(options[0].ends_with('…'));
}

#[test]
fn a_leading_number_is_kept_when_it_is_not_a_list_marker() {
    let options = sanitize_options(&["3 vampires encerclent la maison".to_string()]);
    assert_eq!(options, vec!["3 vampires encerclent la maison"]);
}

#[test]
fn options_are_numbered_for_the_model_history() {
    let numbered = numbered_options(&["Forcer la porte".to_string(), "Attendre".to_string()]);
    assert_eq!(numbered, "1. Forcer la porte\n2. Attendre");
}

#[test]
fn sanitized_labels_are_few_short_and_distinct() {
    let raw: Vec<String> = (0..10).map(|i| format!("{}) Option {}", i, i % 3)).collect();
    let options = sanitize_options(&raw);
    assert!(options.len() <= MAX_STORY_OPTIONS);
    for (i, a) in options.iter().enumerate() {
        assert!(!a.is_empty() && a.chars().count() <= MAX_OPTION_CHARS && !a.contains('\n'));
        for b in &options[i + 1..] {
            assert!(!a.eq_ignore_ascii_case(b));
        }
    }
    assert_eq!(options, vec!["Option 0", "Option 1", "Option 2"]);
}

#[test]
fn no_options_give_no_numbering() {
    assert_eq!(numbered_options(&[]), "");
    assert!(sanitize_options(&[]).is_empty());
}
