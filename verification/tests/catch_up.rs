use buffy_narrator::catchup::{
    catchup_limit, catchup_max_age_hours, newest_id, oldest_allowed, plan_catch_up, ChannelMessage,
};

fn msg(id: u64, timestamp: i64, content: &str) -> ChannelMessage {
    ChannelMessage { id, timestamp, author_is_bot: false, is_reply: false, content: content.to_string() }
}

#[test]
fn settings_fall_back_to_their_defaults() {
    assert_eq!(catchup_limit(None), 20);
    assert_eq!(catchup_limit(Some("5")), 5);
    assert_eq!(catchup_limit(Some("cinq")), 20);
    assert_eq!(catchup_max_age_hours(None), 24);
    assert_eq!(catchup_max_age_hours(Some("-3")), -3);
    assert_eq!(catchup_max_age_hours(Some("")), 24);
}

#[test]
fn the_age_limit_counts_back_from_now() {
    assert_eq!(oldest_allowed(Some(100_000), 24), 13_600);
    assert_eq!(oldest_allowed(None, 24), 0);
    assert_eq!(oldest_allowed(Some(u64::MAX), 1), -3601);
}

#[test]
fn missed_actions_are_replayed_in_order_within_limits() {
    let history = vec![
        msg(15, 1000, "Je cours"),
        msg(12, 1000, "/personnage Buffy"),
        msg(9, 1000, "Trop ancien marqueur"),
        msg(14, 10, "Trop vieux"),
        msg(13, 1000, "/help"),
        ChannelMessage { author_is_bot: true, ..msg(16, 1000, "Narration") },
        ChannelMessage { is_reply: true, ..msg(17, 1000, "Réponse") },
        msg(18, 1000, "!hors jeu"),
        msg(19, 1000, "Je saute"),
    ];
    let plan = plan_catch_up(&history, 10, 500, 20);
    assert_eq!(plan.skipped, 0);
    assert_eq!(plan.to_play, vec![1, 0, 8]);

    let limited = plan_catch_up(&history, 10, 500, 2);
    assert_eq!(limited.skipped, 1);
    assert_eq!(limited.to_play, vec![0, 8]);

    let nothing = plan_catch_up(&history, 10, 500, 0);
    assert_eq!(nothing.skipped, 3);
    assert!(nothing.to_play.is_empty());

    assert_eq!(newest_id(&history), Some(19));
    assert_eq!(newest_id(&[]), None);
}

#[test]
fn equal_ids_keep_the_order_of_the_history() {
    let history = vec![msg(5, 0, "B"), msg(3, 0, "A"), msg(5, 0, "C")];
    assert_eq!(plan_catch_up(&history, 0, 0, 10).to_play, vec![1, 0, 2]);
}
