use buffy_narrator::deploy::{
    after_build, after_pull, after_status, build_launch_failed, deploy_begin, pull_launch_failed,
    restart_failed, restart_launch_failed, status_launch_failed, truncate_head, truncate_tail,
    DeployStep,
};

fn text(step: DeployStep) -> (&'static str, String) {
    match step {
        DeployStep::Stop(t) => ("stop", t),
        DeployStep::CheckStatus => ("status", String::new()),
        DeployStep::Pull(t) => ("pull", t),
        DeployStep::Build(t) => ("build", t),
        DeployStep::Restart(t) => ("restart", t),
    }
}

#[test]
fn texts_are_cut_with_a_mark() {
    assert_eq!(truncate_head("abcdef", 3), "abc\n[...]");
    assert_eq!(truncate_head("abc", 3), "abc");
    assert_eq!(truncate_head("ééé", 2), "éé\n[...]");
    assert_eq!(truncate_tail("abcdef", 2), "[...]\nef");
    assert_eq!(truncate_tail("ab", 2), "ab");
    assert_eq!(truncate_tail("", 0), "");
}

#[test]
fn only_the_administrator_deploys() {
    let not_configured = "⚠️ ADMIN_USER_ID n'est pas configuré dans le .env — commande désactivée.";
    assert_eq!(text(deploy_begin(None, 5, false)), ("stop", not_configured.to_string()));
    assert_eq!(text(deploy_begin(Some("cinq"), 5, false)), ("stop", not_configured.to_string()));
    assert_eq!(text(deploy_begin(Some("5"), 6, true)), ("stop", "⛔ Accès refusé.".to_string()));
    assert_eq!(text(deploy_begin(Some("5"), 5, false)), ("status", String::new()));
    assert_eq!(text(deploy_begin(Some("5"), 5, true)), ("pull", "🔄 git pull en cours...".to_string()));
}

#[test]
fn local_changes_stop_the_deployment() {
    assert_eq!(text(after_status(" \n\t\r")), ("pull", "🔄 git pull en cours...".to_string()));
    assert_eq!(text(after_status("")), ("pull", "🔄 git pull en cours...".to_string()));
    assert_eq!(
        text(after_status(" M src/main.rs\n")),
        (
            "stop",
            "⚠️ Des modifications locales existent (non commitées ou stagées) :\n\nM src/main.rs\n\nUtilisez /deploy force:true pour déployer quand même."
                .to_string()
        )
    );
}

#[test]
fn pull_and_build_outcomes_are_reported() {
    assert_eq!(text(after_pull(false, "", "conflit")), ("stop", "❌ git pull a échoué :\n\nconflit".to_string()));
    assert_eq!(
        text(after_pull(true, "  Already up to date.\n", "")),
        ("build", "🔨 Compilation en cours (peut prendre plusieurs minutes)...\nAlready up to date.".to_string())
    );
    assert_eq!(
        text(after_build(true, "")),
        ("restart", "✅ Compilation réussie ! Redémarrage du service dans 1 seconde...".to_string())
    );
    let (kind, t) = text(after_build(false, &format!("{}fin", "x".repeat(2000))));
    assert_eq!(kind, "stop");
    assert!(t.starts_with("❌ Compilation échouée — le service n'a PAS été redémarré"));
    assert!(t.ends_with(&format!("\n\n[...]\n{}fin", "x".repeat(1697))));
}

#[test]
fn failures_to_start_a_step_are_explained() {
    assert_eq!(status_launch_failed("absent"), "❌ Impossible de lancer git : absent");
    assert_eq!(pull_launch_failed("absent"), "❌ Impossible de lancer git pull : absent");
    assert_eq!(
        build_launch_failed("/bin/cargo", "absent"),
        "❌ Impossible de lancer cargo (/bin/cargo) : absent\n\nDéfinissez CARGO_BIN dans le .env si cargo est installé ailleurs."
    );
    assert_eq!(restart_launch_failed("sudo"), "❌ Redémarrage impossible : sudo");
    assert_eq!(restart_failed("refus"), "❌ Redémarrage échoué :\nrefus");
}
