//! The `/deploy` command: who may run it, and what the requester is told at each step
//! (`git status`, `git pull`, `cargo build --release`, restart of the service).
use vstd::prelude::*;

use crate::text::{
    chars_of, copy_range, parse_u64, parse_unsigned, string_from_chars, string_of, trim, trim_str,
};

verus! {

/// `s` cut after `max_chars` characters, with a mark of the cut.
pub open spec fn head_of(s: Seq<char>, max_chars: nat) -> Seq<char> {
    if s.len() <= max_chars {
        s
    } else {
        s.take(max_chars as int) + "\n[...]"@
    }
}

/// The last `max_chars` characters of `s`, with a mark of the cut.
pub open spec fn tail_of(s: Seq<char>, max_chars: nat) -> Seq<char> {
    if s.len() <= max_chars {
        s
    } else {
        "[...]\n"@ + s.skip(s.len() - max_chars)
    }
}

/// The first `max_chars` characters of a text, marked as cut when there are more.
pub fn truncate_head(s: &str, max_chars: usize) -> (out: String)
    ensures
        out@ == head_of(s@, max_chars as nat),
{
    let c = chars_of(s);
    if c.len() <= max_chars {
        return string_of(s);
    }
    let mut out = string_from_chars(&copy_range(&c, 0, max_chars));
    out.append("\n[...]");
    assert(c@.subrange(0, max_chars as int) =~= s@.take(max_chars as int));
    out
}

/// The last `max_chars` characters of a text, marked as cut when there are more. A
/// limit of zero on a text that is not empty is out of bounds.
pub fn truncate_tail(s: &str, max_chars: usize) -> (out: String)
    requires
        max_chars > 0 || s@.len() == 0,
    ensures
        out@ == tail_of(s@, max_chars as nat),
{
    let c = chars_of(s);
    if c.len() <= max_chars {
        return string_of(s);
    }
    let mut out = string_of("[...]\n");
    let tail = string_from_chars(&copy_range(&c, c.len() - max_chars, c.len()));
    out.append(tail.as_str());
    assert(c@.subrange((c.len() - max_chars) as int, c.len() as int) =~= s@.skip(
        s@.len() - max_chars,
    ));
    out
}

/// What the deployment does next.
#[derive(Debug)]
pub enum DeployStep {
    /// Tell the requester this text, and stop.
    Stop(String),
    /// Run `git status --porcelain`: local changes stop the deployment.
    CheckStatus,
    /// Tell the requester this text, then run `git pull`.
    Pull(String),
    /// Tell the requester this text, then run `cargo build --release`.
    Build(String),
    /// Tell the requester this text, then restart the service a second later.
    Restart(String),
}

/// A `DeployStep` with its text as a character sequence.
pub enum StepView {
    Stop(Seq<char>),
    CheckStatus,
    Pull(Seq<char>),
    Build(Seq<char>),
    Restart(Seq<char>),
}

impl View for DeployStep {
    type V = StepView;

    open spec fn view(&self) -> StepView {
        match self {
            DeployStep::Stop(t) => StepView::Stop(t@),
            DeployStep::CheckStatus => StepView::CheckStatus,
            DeployStep::Pull(t) => StepView::Pull(t@),
            DeployStep::Build(t) => StepView::Build(t@),
            DeployStep::Restart(t) => StepView::Restart(t@),
        }
    }
}

pub open spec fn pulling_text() -> Seq<char> {
    "🔄 git pull en cours..."@
}

/// The first step: only the administrator named by the `ADMIN_USER_ID` setting may
/// deploy; a missing or unreadable setting disables the command. `force` skips the
/// check for local changes.
pub open spec fn deploy_begin_spec(admin_setting: Option<Seq<char>>, requester: u64, force: bool) -> StepView {
    let admin = match admin_setting {
        Some(s) => parse_unsigned(s, u64::MAX as nat),
        None => None,
    };
    match admin {
        None => StepView::Stop(
            "⚠️ ADMIN_USER_ID n'est pas configuré dans le .env — commande désactivée."@,
        ),
        Some(a) => if a != requester {
            StepView::Stop("⛔ Accès refusé."@)
        } else if force {
            StepView::Pull(pulling_text())
        } else {
            StepView::CheckStatus
        },
    }
}

pub fn deploy_begin(admin_setting: Option<&str>, requester: u64, force: bool) -> (step: DeployStep)
    ensures
        step@ == deploy_begin_spec(
            match admin_setting {
                Some(s) => Some(s@),
                None => None,
            },
            requester,
            force,
        ),
{
    let admin = match admin_setting {
        Some(s) => parse_u64(s),
        None => None,
    };
    match admin {
        None => DeployStep::Stop(
            string_of("⚠️ ADMIN_USER_ID n'est pas configuré dans le .env — commande désactivée."),
        ),
        Some(a) => if a != requester {
            DeployStep::Stop(string_of("⛔ Accès refusé."))
        } else if force {
            DeployStep::Pull(string_of("🔄 git pull en cours..."))
        } else {
            DeployStep::CheckStatus
        },
    }
}

/// Only the administrator deploys: whatever the request, the deployment goes past its
/// first step only when the `ADMIN_USER_ID` setting reads as the requester's id.
pub proof fn lemma_only_the_admin_deploys(admin_setting: Option<Seq<char>>, requester: u64, force: bool)
    ensures
        !(deploy_begin_spec(admin_setting, requester, force) is Stop) ==> (admin_setting matches Some(
            s,
        ) && parse_unsigned(s, u64::MAX as nat) == Some(requester as nat)),
{
}

/// The characters that `u8::is_ascii_whitespace` accepts.
pub open spec fn is_ascii_ws(c: char) -> bool {
    c == ' ' || c == '\t' || c == '\n' || c == '\u{c}' || c == '\r'
}

/// Whether a text holds nothing but ASCII whitespace.
pub open spec fn ascii_blank(s: Seq<char>) -> bool {
    forall|i: int| 0 <= i < s.len() ==> is_ascii_ws(#[trigger] s[i])
}

pub open spec fn after_status_spec(stdout: Seq<char>) -> StepView {
    if ascii_blank(stdout) {
        StepView::Pull(pulling_text())
    } else {
        StepView::Stop(
            "⚠️ Des modifications locales existent (non commitées ou stagées) :\n\n"@ + head_of(
                trim(stdout),
                1500,
            ) + "\n\nUtilisez /deploy force:true pour déployer quand même."@,
        )
    }
}

/// After `git status --porcelain`, given its output read as text: local changes stop
/// the deployment, and are shown.
pub fn after_status(stdout: &str) -> (step: DeployStep)
    ensures
        step@ == after_status_spec(stdout@),
{
    let c = chars_of(stdout);
    let mut i: usize = 0;
    while i < c.len()
        invariant
            i <= c.len(),
            c@ == stdout@,
            forall|j: int| 0 <= j < i ==> is_ascii_ws(#[trigger] c@[j]),
        decreases c.len() - i,
    {
        let ch = c[i];
        if !(ch == ' ' || ch == '\t' || ch == '\n' || ch == '\u{c}' || ch == '\r') {
            let mut text = string_of(
                "⚠️ Des modifications locales existent (non commitées ou stagées) :\n\n",
            );
            let shown = trim_str(stdout);
            text.append(truncate_head(shown.as_str(), 1500).as_str());
            text.append("\n\nUtilisez /deploy force:true pour déployer quand même.");
            return DeployStep::Stop(text);
        }
        i = i + 1;
    }
    DeployStep::Pull(string_of("🔄 git pull en cours..."))
}

pub open spec fn after_pull_spec(success: bool, stdout: Seq<char>, stderr: Seq<char>) -> StepView {
    if success {
        StepView::Build(
            "🔨 Compilation en cours (peut prendre plusieurs minutes)...\n"@ + head_of(
                trim(stdout),
                1500,
            ),
        )
    } else {
        StepView::Stop("❌ git pull a échoué :\n\n"@ + head_of(stderr, 1800))
    }
}

/// After `git pull`, given whether it succeeded and its outputs read as text.
pub fn after_pull(success: bool, stdout: &str, stderr: &str) -> (step: DeployStep)
    ensures
        step@ == after_pull_spec(success, stdout@, stderr@),
{
    if success {
        let mut text = string_of("🔨 Compilation en cours (peut prendre plusieurs minutes)...\n");
        let shown = trim_str(stdout);
        text.append(truncate_head(shown.as_str(), 1500).as_str());
        DeployStep::Build(text)
    } else {
        let mut text = string_of("❌ git pull a échoué :\n\n");
        text.append(truncate_head(stderr, 1800).as_str());
        DeployStep::Stop(text)
    }
}

pub open spec fn after_build_spec(success: bool, stderr: Seq<char>) -> StepView {
    if success {
        StepView::Restart("✅ Compilation réussie ! Redémarrage du service dans 1 seconde..."@)
    } else {
        StepView::Stop(
            "❌ Compilation échouée — le service n'a PAS été redémarré, l'ancienne version continue de tourner.\n\n"@
                + tail_of(stderr, 1700),
        )
    }
}

/// After `cargo build --release`: a failed build leaves the running version in place,
/// and shows the end of the compiler's output, where its errors are.
pub fn after_build(success: bool, stderr: &str) -> (step: DeployStep)
    ensures
        step@ == after_build_spec(success, stderr@),
{
    if success {
        DeployStep::Restart(
            string_of("✅ Compilation réussie ! Redémarrage du service dans 1 seconde..."),
        )
    } else {
        let mut text = string_of(
            "❌ Compilation échouée — le service n'a PAS été redémarré, l'ancienne version continue de tourner.\n\n",
        );
        text.append(truncate_tail(stderr, 1700).as_str());
        DeployStep::Stop(text)
    }
}

/// What the requester is told when `git status` cannot be started.
pub fn status_launch_failed(error: &str) -> (text: String)
    ensures
        text@ == "❌ Impossible de lancer git : "@ + error@,
{
    let mut text = string_of("❌ Impossible de lancer git : ");
    text.append(error);
    text
}

/// What the requester is told when `git pull` cannot be started.
pub fn pull_launch_failed(error: &str) -> (text: String)
    ensures
        text@ == "❌ Impossible de lancer git pull : "@ + error@,
{
    let mut text = string_of("❌ Impossible de lancer git pull : ");
    text.append(error);
    text
}

/// What the requester is told when cargo cannot be started from `cargo`.
pub fn build_launch_failed(cargo: &str, error: &str) -> (text: String)
    ensures
        text@ == "❌ Impossible de lancer cargo ("@ + cargo@ + ") : "@ + error@
            + "\n\nDéfinissez CARGO_BIN dans le .env si cargo est installé ailleurs."@,
{
    let mut text = string_of("❌ Impossible de lancer cargo (");
    text.append(cargo);
    text.append(") : ");
    text.append(error);
    text.append("\n\nDéfinissez CARGO_BIN dans le .env si cargo est installé ailleurs.");
    text
}

/// What the channel is told when the restart cannot be started.
pub fn restart_launch_failed(error: &str) -> (text: String)
    ensures
        text@ == "❌ Redémarrage impossible : "@ + error@,
{
    let mut text = string_of("❌ Redémarrage impossible : ");
    text.append(error);
    text
}

/// What the channel is told when the restart fails: the end of its error output.
pub fn restart_failed(stderr: &str) -> (text: String)
    ensures
        text@ == "❌ Redémarrage échoué :\n"@ + tail_of(stderr@, 1000),
{
    let mut text = string_of("❌ Redémarrage échoué :\n");
    text.append(truncate_tail(stderr, 1000).as_str());
    text
}

} // verus!
