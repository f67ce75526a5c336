//! What the bot answers to the commands and clicks of the players, and what a new
//! adventure keeps of the previous one.
use vstd::prelude::*;

use crate::characters::{assign_character, assignment};
use crate::commands::{InputView, PlayerInput};
use crate::state::{
    missing_key_text, provider_from_name, provider_name, provider_named, same_but_characters,
    Config, ConversationState, ModelProvider,
};
use crate::turn::told;
use crate::text::{decimal, decimal_string, join, join_strings, string_of, trim, trim_str, views};

verus! {

/// The answer to `/help`.
pub const HELP_TEXT: &'static str = "🧛 Bienvenue sur la Bouche de l'Enfer ! 🧛\n\nVous vivez une aventure interactive dans l'univers de Buffy contre les vampires.\n\n**Comment jouer :**\n- Tapez `/start` pour lancer une nouvelle aventure.\n- **Annoncez d'abord qui vous êtes** avec `/personnage Buffy`. Tant que vous ne l'avez pas fait, vos actions sont refusées. `/personnage` sans nom affiche les personnages disponibles.\n- Décrivez ensuite vos actions à la première personne : « Je pousse la porte ». Le bot sait que « je » = votre personnage.\n- Chaque narration se termine par des **boutons** : les 3 suites proposées. Pour tout le reste, écrivez simplement votre action dans le salon.\n- Les propositions ne nomment personne : n'importe quel joueur peut cliquer, et c'est son personnage qui agit. Les boutons d'un tour ne valent que pour ce tour.\n- Vous n'agissez que par votre personnage. « Je prends le bras de Giles, il est stupéfait, et il se met à pleuvoir » est valable ; « Giles ouvre la porte » sera refusé, tout comme faire agir le personnage d'un autre joueur.\n- L'Observateur gère un système de dés (d20) pour les actions à enjeu : combats, rituels, filatures, négociations avec des démons...\n- Préfixez un message par `/ignore` (ou `/i`, ou `!`) pour parler aux autres joueurs sans que le bot ne réagisse.\n- Répondre à un message (reply) n'est jamais interprété comme une action de jeu.\n- Si le bot était hors ligne, il rattrape à son retour les dernières actions manquées du salon.\n\n**Commandes :**\n`/start [etat]` — Commencer une nouvelle aventure avec un état initial facultatif\n`/personnage [nom]` — Annoncer qui vous incarnez ; sans nom, la liste des personnages\n`/summary` — Obtenir le journal de l'Observateur, réutilisable comme état initial de `/start`\n`/model gemini|mistral` — Choisir le modèle IA pour la suite de l'aventure\n`/deploy [force]` — Déployer la dernière version (admin)\n`/help` — Afficher ce message d'aide";

/// The answer to a command or a click in a channel without an adventure.
pub const NO_ADVENTURE: &'static str = "Aucune aventure en cours dans ce salon. Tapez /start pour commencer !";

/// The answer to a command typed as text that only exists as a slash command.
pub const UNKNOWN_TYPED_COMMAND: &'static str = "⚠️ Commande inconnue. Tapez `/help` pour la liste des commandes. (Si une commande n'apparaît pas encore dans Discord, elle vient d'être ajoutée : patientez un instant ou relancez l'application.)";

/// The answer to a slash command that the bot does not know.
pub const UNKNOWN_SLASH_COMMAND: &'static str = "⚠️ Commande inconnue. Tapez /help pour la liste des commandes.";

/// The answer to a click on the follow-ups of a past turn.
pub const PAST_TURN: &'static str = "🕯️ Ces propositions appartiennent à un tour déjà passé. Utilisez les boutons du dernier message, ou écrivez votre action.";

/// The answer to a click by a player who has not declared a character.
pub const ANNOUNCE_FIRST: &'static str = "🧛 Avant de jouer, dites-moi qui vous êtes avec la commande `/personnage` (par exemple `/personnage Buffy`).";

/// The answer to a click on a button that no longer exists (one of an earlier version).
pub const GONE_BUTTON: &'static str = "✍️ Ce bouton n'existe plus : écrivez votre action directement dans le salon.";

/// Announces a new adventure.
pub const NIGHT_FALLS: &'static str = "🧛 La nuit tombe sur Sunnydale... Une nouvelle aventure commence.";

/// The answer when the first narration of an adventure cannot be had.
pub const START_FAILED: &'static str = "🧛 La Bouche de l'Enfer brouille les ondes (impossible de démarrer l'aventure). Réessayez !";

/// The answer when a turn cannot be had from the model.
pub const TURN_FAILED: &'static str = "🧛 La Bouche de l'Enfer brouille les ondes. Reformulez ou réécrivez votre dernière action !";

/// The answer when the summary cannot be had.
pub const SUMMARY_FAILED: &'static str = "🧛 Impossible de rédiger le journal. Réessayez !";

/// The answer to `/model` in a channel without an adventure.
pub const MODEL_WITHOUT_ADVENTURE: &'static str = "Aucune aventure en cours. Lancez /start, puis choisissez le modèle avec /model.";

/// The answer to `/model` with another name than `gemini` or `mistral`.
pub const UNKNOWN_MODEL: &'static str = "⚠️ Modèle inconnu. Choisissez gemini ou mistral.";

/// The state of a new adventure in a channel. The model and the characters already
/// declared are kept; so are the turn counter, so that the buttons of the previous
/// adventure, still clickable, never designate follow-ups of the new one, and the
/// message that carries them, so that they are removed with the first narration.
pub fn restarted(previous: Option<&ConversationState>) -> (s: ConversationState)
    ensures
        match previous {
            Some(p) => {
                &&& s.provider == p.provider
                &&& s.characters@ == p.characters@
                &&& s.turn == p.turn
                &&& s.options_message_id == p.options_message_id
            },
            None => {
                &&& s.provider is None
                &&& s.characters@ == Map::<u64, String>::empty()
                &&& s.turn == 0
                &&& s.options_message_id is None
            },
        },
        s.last_roll is None,
        s.last_message_id is None,
        s.pending_options@.len() == 0,
        s.summary@.len() == 0,
        s.recent@.len() == 0,
{
    let mut s = ConversationState::new();
    if let Some(p) = previous {
        s.provider = p.provider;
        s.characters = p.characters.clone();
        s.turn = p.turn;
        s.options_message_id = p.options_message_id;
    }
    s
}

/// The instruction that starts an adventure: the initial state when one is given, and
/// the characters the players already play.
pub open spec fn start_text(initial_state: Seq<char>, roster: Seq<Seq<char>>) -> Seq<char> {
    let initial = trim(initial_state);
    "Commence une nouvelle aventure dans l'univers de Buffy contre les vampires."@ + (if initial.len() > 0 {
        " État initial : "@ + initial
    } else {
        seq![]
    }) + (if roster.len() > 0 {
        " Les joueurs incarnent déjà ces personnages : "@ + join(roster, ", "@) + "."@
    } else {
        seq![]
    })
}

pub fn start_message(initial_state: &str, roster: &[String]) -> (text: String)
    ensures
        text@ == start_text(initial_state@, views(roster@)),
{
    let mut text = string_of("Commence une nouvelle aventure dans l'univers de Buffy contre les vampires.");
    let initial = trim_str(initial_state);
    if !initial.as_str().is_empty() {
        text.append(" État initial : ");
        text.append(initial.as_str());
    }
    if roster.len() > 0 {
        text.append(" Les joueurs incarnent déjà ces personnages : ");
        text.append(join_strings(roster, ", ").as_str());
        text.append(".");
    }
    proof {
        reveal_strlit("");
    }
    text
}

/// The reminder of the characters kept from the previous adventure, if any.
pub fn roster_reminder(roster: &[String]) -> (text: Option<String>)
    ensures
        roster@.len() == 0 ==> text is None,
        roster@.len() > 0 ==> (text matches Some(t) && t@ == "🎭 Personnages repris de la partie précédente : "@
            + join(views(roster@), ", "@) + ". Changez-en avec `/personnage`."@),
{
    if roster.len() == 0 {
        return None;
    }
    let mut text = string_of("🎭 Personnages repris de la partie précédente : ");
    text.append(join_strings(roster, ", ").as_str());
    text.append(". Changez-en avec `/personnage`.");
    Some(text)
}

/// The answer to `/summary`: the Watcher's journal, to paste as the initial state of
/// `/start`.
pub fn summary_reply(summary: &str) -> (text: String)
    ensures
        text@ == "📓 Journal de l'Observateur (copiez-le comme état initial de /start) :\n\n"@ + summary@,
{
    let mut text = string_of("📓 Journal de l'Observateur (copiez-le comme état initial de /start) :\n\n");
    text.append(summary);
    text
}

/// What `/model` with this name chooses: a known provider whose key is configured, or
/// the answer that explains why not.
pub open spec fn model_choice_spec(config: Config, name: Seq<char>) -> Result<ModelProvider, Seq<char>> {
    match provider_named(name) {
        None => Err(UNKNOWN_MODEL@),
        Some(p) => if config.configured_key(p) is None {
            Err("⚠️ "@ + missing_key_text(p))
        } else {
            Ok(p)
        },
    }
}

pub fn model_choice(config: &Config, name: &str) -> (r: Result<ModelProvider, String>)
    ensures
        match (r, model_choice_spec(*config, name@)) {
            (Ok(p), Ok(q)) => p == q,
            (Err(t), Err(u)) => t@ == u,
            _ => false,
        },
{
    let provider = match provider_from_name(name) {
        Some(p) => p,
        None => {
            return Err(string_of(UNKNOWN_MODEL));
        },
    };
    match config.key_for(provider) {
        Ok(_) => Ok(provider),
        Err(e) => {
            let mut text = string_of("⚠️ ");
            text.append(e.message().as_str());
            Err(text)
        },
    }
}

/// The answer once the model of an adventure has changed.
pub fn model_changed(provider: ModelProvider) -> (text: String)
    ensures
        text@ == "🧛 Modèle changé : la suite de l'aventure sera racontée par "@ + provider_name(provider)
            + "."@,
{
    let mut text = string_of("🧛 Modèle changé : la suite de l'aventure sera racontée par ");
    text.append(provider.name());
    text.append(".");
    text
}

/// What the player is told when the narrator refuses an action.
pub fn refusal_reply(reason: &str) -> (text: String)
    ensures
        text@ == "⛔ "@ + reason@,
{
    let mut text = string_of("⛔ ");
    text.append(reason);
    text
}

/// What an ordinary message of a player leads to.
#[derive(Debug)]
pub enum PlayerTurn<'a> {
    /// Answer this text; the story does not move.
    Answer(String),
    /// The narrator tells this action of the player's character.
    Play { character: String, action: &'a str },
}

/// A `PlayerTurn` with its texts as character sequences.
pub enum PlayerTurnView {
    Answer(Seq<char>),
    Play(Seq<char>, Seq<char>),
}

impl<'a> View for PlayerTurn<'a> {
    type V = PlayerTurnView;

    open spec fn view(&self) -> PlayerTurnView {
        match self {
            PlayerTurn::Answer(t) => PlayerTurnView::Answer(t@),
            PlayerTurn::Play { character, action } => PlayerTurnView::Play(character@, action@),
        }
    }
}

/// The answer to an action of a player who has not declared a character: nothing is
/// guessed from the message, the identity is declared with `/personnage` only.
pub open spec fn announce_yourself_text(user: u64) -> Seq<char> {
    "🧛 <@"@ + decimal(user as nat)
        + ">, avant de jouer, dis-moi qui tu es avec la commande `/personnage` (par exemple `/personnage Buffy`). Tape `/personnage` sans rien préciser pour voir les personnages disponibles."@
}

/// What an ordinary message leads to, given the characters `m` before and `m2` after:
/// a typed `/personnage` assigns a character, `/help` answers the help, another typed
/// command is refused, and an action is played as the player's character, if they
/// declared one.
pub open spec fn player_turn_spec(
    m: Map<u64, String>,
    user: u64,
    input: InputView,
    m2: Map<u64, String>,
    turn: PlayerTurnView,
) -> bool {
    match input {
        InputView::Character(requested) => turn matches PlayerTurnView::Answer(a) && assignment(
            m,
            user,
            requested,
            m2,
            a,
        ),
        InputView::Help => m2 == m && turn == PlayerTurnView::Answer(HELP_TEXT@),
        InputView::UnknownCommand => m2 == m && turn == PlayerTurnView::Answer(UNKNOWN_TYPED_COMMAND@),
        InputView::Action(action) => m2 == m && if m.contains_key(user) {
            turn == PlayerTurnView::Play(m[user]@, action)
        } else {
            turn == PlayerTurnView::Answer(announce_yourself_text(user))
        },
    }
}

/// Handles what a player typed in the channel, as `user`.
pub fn player_turn<'a>(state: &mut ConversationState, user: u64, input: PlayerInput<'a>) -> (turn: PlayerTurn<'a>)
    ensures
        same_but_characters(*old(state), *final(state)),
        player_turn_spec(old(state).characters@, user, input@, final(state).characters@, turn@),
{
    match input {
        PlayerInput::Character(requested) => PlayerTurn::Answer(assign_character(state, user, requested)),
        PlayerInput::Help => PlayerTurn::Answer(string_of(HELP_TEXT)),
        PlayerInput::UnknownCommand => PlayerTurn::Answer(string_of(UNKNOWN_TYPED_COMMAND)),
        PlayerInput::Action(action) => match state.character_of(user) {
            Some(character) => PlayerTurn::Play { character: string_of(character), action },
            None => {
                let mut text = string_of("🧛 <@");
                text.append(decimal_string(user).as_str());
                text.append(
                    ">, avant de jouer, dis-moi qui tu es avec la commande `/personnage` (par exemple `/personnage Buffy`). Tape `/personnage` sans rien préciser pour voir les personnages disponibles.",
                );
                PlayerTurn::Answer(text)
            },
        },
    }
}

/// What a click on follow-up `index` of turn `turn` leads to.
#[derive(Debug)]
pub enum Click {
    /// Tell the clicking player alone this text; nothing else happens.
    Ephemeral(&'static str),
    /// The narrator tells the follow-up as the action of the player's character.
    Play { character: String, option: String },
}

/// A `Click` with its texts as character sequences.
pub enum ClickView {
    Ephemeral(Seq<char>),
    Play(Seq<char>, Seq<char>),
}

impl View for Click {
    type V = ClickView;

    open spec fn view(&self) -> ClickView {
        match self {
            Click::Ephemeral(t) => ClickView::Ephemeral(t@),
            Click::Play { character, option } => ClickView::Play(character@, option@),
        }
    }
}

/// What a click by `user` on follow-up `index` of turn `turn` leads to. The follow-ups
/// name nobody: the character of the player who clicks does the action. A click on the
/// buttons of a past turn does nothing.
pub open spec fn click_spec(state: ConversationState, user: u64, turn: u64, index: int) -> ClickView {
    let m = state.characters@;
    let pending = views(state.pending_options@);
    if turn != state.turn || index >= pending.len() {
        ClickView::Ephemeral(PAST_TURN@)
    } else if !m.contains_key(user) {
        ClickView::Ephemeral(ANNOUNCE_FIRST@)
    } else {
        ClickView::Play(m[user]@, pending[index])
    }
}

/// Handles a click by `user` on follow-up `index` of turn `turn`.
pub fn click(state: &ConversationState, user: u64, turn: u64, index: usize) -> (c: Click)
    ensures
        c@ == click_spec(*state, user, turn, index as int),
{
    if turn != state.turn || index >= state.pending_options.len() {
        return Click::Ephemeral(PAST_TURN);
    }
    match state.character_of(user) {
        None => Click::Ephemeral(ANNOUNCE_FIRST),
        Some(character) => Click::Play {
            character: string_of(character),
            option: state.pending_options[index].clone(),
        },
    }
}

/// The message that carries the buttons of the turn just told: the one sent, when it
/// has buttons.
pub fn buttons_message(has_buttons: bool, sent: Option<u64>) -> (r: Option<u64>)
    ensures
        r == if has_buttons {
            sent
        } else {
            None
        },
{
    if has_buttons {
        sent
    } else {
        None
    }
}

/// Once a story is told, the buttons of the turn before do nothing: a click on them is
/// answered that they belong to a past turn, whoever clicks and whichever follow-up.
pub proof fn lemma_told_story_retires_buttons(
    before: ConversationState,
    after: ConversationState,
    story: Seq<char>,
    options: Seq<Seq<char>>,
    user: u64,
    index: int,
)
    requires
        told(before, after, story, options),
    ensures
        click_spec(after, user, before.turn, index) == ClickView::Ephemeral(PAST_TURN@),
{
}

} // verus!
