//! What players type in a channel: game actions, typed commands, table talk.
use vstd::prelude::*;

use crate::text::{
    chars_equal, chars_of, chars_start_with, copy_range, count_leading, lead, lower_text, lowered,
    starts_with, trim, trim_range, CharClass,
};

verus! {

/// What an ordinary channel message asks of the bot.
#[derive(Debug, PartialEq, Eq)]
pub enum PlayerInput<'a> {
    /// A game action, for the narrator to tell.
    Action(&'a str),
    /// `/personnage [name]` typed as text: a Discord client that does not know the
    /// slash command yet sends it as an ordinary message.
    Character(&'a str),
    Help,
    /// Another typed command: it only exists as a slash command, and it must never
    /// reach the model as an action.
    UnknownCommand,
}

/// A `PlayerInput` with its texts as character sequences.
pub enum InputView {
    Action(Seq<char>),
    Character(Seq<char>),
    Help,
    UnknownCommand,
}

impl<'a> View for PlayerInput<'a> {
    type V = InputView;

    open spec fn view(&self) -> InputView {
        match self {
            PlayerInput::Action(t) => InputView::Action(t@),
            PlayerInput::Character(t) => InputView::Character(t@),
            PlayerInput::Help => InputView::Help,
            PlayerInput::UnknownCommand => InputView::UnknownCommand,
        }
    }
}

pub open spec fn input_view(r: Option<PlayerInput>) -> Option<InputView> {
    match r {
        Some(p) => Some(p@),
        None => None,
    }
}

/// Table talk that the bot leaves alone: `/ignore…`, `/i`, `/i …` or `!…`.
pub open spec fn is_table_talk(t: Seq<char>) -> bool {
    starts_with(t, "/ignore"@) || t == "/i"@ || starts_with(t, "/i "@) || starts_with(t, "!"@)
}

/// The name of the typed command `t` (`/name argument`): what follows the slash, up to
/// the first whitespace.
pub open spec fn command_name(t: Seq<char>) -> Seq<char> {
    let c = t.skip(1);
    c.take(lead(c, CharClass::NotWhitespace) as int)
}

/// The argument of the typed command `t`: what follows the first whitespace after the
/// name, trimmed; nothing when the name is all there is.
pub open spec fn command_argument(t: Seq<char>) -> Seq<char> {
    let c = t.skip(1);
    let k = lead(c, CharClass::NotWhitespace);
    if k < c.len() {
        trim(c.skip(k + 1int))
    } else {
        seq![]
    }
}

/// What a typed command asks, from its name in lower case.
pub open spec fn command_input(lowered: Seq<char>, argument: Seq<char>) -> InputView {
    if lowered == "personnage"@ {
        InputView::Character(argument)
    } else if lowered == "help"@ || lowered == "aide"@ {
        InputView::Help
    } else {
        InputView::UnknownCommand
    }
}

/// What the text of a message asks: nothing for an empty text or table talk, a
/// command for a text that starts with a slash, an action otherwise. The command name
/// is compared in lower case (`str::to_lowercase`, which lowers the ASCII letters of an
/// ASCII name).
pub open spec fn read_input(content: Seq<char>) -> Option<InputView> {
    let t = trim(content);
    if t.len() == 0 || is_table_talk(t) {
        None
    } else if t[0] != '/' {
        Some(InputView::Action(t))
    } else {
        Some(command_input(lowered(command_name(t)), command_argument(t)))
    }
}

/// What a typed command asks, given its name already in lower case.
pub fn typed_command<'a>(lowered: &str, argument: &'a str) -> (r: PlayerInput<'a>)
    ensures
        r@ == command_input(lowered@, argument@),
{
    let name = chars_of(lowered);
    if chars_equal(&name, &chars_of("personnage")) {
        PlayerInput::Character(argument)
    } else if chars_equal(&name, &chars_of("help")) || chars_equal(&name, &chars_of("aide")) {
        PlayerInput::Help
    } else {
        PlayerInput::UnknownCommand
    }
}

/// Reads the text of a message alone, without the message around it.
pub fn parse_input<'a>(content: &'a str) -> (r: Option<PlayerInput<'a>>)
    ensures
        input_view(r) == read_input(content@),
{
    let s = chars_of(content);
    let n = s.len();
    let (lo, hi) = trim_range(&s, 0, n, CharClass::Whitespace);
    assert(s@.subrange(0, n as int) =~= s@);
    let ghost t = trim(content@);
    assert(t == s@.subrange(lo as int, hi as int));
    if lo == hi {
        return None;
    }
    let text = copy_range(&s, lo, hi);
    if chars_start_with(&text, "/ignore") || chars_equal(&text, &chars_of("/i"))
        || chars_start_with(&text, "/i ") || chars_start_with(&text, "!") {
        return None;
    }
    if text[0] != '/' {
        return Some(PlayerInput::Action(content.substring_char(lo, hi)));
    }
    let k = count_leading(&s, lo + 1, hi, CharClass::NotWhitespace);
    let ghost c = t.skip(1);
    assert(c =~= s@.subrange(lo + 1, hi as int));
    let name = content.substring_char(lo + 1, lo + 1 + k);
    assert(name@ =~= command_name(t));
    let argument: &'a str = if lo + 1 + k < hi {
        let (a, b) = trim_range(&s, lo + 2 + k, hi, CharClass::Whitespace);
        assert(c.skip(k + 1int) =~= s@.subrange(lo + 2 + k, hi as int));
        content.substring_char(a, b)
    } else {
        proof {
            reveal_strlit("");
        }
        ""
    };
    assert(argument@ =~= command_argument(t));
    let name_lowered = lower_text(name);
    Some(typed_command(name_lowered.as_str(), argument))
}

/// What an ordinary message asks of the bot, or `None` when it is not for the bot: a
/// bot's message, a reply to another message (a player talking to another), or a text
/// that `parse_input` leaves alone.
pub fn player_input<'a>(author_is_bot: bool, is_reply: bool, content: &'a str) -> (r: Option<PlayerInput<'a>>)
    ensures
        input_view(r) == if author_is_bot || is_reply {
            None
        } else {
            read_input(content@)
        },
{
    if author_is_bot || is_reply {
        return None;
    }
    parse_input(content)
}

/// Whether a message is replayed after a downtime: actions and character declarations
/// are, help and mistyped commands are not.
pub open spec fn replayable(r: Option<InputView>) -> bool {
    match r {
        Some(InputView::Action(_)) => true,
        Some(InputView::Character(_)) => true,
        _ => false,
    }
}

/// Whether a message of a bot or not, a reply or not, with this text, is replayed.
pub open spec fn replayable_message(author_is_bot: bool, is_reply: bool, content: Seq<char>) -> bool {
    replayable(
        if author_is_bot || is_reply {
            None
        } else {
            read_input(content)
        },
    )
}

pub fn is_replayable(author_is_bot: bool, is_reply: bool, content: &str) -> (b: bool)
    ensures
        b == replayable_message(author_is_bot, is_reply, content@),
{
    match player_input(author_is_bot, is_reply, content) {
        Some(PlayerInput::Action(_)) => true,
        Some(PlayerInput::Character(_)) => true,
        _ => false,
    }
}

/// A message that starts with a slash is never played as an action: Discord sends a
/// command its client does not know yet as an ordinary message.
pub proof fn lemma_slash_messages_are_never_actions(content: Seq<char>)
    requires
        trim(content).len() > 0,
        trim(content)[0] == '/',
    ensures
        !(read_input(content) matches Some(InputView::Action(_))),
{
}

} // verus!
