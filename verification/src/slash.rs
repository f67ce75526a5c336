//! The slash commands the bot declares to Discord.
use vstd::prelude::*;

use crate::state::str_equal;

verus! {

/// The type of a command option.
#[derive(Clone, Copy, Debug, PartialEq, Eq, Structural)]
pub enum OptionKind {
    Text,
    Flag,
}

/// An option of a slash command.
#[derive(Clone, Debug)]
pub struct CommandOption {
    pub kind: OptionKind,
    pub name: &'static str,
    pub description: &'static str,
    pub required: bool,
    /// The values offered, each with itself as label; none for free input.
    pub choices: Vec<&'static str>,
}

/// A slash command.
#[derive(Clone, Debug)]
pub struct SlashCommand {
    pub name: &'static str,
    pub description: &'static str,
    pub options: Vec<CommandOption>,
}

pub open spec fn option_is(
    o: CommandOption,
    kind: OptionKind,
    name: Seq<char>,
    description: Seq<char>,
    required: bool,
    choices: Seq<Seq<char>>,
) -> bool {
    &&& o.kind == kind
    &&& o.name@ == name
    &&& o.description@ == description
    &&& o.required == required
    &&& o.choices@.len() == choices.len()
    &&& forall|i: int| 0 <= i < choices.len() ==> (#[trigger] o.choices@[i])@ == choices[i]
}

pub open spec fn command_is(c: SlashCommand, name: Seq<char>, description: Seq<char>, option_count: nat) -> bool {
    c.name@ == name && c.description@ == description && c.options@.len() == option_count
}

fn free_option(kind: OptionKind, name: &'static str, description: &'static str) -> (o: CommandOption)
    ensures
        option_is(o, kind, name@, description@, false, seq![]),
{
    CommandOption { kind, name, description, required: false, choices: Vec::new() }
}

fn command(name: &'static str, description: &'static str, options: Vec<CommandOption>) -> (c: SlashCommand)
    ensures
        c.name == name,
        c.description == description,
        c.options@ == options@,
{
    SlashCommand { name, description, options }
}

/// The commands: `/start [etat]`, `/help`, `/summary`, `/model modele` (gemini or
/// mistral), `/personnage [nom]` and `/deploy [force]`.
pub fn slash_commands() -> (cs: Vec<SlashCommand>)
    ensures
        cs@.len() == 6,
        command_is(cs@[0], "start"@, "Commencer une nouvelle aventure à Sunnydale."@, 1),
        option_is(
            cs@[0].options@[0],
            OptionKind::Text,
            "etat"@,
            "État initial facultatif (par exemple un résumé obtenu via /summary)."@,
            false,
            seq![],
        ),
        command_is(cs@[1], "help"@, "Afficher l'aide."@, 0),
        command_is(
            cs@[2],
            "summary"@,
            "Obtenir un résumé complet de l'aventure pour la reprendre ailleurs."@,
            0,
        ),
        command_is(cs@[3], "model"@, "Choisir le modèle IA qui raconte l'histoire."@, 1),
        option_is(
            cs@[3].options@[0],
            OptionKind::Text,
            "modele"@,
            "Modèle à utiliser."@,
            true,
            seq!["gemini"@, "mistral"@],
        ),
        command_is(
            cs@[4],
            "personnage"@,
            "Annoncer qui vous incarnez (sans rien : la liste des personnages)."@,
            1,
        ),
        option_is(
            cs@[4].options@[0],
            OptionKind::Text,
            "nom"@,
            "Le personnage que vous incarnez, en texte libre (ex : Buffy)."@,
            false,
            seq![],
        ),
        command_is(cs@[5], "deploy"@, "Déployer la dernière version du bot (admin seulement)."@, 1),
        option_is(
            cs@[5].options@[0],
            OptionKind::Flag,
            "force"@,
            "Déployer malgré des modifications locales non commitées."@,
            false,
            seq![],
        ),
{
    let mut cs: Vec<SlashCommand> = Vec::new();
    let mut start_options: Vec<CommandOption> = Vec::new();
    start_options.push(
        free_option(
            OptionKind::Text,
            "etat",
            "État initial facultatif (par exemple un résumé obtenu via /summary).",
        ),
    );
    cs.push(command("start", "Commencer une nouvelle aventure à Sunnydale.", start_options));
    cs.push(command("help", "Afficher l'aide.", Vec::new()));
    cs.push(
        command(
            "summary",
            "Obtenir un résumé complet de l'aventure pour la reprendre ailleurs.",
            Vec::new(),
        ),
    );
    let mut choices: Vec<&'static str> = Vec::new();
    choices.push("gemini");
    choices.push("mistral");
    let mut model_options: Vec<CommandOption> = Vec::new();
    model_options.push(
        CommandOption {
            kind: OptionKind::Text,
            name: "modele",
            description: "Modèle à utiliser.",
            required: true,
            choices,
        },
    );
    cs.push(command("model", "Choisir le modèle IA qui raconte l'histoire.", model_options));
    let mut character_options: Vec<CommandOption> = Vec::new();
    character_options.push(
        free_option(
            OptionKind::Text,
            "nom",
            "Le personnage que vous incarnez, en texte libre (ex : Buffy).",
        ),
    );
    cs.push(
        command(
            "personnage",
            "Annoncer qui vous incarnez (sans rien : la liste des personnages).",
            character_options,
        ),
    );
    let mut deploy_options: Vec<CommandOption> = Vec::new();
    deploy_options.push(
        free_option(
            OptionKind::Flag,
            "force",
            "Déployer malgré des modifications locales non commitées.",
        ),
    );
    cs.push(command("deploy", "Déployer la dernière version du bot (admin seulement).", deploy_options));
    cs
}

/// The value of an option given with a slash command.
#[derive(Clone, Debug)]
pub enum ArgValue {
    Text(String),
    Flag(bool),
    /// Any other kind of value.
    Other,
}

/// An option given with a slash command.
#[derive(Clone, Debug)]
pub struct CommandArg {
    pub name: String,
    pub value: ArgValue,
}

/// `i` is the first option named `name`.
pub open spec fn first_named(args: Seq<CommandArg>, name: Seq<char>, i: int) -> bool {
    &&& 0 <= i < args.len()
    &&& args[i].name@ == name
    &&& forall|j: int| 0 <= j < i ==> (#[trigger] args[j]).name@ != name
}

/// No option is named `name`.
pub open spec fn none_named(args: Seq<CommandArg>, name: Seq<char>) -> bool {
    forall|j: int| 0 <= j < args.len() ==> (#[trigger] args[j]).name@ != name
}

/// The position of the first option named `name`.
fn find_arg(args: &[CommandArg], name: &str) -> (r: Option<usize>)
    ensures
        match r {
            Some(i) => first_named(args@, name@, i as int),
            None => none_named(args@, name@),
        },
{
    let mut i: usize = 0;
    while i < args.len()
        invariant
            i <= args.len(),
            forall|j: int| 0 <= j < i ==> (#[trigger] args@[j]).name@ != name@,
        decreases args.len() - i,
    {
        if str_equal(args[i].name.as_str(), name) {
            return Some(i);
        }
        i = i + 1;
    }
    None
}

/// The text of the first option named `name`; `None` when there is none, or when it
/// is not a text.
pub fn string_option<'a>(args: &'a [CommandArg], name: &str) -> (r: Option<&'a str>)
    ensures
        none_named(args@, name@) ==> r is None,
        forall|i: int|
            #![trigger args@[i]]
            first_named(args@, name@, i) ==> match args@[i].value {
                ArgValue::Text(s) => r matches Some(t) && t@ == s@,
                _ => r is None,
            },
{
    match find_arg(args, name) {
        Some(i) => match &args[i].value {
            ArgValue::Text(s) => Some(s.as_str()),
            _ => None,
        },
        None => None,
    }
}

/// The flag of the first option named `name`; `None` when there is none, or when it is
/// not a flag.
pub fn bool_option(args: &[CommandArg], name: &str) -> (r: Option<bool>)
    ensures
        none_named(args@, name@) ==> r is None,
        forall|i: int|
            #![trigger args@[i]]
            first_named(args@, name@, i) ==> match args@[i].value {
                ArgValue::Flag(b) => r == Some(b),
                _ => r is None,
            },
{
    match find_arg(args, name) {
        Some(i) => match &args[i].value {
            ArgValue::Flag(b) => Some(*b),
            _ => None,
        },
        None => None,
    }
}

} // verus!
