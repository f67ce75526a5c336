//! Who plays whom: declaring a character, and the menu of characters.
use vstd::prelude::*;

use vstd::std_specs::btree::spec_keys_iter;
use vstd::std_specs::iter::IteratorSpec;

use crate::order::lemma_increasing_keys;
use crate::state::{
    character_name, cleaned_name, distinct_characters, straight_apostrophes, first_owner, keys_in_order, lemma_first_owner_exists,
    lemma_first_owner_unique, lemma_sorted_keys, same_but_characters, sanitize_character_name,
    sorted_keys, taken_by_other, ConversationState,
};
use crate::text::{
    char_count, decimal, decimal_string, eq_ignore_ascii_case, join, join_strings,
    lemma_eq_ignore_ascii_case_laws, string_of, trim, trim_str, views,
};

verus! {

/// Number of characters of the series that the menu suggests.
pub const SUGGESTED_CHARACTER_COUNT: usize = 10;

/// The name of suggested character `i`.
pub open spec fn suggested_name(i: int) -> Seq<char> {
    if i == 0 {
        "Buffy"@
    } else if i == 1 {
        "Giles"@
    } else if i == 2 {
        "Willow"@
    } else if i == 3 {
        "Alex"@
    } else if i == 4 {
        "Angel"@
    } else if i == 5 {
        "Spike"@
    } else if i == 6 {
        "Cordelia"@
    } else if i == 7 {
        "Faith"@
    } else if i == 8 {
        "Anya"@
    } else {
        "Tara"@
    }
}

/// The description of suggested character `i`.
pub open spec fn suggested_description(i: int) -> Seq<char> {
    if i == 0 {
        "la Tueuse : force et réflexes surhumains, et un lycée à finir quand même"@
    } else if i == 1 {
        "l'Observateur du Conseil, bibliothécaire, érudit en démons et en vieux grimoires"@
    } else if i == 2 {
        "l'amie surdouée, hackeuse, devenue sorcière de plus en plus puissante"@
    } else if i == 3 {
        "le cœur de la bande (Xander) : aucun pouvoir, beaucoup d'humour et de courage"@
    } else if i == 4 {
        "le vampire à l'âme rendue, rongé par les crimes de son passé"@
    } else if i == 5 {
        "le vampire punk, imprévisible, allié un soir et ennemi le lendemain"@
    } else if i == 6 {
        "la reine du lycée, franche jusqu'à la cruauté, plus brave qu'elle ne l'admet"@
    } else if i == 7 {
        "la Tueuse rivale, instinctive, séduisante et dangereuse"@
    } else if i == 8 {
        "l'ex-démone de la vengeance : mille ans de rancune et aucun tact"@
    } else {
        "la sorcière douce et discrète, spécialiste des sorts de protection"@
    }
}

/// Suggested character `i`: its name and its description.
pub fn suggested_character(i: usize) -> (c: (&'static str, &'static str))
    requires
        i < SUGGESTED_CHARACTER_COUNT,
    ensures
        c.0@ == suggested_name(i as int),
        c.1@ == suggested_description(i as int),
{
    if i == 0 {
        ("Buffy", "la Tueuse : force et réflexes surhumains, et un lycée à finir quand même")
    } else if i == 1 {
        ("Giles", "l'Observateur du Conseil, bibliothécaire, érudit en démons et en vieux grimoires")
    } else if i == 2 {
        ("Willow", "l'amie surdouée, hackeuse, devenue sorcière de plus en plus puissante")
    } else if i == 3 {
        ("Alex", "le cœur de la bande (Xander) : aucun pouvoir, beaucoup d'humour et de courage")
    } else if i == 4 {
        ("Angel", "le vampire à l'âme rendue, rongé par les crimes de son passé")
    } else if i == 5 {
        ("Spike", "le vampire punk, imprévisible, allié un soir et ennemi le lendemain")
    } else if i == 6 {
        ("Cordelia", "la reine du lycée, franche jusqu'à la cruauté, plus brave qu'elle ne l'admet")
    } else if i == 7 {
        ("Faith", "la Tueuse rivale, instinctive, séduisante et dangereuse")
    } else if i == 8 {
        ("Anya", "l'ex-démone de la vengeance : mille ans de rancune et aucun tact")
    } else {
        ("Tara", "la sorcière douce et discrète, spécialiste des sorts de protection")
    }
}

/// The line of another player in the menu: the character, then the player.
pub open spec fn other_line(name: Seq<char>, id: u64) -> Seq<char> {
    "- **"@ + name + "** — <@"@ + decimal(id as nat) + ">"@
}

/// The lines of the players of `ks` other than `user`, in the order of `ks`.
pub open spec fn other_lines(m: Map<u64, String>, ks: Seq<u64>, user: u64) -> Seq<Seq<char>>
    decreases ks.len(),
{
    if ks.len() == 0 {
        seq![]
    } else {
        let prev = other_lines(m, ks.drop_last(), user);
        if ks.last() == user {
            prev
        } else {
            prev.push(other_line(m[ks.last()]@, ks.last()))
        }
    }
}

/// The start of the menu: who the player is, or that they have no character yet.
pub open spec fn menu_head(m: Map<u64, String>, user: u64) -> Seq<char> {
    if m.contains_key(user) {
        "🎭 Vous incarnez **"@ + m[user]@ + "**. Dans vos messages, « je » désigne "@ + m[user]@
            + ".\nPour changer, tapez `/personnage` suivi d'un autre nom.\n"@
    } else {
        "🎭 Vous n'avez pas encore de personnage : vos actions ne seront pas jouées tant que vous ne vous serez pas annoncé.\nTapez `/personnage` suivi du nom de votre choix (par exemple `/personnage Buffy`) — un personnage de la série ou le vôtre.\n"@
    }
}

/// The characters of the other players, in the order of their ids; nothing when there
/// are none.
pub open spec fn others_block(m: Map<u64, String>, user: u64) -> Seq<char> {
    let lines = other_lines(m, sorted_keys(m), user);
    if lines.len() > 0 {
        "\nDéjà incarnés dans cette aventure :\n"@ + join(lines, "\n"@) + "\n"@
    } else {
        seq![]
    }
}

/// The line of suggested character `i`, marked when another player plays it.
pub open spec fn suggestion_line(m: Map<u64, String>, user: u64, i: int) -> Seq<char> {
    "- **"@ + suggested_name(i) + "** — "@ + suggested_description(i) + (if taken_by_other(
        m,
        suggested_name(i),
        user,
    ) {
        " *(déjà pris)*"@
    } else {
        seq![]
    }) + "\n"@
}

/// The lines of the first `k` suggested characters.
pub open spec fn suggestion_lines(m: Map<u64, String>, user: u64, k: nat) -> Seq<char>
    decreases k,
{
    if k == 0 {
        seq![]
    } else {
        suggestion_lines(m, user, (k - 1) as nat) + suggestion_line(m, user, k - 1)
    }
}

/// The answer to `/personnage` without a name: who the player is, who the others are,
/// and a few characters of the series.
pub open spec fn menu_text(m: Map<u64, String>, user: u64) -> Seq<char> {
    menu_head(m, user) + others_block(m, user) + "\nQuelques figures de Sunnydale :\n"@
        + suggestion_lines(m, user, SUGGESTED_CHARACTER_COUNT as nat)
}

/// Whether another player than `user` plays the character `name`.
pub fn is_taken_by_other(state: &ConversationState, name: &str, user: u64) -> (b: bool)
    ensures
        b == taken_by_other(state.characters@, name@, user),
{
    let ghost m = state.characters@;
    match state.owner_of_character(name) {
        Some(o) => {
            proof {
                if o == user && taken_by_other(m, name@, user) {
                    let p = choose|p: u64| first_owner(m, name@, Some(p)) && p != user;
                    lemma_first_owner_unique(m, name@, Some(o), Some(p));
                }
            }
            o != user
        },
        None => {
            proof {
                if taken_by_other(m, name@, user) {
                    let p = choose|p: u64| first_owner(m, name@, Some(p)) && p != user;
                    lemma_first_owner_unique(m, name@, None, Some(p));
                }
            }
            false
        },
    }
}

/// The menu lines of the players other than `user`, in the order of their ids.
pub fn other_player_lines(state: &ConversationState, user: u64) -> (lines: Vec<String>)
    ensures
        views(lines@) == other_lines(state.characters@, sorted_keys(state.characters@), user),
{
    let mut lines: Vec<String> = Vec::new();
    let ghost m = state.characters@;
    let ghost ks = spec_keys_iter(&state.characters).remaining();
    let ghost keys = ks.unref();
    proof {
        lemma_increasing_keys(ks);
    }
    for key in it: state.characters.keys()
        invariant
            m == state.characters@,
            it.seq() == ks,
            keys == ks.unref(),
            keys.to_set() == m.dom(),
            it.index() <= keys.len(),
            views(lines@) == other_lines(m, keys.take(it.index() as int), user),
    {
        let id = *key;
        let ghost i = it.index() as int;
        assert(keys[i] == id);
        assert(m.contains_key(id));
        assert(keys.take(i + 1).drop_last() =~= keys.take(i));
        assert(keys.take(i + 1).last() == id);
        if id != user {
            match state.characters.get(&id) {
                Some(name) => {
                    let mut line = string_of("- **");
                    line.append(name.as_str());
                    line.append("** — <@");
                    line.append(decimal_string(id).as_str());
                    line.append(">");
                    let ghost prev = views(lines@);
                    lines.push(line);
                    assert(views(lines@) =~= prev.push(line@));
                },
                None => {},
            }
        }
    }
    proof {
        assert(keys.no_duplicates());
        assert(keys_in_order(m, keys));
        lemma_sorted_keys(m, keys);
        assert(keys.take(keys.len() as int) =~= keys);
    }
    lines
}

/// The answer to `/personnage` without a name.
pub fn character_menu(state: &ConversationState, user: u64) -> (menu: String)
    ensures
        menu@ == menu_text(state.characters@, user),
{
    let ghost m = state.characters@;
    let mut menu = match state.character_of(user) {
        Some(name) => {
            let mut head = string_of("🎭 Vous incarnez **");
            head.append(name);
            head.append("**. Dans vos messages, « je » désigne ");
            head.append(name);
            head.append(".\nPour changer, tapez `/personnage` suivi d'un autre nom.\n");
            head
        },
        None => string_of(
            "🎭 Vous n'avez pas encore de personnage : vos actions ne seront pas jouées tant que vous ne vous serez pas annoncé.\nTapez `/personnage` suivi du nom de votre choix (par exemple `/personnage Buffy`) — un personnage de la série ou le vôtre.\n",
        ),
    };
    assert(menu@ == menu_head(m, user));
    let others = other_player_lines(state, user);
    if others.len() > 0 {
        menu.append("\nDéjà incarnés dans cette aventure :\n");
        menu.append(join_strings(&others, "\n").as_str());
        menu.append("\n");
    }
    assert(menu@ == menu_head(m, user) + others_block(m, user));
    menu.append("\nQuelques figures de Sunnydale :\n");
    let ghost start = menu@;
    let mut i: usize = 0;
    while i < SUGGESTED_CHARACTER_COUNT
        invariant
            i <= SUGGESTED_CHARACTER_COUNT,
            m == state.characters@,
            menu@ == start + suggestion_lines(m, user, i as nat),
        decreases SUGGESTED_CHARACTER_COUNT - i,
    {
        let (name, description) = suggested_character(i);
        let taken = is_taken_by_other(state, name, user);
        let ghost before = menu@;
        menu.append("- **");
        menu.append(name);
        menu.append("** — ");
        menu.append(description);
        if taken {
            menu.append(" *(déjà pris)*");
        }
        menu.append("\n");
        proof {
            reveal_strlit("");
            assert(menu@ =~= before + suggestion_line(m, user, i as int));
        }
        i = i + 1;
    }
    menu
}

/// The answer to a name that `sanitize_character_name` refuses.
pub open spec fn invalid_name_text() -> Seq<char> {
    "⚠️ Nom de personnage invalide : lettres, espaces, traits d'union et apostrophes uniquement, trois mots au maximum."@
}

/// The answer to a character that another player already plays.
pub open spec fn taken_text(name: Seq<char>, owner: u64) -> Seq<char> {
    "⛔ **"@ + name + "** est déjà incarné par <@"@ + decimal(owner as nat)
        + ">. Choisissez un autre personnage."@
}

/// The answer to a character recorded for a player.
pub open spec fn assigned_text(user: u64, name: Seq<char>) -> Seq<char> {
    "🎭 <@"@ + decimal(user as nat) + "> incarne **"@ + name
        + "**. Dans vos messages, « je » désigne désormais "@ + name + "."@
}

/// `m2` is `m` where `user` now plays `name`.
pub open spec fn plays(m2: Map<u64, String>, m: Map<u64, String>, user: u64, name: Seq<char>) -> bool {
    &&& m2.dom() == m.dom().insert(user)
    &&& m2[user]@ == name
    &&& forall|v: u64| #[trigger] m.contains_key(v) && v != user ==> m2[v] == m[v]
}

/// What `assign_character` does with the characters `m` when `user` asks for
/// `requested`: `m2` is the characters after, `answer` what the player is told.
/// Without a name, the menu; with a name that `sanitize_character_name` refuses, a
/// refusal; with one that another player plays, a refusal naming that player;
/// otherwise the player plays the character. Only the last case changes anything.
pub open spec fn assignment(
    m: Map<u64, String>,
    user: u64,
    requested: Seq<char>,
    m2: Map<u64, String>,
    answer: Seq<char>,
) -> bool {
    let r = trim(requested);
    if r.len() == 0 {
        m2 == m && answer == menu_text(m, user)
    } else {
        match character_name(r) {
            None => m2 == m && answer == invalid_name_text(),
            Some(n) => if taken_by_other(m, n, user) {
                &&& m2 == m
                &&& exists|o: u64| first_owner(m, n, Some(o)) && o != user && answer == taken_text(n, o)
            } else {
                plays(m2, m, user, n) && answer == assigned_text(user, n)
            },
        }
    }
}

/// Records the character of a player and returns what to tell them. Shared by the
/// slash command and by `/personnage` typed as text: the state changes only when the
/// name is valid and not played by someone else.
pub fn assign_character(state: &mut ConversationState, user: u64, requested: &str) -> (answer: String)
    ensures
        same_but_characters(*old(state), *final(state)),
        assignment(old(state).characters@, user, requested@, final(state).characters@, answer@),
{
    let trimmed = trim_str(requested);
    if char_count(trimmed.as_str()) == 0 {
        return character_menu(state, user);
    }
    let name = match sanitize_character_name(trimmed.as_str()) {
        Some(n) => n,
        None => {
            return string_of(
                "⚠️ Nom de personnage invalide : lettres, espaces, traits d'union et apostrophes uniquement, trois mots au maximum.",
            );
        },
    };
    let ghost m = state.characters@;
    if let Some(owner) = state.owner_of_character(name.as_str()) {
        if owner != user {
            let mut answer = string_of("⛔ **");
            answer.append(name.as_str());
            answer.append("** est déjà incarné par <@");
            answer.append(decimal_string(owner).as_str());
            answer.append(">. Choisissez un autre personnage.");
            assert(first_owner(m, name@, Some(owner)) && owner != user && answer@ == taken_text(name@, owner));
            return answer;
        } else {
            proof {
                if taken_by_other(m, name@, user) {
                    let p = choose|p: u64| first_owner(m, name@, Some(p)) && p != user;
                    lemma_first_owner_unique(m, name@, Some(owner), Some(p));
                }
            }
        }
    } else {
        proof {
            if taken_by_other(m, name@, user) {
                let p = choose|p: u64| first_owner(m, name@, Some(p)) && p != user;
                lemma_first_owner_unique(m, name@, None, Some(p));
            }
        }
    }
    state.characters.insert(user, name.clone());
    let mut answer = string_of("🎭 <@");
    answer.append(decimal_string(user).as_str());
    answer.append("> incarne **");
    answer.append(name.as_str());
    answer.append("**. Dans vos messages, « je » désigne désormais ");
    answer.append(name.as_str());
    answer.append(".");
    answer
}

/// A valid name that no other player plays is taken up: after the request the player
/// plays it, whether or not they had a character before; every other player keeps
/// theirs, and the player is told the character they now play.
pub proof fn lemma_free_name_is_taken_up(
    m: Map<u64, String>,
    user: u64,
    requested: Seq<char>,
    name: Seq<char>,
    m2: Map<u64, String>,
    answer: Seq<char>,
)
    requires
        assignment(m, user, requested, m2, answer),
        character_name(trim(requested)) == Some(name),
        forall|v: u64| #[trigger] m.contains_key(v) && v != user ==> !eq_ignore_ascii_case(m[v]@, name),
    ensures
        m2.contains_key(user),
        m2[user]@ == name,
        m2.dom() == m.dom().insert(user),
        forall|v: u64| #[trigger] m.contains_key(v) && v != user ==> m2[v] == m[v],
        answer == "🎭 <@"@ + decimal(user as nat) + "> incarne **"@ + name
            + "**. Dans vos messages, « je » désigne désormais "@ + name + "."@,
{
    let r = trim(requested);
    if r.len() == 0 {
        assert(straight_apostrophes(r).len() == 0);
        assert(cleaned_name(r).len() == 0);
    }
    if taken_by_other(m, name, user) {
        let o = choose|o: u64| first_owner(m, name, Some(o)) && o != user;
        assert(m.contains_key(o) && o != user);
    }
}

/// Two players never play the same character, ASCII case aside: if no two did before a
/// `/personnage` request, none do after it.
pub proof fn lemma_assignment_keeps_characters_distinct(
    m: Map<u64, String>,
    user: u64,
    requested: Seq<char>,
    m2: Map<u64, String>,
    answer: Seq<char>,
)
    requires
        distinct_characters(m),
        assignment(m, user, requested, m2, answer),
    ensures
        distinct_characters(m2),
{
    let r = trim(requested);
    if r.len() > 0 {
        if let Some(n) = character_name(r) {
            if !taken_by_other(m, n, user) {
                assert forall|v: u64| #[trigger] m.contains_key(v) && v != user implies !eq_ignore_ascii_case(n, m[v]@) by {
                    lemma_eq_ignore_ascii_case_laws(n, m[v]@, n);
                    if eq_ignore_ascii_case(n, m[v]@) {
                        lemma_first_owner_exists(m, n, v);
                        let o = choose|o: u64| first_owner(m, n, Some(o));
                        assert(o == user);
                        lemma_eq_ignore_ascii_case_laws(m[user]@, n, m[v]@);
                        assert(m.contains_key(user));
                    }
                }
                assert forall|u: u64, v: u64|
                    #[trigger] m2.contains_key(u) && #[trigger] m2.contains_key(v) && u != v implies !eq_ignore_ascii_case(
                    m2[u]@,
                    m2[v]@,
                ) by {
                    if u == user {
                        assert(m.contains_key(v));
                    } else if v == user {
                        assert(m.contains_key(u));
                        lemma_eq_ignore_ascii_case_laws(m[u]@, n, m[u]@);
                    } else {
                        assert(m.contains_key(u) && m.contains_key(v));
                    }
                }
            }
        }
    }
}

} // verus!
