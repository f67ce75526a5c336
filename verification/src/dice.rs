//! The twenty-sided die that settles risky actions.
use vstd::prelude::*;

use rand::Rng;

use crate::text::{decimal, join};

verus! {

/// Circumstances that the model may name as shifting a roll.
#[derive(Clone, Copy, Debug, PartialEq, Eq, Hash, Structural)]
pub enum RollModifier {
    Specialty,
    Ally,
    Wounded,
    Improvised,
}

impl RollModifier {
    /// The amount added to the die.
    pub open spec fn bonus(self) -> int {
        match self {
            RollModifier::Specialty => 3,
            RollModifier::Ally => 2,
            RollModifier::Wounded => -3,
            RollModifier::Improvised => -2,
        }
    }

    /// How the modifier is shown to the players and to the model.
    pub open spec fn label_text(self) -> Seq<char> {
        match self {
            RollModifier::Specialty => "spécialité +3"@,
            RollModifier::Ally => "allié +2"@,
            RollModifier::Wounded => "blessure/épuisement -3"@,
            RollModifier::Improvised => "matériel improvisé -2"@,
        }
    }

    pub fn value(&self) -> (v: i8)
        ensures
            v == self.bonus(),
    {
        match self {
            RollModifier::Specialty => 3,
            RollModifier::Ally => 2,
            RollModifier::Wounded => -3,
            RollModifier::Improvised => -2,
        }
    }

    pub fn label(&self) -> (l: &'static str)
        ensures
            l@ == self.label_text(),
    {
        match self {
            RollModifier::Specialty => "spécialité +3",
            RollModifier::Ally => "allié +2",
            RollModifier::Wounded => "blessure/épuisement -3",
            RollModifier::Improvised => "matériel improvisé -2",
        }
    }
}

/// A bonus as `{:+}` writes it: its sign, then its digits.
pub open spec fn signed_bonus_text(b: int) -> Seq<char> {
    if b >= 0 {
        seq!['+'] + decimal(b as nat)
    } else {
        seq!['-'] + decimal((-b) as nat)
    }
}

/// The label shown to the players ends with the very bonus that the total uses.
pub proof fn lemma_label_states_its_bonus(m: RollModifier)
    ensures
        ({
            let l = m.label_text();
            let b = signed_bonus_text(m.bonus());
            b.len() <= l.len() && l.skip(l.len() - b.len()) == b
        }),
{
    reveal_strlit("spécialité +3");
    reveal_strlit("allié +2");
    reveal_strlit("blessure/épuisement -3");
    reveal_strlit("matériel improvisé -2");
    let l = m.label_text();
    let b = signed_bonus_text(m.bonus());
    assert(l.skip(l.len() - b.len()) =~= b);
}

/// The outcome of a roll: a natural 1 or 20 decides alone, otherwise the total does.
pub open spec fn outcome_text(natural: int, total: int) -> Seq<char> {
    if natural == 1 {
        "échec critique"@
    } else if natural == 20 {
        "succès légendaire"@
    } else if total <= 5 {
        "échec"@
    } else if total <= 10 {
        "succès avec complication"@
    } else if total <= 15 {
        "succès"@
    } else {
        "succès critique"@
    }
}

/// How a roll is settled: a natural 20 is a legendary success and a natural 1 a
/// critical failure, and no other roll is either, whatever its modifiers; for any other
/// natural roll the total decides: 5 or less fails, 6 to 10 succeeds with a
/// complication, 11 to 15 succeeds, 16 or more is a critical success.
pub proof fn lemma_outcome_tiers(natural: int, total: int)
    requires
        1 <= natural <= 20,
    ensures
        (outcome_text(natural, total) == "succès légendaire"@) <==> natural == 20,
        (outcome_text(natural, total) == "échec critique"@) <==> natural == 1,
        2 <= natural <= 19 && total <= 5 ==> outcome_text(natural, total) == "échec"@,
        2 <= natural <= 19 && 6 <= total <= 10 ==> outcome_text(natural, total)
            == "succès avec complication"@,
        2 <= natural <= 19 && 11 <= total <= 15 ==> outcome_text(natural, total) == "succès"@,
        2 <= natural <= 19 && 16 <= total ==> outcome_text(natural, total) == "succès critique"@,
{
    reveal_strlit("succès légendaire");
    reveal_strlit("échec critique");
    reveal_strlit("échec");
    reveal_strlit("succès avec complication");
    reveal_strlit("succès");
    reveal_strlit("succès critique");
    assert("succès légendaire"@.len() == 17);
    assert("échec critique"@.len() == 14);
    assert("échec"@.len() == 5);
    assert("succès avec complication"@.len() == 24);
    assert("succès"@.len() == 6);
    assert("succès critique"@.len() == 15);
}

pub fn roll_outcome(natural: u8, total: i8) -> (outcome: &'static str)
    ensures
        outcome@ == outcome_text(natural as int, total as int),
{
    if natural == 1 {
        "échec critique"
    } else if natural == 20 {
        "succès légendaire"
    } else if total <= 5 {
        "échec"
    } else if total <= 10 {
        "succès avec complication"
    } else if total <= 15 {
        "succès"
    } else {
        "succès critique"
    }
}

/// A draw from `rand::thread_rng()` with `Rng::gen_range(low..=high)` (rand 0.8).
/// Trusted: the value lies in the inclusive range; which value comes out is chance,
/// and nothing more is stated of it. `gen_range` panics on an empty range, which
/// `low <= high` rules out.
#[verifier::external_body]
fn draw_inclusive(low: u8, high: u8) -> (n: u8)
    requires
        low <= high,
    ensures
        low <= n <= high,
{
    rand::thread_rng().gen_range(low..=high)
}

/// Rolls a d20: the top face is included and the die never shows zero.
pub fn roll_d20() -> (n: u8)
    ensures
        1 <= n <= 20,
{
    draw_inclusive(1, 20)
}

/// The sum of the modifiers' bonuses.
pub open spec fn bonus_sum(mods: Seq<RollModifier>) -> int
    decreases mods.len(),
{
    if mods.len() == 0 {
        0
    } else {
        bonus_sum(mods.drop_last()) + mods.last().bonus()
    }
}

/// Whether some modifier is named twice.
pub fn has_duplicate_modifiers(mods: &Vec<RollModifier>) -> (dup: bool)
    ensures
        dup == !mods@.no_duplicates(),
{
    let n = mods.len();
    let mut i: usize = 0;
    while i < n
        invariant
            n == mods.len(),
            i <= n,
            forall|a: int, b: int| 0 <= a < b < n && a < i ==> mods@[a] != mods@[b],
        decreases n - i,
    {
        let mut j = i + 1;
        while j < n
            invariant
                n == mods.len(),
                i < j <= n,
                forall|a: int, b: int| 0 <= a < b < n && a < i ==> mods@[a] != mods@[b],
                forall|b: int| i < b < j ==> mods@[i as int] != mods@[b],
            decreases n - j,
        {
            if mods[i] == mods[j] {
                return true;
            }
            j = j + 1;
        }
        i = i + 1;
    }
    false
}

proof fn lemma_distinct_modifiers_at_most_four(mods: Seq<RollModifier>)
    requires
        mods.no_duplicates(),
    ensures
        mods.len() <= 4,
{
    let all = set![
        RollModifier::Specialty,
        RollModifier::Ally,
        RollModifier::Wounded,
        RollModifier::Improvised,
    ];
    assert(mods.to_set().subset_of(all)) by {
        assert forall|m: RollModifier| mods.to_set().contains(m) implies all.contains(m) by {
            match m {
                RollModifier::Specialty => {},
                RollModifier::Ally => {},
                RollModifier::Wounded => {},
                RollModifier::Improvised => {},
            }
        }
    }
    assert(all.finite() && all.len() <= 4) by {
        broadcast use vstd::set::group_set_axioms;

    }
    vstd::set_lib::lemma_len_subset(mods.to_set(), all);
    mods.unique_seq_to_set();
}

proof fn lemma_bonus_sum_bounds(mods: Seq<RollModifier>)
    ensures
        -3 * mods.len() <= bonus_sum(mods) <= 3 * mods.len(),
    decreases mods.len(),
{
    if mods.len() > 0 {
        lemma_bonus_sum_bounds(mods.drop_last());
    }
}

/// The total of a roll: the die plus every modifier's bonus.
pub fn roll_total(natural: u8, mods: &Vec<RollModifier>) -> (total: i8)
    requires
        1 <= natural <= 20,
        mods@.no_duplicates(),
    ensures
        total == natural + bonus_sum(mods@),
{
    proof {
        lemma_distinct_modifiers_at_most_four(mods@);
    }
    let mut total: i8 = natural as i8;
    let mut i: usize = 0;
    while i < mods.len()
        invariant
            i <= mods.len() <= 4,
            1 <= natural <= 20,
            total == natural + bonus_sum(mods@.take(i as int)),
        decreases mods.len() - i,
    {
        proof {
            assert(mods@.take(i + 1).drop_last() =~= mods@.take(i as int));
            lemma_bonus_sum_bounds(mods@.take(i as int));
        }
        total = total + mods[i].value();
        i = i + 1;
    }
    assert(mods@.take(i as int) =~= mods@);
    total
}

/// A roll made by the application, kept with the game.
#[derive(Clone, Debug)]
pub struct RollResult {
    pub natural: u8,
    pub modifiers: Vec<RollModifier>,
    pub total: i8,
}

/// The modifiers as shown: their labels joined by commas, or « aucun ».
pub open spec fn modifier_text(mods: Seq<RollModifier>) -> Seq<char> {
    if mods.len() == 0 {
        "aucun"@
    } else {
        join(mods.map_values(|m: RollModifier| m.label_text()), ", "@)
    }
}

} // verus!
