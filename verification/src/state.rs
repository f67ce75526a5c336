//! The state of an adventure: who plays whom, the model in use, the recent history.
use vstd::prelude::*;

use std::collections::BTreeMap;

use vstd::std_specs::btree::spec_keys_iter;
use vstd::std_specs::iter::IteratorSpec;

use crate::order::lemma_increasing_keys;

use crate::dice::RollResult;
use crate::text::{
    append_range, char_views, chars_eq_ignore_ascii_case, chars_of, copy_range,
    ascii_upper, eq_ignore_ascii_case, is_ascii, is_ascii_letter, is_letter, is_ws, join, join_chars,
    lead, lemma_join_front, lemma_join_keeps, lemma_words_keep, lemma_words_of_spaced, trail, letter, lower_text, lowered, split_words, string_from_chars, trim,
    trim_chars, trim_in, trim_range, upper, upper_chars, views, words, CharClass,
};

verus! {

/// The language models that can tell the story.
#[derive(Clone, Copy, Debug, PartialEq, Eq, Structural)]
pub enum ModelProvider {
    Gemini,
    Mistral,
}

/// How a provider is named in messages.
pub open spec fn provider_name(p: ModelProvider) -> Seq<char> {
    match p {
        ModelProvider::Gemini => "Gemini"@,
        ModelProvider::Mistral => "Mistral"@,
    }
}

/// The environment variable that holds a provider's API key.
pub open spec fn provider_key_variable(p: ModelProvider) -> Seq<char> {
    match p {
        ModelProvider::Gemini => "GEMINI_API_KEY"@,
        ModelProvider::Mistral => "MISTRAL_API_KEY"@,
    }
}

impl ModelProvider {
    pub fn name(&self) -> (n: &'static str)
        ensures
            n@ == provider_name(*self),
    {
        match self {
            ModelProvider::Gemini => "Gemini",
            ModelProvider::Mistral => "Mistral",
        }
    }

    pub fn key_variable(&self) -> (n: &'static str)
        ensures
            n@ == provider_key_variable(*self),
    {
        match self {
            ModelProvider::Gemini => "GEMINI_API_KEY",
            ModelProvider::Mistral => "MISTRAL_API_KEY",
        }
    }
}

/// The provider a lowercase name designates: `gemini` or `mistral`.
pub open spec fn provider_named(name: Seq<char>) -> Option<ModelProvider> {
    if name == "gemini"@ {
        Some(ModelProvider::Gemini)
    } else if name == "mistral"@ {
        Some(ModelProvider::Mistral)
    } else {
        None
    }
}

/// Whether two strings hold the same characters.
pub fn str_equal(a: &str, b: &str) -> (r: bool)
    ensures
        r == (a@ == b@),
{
    let x = chars_of(a);
    let y = chars_of(b);
    if x.len() != y.len() {
        return false;
    }
    let mut i: usize = 0;
    while i < x.len()
        invariant
            i <= x.len() == y.len(),
            x@ == a@,
            y@ == b@,
            forall|j: int| 0 <= j < i ==> x@[j] == y@[j],
        decreases x.len() - i,
    {
        if x[i] != y[i] {
            assert(a@[i as int] != b@[i as int]);
            return false;
        }
        i = i + 1;
    }
    assert(x@ =~= y@);
    true
}

pub fn provider_from_name(name: &str) -> (p: Option<ModelProvider>)
    ensures
        p == provider_named(name@),
{
    if str_equal(name, "gemini") {
        Some(ModelProvider::Gemini)
    } else if str_equal(name, "mistral") {
        Some(ModelProvider::Mistral)
    } else {
        None
    }
}

/// The provider that the `MODEL_PROVIDER` setting names, in any case; the setting in
/// lower case when it names none.
pub fn provider_from_setting(raw: &str) -> (r: Result<ModelProvider, String>)
    ensures
        match provider_named(lowered(raw@)) {
            Some(p) => r == Ok::<ModelProvider, String>(p),
            None => r matches Err(t) && t@ == lowered(raw@),
        },
{
    let text = lower_text(raw);
    match provider_from_name(text.as_str()) {
        Some(p) => Ok(p),
        None => Err(text),
    }
}

/// What the application knows of the model providers: the default one and the keys.
#[derive(Clone, Debug)]
pub struct Config {
    pub default_provider: ModelProvider,
    pub gemini_key: Option<String>,
    pub mistral_key: Option<String>,
}

/// A provider was chosen whose API key is not configured.
#[derive(Clone, Copy, Debug, PartialEq, Eq, Structural)]
pub struct MissingApiKey {
    pub provider: ModelProvider,
}

/// The explanation given when a provider's key is missing.
pub open spec fn missing_key_text(p: ModelProvider) -> Seq<char> {
    "Aucune clé API configurée pour "@ + provider_name(p) + " (définissez "@
        + provider_key_variable(p) + " dans l'environnement ou le fichier .env)"@
}

impl MissingApiKey {
    pub fn message(&self) -> (m: String)
        ensures
            m@ == missing_key_text(self.provider),
    {
        let mut m = String::from_str("Aucune clé API configurée pour ");
        m.append(self.provider.name());
        m.append(" (définissez ");
        m.append(self.provider.key_variable());
        m.append(" dans l'environnement ou le fichier .env)");
        m
    }
}

impl Config {
    /// The key configured for a provider, if any.
    pub open spec fn configured_key(self, p: ModelProvider) -> Option<String> {
        match p {
            ModelProvider::Gemini => self.gemini_key,
            ModelProvider::Mistral => self.mistral_key,
        }
    }

    /// The API key of a provider, or the error that names the missing variable.
    pub fn key_for(&self, provider: ModelProvider) -> (r: Result<&str, MissingApiKey>)
        ensures
            match r {
                Ok(k) => self.configured_key(provider) matches Some(s) && k@ == s@,
                Err(e) => self.configured_key(provider) is None && e.provider == provider,
            },
    {
        let key = match provider {
            ModelProvider::Gemini => &self.gemini_key,
            ModelProvider::Mistral => &self.mistral_key,
        };
        match key {
            Some(k) => Ok(k.as_str()),
            None => Err(MissingApiKey { provider }),
        }
    }
}

/// One piece of text of a message.
#[derive(Clone, Debug)]
pub struct Part {
    pub text: String,
}

impl View for Part {
    type V = Seq<char>;

    open spec fn view(&self) -> Seq<char> {
        self.text@
    }
}

/// What a message is, as far as the contracts go.
pub struct MessageView {
    pub role: Seq<char>,
    pub parts: Seq<Seq<char>>,
}

/// A message of the conversation with the model: `user` for the players and the
/// application, `model` for the narrator.
#[derive(Clone, Debug)]
pub struct MessageContent {
    pub role: String,
    pub parts: Vec<Part>,
}

/// The texts of a list of parts.
pub open spec fn part_views(v: Seq<Part>) -> Seq<Seq<char>> {
    v.map_values(|p: Part| p@)
}

impl View for MessageContent {
    type V = MessageView;

    open spec fn view(&self) -> MessageView {
        MessageView { role: self.role@, parts: part_views(self.parts@) }
    }
}

/// The views of a list of messages.
pub open spec fn history_view(h: Seq<MessageContent>) -> Seq<MessageView> {
    h.map_values(|m: MessageContent| m@)
}

/// A message with the given role and a single part.
pub open spec fn single_part(role: Seq<char>, text: Seq<char>) -> MessageView {
    MessageView { role: role, parts: seq![text] }
}

impl MessageContent {
    /// A message with one part.
    pub fn single(role: &str, text: String) -> (m: MessageContent)
        ensures
            m@ == single_part(role@, text@),
    {
        let mut parts: Vec<Part> = Vec::new();
        parts.push(Part { text });
        let m = MessageContent { role: String::from_str(role), parts };
        assert(m@.parts =~= seq![text@]);
        m
    }

    /// A copy of the message.
    pub fn duplicate(&self) -> (m: MessageContent)
        ensures
            m@ == self@,
    {
        let mut parts: Vec<Part> = Vec::new();
        let mut i: usize = 0;
        while i < self.parts.len()
            invariant
                i <= self.parts.len(),
                parts.len() == i,
                part_views(parts@) == part_views(self.parts@).take(i as int),
            decreases self.parts.len() - i,
        {
            let text = self.parts[i].text.clone();
            let ghost prev = parts@;
            parts.push(Part { text });
            proof {
                assert(parts@ == prev.push(Part { text }));
                assert forall|k: int| 0 <= k <= i implies #[trigger] part_views(parts@)[k] == part_views(self.parts@)[k] by {
                    if k < i {
                        assert(parts@[k] == prev[k]);
                        assert(part_views(prev)[k] == part_views(self.parts@).take(i as int)[k]);
                    }
                }
            }
            i = i + 1;
            assert(part_views(parts@) =~= part_views(self.parts@).take(i as int));
        }
        assert(part_views(self.parts@).take(i as int) =~= part_views(self.parts@));
        MessageContent { role: self.role.clone(), parts }
    }
}

/// Copies of the messages `h[lo..hi]`.
pub fn copy_messages(h: &Vec<MessageContent>, lo: usize, hi: usize) -> (out: Vec<MessageContent>)
    requires
        lo <= hi <= h.len(),
    ensures
        history_view(out@) == history_view(h@).subrange(lo as int, hi as int),
{
    let mut out: Vec<MessageContent> = Vec::new();
    let mut i = lo;
    while i < hi
        invariant
            lo <= i <= hi <= h.len(),
            out.len() == i - lo,
            history_view(out@) == history_view(h@).subrange(lo as int, i as int),
        decreases hi - i,
    {
        let m = h[i].duplicate();
        let ghost prev = out@;
        out.push(m);
        proof {
            assert forall|k: int| 0 <= k < out.len() implies #[trigger] history_view(out@)[k]
                == history_view(h@)[lo + k] by {
                if k < prev.len() {
                    assert(out@[k] == prev[k]);
                    assert(history_view(prev)[k] == history_view(h@).subrange(lo as int, i as int)[k]);
                }
            }
        }
        i = i + 1;
        assert(history_view(out@) =~= history_view(h@).subrange(lo as int, i as int));
    }
    out
}

/// A narration: the story text and the follow-ups offered as buttons.
#[derive(Clone, Debug)]
pub struct StoryResponse {
    pub story_text: String,
    pub options: Vec<String>,
}

/// The state of the adventure of one channel.
#[derive(Clone, Debug)]
pub struct ConversationState {
    /// The model chosen with `/model`; the configured default when none was.
    pub provider: Option<ModelProvider>,
    pub last_roll: Option<RollResult>,
    /// Who plays whom: Discord user id to character name. A player without an entry
    /// cannot act.
    pub characters: BTreeMap<u64, String>,
    /// The last message of the channel taken into account, to catch up after a downtime.
    pub last_message_id: Option<u64>,
    /// Number of the current turn; it is part of the buttons' ids.
    pub turn: u64,
    /// The follow-ups of the last turn, in the order of the buttons.
    pub pending_options: Vec<String>,
    /// The message that carries those buttons, to remove them at the next turn.
    pub options_message_id: Option<u64>,
    pub summary: String,
    pub recent: Vec<MessageContent>,
}

impl ConversationState {
    /// A state with nothing in it.
    pub open spec fn is_blank(self) -> bool {
        &&& self.provider is None
        &&& self.last_roll is None
        &&& self.characters@ == Map::<u64, String>::empty()
        &&& self.last_message_id is None
        &&& self.turn == 0
        &&& self.pending_options@.len() == 0
        &&& self.options_message_id is None
        &&& self.summary@.len() == 0
        &&& self.recent@.len() == 0
    }

    pub fn new() -> (s: ConversationState)
        ensures
            s.is_blank(),
    {
        ConversationState {
            provider: None,
            last_roll: None,
            characters: BTreeMap::new(),
            last_message_id: None,
            turn: 0,
            pending_options: Vec::new(),
            options_message_id: None,
            summary: String::new(),
            recent: Vec::new(),
        }
    }

    /// The model that tells this adventure.
    pub fn provider_or(&self, default: ModelProvider) -> (p: ModelProvider)
        ensures
            p == match self.provider {
                Some(q) => q,
                None => default,
            },
    {
        match self.provider {
            Some(q) => q,
            None => default,
        }
    }

    /// The character a player has declared.
    pub fn character_of(&self, user: u64) -> (name: Option<&str>)
        ensures
            match name {
                Some(n) => self.characters@.contains_key(user) && n@ == self.characters@[user]@,
                None => !self.characters@.contains_key(user),
            },
    {
        match self.characters.get(&user) {
            Some(s) => Some(s.as_str()),
            None => None,
        }
    }
}

/// Whether `owner` is what `owner_of_character(name)` gives for the characters `m`:
/// the smallest user id whose character has that name, ASCII case aside, if any.
pub open spec fn first_owner(m: Map<u64, String>, name: Seq<char>, owner: Option<u64>) -> bool {
    match owner {
        Some(u) => {
            &&& m.contains_key(u)
            &&& eq_ignore_ascii_case(m[u]@, name)
            &&& forall|v: u64| #[trigger] m.contains_key(v) && v < u ==> !eq_ignore_ascii_case(m[v]@, name)
        },
        None => forall|v: u64| #[trigger] m.contains_key(v) ==> !eq_ignore_ascii_case(m[v]@, name),
    }
}

/// Two answers of `owner_of_character` for the same characters and name are the same:
/// the owner is the smallest matching user id.
pub proof fn lemma_first_owner_unique(m: Map<u64, String>, name: Seq<char>, a: Option<u64>, b: Option<u64>)
    requires
        first_owner(m, name, a),
        first_owner(m, name, b),
    ensures
        a == b,
{
    match (a, b) {
        (Some(x), Some(y)) => {
            assert(m.contains_key(x) && m.contains_key(y));
        },
        (Some(x), None) => {
            assert(m.contains_key(x));
        },
        (None, Some(y)) => {
            assert(m.contains_key(y));
        },
        (None, None) => {},
    }
}

/// A character played by someone has a first owner.
pub proof fn lemma_first_owner_exists(m: Map<u64, String>, name: Seq<char>, v: u64)
    requires
        m.contains_key(v),
        eq_ignore_ascii_case(m[v]@, name),
    ensures
        exists|o: u64| first_owner(m, name, Some(o)),
    decreases v,
{
    if exists|w: u64| #[trigger] m.contains_key(w) && w < v && eq_ignore_ascii_case(m[w]@, name) {
        let w = choose|w: u64| #[trigger] m.contains_key(w) && w < v && eq_ignore_ascii_case(m[w]@, name);
        lemma_first_owner_exists(m, name, w);
    } else {
        assert(first_owner(m, name, Some(v)));
    }
}

/// No two players play the same character, ASCII case aside.
pub open spec fn distinct_characters(m: Map<u64, String>) -> bool {
    forall|u: u64, v: u64|
        #[trigger] m.contains_key(u) && #[trigger] m.contains_key(v) && u != v ==> !eq_ignore_ascii_case(
            m[u]@,
            m[v]@,
        )
}

/// Whether another player than `user` already plays the character `name`, as
/// `owner_of_character` finds it.
pub open spec fn taken_by_other(m: Map<u64, String>, name: Seq<char>, user: u64) -> bool {
    exists|o: u64| first_owner(m, name, Some(o)) && o != user
}

/// `ks` holds the user ids of `m` once each, in increasing order.
pub open spec fn keys_in_order(m: Map<u64, String>, ks: Seq<u64>) -> bool {
    &&& ks.to_set() == m.dom()
    &&& ks.no_duplicates()
    &&& forall|i: int, j: int| 0 <= i < j < ks.len() ==> #[trigger] ks[i] < #[trigger] ks[j]
}

/// The user ids of `m` in increasing order.
pub open spec fn sorted_keys(m: Map<u64, String>) -> Seq<u64> {
    choose|ks: Seq<u64>| keys_in_order(m, ks)
}

pub proof fn lemma_sorted_keys(m: Map<u64, String>, ks: Seq<u64>)
    requires
        keys_in_order(m, ks),
    ensures
        sorted_keys(m) == ks,
{
    let other = sorted_keys(m);
    lemma_sorted_keys_unique(ks, other);
}

/// The fields other than who plays whom are the same.
pub open spec fn same_but_characters(a: ConversationState, b: ConversationState) -> bool {
    &&& a.provider == b.provider
    &&& a.last_roll == b.last_roll
    &&& a.last_message_id == b.last_message_id
    &&& a.turn == b.turn
    &&& views(a.pending_options@) == views(b.pending_options@)
    &&& a.options_message_id == b.options_message_id
    &&& a.summary@ == b.summary@
    &&& history_view(a.recent@) == history_view(b.recent@)
}

/// Whether `names` lists the characters of `m` in the order of the user ids.
pub open spec fn listed_by_user(m: Map<u64, String>, names: Seq<Seq<char>>) -> bool {
    exists|ks: Seq<u64>|
        {
            &&& ks.to_set() == m.dom()
            &&& ks.no_duplicates()
            &&& (forall|i: int, j: int| 0 <= i < j < ks.len() ==> #[trigger] ks[i] < #[trigger] ks[j])
            &&& names == ks.map_values(|k: u64| m[k]@)
        }
}

/// Two strictly increasing key sequences over the same keys are the same sequence.
proof fn lemma_sorted_keys_unique(a: Seq<u64>, b: Seq<u64>)
    requires
        a.to_set() == b.to_set(),
        a.no_duplicates(),
        b.no_duplicates(),
        forall|i: int, j: int| 0 <= i < j < a.len() ==> #[trigger] a[i] < #[trigger] a[j],
        forall|i: int, j: int| 0 <= i < j < b.len() ==> #[trigger] b[i] < #[trigger] b[j],
    ensures
        a == b,
{
    a.unique_seq_to_set();
    b.unique_seq_to_set();
    assert(a.len() == b.len());
    if !(a =~= b) {
        let k = choose|k: int| 0 <= k < a.len() && a[k] != b[k];
        let i = lemma_first_difference(a, b, k);
        if a[i] < b[i] {
            assert(a.to_set().contains(a[i]));
            assert(b.to_set().contains(a[i]));
            let j = choose|j: int| 0 <= j < b.len() && b[j] == a[i];
            if j >= i {
                assert(b[i] <= b[j]);
            }
            assert(a[j] == b[j]);
        } else {
            assert(b.to_set().contains(b[i]));
            assert(a.to_set().contains(b[i]));
            let j = choose|j: int| 0 <= j < a.len() && a[j] == b[i];
            if j >= i {
                assert(a[i] <= a[j]);
            }
            assert(a[j] == b[j]);
        }
    }
}

/// The first index at which two sequences of the same length differ, given one.
pub proof fn lemma_first_difference<T>(a: Seq<T>, b: Seq<T>, k: int) -> (i: int)
    requires
        a.len() == b.len(),
        0 <= k < a.len(),
        a[k] != b[k],
    ensures
        0 <= i <= k,
        a[i] != b[i],
        forall|j: int| 0 <= j < i ==> a[j] == b[j],
    decreases k,
{
    if exists|j: int| 0 <= j < k && a[j] != b[j] {
        let j = choose|j: int| 0 <= j < k && a[j] != b[j];
        lemma_first_difference(a, b, j)
    } else {
        k
    }
}

/// The characters of `m` in the order of the user ids.
pub open spec fn roster_of(m: Map<u64, String>) -> Seq<Seq<char>> {
    choose|names: Seq<Seq<char>>| listed_by_user(m, names)
}

/// The roster is the one list of the characters in the order of the user ids.
pub proof fn lemma_roster_of(m: Map<u64, String>, names: Seq<Seq<char>>)
    requires
        listed_by_user(m, names),
    ensures
        roster_of(m) == names,
{
    let other = roster_of(m);
    let ks = choose|ks: Seq<u64>|
        {
            &&& ks.to_set() == m.dom()
            &&& ks.no_duplicates()
            &&& (forall|i: int, j: int| 0 <= i < j < ks.len() ==> #[trigger] ks[i] < #[trigger] ks[j])
            &&& names == ks.map_values(|k: u64| m[k]@)
        };
    let ks2 = choose|ks: Seq<u64>|
        {
            &&& ks.to_set() == m.dom()
            &&& ks.no_duplicates()
            &&& (forall|i: int, j: int| 0 <= i < j < ks.len() ==> #[trigger] ks[i] < #[trigger] ks[j])
            &&& other == ks.map_values(|k: u64| m[k]@)
        };
    lemma_sorted_keys_unique(ks, ks2);
}

impl ConversationState {
    /// The player who already plays a character: two players cannot play the same one.
    pub fn owner_of_character(&self, name: &str) -> (owner: Option<u64>)
        ensures
            first_owner(self.characters@, name@, owner),
    {
        let wanted = chars_of(name);
        let ghost m = self.characters@;
        let ghost ks = spec_keys_iter(&self.characters).remaining();
        let ghost keys = ks.unref();
        proof {
            lemma_increasing_keys(ks);
        }
        for key in it: self.characters.keys()
            invariant
                wanted@ == name@,
                m == self.characters@,
                it.seq() == ks,
                keys == ks.unref(),
                keys.to_set() == m.dom(),
                forall|i: int, j: int| 0 <= i < j < keys.len() ==> #[trigger] keys[i] < #[trigger] keys[j],
                forall|q: int| 0 <= q < it.index() ==> !eq_ignore_ascii_case(
                    m[#[trigger] keys[q]]@,
                    name@,
                ),
        {
            let user = *key;
            assert(keys[it.index()] == user);
            assert(m.contains_key(user));
            let existing = match self.characters.get(&user) {
                Some(e) => e,
                None => {
                    return None;
                },
            };
            if chars_eq_ignore_ascii_case(&chars_of(existing.as_str()), &wanted) {
                proof {
                    let p = it.index();
                    assert forall|v: u64| #[trigger] m.contains_key(v) && v < user implies !eq_ignore_ascii_case(m[v]@, name@) by {
                        assert(keys.to_set().contains(v));
                        let q = choose|q: int| 0 <= q < keys.len() && #[trigger] keys[q] == v;
                        if q >= p {
                            assert(keys[p] <= keys[q]);
                        }
                    }
                }
                return Some(user);
            }
        }
        proof {
            assert forall|v: u64| #[trigger] m.contains_key(v) implies !eq_ignore_ascii_case(m[v]@, name@) by {
                assert(keys.to_set().contains(v));
                let q = choose|q: int| 0 <= q < keys.len() && #[trigger] keys[q] == v;
            }
        }
        None
    }

    /// The characters declared, in the order of the players' ids.
    pub fn roster(&self) -> (names: Vec<String>)
        ensures
            listed_by_user(self.characters@, views(names@)),
            views(names@) == roster_of(self.characters@),
    {
        let mut names: Vec<String> = Vec::new();
        let ghost m = self.characters@;
        let ghost ks = spec_keys_iter(&self.characters).remaining();
        let ghost keys = ks.unref();
        proof {
            lemma_increasing_keys(ks);
        }
        for key in it: self.characters.keys()
            invariant
                m == self.characters@,
                it.seq() == ks,
                keys == ks.unref(),
                keys.to_set() == m.dom(),
                names.len() == it.index(),
                forall|q: int| 0 <= q < it.index() ==> (#[trigger] names@[q])@ == m[keys[q]]@,
        {
            let user = *key;
            assert(keys[it.index()] == user);
            assert(m.contains_key(user));
            match self.characters.get(&user) {
                Some(e) => {
                    names.push(e.clone());
                },
                None => {
                    names.push(String::new());
                },
            }
        }
        proof {
            assert(views(names@) =~= keys.map_values(|k: u64| m[k]@));
            assert(keys.no_duplicates());
            lemma_roster_of(m, views(names@));
        }
        names
    }
}

impl Default for ConversationState {
    fn default() -> (s: ConversationState)
        ensures
            s.is_blank(),
    {
        ConversationState::new()
    }
}

/// A character name has at most this many characters.
pub const MAX_CHARACTER_NAME_CHARS: usize = 40;

/// `s` with typographic apostrophes made straight.
pub open spec fn straight_apostrophes(s: Seq<char>) -> Seq<char> {
    Seq::new(s.len(), |i: int| if s[i] == '\u{2019}' { '\'' } else { s[i] })
}

/// Letters, spaces, hyphens, apostrophes and dots: all a character name may hold.
pub open spec fn name_char(c: char) -> bool {
    letter(c) || c == ' ' || c == '-' || c == '\'' || c == '.'
}

/// A word with its first character in upper case.
pub open spec fn capitalized(w: Seq<char>) -> Seq<char> {
    if w.len() == 0 {
        seq![]
    } else {
        upper(w[0]) + w.drop_first()
    }
}

/// The name before the checks: apostrophes straightened, spaces and then quotes
/// trimmed from both ends.
pub open spec fn cleaned_name(raw: Seq<char>) -> Seq<char> {
    trim_in(trim(straight_apostrophes(raw)), CharClass::Quote)
}

/// What `sanitize_character_name` gives: `None` for an empty or too long name, for one
/// with a character that is not a letter, space, hyphen, apostrophe or dot, or for one
/// of more than three words; otherwise the words capitalized and joined by single spaces.
pub open spec fn character_name(raw: Seq<char>) -> Option<Seq<char>> {
    let cleaned = cleaned_name(raw);
    let ws = words(cleaned);
    if cleaned.len() == 0 || cleaned.len() > MAX_CHARACTER_NAME_CHARS {
        None
    } else if !(forall|i: int| 0 <= i < cleaned.len() ==> name_char(#[trigger] cleaned[i])) {
        None
    } else if ws.len() == 0 || ws.len() > 3 {
        None
    } else {
        Some(join(ws.map_values(|w: Seq<char>| capitalized(w)), seq![' ']))
    }
}

/// A name holds only characters a name may hold: letters, spaces, hyphens, apostrophes
/// and dots; no quote, `<`, `>`, `:`, digit, tab or line feed can reach the instructions.
/// Capitalizing a word whose first character is not ASCII rests on the Unicode
/// uppercase mapping, so the law is stated for names whose words begin with an ASCII
/// character.
pub proof fn lemma_character_names_hold_only_name_characters(raw: Seq<char>)
    requires
        forall|i: int|
            0 <= i < words(cleaned_name(raw)).len() ==> is_ascii(
                #[trigger] words(cleaned_name(raw))[i][0],
            ),
    ensures
        character_name(raw) matches Some(n) ==> forall|k: int| 0 <= k < n.len() ==> name_char(
            #[trigger] n[k],
        ),
{
    let cleaned = cleaned_name(raw);
    let ws = words(cleaned);
    if let Some(n) = character_name(raw) {
        let p = |c: char| name_char(c);
        lemma_words_keep(cleaned, p);
        let caps = ws.map_values(|w: Seq<char>| capitalized(w));
        assert forall|i: int, j: int| 0 <= i < caps.len() && 0 <= j < caps[i].len() implies p(
            #[trigger] caps[i][j],
        ) by {
            let w = ws[i];
            if w.len() > 0 {
                assert(p(w[0]));
                assert(is_ascii(w[0]));
                if j == 0 {
                    assert(caps[i][0] == ascii_upper(w[0]));
                } else {
                    assert(caps[i][j] == w[j]);
                }
            }
        }
        let sep = seq![' '];
        assert forall|j: int| 0 <= j < sep.len() implies p(#[trigger] sep[j]) by {}
        lemma_join_keeps(caps, sep, p);
        assert(n == join(caps, sep));
    }
}

/// A word of a plain name: ASCII letters, with hyphens inside it only.
pub open spec fn plain_name_word(w: Seq<char>) -> bool {
    &&& w.len() > 0
    &&& is_ascii_letter(w[0])
    &&& is_ascii_letter(w.last())
    &&& forall|j: int| 0 <= j < w.len() ==> is_ascii_letter(#[trigger] w[j]) || w[j] == '-'
}

/// A plain name is accepted as it is typed: one to three words of letters, a word
/// holding hyphens inside it if it likes (« Marie-Claire »), separated by single spaces,
/// at most `MAX_CHARACTER_NAME_CHARS` characters in all. Each word comes back with its
/// first letter in upper case and the rest unchanged. The Unicode letter class is not
/// stated, so the law is stated for ASCII letters.
pub proof fn lemma_plain_names_are_accepted(ws: Seq<Seq<char>>)
    requires
        1 <= ws.len() <= 3,
        forall|i: int| 0 <= i < ws.len() ==> plain_name_word(#[trigger] ws[i]),
        join(ws, seq![' ']).len() <= MAX_CHARACTER_NAME_CHARS,
    ensures
        character_name(join(ws, seq![' '])) == Some(
            join(ws.map_values(|w: Seq<char>| seq![ascii_upper(w[0])] + w.drop_first()), seq![' ']),
        ),
{
    let sep = seq![' '];
    let raw = join(ws, sep);
    let p = |c: char| is_ascii_letter(c) || c == '-' || c == ' ';
    assert forall|i: int, j: int| 0 <= i < ws.len() && 0 <= j < ws[i].len() implies p(
        #[trigger] ws[i][j],
    ) by {
        assert(plain_name_word(ws[i]));
    }
    assert forall|j: int| 0 <= j < sep.len() implies p(#[trigger] sep[j]) by {}
    lemma_join_keeps(ws, sep, p);
    assert(forall|k: int| 0 <= k < raw.len() ==> p(#[trigger] raw[k]));
    // The name starts and ends with a letter.
    let first = ws[0];
    let last = ws.last();
    assert(plain_name_word(first));
    assert(plain_name_word(last));
    if ws.len() == 1 {
        assert(raw == first);
    } else {
        lemma_join_front(ws, sep);
        assert(raw == join(ws.drop_last(), sep) + sep + last);
    }
    assert(raw.len() >= first.len());
    assert(raw[0] == first[0]);
    assert(raw.last() == last.last());
    // Nothing is stripped.
    assert(straight_apostrophes(raw) =~= raw) by {
        assert forall|k: int| 0 <= k < raw.len() implies raw[k] != '\u{2019}' by {
            assert(p(raw[k]));
        }
    }
    assert(lead(raw, CharClass::Whitespace) == 0);
    assert(raw.skip(0) =~= raw);
    assert(raw.drop_last().len() < raw.len());
    assert(trail(raw, CharClass::Whitespace) == 0);
    assert(raw.take(raw.len() as int) =~= raw);
    assert(trim(raw) == raw);
    assert(lead(raw, CharClass::Quote) == 0);
    assert(trail(raw, CharClass::Quote) == 0);
    assert(trim_in(raw, CharClass::Quote) == raw);
    assert(cleaned_name(raw) == raw);
    // Every character may stand in a name.
    assert forall|k: int| 0 <= k < raw.len() implies name_char(#[trigger] raw[k]) by {
        assert(p(raw[k]));
    }
    // The words are the words typed.
    assert forall|i: int, j: int| 0 <= i < ws.len() && 0 <= j < ws[i].len() implies !is_ws(
        #[trigger] ws[i][j],
    ) by {
        assert(plain_name_word(ws[i]));
        assert(is_ascii_letter(ws[i][j]) || ws[i][j] == '-');
    }
    assert forall|i: int| 0 <= i < ws.len() implies (#[trigger] ws[i]).len() > 0 by {
        assert(plain_name_word(ws[i]));
    }
    lemma_words_of_spaced(ws);
    assert(words(raw) == ws);
    assert(ws.map_values(|w: Seq<char>| capitalized(w)) =~= ws.map_values(
        |w: Seq<char>| seq![ascii_upper(w[0])] + w.drop_first(),
    )) by {
        assert forall|i: int| 0 <= i < ws.len() implies capitalized(#[trigger] ws[i]) == seq![
            ascii_upper(ws[i][0]),
        ] + ws[i].drop_first() by {
            assert(plain_name_word(ws[i]));
            assert(is_ascii(ws[i][0]));
        }
    }
}

/// A word with its first character in upper case.
pub fn capitalize(word: &Vec<char>) -> (out: Vec<char>)
    ensures
        out@ == capitalized(word@),
{
    if word.len() == 0 {
        return Vec::new();
    }
    let mut out = upper_chars(word[0]);
    append_range(&mut out, word, 1, word.len());
    assert(word@.subrange(1, word.len() as int) =~= word@.drop_first());
    out
}

/// Cleans a character name typed by a player. The name ends up in a system
/// instruction: only letters, spaces, hyphens, apostrophes and dots are accepted, so
/// that no text can slip in.
pub fn sanitize_character_name(raw: &str) -> (name: Option<String>)
    ensures
        match name {
            Some(n) => character_name(raw@) == Some(n@),
            None => character_name(raw@) is None,
        },
{
    let chars = chars_of(raw);
    let mut straight: Vec<char> = Vec::new();
    let mut i: usize = 0;
    while i < chars.len()
        invariant
            i <= chars.len(),
            straight@ == straight_apostrophes(chars@).take(i as int),
        decreases chars.len() - i,
    {
        let c = chars[i];
        if c == '\u{2019}' {
            straight.push('\'');
        } else {
            straight.push(c);
        }
        i = i + 1;
        assert(straight@ =~= straight_apostrophes(chars@).take(i as int));
    }
    assert(straight_apostrophes(chars@).take(i as int) =~= straight_apostrophes(chars@));
    let trimmed = trim_chars(&straight);
    let (a, b) = trim_range(&trimmed, 0, trimmed.len(), CharClass::Quote);
    assert(trimmed@.subrange(0, trimmed.len() as int) =~= trimmed@);
    let cleaned = copy_range(&trimmed, a, b);
    assert(straight@ == straight_apostrophes(raw@));
    assert(cleaned@ == cleaned_name(raw@));
    if cleaned.len() == 0 || cleaned.len() > MAX_CHARACTER_NAME_CHARS {
        return None;
    }
    let mut j: usize = 0;
    while j < cleaned.len()
        invariant
            j <= cleaned.len(),
            cleaned@ == cleaned_name(raw@),
            0 < cleaned.len() <= MAX_CHARACTER_NAME_CHARS,
            forall|k: int| 0 <= k < j ==> name_char(#[trigger] cleaned@[k]),
        decreases cleaned.len() - j,
    {
        let c = cleaned[j];
        if !(is_letter(c) || c == ' ' || c == '-' || c == '\'' || c == '.') {
            assert(!name_char(cleaned@[j as int]));
            return None;
        }
        j = j + 1;
    }
    let ws = split_words(&cleaned);
    if ws.len() == 0 || ws.len() > 3 {
        return None;
    }
    let mut caps: Vec<Vec<char>> = Vec::new();
    let mut k: usize = 0;
    while k < ws.len()
        invariant
            k <= ws.len(),
            char_views(ws@) == words(cleaned@),
            caps.len() == k,
            forall|q: int| 0 <= q < k ==> (#[trigger] caps@[q])@ == capitalized(ws@[q]@),
        decreases ws.len() - k,
    {
        caps.push(capitalize(&ws[k]));
        k = k + 1;
    }
    let mut sep: Vec<char> = Vec::new();
    sep.push(' ');
    let joined = join_chars(&caps, &sep);
    proof {
        assert(char_views(caps@) =~= words(cleaned@).map_values(|w: Seq<char>| capitalized(w)));
        assert(sep@ =~= seq![' ']);
    }
    Some(string_from_chars(&joined))
}

} // verus!
