//! The follow-ups a model proposes, turned into button labels.
use vstd::prelude::*;

use crate::text::{
    append_all, char_views, chars_eq_ignore_ascii_case, chars_of, collapse_whitespace, copy_range,
    count_leading, decimal, eq_ignore_ascii_case, in_class, is_ws, join, join_chars, lead,
    lemma_lead, lemma_trail, push_decimal, single_spaced, string_from_chars, strings_from, trail,
    trim_end, trim_end_chars, trim_end_in, trim_in, trim_range, trim_start_in, views, words,
    CharClass,
};

verus! {

/// At most this many follow-ups are offered after a turn.
pub const MAX_STORY_OPTIONS: usize = 4;

/// A phone shows about this many characters of a button that has a row to itself.
pub const MAX_OPTION_CHARS: usize = 42;

/// Characters that close a list number: `1.`, `2)`, `3:`.
pub open spec fn is_number_separator(c: char) -> bool {
    c == '.' || c == ')' || c == ':'
}

/// `text` without surrounding bullets and quotes, and without a leading list number
/// (digits followed by a separator and some text).
pub open spec fn numbering_stripped(text: Seq<char>) -> Seq<char> {
    let t = trim_in(text, CharClass::ListMarker);
    let d = lead(t, CharClass::Digit);
    if 0 < d < t.len() && is_number_separator(t[d as int]) {
        let rest = trim_start_in(t.skip(d + 1int), CharClass::Whitespace);
        if rest.len() == 0 {
            t
        } else {
            rest
        }
    } else {
        t
    }
}

/// `text` cut to at most `max` characters: beyond that, the first `max - 1`,
/// trailing whitespace removed, and an ellipsis.
pub open spec fn truncated(text: Seq<char>, max: nat) -> Seq<char> {
    if text.len() <= max {
        text
    } else {
        trim_end(text.take(max - 1)).push('\u{2026}')
    }
}

/// The numbering-free, single-line text of a proposed follow-up.
pub open spec fn option_text(candidate: Seq<char>) -> Seq<char> {
    numbering_stripped(single_spaced(candidate))
}

/// The label a follow-up gets, when its text is not empty.
pub open spec fn option_label(candidate: Seq<char>) -> Seq<char> {
    truncated(option_text(candidate), MAX_OPTION_CHARS as nat)
}

/// Whether `labels` already holds `label`, ASCII case aside.
pub open spec fn has_label(labels: Seq<Seq<char>>, label: Seq<char>) -> bool {
    exists|i: int| 0 <= i < labels.len() && eq_ignore_ascii_case(#[trigger] labels[i], label)
}

/// The labels kept from the first `n` candidates: a candidate is skipped when its text
/// is empty or its label is already there, and nothing more is taken once
/// `MAX_STORY_OPTIONS` labels are kept.
pub open spec fn labels_from(raw: Seq<Seq<char>>, n: nat) -> Seq<Seq<char>>
    decreases n,
{
    if n == 0 {
        seq![]
    } else {
        let prev = labels_from(raw, (n - 1) as nat);
        let c = raw[n - 1];
        if prev.len() >= MAX_STORY_OPTIONS || option_text(c).len() == 0 || has_label(
            prev,
            option_label(c),
        ) {
            prev
        } else {
            prev.push(option_label(c))
        }
    }
}

/// What `sanitize_options` returns for the candidates `raw`.
pub open spec fn sanitized(raw: Seq<Seq<char>>) -> Seq<Seq<char>> {
    labels_from(raw, raw.len())
}

/// A label fits on one line: the only whitespace in it is the plain space.
pub open spec fn one_line(s: Seq<char>) -> bool {
    forall|i: int| 0 <= i < s.len() && is_ws(#[trigger] s[i]) ==> s[i] == ' '
}

/// Strips surrounding bullets and a leading list number: the numbering shown is the
/// application's own, not the model's. Digits go only when a separator follows, so that
/// a follow-up that really starts with a number keeps it.
fn strip_numbering(text: &Vec<char>) -> (out: Vec<char>)
    ensures
        out@ == numbering_stripped(text@),
{
    let n = text.len();
    let (a, b) = trim_range(text, 0, n, CharClass::ListMarker);
    assert(text@.subrange(0, n as int) =~= text@);
    let ghost t = text@.subrange(a as int, b as int);
    let d = count_leading(text, a, b, CharClass::Digit);
    if d > 0 && a + d < b {
        let c = text[a + d];
        assert(c == t[d as int]);
        if c == '.' || c == ')' || c == ':' {
            let r = a + d + 1 + count_leading(text, a + d + 1, b, CharClass::Whitespace);
            proof {
                assert(t.skip(d + 1) =~= text@.subrange(a + d + 1, b as int));
                assert(trim_start_in(t.skip(d + 1), CharClass::Whitespace) =~= text@.subrange(
                    r as int,
                    b as int,
                ));
            }
            if r == b {
                return copy_range(text, a, b);
            } else {
                return copy_range(text, r, b);
            }
        }
    }
    copy_range(text, a, b)
}

/// Cuts `text` to at most `max` characters, ending it with an ellipsis when it was longer.
fn truncate_chars(text: &Vec<char>, max: usize) -> (out: Vec<char>)
    requires
        max >= 1,
    ensures
        out@ == truncated(text@, max as nat),
{
    if text.len() <= max {
        return copy_range(text, 0, text.len());
    }
    let head = copy_range(text, 0, max - 1);
    assert(head@ =~= text@.take(max - 1));
    let mut out = trim_end_chars(&head);
    out.push('\u{2026}');
    out
}

proof fn lemma_labels_stay_full(raw: Seq<Seq<char>>, i: nat, n: nat)
    requires
        i <= n <= raw.len(),
        labels_from(raw, i).len() >= MAX_STORY_OPTIONS,
    ensures
        labels_from(raw, n) == labels_from(raw, i),
    decreases n - i,
{
    if n > i {
        lemma_labels_stay_full(raw, i, (n - 1) as nat);
    }
}

/// Turns the follow-ups proposed by the model into usable button labels: one line each,
/// without numbering, without duplicates (ASCII case aside), at most
/// `MAX_OPTION_CHARS` characters, and at most `MAX_STORY_OPTIONS` of them.
pub fn sanitize_options(raw: &[String]) -> (options: Vec<String>)
    ensures
        views(options@) == sanitized(views(raw@)),
{
    let ghost rv = views(raw@);
    let mut labels: Vec<Vec<char>> = Vec::new();
    let mut i: usize = 0;
    while i < raw.len() && labels.len() < MAX_STORY_OPTIONS
        invariant
            i <= raw.len(),
            rv == views(raw@),
            labels@.map_values(|c: Vec<char>| c@) == labels_from(rv, i as nat),
        decreases raw.len() - i,
    {
        let ghost prev = labels_from(rv, i as nat);
        let candidate = chars_of(raw[i].as_str());
        assert(candidate@ == rv[i as int]);
        let flat = collapse_whitespace(&candidate);
        let stripped = strip_numbering(&flat);
        if stripped.len() > 0 {
            let label = truncate_chars(&stripped, MAX_OPTION_CHARS);
            let mut seen = false;
            let mut j: usize = 0;
            while j < labels.len()
                invariant
                    j <= labels.len(),
                    labels@.map_values(|c: Vec<char>| c@) == prev,
                    label@ == option_label(rv[i as int]),
                    seen == exists|k: int| 0 <= k < j && eq_ignore_ascii_case(#[trigger] prev[k], label@),
                decreases labels.len() - j,
            {
                assert(labels@[j as int]@ == prev[j as int]);
                if chars_eq_ignore_ascii_case(&labels[j], &label) {
                    seen = true;
                }
                j = j + 1;
            }
            if !seen {
                labels.push(label);
                assert(labels@.map_values(|c: Vec<char>| c@) =~= prev.push(option_label(rv[i as int])));
            }
        }
        i = i + 1;
    }
    proof {
        if i < raw.len() {
            lemma_labels_stay_full(rv, i as nat, raw.len() as nat);
        }
    }
    strings_from(&labels)
}

proof fn lemma_words_have_no_whitespace(s: Seq<char>)
    ensures
        forall|i: int, j: int|
            0 <= i < words(s).len() && 0 <= j < words(s)[i].len() ==> !is_ws(
                #[trigger] words(s)[i][j],
            ),
    decreases s.len(),
{
    let t = trim_start_in(s, CharClass::Whitespace);
    lemma_lead(s, CharClass::Whitespace);
    if t.len() > 0 {
        let n = lead(t, CharClass::NotWhitespace);
        lemma_lead(t, CharClass::NotWhitespace);
        assert(t[0] == s[lead(s, CharClass::Whitespace) as int]);
        lemma_words_have_no_whitespace(t.skip(n as int));
        let w = words(s);
        assert(w == seq![t.take(n as int)] + words(t.skip(n as int)));
        assert forall|i: int, j: int| 0 <= i < w.len() && 0 <= j < w[i].len() implies !is_ws(
            #[trigger] w[i][j],
        ) by {
            if i == 0 {
                assert(w[0][j] == t[j]);
                assert(in_class(CharClass::NotWhitespace, t[j]));
            } else {
                assert(w[i] == words(t.skip(n as int))[i - 1]);
            }
        }
    }
}

proof fn lemma_join_one_line(parts: Seq<Seq<char>>)
    requires
        forall|i: int, j: int|
            0 <= i < parts.len() && 0 <= j < parts[i].len() ==> !is_ws(#[trigger] parts[i][j]),
    ensures
        one_line(join(parts, seq![' '])),
    decreases parts.len(),
{
    if parts.len() == 1 {
        let p = parts[0];
        assert forall|k: int| 0 <= k < p.len() && is_ws(#[trigger] p[k]) implies p[k] == ' ' by {
            assert(!is_ws(parts[0][k]));
        }
    } else if parts.len() > 1 {
        let init = parts.drop_last();
        assert forall|i: int, j: int| 0 <= i < init.len() && 0 <= j < init[i].len() implies !is_ws(
            #[trigger] init[i][j],
        ) by {
            assert(init[i] == parts[i]);
        }
        lemma_join_one_line(init);
        let a = join(init, seq![' ']);
        let r = a + seq![' '] + parts.last();
        assert forall|k: int| 0 <= k < r.len() && is_ws(#[trigger] r[k]) implies r[k] == ' ' by {
            if k < a.len() {
                assert(r[k] == a[k]);
            } else if k > a.len() {
                assert(r[k] == parts[parts.len() - 1][k - a.len() - 1]);
            }
        }
    }
}

proof fn lemma_one_line_subrange(s: Seq<char>, a: int, b: int)
    requires
        one_line(s),
        0 <= a <= b <= s.len(),
    ensures
        one_line(s.subrange(a, b)),
{
    assert forall|i: int| 0 <= i < b - a && is_ws(#[trigger] s.subrange(a, b)[i]) implies s.subrange(
        a,
        b,
    )[i] == ' ' by {
        assert(s.subrange(a, b)[i] == s[a + i]);
    }
}

proof fn lemma_trim_one_line(s: Seq<char>, k: CharClass)
    requires
        one_line(s),
    ensures
        one_line(trim_start_in(s, k)),
        one_line(trim_end_in(s, k)),
        one_line(trim_in(s, k)),
{
    lemma_lead(s, k);
    lemma_trail(s, k);
    lemma_one_line_subrange(s, lead(s, k) as int, s.len() as int);
    assert(trim_start_in(s, k) =~= s.subrange(lead(s, k) as int, s.len() as int));
    lemma_one_line_subrange(s, 0, s.len() - trail(s, k));
    let t = trim_start_in(s, k);
    lemma_trail(t, k);
    lemma_one_line_subrange(t, 0, t.len() - trail(t, k));
}

proof fn lemma_label_usable(c: Seq<char>)
    requires
        option_text(c).len() > 0,
    ensures
        0 < option_label(c).len() <= MAX_OPTION_CHARS,
        one_line(option_label(c)),
{
    let flat = single_spaced(c);
    lemma_words_have_no_whitespace(c);
    lemma_join_one_line(words(c));
    let t = trim_in(flat, CharClass::ListMarker);
    lemma_trim_one_line(flat, CharClass::ListMarker);
    let d = lead(t, CharClass::Digit);
    lemma_lead(t, CharClass::Digit);
    if 0 < d < t.len() && is_number_separator(t[d as int]) {
        lemma_one_line_subrange(t, d + 1int, t.len() as int);
        assert(t.skip(d + 1int) =~= t.subrange(d + 1int, t.len() as int));
        lemma_trim_one_line(t.skip(d + 1int), CharClass::Whitespace);
    }
    let o = option_text(c);
    if o.len() > MAX_OPTION_CHARS {
        let h = o.take(MAX_OPTION_CHARS - 1);
        lemma_one_line_subrange(o, 0, MAX_OPTION_CHARS - 1);
        lemma_trim_one_line(h, CharClass::Whitespace);
        lemma_trail(h, CharClass::Whitespace);
        let e = trim_end(h);
        let r = e.push('\u{2026}');
        assert forall|k: int| 0 <= k < r.len() && is_ws(#[trigger] r[k]) implies r[k] == ' ' by {
            if k < e.len() {
                assert(r[k] == e[k]);
            }
        }
    }
}

/// Every list of labels that `sanitize_options` returns is one a Discord message can
/// show as buttons: at most `MAX_STORY_OPTIONS` labels, each non-empty, at most
/// `MAX_OPTION_CHARS` characters and on one line, no two equal with ASCII case aside.
pub proof fn lemma_sanitized_options_are_usable_labels(raw: Seq<Seq<char>>)
    ensures
        sanitized(raw).len() <= MAX_STORY_OPTIONS,
        forall|i: int|
            0 <= i < sanitized(raw).len() ==> 0 < (#[trigger] sanitized(raw)[i]).len()
                <= MAX_OPTION_CHARS && one_line(sanitized(raw)[i]),
        forall|i: int, j: int|
            0 <= i < j < sanitized(raw).len() ==> !eq_ignore_ascii_case(
                #[trigger] sanitized(raw)[i],
                #[trigger] sanitized(raw)[j],
            ),
{
    lemma_labels_usable(raw, raw.len());
}

proof fn lemma_labels_usable(raw: Seq<Seq<char>>, n: nat)
    requires
        n <= raw.len(),
    ensures
        labels_from(raw, n).len() <= MAX_STORY_OPTIONS,
        forall|i: int|
            0 <= i < labels_from(raw, n).len() ==> 0 < (#[trigger] labels_from(raw, n)[i]).len()
                <= MAX_OPTION_CHARS && one_line(labels_from(raw, n)[i]),
        forall|i: int, j: int|
            0 <= i < j < labels_from(raw, n).len() ==> !eq_ignore_ascii_case(
                #[trigger] labels_from(raw, n)[i],
                #[trigger] labels_from(raw, n)[j],
            ),
    decreases n,
{
    if n > 0 {
        lemma_labels_usable(raw, (n - 1) as nat);
        let prev = labels_from(raw, (n - 1) as nat);
        let c = raw[n - 1];
        if !(prev.len() >= MAX_STORY_OPTIONS || option_text(c).len() == 0 || has_label(
            prev,
            option_label(c),
        )) {
            lemma_label_usable(c);
            let cur = labels_from(raw, n);
            assert(cur == prev.push(option_label(c)));
            assert forall|i: int, j: int| 0 <= i < j < cur.len() implies !eq_ignore_ascii_case(
                #[trigger] cur[i],
                #[trigger] cur[j],
            ) by {
                if j == cur.len() - 1 {
                    assert(cur[i] == prev[i]);
                    if eq_ignore_ascii_case(prev[i], option_label(c)) {
                        assert(has_label(prev, option_label(c)));
                    }
                } else {
                    assert(cur[i] == prev[i]);
                    assert(cur[j] == prev[j]);
                }
            }
            assert forall|i: int| 0 <= i < cur.len() implies 0 < (#[trigger] cur[i]).len()
                <= MAX_OPTION_CHARS && one_line(cur[i]) by {
                if i < prev.len() {
                    assert(cur[i] == prev[i]);
                }
            }
        }
    }
}

/// `1. Forcer la porte`: a follow-up with its button number.
pub open spec fn numbered_line(index: int, option: Seq<char>) -> Seq<char> {
    decimal((index + 1) as nat) + seq!['.', ' '] + option
}

/// The follow-ups numbered as on the buttons, one per line.
pub open spec fn numbered(options: Seq<Seq<char>>) -> Seq<char> {
    join(Seq::new(options.len(), |i: int| numbered_line(i, options[i])), seq!['\n'])
}

/// The follow-ups numbered as on the buttons, one per line, for the model's history:
/// a player can refer to one of them (« la 2 ») on the next turn.
pub fn numbered_options(options: &[String]) -> (out: String)
    ensures
        out@ == numbered(views(options@)),
{
    let mut lines: Vec<Vec<char>> = Vec::new();
    let mut i: usize = 0;
    while i < options.len()
        invariant
            i <= options.len(),
            lines.len() == i,
            forall|j: int| 0 <= j < i ==> (#[trigger] lines@[j])@ == numbered_line(j, options@[j]@),
        decreases options.len() - i,
    {
        let mut line: Vec<char> = Vec::new();
        push_decimal(&mut line, i as u64 + 1);
        line.push('.');
        line.push(' ');
        append_all(&mut line, &chars_of(options[i].as_str()));
        assert(line@ =~= numbered_line(i as int, options@[i as int]@));
        lines.push(line);
        i = i + 1;
    }
    let mut sep: Vec<char> = Vec::new();
    sep.push('\n');
    let out = join_chars(&lines, &sep);
    assert(char_views(lines@) =~= Seq::new(
        views(options@).len(),
        |j: int| numbered_line(j, views(options@)[j]),
    ));
    assert(sep@ =~= seq!['\n']);
    string_from_chars(&out)
}

} // verus!
