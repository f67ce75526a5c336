//! Character-level text handling: whitespace, trimming, words, decimal numbers.
use vstd::prelude::*;

verus! {

/// The Unicode `White_Space` property, the set of characters that
/// `char::is_whitespace` accepts.
pub open spec fn is_ws(c: char) -> bool {
    let u = c as u32;
    ||| u == 0x20
    ||| (0x09 <= u && u <= 0x0d)
    ||| u == 0x85
    ||| u == 0xa0
    ||| u == 0x1680
    ||| (0x2000 <= u && u <= 0x200a)
    ||| u == 0x2028
    ||| u == 0x2029
    ||| u == 0x202f
    ||| u == 0x205f
    ||| u == 0x3000
}

pub fn is_whitespace(c: char) -> (b: bool)
    ensures
        b == is_ws(c),
{
    let u = c as u32;
    u == 0x20 || (0x09 <= u && u <= 0x0d) || u == 0x85 || u == 0xa0 || u == 0x1680 || (0x2000
        <= u && u <= 0x200a) || u == 0x2028 || u == 0x2029 || u == 0x202f || u == 0x205f || u
        == 0x3000
}

/// Characters `0` to `9`.
pub open spec fn is_digit(c: char) -> bool {
    48 <= c as u32 && c as u32 <= 57
}

/// The classes of characters that the trimming functions remove.
#[derive(Clone, Copy, Debug, PartialEq, Eq)]
pub enum CharClass {
    Whitespace,
    NotWhitespace,
    /// The bullets and quotes a model puts around a list entry.
    ListMarker,
    /// Straight double and single quotes.
    Quote,
    Digit,
    /// Anything but a line feed.
    NotNewline,
}

pub open spec fn in_class(k: CharClass, c: char) -> bool {
    match k {
        CharClass::Whitespace => is_ws(c),
        CharClass::NotWhitespace => !is_ws(c),
        CharClass::ListMarker => c == '-' || c == '*' || c == '\u{2022}' || c == ' ' || c == '"',
        CharClass::Quote => c == '"' || c == '\'',
        CharClass::Digit => is_digit(c),
        CharClass::NotNewline => c != '\n',
    }
}

pub fn class_contains(k: CharClass, c: char) -> (b: bool)
    ensures
        b == in_class(k, c),
{
    match k {
        CharClass::Whitespace => is_whitespace(c),
        CharClass::NotWhitespace => !is_whitespace(c),
        CharClass::ListMarker => c == '-' || c == '*' || c == '\u{2022}' || c == ' ' || c == '"',
        CharClass::Quote => c == '"' || c == '\'',
        CharClass::Digit => {
            let u = c as u32;
            48 <= u && u <= 57
        },
        CharClass::NotNewline => c != '\n',
    }
}

/// Length of the longest prefix of `s` made of characters of class `k`.
pub open spec fn lead(s: Seq<char>, k: CharClass) -> nat
    decreases s.len(),
{
    if s.len() > 0 && in_class(k, s[0]) {
        1 + lead(s.drop_first(), k)
    } else {
        0
    }
}

/// Length of the longest suffix of `s` made of characters of class `k`.
pub open spec fn trail(s: Seq<char>, k: CharClass) -> nat
    decreases s.len(),
{
    if s.len() > 0 && in_class(k, s.last()) {
        1 + trail(s.drop_last(), k)
    } else {
        0
    }
}

pub open spec fn trim_start_in(s: Seq<char>, k: CharClass) -> Seq<char> {
    s.skip(lead(s, k) as int)
}

pub open spec fn trim_end_in(s: Seq<char>, k: CharClass) -> Seq<char> {
    s.take(s.len() - trail(s, k))
}

/// Both ends of `s` stripped of characters of class `k`, as `str::trim_matches` does.
pub open spec fn trim_in(s: Seq<char>, k: CharClass) -> Seq<char> {
    trim_end_in(trim_start_in(s, k), k)
}

/// `str::trim`.
pub open spec fn trim(s: Seq<char>) -> Seq<char> {
    trim_in(s, CharClass::Whitespace)
}

/// `str::trim_end`.
pub open spec fn trim_end(s: Seq<char>) -> Seq<char> {
    trim_end_in(s, CharClass::Whitespace)
}

pub proof fn lemma_lead(s: Seq<char>, k: CharClass)
    ensures
        lead(s, k) <= s.len(),
        forall|j: int| 0 <= j < lead(s, k) ==> in_class(k, #[trigger] s[j]),
        lead(s, k) < s.len() ==> !in_class(k, s[lead(s, k) as int]),
    decreases s.len(),
{
    if s.len() > 0 && in_class(k, s[0]) {
        lemma_lead(s.drop_first(), k);
        assert forall|j: int| 0 <= j < lead(s, k) implies in_class(k, #[trigger] s[j]) by {
            if j > 0 {
                assert(s[j] == s.drop_first()[j - 1]);
            }
        }
    }
}

pub proof fn lemma_trail(s: Seq<char>, k: CharClass)
    ensures
        trail(s, k) <= s.len(),
        forall|j: int| s.len() - trail(s, k) <= j < s.len() ==> in_class(k, #[trigger] s[j]),
        trail(s, k) < s.len() ==> !in_class(k, s[s.len() - trail(s, k) - 1]),
    decreases s.len(),
{
    if s.len() > 0 && in_class(k, s.last()) {
        lemma_trail(s.drop_last(), k);
        assert forall|j: int| s.len() - trail(s, k) <= j < s.len() implies in_class(
            k,
            #[trigger] s[j],
        ) by {
            if j < s.len() - 1 {
                assert(s[j] == s.drop_last()[j]);
            }
        }
    }
}

/// `lead` is the length of any prefix of class `k` that cannot be extended.
pub proof fn lemma_lead_is(s: Seq<char>, k: CharClass, r: int)
    requires
        0 <= r <= s.len(),
        forall|j: int| 0 <= j < r ==> in_class(k, #[trigger] s[j]),
        r == s.len() || !in_class(k, s[r]),
    ensures
        lead(s, k) == r,
    decreases r,
{
    if r > 0 {
        assert(in_class(k, s[0]));
        let t = s.drop_first();
        assert forall|j: int| 0 <= j < r - 1 implies in_class(k, #[trigger] t[j]) by {
            assert(t[j] == s[j + 1]);
        }
        if r < s.len() {
            assert(t[r - 1] == s[r]);
        }
        lemma_lead_is(t, k, r - 1);
    }
}

/// `trail` is the length of any suffix of class `k` that cannot be extended.
pub proof fn lemma_trail_is(s: Seq<char>, k: CharClass, r: int)
    requires
        0 <= r <= s.len(),
        forall|j: int| s.len() - r <= j < s.len() ==> in_class(k, #[trigger] s[j]),
        r == s.len() || !in_class(k, s[s.len() - r - 1]),
    ensures
        trail(s, k) == r,
    decreases r,
{
    if r > 0 {
        assert(in_class(k, s[s.len() - 1]));
        let t = s.drop_last();
        assert forall|j: int| t.len() - (r - 1) <= j < t.len() implies in_class(
            k,
            #[trigger] t[j],
        ) by {
            assert(t[j] == s[j]);
        }
        if r < s.len() {
            assert(t[t.len() - (r - 1) - 1] == s[s.len() - r - 1]);
        }
        lemma_trail_is(t, k, r - 1);
    }
}

/// Number of characters of class `k` at the start of `s[lo..hi]`.
pub fn count_leading(s: &Vec<char>, lo: usize, hi: usize, k: CharClass) -> (n: usize)
    requires
        lo <= hi <= s.len(),
    ensures
        n == lead(s@.subrange(lo as int, hi as int), k),
        lo + n <= hi,
{
    let mut i = lo;
    while i < hi && class_contains(k, s[i])
        invariant
            lo <= i <= hi <= s.len(),
            forall|j: int| lo <= j < i ==> in_class(k, #[trigger] s@[j]),
        decreases hi - i,
    {
        i = i + 1;
    }
    proof {
        let t = s@.subrange(lo as int, hi as int);
        assert forall|j: int| 0 <= j < i - lo implies in_class(k, #[trigger] t[j]) by {
            assert(t[j] == s@[lo + j]);
        }
        if i < hi {
            assert(t[i - lo] == s@[i as int]);
        }
        lemma_lead_is(t, k, i - lo);
    }
    i - lo
}

/// Number of characters of class `k` at the end of `s[lo..hi]`.
pub fn count_trailing(s: &Vec<char>, lo: usize, hi: usize, k: CharClass) -> (n: usize)
    requires
        lo <= hi <= s.len(),
    ensures
        n == trail(s@.subrange(lo as int, hi as int), k),
        lo + n <= hi,
{
    let mut i = hi;
    while i > lo && class_contains(k, s[i - 1])
        invariant
            lo <= i <= hi <= s.len(),
            forall|j: int| i <= j < hi ==> in_class(k, #[trigger] s@[j]),
        decreases i - lo,
    {
        i = i - 1;
    }
    proof {
        let t = s@.subrange(lo as int, hi as int);
        let r = hi - i;
        assert forall|j: int| t.len() - r <= j < t.len() implies in_class(k, #[trigger] t[j]) by {
            assert(t[j] == s@[lo + j]);
        }
        if i > lo {
            assert(t[t.len() - r - 1] == s@[i - 1]);
        }
        lemma_trail_is(t, k, r as int);
    }
    hi - i
}

/// A copy of `s[lo..hi]`.
pub fn copy_range(s: &Vec<char>, lo: usize, hi: usize) -> (out: Vec<char>)
    requires
        lo <= hi <= s.len(),
    ensures
        out@ == s@.subrange(lo as int, hi as int),
{
    let mut out: Vec<char> = Vec::new();
    let mut i = lo;
    while i < hi
        invariant
            lo <= i <= hi <= s.len(),
            out@ == s@.subrange(lo as int, i as int),
        decreases hi - i,
    {
        out.push(s[i]);
        i = i + 1;
        assert(out@ =~= s@.subrange(lo as int, i as int));
    }
    out
}

/// Appends `s[lo..hi]` to `out`.
pub fn append_range(out: &mut Vec<char>, s: &Vec<char>, lo: usize, hi: usize)
    requires
        lo <= hi <= s.len(),
    ensures
        final(out)@ == old(out)@ + s@.subrange(lo as int, hi as int),
{
    let ghost start = out@;
    let mut i = lo;
    while i < hi
        invariant
            lo <= i <= hi <= s.len(),
            out@ == start + s@.subrange(lo as int, i as int),
        decreases hi - i,
    {
        out.push(s[i]);
        i = i + 1;
        assert(out@ =~= start + s@.subrange(lo as int, i as int));
    }
}

/// Appends all of `s` to `out`.
pub fn append_all(out: &mut Vec<char>, s: &Vec<char>)
    ensures
        final(out)@ == old(out)@ + s@,
{
    append_range(out, s, 0, s.len());
    assert(s@.subrange(0, s.len() as int) =~= s@);
}

/// The characters of `s`, in order.
pub fn chars_of(s: &str) -> (v: Vec<char>)
    ensures
        v@ == s@,
{
    let mut v: Vec<char> = Vec::new();
    for c in it: s.chars()
        invariant
            v@ == it.seq().take(it.index()),
    {
        v.push(c);
    }
    assert(v@ =~= s@);
    v
}

/// The words of `s`, as `str::split_whitespace` yields them.
pub open spec fn words(s: Seq<char>) -> Seq<Seq<char>>
    decreases s.len(),
{
    let t = trim_start_in(s, CharClass::Whitespace);
    if t.len() == 0 {
        seq![]
    } else {
        let n = lead(t, CharClass::NotWhitespace);
        proof {
            lemma_lead(s, CharClass::Whitespace);
            lemma_lead(t, CharClass::NotWhitespace);
            assert(t[0] == s[lead(s, CharClass::Whitespace) as int]);
        }
        seq![t.take(n as int)] + words(t.skip(n as int))
    }
}

/// The pieces joined with `sep` between consecutive ones, as `[..].join(sep)` does.
pub open spec fn join(parts: Seq<Seq<char>>, sep: Seq<char>) -> Seq<char>
    decreases parts.len(),
{
    if parts.len() == 0 {
        seq![]
    } else if parts.len() == 1 {
        parts[0]
    } else {
        join(parts.drop_last(), sep) + sep + parts.last()
    }
}

pub proof fn lemma_join_push(parts: Seq<Seq<char>>, sep: Seq<char>, p: Seq<char>)
    ensures
        join(parts.push(p), sep) == if parts.len() == 0 {
            p
        } else {
            join(parts, sep) + sep + p
        },
{
    assert(parts.push(p).drop_last() =~= parts);
}

/// A join of two or more pieces starts with the first piece and the separator.
pub proof fn lemma_join_front(parts: Seq<Seq<char>>, sep: Seq<char>)
    requires
        parts.len() >= 2,
    ensures
        join(parts, sep) == parts[0] + sep + join(parts.drop_first(), sep),
    decreases parts.len(),
{
    if parts.len() == 2 {
        assert(join(parts.drop_last(), sep) == parts.drop_last()[0]);
        assert(join(parts.drop_first(), sep) == parts.drop_first()[0]);
        assert(parts.drop_first()[0] == parts.last());
    } else {
        let init = parts.drop_last();
        lemma_join_front(init, sep);
        assert(init.drop_first() =~= parts.drop_first().drop_last());
        assert(parts.drop_first().last() == parts.last());
        assert(init[0] == parts[0]);
        assert(join(parts, sep) =~= parts[0] + sep + join(parts.drop_first(), sep));
    }
}

/// Leading whitespace does not change the words.
proof fn lemma_words_after_space(r: Seq<char>)
    ensures
        words(seq![' '] + r) == words(r),
{
    let s = seq![' '] + r;
    assert(s.drop_first() =~= r);
    assert(lead(s, CharClass::Whitespace) == 1 + lead(r, CharClass::Whitespace));
    lemma_lead(r, CharClass::Whitespace);
    assert(trim_start_in(s, CharClass::Whitespace) =~= trim_start_in(r, CharClass::Whitespace));
}

/// A word without whitespace, followed by nothing or by whitespace, is the first word.
proof fn lemma_words_cons(w: Seq<char>, tail: Seq<char>)
    requires
        w.len() > 0,
        forall|j: int| 0 <= j < w.len() ==> !is_ws(#[trigger] w[j]),
        tail.len() == 0 || is_ws(tail[0]),
    ensures
        words(w + tail) == seq![w] + words(tail),
{
    let s = w + tail;
    assert(s[0] == w[0]);
    assert(lead(s, CharClass::Whitespace) == 0);
    assert(trim_start_in(s, CharClass::Whitespace) =~= s);
    assert forall|j: int| 0 <= j < w.len() implies in_class(CharClass::NotWhitespace, #[trigger] s[j]) by {
        assert(s[j] == w[j]);
    }
    if tail.len() > 0 {
        assert(s[w.len() as int] == tail[0]);
    }
    lemma_lead_is(s, CharClass::NotWhitespace, w.len() as int);
    assert(s.take(w.len() as int) =~= w);
    assert(s.skip(w.len() as int) =~= tail);
}

/// Words without whitespace joined by single spaces are read back as those words.
pub proof fn lemma_words_of_spaced(ws: Seq<Seq<char>>)
    requires
        forall|i: int| 0 <= i < ws.len() ==> (#[trigger] ws[i]).len() > 0,
        forall|i: int, j: int| 0 <= i < ws.len() && 0 <= j < ws[i].len() ==> !is_ws(#[trigger] ws[i][j]),
    ensures
        words(join(ws, seq![' '])) == ws,
    decreases ws.len(),
{
    let sep = seq![' '];
    if ws.len() == 0 {
        assert(lead(Seq::<char>::empty(), CharClass::Whitespace) == 0);
        assert(words(join(ws, sep)) =~= ws);
    } else if ws.len() == 1 {
        let w = ws[0];
        assert(forall|j: int| 0 <= j < w.len() ==> !is_ws(#[trigger] w[j]));
        lemma_words_cons(w, Seq::<char>::empty());
        assert(w + Seq::<char>::empty() =~= w);
        assert(lead(Seq::<char>::empty(), CharClass::Whitespace) == 0);
        assert(words(Seq::<char>::empty()) =~= Seq::<Seq<char>>::empty());
        assert(words(join(ws, sep)) =~= ws);
    } else {
        let rest = ws.drop_first();
        assert forall|i: int| 0 <= i < rest.len() implies (#[trigger] rest[i]).len() > 0 by {
            assert(rest[i] == ws[i + 1]);
        }
        assert forall|i: int, j: int| 0 <= i < rest.len() && 0 <= j < rest[i].len() implies !is_ws(
            #[trigger] rest[i][j],
        ) by {
            assert(rest[i] == ws[i + 1]);
        }
        lemma_words_of_spaced(rest);
        lemma_join_front(ws, sep);
        let r = join(rest, sep);
        let w = ws[0];
        assert(forall|j: int| 0 <= j < w.len() ==> !is_ws(#[trigger] w[j]));
        lemma_words_cons(w, sep + r);
        lemma_words_after_space(r);
        assert(w + sep + r =~= w + (sep + r));
        assert(seq![w] + rest =~= ws);
    }
}

/// A property of every character of `s` holds of every character of its words.
pub proof fn lemma_words_keep(s: Seq<char>, p: spec_fn(char) -> bool)
    requires
        forall|i: int| 0 <= i < s.len() ==> p(#[trigger] s[i]),
    ensures
        forall|i: int, j: int|
            0 <= i < words(s).len() && 0 <= j < words(s)[i].len() ==> p(#[trigger] words(s)[i][j]),
    decreases s.len(),
{
    let t = trim_start_in(s, CharClass::Whitespace);
    lemma_lead(s, CharClass::Whitespace);
    if t.len() > 0 {
        let a = lead(s, CharClass::Whitespace);
        let n = lead(t, CharClass::NotWhitespace);
        lemma_lead(t, CharClass::NotWhitespace);
        assert(t[0] == s[a as int]);
        let rest = t.skip(n as int);
        assert forall|k: int| 0 <= k < rest.len() implies p(#[trigger] rest[k]) by {
            assert(rest[k] == s[a + n + k]);
        }
        lemma_words_keep(rest, p);
        let w = words(s);
        assert(w == seq![t.take(n as int)] + words(rest));
        assert forall|i: int, j: int| 0 <= i < w.len() && 0 <= j < w[i].len() implies p(
            #[trigger] w[i][j],
        ) by {
            if i == 0 {
                assert(w[0][j] == s[a + j]);
            } else {
                assert(w[i] == words(rest)[i - 1]);
            }
        }
    }
}

/// A property of every character of the pieces and of the separator holds of every
/// character of their join.
pub proof fn lemma_join_keeps(parts: Seq<Seq<char>>, sep: Seq<char>, p: spec_fn(char) -> bool)
    requires
        forall|i: int, j: int| 0 <= i < parts.len() && 0 <= j < parts[i].len() ==> p(#[trigger] parts[i][j]),
        forall|j: int| 0 <= j < sep.len() ==> p(#[trigger] sep[j]),
    ensures
        forall|k: int| 0 <= k < join(parts, sep).len() ==> p(#[trigger] join(parts, sep)[k]),
    decreases parts.len(),
{
    if parts.len() == 1 {
        assert forall|k: int| 0 <= k < parts[0].len() implies p(#[trigger] parts[0][k]) by {}
    } else if parts.len() > 1 {
        let init = parts.drop_last();
        assert forall|i: int, j: int| 0 <= i < init.len() && 0 <= j < init[i].len() implies p(
            #[trigger] init[i][j],
        ) by {
            assert(init[i] == parts[i]);
        }
        lemma_join_keeps(init, sep, p);
        let a = join(init, sep);
        let last = parts[parts.len() - 1];
        let r = a + sep + last;
        assert forall|k: int| 0 <= k < r.len() implies p(#[trigger] r[k]) by {
            if k < a.len() {
                assert(r[k] == a[k]);
            } else if k < a.len() + sep.len() {
                assert(r[k] == sep[k - a.len()]);
            } else {
                assert(r[k] == last[k - a.len() - sep.len()]);
            }
        }
    }
}

/// The words of `s` separated by single spaces.
pub open spec fn single_spaced(s: Seq<char>) -> Seq<char> {
    join(words(s), seq![' '])
}

/// `s` with every run of whitespace made a single space and both ends trimmed:
/// `s.split_whitespace().collect::<Vec<_>>().join(" ")`.
pub fn collapse_whitespace(s: &Vec<char>) -> (out: Vec<char>)
    ensures
        out@ == single_spaced(s@),
{
    let n = s.len();
    let mut out: Vec<char> = Vec::new();
    let mut i: usize = 0;
    let mut first = true;
    let ghost mut acc: Seq<Seq<char>> = seq![];
    assert(s@.skip(0) =~= s@);
    assert(acc + words(s@) =~= words(s@));
    while i < n
        invariant
            i <= n == s.len(),
            acc + words(s@.skip(i as int)) == words(s@),
            out@ == join(acc, seq![' ']),
            first == (acc.len() == 0),
        decreases n - i,
    {
        let a = i + count_leading(s, i, n, CharClass::Whitespace);
        proof {
            assert(s@.skip(i as int) =~= s@.subrange(i as int, n as int));
            assert(trim_start_in(s@.skip(i as int), CharClass::Whitespace) =~= s@.skip(a as int));
        }
        if a == n {
            proof {
                assert(words(s@.skip(i as int)) =~= Seq::<Seq<char>>::empty());
                assert(acc + words(s@.skip(i as int)) =~= acc);
                assert(words(s@.skip(n as int)) =~= Seq::<Seq<char>>::empty());
                assert(acc + words(s@.skip(n as int)) =~= acc);
            }
            i = n;
        } else {
            let b = a + count_leading(s, a, n, CharClass::NotWhitespace);
            let ghost w = s@.subrange(a as int, b as int);
            proof {
                let t = s@.skip(a as int);
                assert(t =~= s@.subrange(a as int, n as int));
                assert(t.take((b - a) as int) =~= w);
                assert(t.skip((b - a) as int) =~= s@.skip(b as int));
                assert(words(s@.skip(i as int)) == seq![w] + words(s@.skip(b as int)));
                assert(acc + (seq![w] + words(s@.skip(b as int))) =~= acc.push(w) + words(
                    s@.skip(b as int),
                ));
                lemma_join_push(acc, seq![' '], w);
            }
            if !first {
                out.push(' ');
            }
            append_range(&mut out, s, a, b);
            proof {
                acc = acc.push(w);
            }
            first = false;
            i = b;
        }
    }
    proof {
        assert(s@.skip(n as int) =~= Seq::<char>::empty());
        assert(words(Seq::<char>::empty()) =~= Seq::<Seq<char>>::empty());
        assert(acc + Seq::<Seq<char>>::empty() =~= acc);
    }
    out
}

/// `c` with `A`..`Z` mapped to `a`..`z`, as a code point.
pub open spec fn ascii_fold(c: char) -> u32 {
    let u = c as u32;
    if 65 <= u && u <= 90 {
        (u + 32) as u32
    } else {
        u
    }
}

/// `str::eq_ignore_ascii_case`: equal once ASCII letters are folded to one case.
pub open spec fn eq_ignore_ascii_case(a: Seq<char>, b: Seq<char>) -> bool {
    a.len() == b.len() && forall|i: int| 0 <= i < a.len() ==> ascii_fold(#[trigger] a[i])
        == ascii_fold(b[i])
}

/// Equality with ASCII case aside is symmetric and transitive.
pub proof fn lemma_eq_ignore_ascii_case_laws(a: Seq<char>, b: Seq<char>, c: Seq<char>)
    ensures
        eq_ignore_ascii_case(a, b) ==> eq_ignore_ascii_case(b, a),
        eq_ignore_ascii_case(a, b) && eq_ignore_ascii_case(b, c) ==> eq_ignore_ascii_case(a, c),
{
    if eq_ignore_ascii_case(a, b) {
        assert forall|i: int| 0 <= i < b.len() implies ascii_fold(#[trigger] b[i]) == ascii_fold(a[i]) by {
            assert(ascii_fold(a[i]) == ascii_fold(b[i]));
        }
        if eq_ignore_ascii_case(b, c) {
            assert forall|i: int| 0 <= i < a.len() implies ascii_fold(#[trigger] a[i]) == ascii_fold(c[i]) by {
                assert(ascii_fold(a[i]) == ascii_fold(b[i]));
                assert(ascii_fold(b[i]) == ascii_fold(c[i]));
            }
        }
    }
}

pub fn fold_ascii(c: char) -> (u: u32)
    ensures
        u == ascii_fold(c),
{
    let u = c as u32;
    if 65 <= u && u <= 90 {
        u + 32
    } else {
        u
    }
}

pub fn chars_eq_ignore_ascii_case(a: &Vec<char>, b: &Vec<char>) -> (r: bool)
    ensures
        r == eq_ignore_ascii_case(a@, b@),
{
    if a.len() != b.len() {
        return false;
    }
    let mut i: usize = 0;
    while i < a.len()
        invariant
            i <= a.len() == b.len(),
            forall|j: int| 0 <= j < i ==> ascii_fold(#[trigger] a@[j]) == ascii_fold(b@[j]),
        decreases a.len() - i,
    {
        if fold_ascii(a[i]) != fold_ascii(b[i]) {
            return false;
        }
        i = i + 1;
    }
    true
}

pub fn str_eq_ignore_ascii_case(a: &str, b: &str) -> (r: bool)
    ensures
        r == eq_ignore_ascii_case(a@, b@),
{
    chars_eq_ignore_ascii_case(&chars_of(a), &chars_of(b))
}

/// The character for a digit value.
pub open spec fn digit_char(d: int) -> char {
    seq!['0', '1', '2', '3', '4', '5', '6', '7', '8', '9'][d]
}

pub fn digit_to_char(d: u64) -> (c: char)
    requires
        d < 10,
    ensures
        c == digit_char(d as int),
{
    if d == 0 {
        '0'
    } else if d == 1 {
        '1'
    } else if d == 2 {
        '2'
    } else if d == 3 {
        '3'
    } else if d == 4 {
        '4'
    } else if d == 5 {
        '5'
    } else if d == 6 {
        '6'
    } else if d == 7 {
        '7'
    } else if d == 8 {
        '8'
    } else {
        '9'
    }
}

/// Decimal notation of `n`, without leading zeros, as `{}` formats an unsigned integer.
pub open spec fn decimal(n: nat) -> Seq<char>
    decreases n,
{
    if n < 10 {
        seq![digit_char(n as int)]
    } else {
        decimal(n / 10).push(digit_char((n % 10) as int))
    }
}

/// Decimal notation of a signed integer, as `{}` formats it.
pub open spec fn signed_decimal(i: int) -> Seq<char> {
    if i < 0 {
        seq!['-'] + decimal((-i) as nat)
    } else {
        decimal(i as nat)
    }
}

/// `10` to the power `k`.
pub open spec fn pow10(k: nat) -> nat
    decreases k,
{
    if k == 0 {
        1
    } else {
        10 * pow10((k - 1) as nat)
    }
}

/// Decimal notation is a non-empty string of digits that reads back as the number.
pub proof fn lemma_decimal_reads_back(n: nat)
    ensures
        decimal(n).len() > 0,
        all_digits(decimal(n)),
        digits_value(decimal(n)) == n,
    decreases n,
{
    if n < 10 {
        let s = decimal(n);
        assert(s.drop_last() =~= Seq::<char>::empty());
        assert(s.last() == digit_char(n as int));
        assert(digit_char(n as int) as u32 == 48 + n) by {
            if n == 0 {
            } else if n == 1 {
            } else if n == 2 {
            } else if n == 3 {
            } else if n == 4 {
            } else if n == 5 {
            } else if n == 6 {
            } else if n == 7 {
            } else if n == 8 {
            } else {
                assert(n == 9);
            }
        }
        assert(digits_value(s.drop_last()) == 0);
        assert(digits_value(s) == digits_value(s.drop_last()) * 10 + ((s.last() as u32) - 48) as nat);
    } else {
        lemma_decimal_reads_back(n / 10);
        let d = (n % 10) as int;
        let s = decimal(n);
        assert(s.drop_last() =~= decimal(n / 10));
        assert(digit_char(d) as u32 == 48 + d) by {
            if d == 0 {
            } else if d == 1 {
            } else if d == 2 {
            } else if d == 3 {
            } else if d == 4 {
            } else if d == 5 {
            } else if d == 6 {
            } else if d == 7 {
            } else if d == 8 {
            } else {
                assert(d == 9);
            }
        }
        assert(s.last() == digit_char(d));
        assert(n == (n / 10) * 10 + d);
        assert(digits_value(s) == digits_value(s.drop_last()) * 10 + ((s.last() as u32) - 48) as nat);
        assert(digits_value(s.drop_last()) == n / 10);
        assert(digits_value(s) == n);
        assert forall|i: int| 0 <= i < s.len() implies is_digit(#[trigger] s[i]) by {
            if i < s.len() - 1 {
                assert(s[i] == decimal(n / 10)[i]);
            }
        }
    }
}

/// A number below `10^k` takes at most `k` digits.
pub proof fn lemma_decimal_len(n: nat, k: nat)
    requires
        k > 0,
        n < pow10(k),
    ensures
        decimal(n).len() <= k,
    decreases k,
{
    if n >= 10 {
        reveal_with_fuel(pow10, 2);
        assert(k > 1);
        assert(n / 10 < pow10((k - 1) as nat));
        lemma_decimal_len(n / 10, (k - 1) as nat);
    }
}

/// An unsigned integer of 64 bits takes at most 20 digits.
pub proof fn lemma_decimal_len_u64(n: u64)
    ensures
        decimal(n as nat).len() <= 20,
{
    assert(pow10(20) == 100_000_000_000_000_000_000) by {
        reveal_with_fuel(pow10, 21);
    }
    lemma_decimal_len(n as nat, 20);
}

pub fn push_decimal(out: &mut Vec<char>, n: u64)
    ensures
        final(out)@ == old(out)@ + decimal(n as nat),
    decreases n,
{
    if n >= 10 {
        push_decimal(out, n / 10);
    }
    let c = digit_to_char(n % 10);
    out.push(c);
}

/// Value of a string of decimal digits.
pub open spec fn digits_value(s: Seq<char>) -> nat
    decreases s.len(),
{
    if s.len() == 0 {
        0
    } else {
        digits_value(s.drop_last()) * 10 + ((s.last() as u32) - 48) as nat
    }
}

pub open spec fn all_digits(s: Seq<char>) -> bool {
    forall|i: int| 0 <= i < s.len() ==> is_digit(#[trigger] s[i])
}

/// The text of a number without its optional leading `+`.
pub open spec fn unsigned_body(s: Seq<char>) -> Seq<char> {
    if s.len() > 0 && s[0] == '+' {
        s.drop_first()
    } else {
        s
    }
}

/// What `str::parse` gives for an unsigned integer type whose largest value is `max`.
pub open spec fn parse_unsigned(s: Seq<char>, max: nat) -> Option<nat> {
    let b = unsigned_body(s);
    if b.len() > 0 && all_digits(b) && digits_value(b) <= max {
        Some(digits_value(b))
    } else {
        None
    }
}

/// What `str::parse::<i64>` gives.
pub open spec fn parse_i64_spec(s: Seq<char>) -> Option<int> {
    if s.len() > 0 && s[0] == '-' {
        let b = s.drop_first();
        if b.len() > 0 && all_digits(b) && digits_value(b) <= 0x8000_0000_0000_0000 {
            Some(-(digits_value(b) as int))
        } else {
            None
        }
    } else {
        match parse_unsigned(s, 0x7fff_ffff_ffff_ffff) {
            Some(v) => Some(v as int),
            None => None,
        }
    }
}

pub proof fn lemma_digits_value_grows(s: Seq<char>, j: int)
    requires
        0 <= j <= s.len(),
        all_digits(s),
    ensures
        digits_value(s.take(j)) <= digits_value(s),
    decreases s.len() - j,
{
    if j < s.len() {
        lemma_digits_value_grows(s, j + 1);
        assert(s.take(j + 1).drop_last() =~= s.take(j));
        assert(s.take(j + 1).last() == s[j]);
    } else {
        assert(s.take(j) =~= s);
    }
}

/// Value of the digits `s[lo..]` if they are all digits, there is at least one,
/// and the value is at most `max`.
pub fn parse_digits(s: &Vec<char>, lo: usize, max: u64) -> (r: Option<u64>)
    requires
        lo <= s.len(),
    ensures
        ({
            let b = s@.skip(lo as int);
            r == if b.len() > 0 && all_digits(b) && digits_value(b) <= max {
                Some(digits_value(b) as u64)
            } else {
                None::<u64>
            }
        }),
{
    let ghost b = s@.skip(lo as int);
    if lo == s.len() {
        return None;
    }
    let mut v: u64 = 0;
    let mut i = lo;
    while i < s.len()
        invariant
            lo <= i <= s.len(),
            b == s@.skip(lo as int),
            forall|j: int| 0 <= j < i - lo ==> is_digit(#[trigger] b[j]),
            v == digits_value(b.take(i - lo)),
            v <= max,
        decreases s.len() - i,
    {
        let c = s[i];
        let u = c as u32;
        if u < 48 || u > 57 {
            assert(b[i - lo] == c);
            return None;
        }
        assert(b.take(i - lo + 1).drop_last() =~= b.take(i - lo));
        assert(b.take(i - lo + 1).last() == c);
        let d = (u - 48) as u64;
        let next = match v.checked_mul(10) {
            Some(t) => t.checked_add(d),
            None => None,
        };
        match next {
            Some(nv) if nv <= max => {
                v = nv;
            },
            _ => {
                proof {
                    if all_digits(b) {
                        lemma_digits_value_grows(b, i - lo + 1);
                    }
                }
                return None;
            },
        }
        i = i + 1;
    }
    assert(b.take(i - lo) =~= b);
    Some(v)
}

/// `str::parse::<u64>`.
pub fn parse_u64(text: &str) -> (r: Option<u64>)
    ensures
        r matches Some(v) ==> parse_unsigned(text@, u64::MAX as nat) == Some(v as nat),
        r is None ==> parse_unsigned(text@, u64::MAX as nat) is None,
{
    let s = chars_of(text);
    let lo: usize = if s.len() > 0 && s[0] == '+' { 1 } else { 0 };
    assert(s@.skip(lo as int) =~= unsigned_body(s@));
    parse_digits(&s, lo, u64::MAX)
}

/// `str::parse::<usize>`.
pub fn parse_usize(text: &str) -> (r: Option<usize>)
    ensures
        r matches Some(v) ==> parse_unsigned(text@, usize::MAX as nat) == Some(v as nat),
        r is None ==> parse_unsigned(text@, usize::MAX as nat) is None,
{
    let s = chars_of(text);
    let lo: usize = if s.len() > 0 && s[0] == '+' { 1 } else { 0 };
    assert(s@.skip(lo as int) =~= unsigned_body(s@));
    match parse_digits(&s, lo, usize::MAX as u64) {
        Some(v) => Some(v as usize),
        None => None,
    }
}

/// `str::parse::<i64>`.
pub fn parse_i64(text: &str) -> (r: Option<i64>)
    ensures
        r matches Some(v) ==> parse_i64_spec(text@) == Some(v as int),
        r is None ==> parse_i64_spec(text@) is None,
{
    let s = chars_of(text);
    if s.len() > 0 && s[0] == '-' {
        assert(s@.skip(1) =~= s@.drop_first());
        match parse_digits(&s, 1, 0x8000_0000_0000_0000) {
            Some(m) => {
                if m == 0x8000_0000_0000_0000 {
                    Some(i64::MIN)
                } else {
                    Some(-(m as i64))
                }
            },
            None => None,
        }
    } else {
        let lo: usize = if s.len() > 0 && s[0] == '+' { 1 } else { 0 };
        assert(s@.skip(lo as int) =~= unsigned_body(s@));
        match parse_digits(&s, lo, 0x7fff_ffff_ffff_ffff) {
            Some(m) => Some(m as i64),
            None => None,
        }
    }
}

/// `s[lo..hi]` with characters of class `k` removed from both ends.
pub fn trim_range(s: &Vec<char>, lo: usize, hi: usize, k: CharClass) -> (r: (usize, usize))
    requires
        lo <= hi <= s.len(),
    ensures
        lo <= r.0 <= r.1 <= hi,
        s@.subrange(r.0 as int, r.1 as int) == trim_in(s@.subrange(lo as int, hi as int), k),
        trim_start_in(s@.subrange(lo as int, hi as int), k) == s@.subrange(r.0 as int, hi as int),
{
    let a = lo + count_leading(s, lo, hi, k);
    let b = hi - count_trailing(s, a, hi, k);
    proof {
        let t = s@.subrange(lo as int, hi as int);
        assert(trim_start_in(t, k) =~= s@.subrange(a as int, hi as int));
        assert(trim_end_in(s@.subrange(a as int, hi as int), k) =~= s@.subrange(
            a as int,
            b as int,
        ));
    }
    (a, b)
}

/// `str::trim` on a character vector.
pub fn trim_chars(s: &Vec<char>) -> (out: Vec<char>)
    ensures
        out@ == trim(s@),
{
    let (a, b) = trim_range(s, 0, s.len(), CharClass::Whitespace);
    assert(s@.subrange(0, s.len() as int) =~= s@);
    copy_range(s, a, b)
}

/// `str::trim_end` on a character vector.
pub fn trim_end_chars(s: &Vec<char>) -> (out: Vec<char>)
    ensures
        out@ == trim_end(s@),
{
    let n = s.len();
    let t = count_trailing(s, 0, n, CharClass::Whitespace);
    assert(s@.subrange(0, n as int) =~= s@);
    copy_range(s, 0, n - t)
}

/// Builds a `String` from characters through std's `FromIterator<&char> for String`
/// (`iter().collect()`). Trusted: the string holds exactly these characters, in order.
#[verifier::external_body]
pub(crate) fn string_from_chars(v: &Vec<char>) -> (s: String)
    ensures
        s@ == v@,
{
    v.iter().collect()
}

/// `str::trim`.
pub fn trim_str(s: &str) -> (out: String)
    ensures
        out@ == trim(s@),
{
    string_from_chars(&trim_chars(&chars_of(s)))
}

/// The character views of a sequence of strings.
pub open spec fn views(v: Seq<String>) -> Seq<Seq<char>> {
    v.map_values(|s: String| s@)
}

/// Converts character vectors to strings, one for one.
pub fn strings_from(v: &Vec<Vec<char>>) -> (out: Vec<String>)
    ensures
        views(out@) == v@.map_values(|c: Vec<char>| c@),
{
    let mut out: Vec<String> = Vec::new();
    let mut i: usize = 0;
    while i < v.len()
        invariant
            i <= v.len(),
            out.len() == i,
            forall|j: int| 0 <= j < i ==> (#[trigger] out@[j])@ == v@[j]@,
        decreases v.len() - i,
    {
        out.push(string_from_chars(&v[i]));
        i = i + 1;
    }
    assert(views(out@) =~= v@.map_values(|c: Vec<char>| c@));
    out
}

/// The character views of a sequence of character vectors.
pub open spec fn char_views(v: Seq<Vec<char>>) -> Seq<Seq<char>> {
    v.map_values(|c: Vec<char>| c@)
}

/// `parts.join(sep)` on character vectors.
pub fn join_chars(parts: &Vec<Vec<char>>, sep: &Vec<char>) -> (out: Vec<char>)
    ensures
        out@ == join(char_views(parts@), sep@),
{
    let mut out: Vec<char> = Vec::new();
    let mut i: usize = 0;
    while i < parts.len()
        invariant
            i <= parts.len(),
            out@ == join(char_views(parts@).take(i as int), sep@),
        decreases parts.len() - i,
    {
        proof {
            let pv = char_views(parts@);
            assert(pv.take(i + 1) =~= pv.take(i as int).push(pv[i as int]));
            lemma_join_push(pv.take(i as int), sep@, pv[i as int]);
        }
        if i > 0 {
            append_all(&mut out, sep);
        }
        append_all(&mut out, &parts[i]);
        i = i + 1;
    }
    assert(char_views(parts@).take(i as int) =~= char_views(parts@));
    out
}

/// The words of `s`, as `str::split_whitespace` yields them.
pub fn split_words(s: &Vec<char>) -> (out: Vec<Vec<char>>)
    ensures
        char_views(out@) == words(s@),
{
    let n = s.len();
    let mut out: Vec<Vec<char>> = Vec::new();
    let mut i: usize = 0;
    assert(s@.skip(0) =~= s@);
    assert(char_views(out@) + words(s@) =~= words(s@));
    while i < n
        invariant
            i <= n == s.len(),
            char_views(out@) + words(s@.skip(i as int)) == words(s@),
        decreases n - i,
    {
        let a = i + count_leading(s, i, n, CharClass::Whitespace);
        proof {
            assert(s@.skip(i as int) =~= s@.subrange(i as int, n as int));
            assert(trim_start_in(s@.skip(i as int), CharClass::Whitespace) =~= s@.skip(a as int));
        }
        if a == n {
            proof {
                assert(words(s@.skip(i as int)) =~= Seq::<Seq<char>>::empty());
                assert(words(s@.skip(n as int)) =~= Seq::<Seq<char>>::empty());
                assert(char_views(out@) + words(s@.skip(n as int)) =~= char_views(out@));
                assert(char_views(out@) + words(s@.skip(i as int)) =~= char_views(out@));
            }
            i = n;
        } else {
            let b = a + count_leading(s, a, n, CharClass::NotWhitespace);
            let w = copy_range(s, a, b);
            proof {
                let t = s@.skip(a as int);
                assert(t =~= s@.subrange(a as int, n as int));
                assert(t.take((b - a) as int) =~= w@);
                assert(t.skip((b - a) as int) =~= s@.skip(b as int));
                assert(words(s@.skip(i as int)) == seq![w@] + words(s@.skip(b as int)));
            }
            let ghost prev = char_views(out@);
            out.push(w);
            proof {
                assert(char_views(out@) =~= prev.push(w@));
                assert(prev + (seq![w@] + words(s@.skip(b as int))) =~= prev.push(w@) + words(
                    s@.skip(b as int),
                ));
            }
            i = b;
        }
    }
    proof {
        assert(s@.skip(n as int) =~= Seq::<char>::empty());
        assert(words(Seq::<char>::empty()) =~= Seq::<Seq<char>>::empty());
        assert(char_views(out@) + Seq::<Seq<char>>::empty() =~= char_views(out@));
    }
    out
}

/// Whether a character has the Unicode `Alphabetic` property (`char::is_alphabetic`).
pub uninterp spec fn alphabetic(c: char) -> bool;

/// The characters of the uppercase form of `c` (`char::to_uppercase`); one character
/// can become several.
pub uninterp spec fn uppercase(c: char) -> Seq<char>;

/// An ASCII character.
pub open spec fn is_ascii(c: char) -> bool {
    (c as u32) < 128
}

/// `A` to `Z`.
pub open spec fn is_ascii_upper(c: char) -> bool {
    65 <= c as u32 && c as u32 <= 90
}

/// `a` to `z`.
pub open spec fn is_ascii_lower(c: char) -> bool {
    97 <= c as u32 && c as u32 <= 122
}

pub open spec fn is_ascii_letter(c: char) -> bool {
    is_ascii_upper(c) || is_ascii_lower(c)
}

/// An ASCII letter in upper case; any other character as it is.
pub open spec fn ascii_upper(c: char) -> char {
    if is_ascii_lower(c) {
        ((c as u32) - 32) as char
    } else {
        c
    }
}

/// An ASCII letter in lower case; any other character as it is.
pub open spec fn ascii_lower(c: char) -> char {
    if is_ascii_upper(c) {
        ((c as u32) + 32) as char
    } else {
        c
    }
}

pub open spec fn all_ascii(s: Seq<char>) -> bool {
    forall|i: int| 0 <= i < s.len() ==> is_ascii(#[trigger] s[i])
}

/// A letter, as `char::is_alphabetic` says: among ASCII characters, exactly the ASCII
/// letters.
pub open spec fn letter(c: char) -> bool {
    if is_ascii(c) {
        is_ascii_letter(c)
    } else {
        alphabetic(c)
    }
}

/// The uppercase form of `c`, as `char::to_uppercase` gives it: an ASCII character
/// becomes its ASCII capital, or stays as it is.
pub open spec fn upper(c: char) -> Seq<char> {
    if is_ascii(c) {
        seq![ascii_upper(c)]
    } else {
        uppercase(c)
    }
}

/// Calls `char::is_alphabetic`. Trusted: the result is the Unicode `Alphabetic`
/// property of `c`, a fixed function of `c`, which an ASCII character has exactly when
/// it is an ASCII letter; which other characters have it is not stated.
#[verifier::external_body]
pub(crate) fn is_alphabetic(c: char) -> (b: bool)
    ensures
        b == alphabetic(c),
        is_ascii(c) ==> (b == is_ascii_letter(c)),
{
    c.is_alphabetic()
}

/// `is_alphabetic`, read as `letter`.
pub fn is_letter(c: char) -> (b: bool)
    ensures
        b == letter(c),
{
    is_alphabetic(c)
}

/// Calls `char::to_uppercase` and collects its characters. Trusted: the result is a
/// fixed function of `c`; an ASCII character gives its ASCII capital, or itself when it
/// is no lowercase letter; the Unicode case mapping of other characters is not stated.
#[verifier::external_body]
pub(crate) fn to_uppercase(c: char) -> (v: Vec<char>)
    ensures
        v@ == uppercase(c),
        is_ascii(c) ==> v@ == seq![ascii_upper(c)],
{
    c.to_uppercase().collect()
}

/// `to_uppercase`, read as `upper`.
pub fn upper_chars(c: char) -> (v: Vec<char>)
    ensures
        v@ == upper(c),
{
    to_uppercase(c)
}

/// `parts.join(sep)` on strings.
pub fn join_strings(parts: &[String], sep: &str) -> (out: String)
    ensures
        out@ == join(views(parts@), sep@),
{
    let mut pieces: Vec<Vec<char>> = Vec::new();
    let mut i: usize = 0;
    while i < parts.len()
        invariant
            i <= parts.len(),
            pieces.len() == i,
            forall|j: int| 0 <= j < i ==> (#[trigger] pieces@[j])@ == parts@[j]@,
        decreases parts.len() - i,
    {
        pieces.push(chars_of(parts[i].as_str()));
        i = i + 1;
    }
    assert(char_views(pieces@) =~= views(parts@));
    string_from_chars(&join_chars(&pieces, &chars_of(sep)))
}

/// Length of `s` up to the first `c`, or all of it.
pub open spec fn field_len(s: Seq<char>, c: char) -> nat
    decreases s.len(),
{
    if s.len() == 0 || s[0] == c {
        0
    } else {
        1 + field_len(s.drop_first(), c)
    }
}

pub proof fn lemma_field_len(s: Seq<char>, c: char)
    ensures
        field_len(s, c) <= s.len(),
        forall|j: int| 0 <= j < field_len(s, c) ==> #[trigger] s[j] != c,
        field_len(s, c) < s.len() ==> s[field_len(s, c) as int] == c,
    decreases s.len(),
{
    if s.len() > 0 && s[0] != c {
        lemma_field_len(s.drop_first(), c);
        assert forall|j: int| 0 <= j < field_len(s, c) implies #[trigger] s[j] != c by {
            if j > 0 {
                assert(s[j] == s.drop_first()[j - 1]);
            }
        }
    }
}

pub proof fn lemma_field_len_is(s: Seq<char>, c: char, r: int)
    requires
        0 <= r <= s.len(),
        forall|j: int| 0 <= j < r ==> #[trigger] s[j] != c,
        r == s.len() || s[r] == c,
    ensures
        field_len(s, c) == r,
    decreases r,
{
    if r > 0 {
        let t = s.drop_first();
        assert forall|j: int| 0 <= j < r - 1 implies #[trigger] t[j] != c by {
            assert(t[j] == s[j + 1]);
        }
        if r < s.len() {
            assert(t[r - 1] == s[r]);
        }
        lemma_field_len_is(t, c, r - 1);
    }
}

/// The fields of `s` separated by `c`, as `str::split(c)` yields them.
pub open spec fn split_on(s: Seq<char>, c: char) -> Seq<Seq<char>>
    decreases s.len(),
{
    let k = field_len(s, c);
    proof {
        lemma_field_len(s, c);
    }
    if k >= s.len() {
        seq![s]
    } else {
        seq![s.take(k as int)] + split_on(s.skip(k + 1int), c)
    }
}

/// Whether `needle` occurs in `hay` as a block of consecutive characters.
pub open spec fn contains_text(hay: Seq<char>, needle: Seq<char>) -> bool {
    exists|i: int|
        0 <= i && i + needle.len() <= hay.len() && #[trigger] hay.subrange(i, i + needle.len())
            == needle
}

/// A string's text.
pub fn string_of(s: &str) -> (out: String)
    ensures
        out@ == s@,
{
    String::from_str(s)
}

/// Decimal notation of `n` as a string.
pub fn decimal_string(n: u64) -> (s: String)
    ensures
        s@ == decimal(n as nat),
{
    let mut v: Vec<char> = Vec::new();
    push_decimal(&mut v, n);
    assert(v@ =~= decimal(n as nat));
    string_from_chars(&v)
}

/// Decimal notation of a signed byte, minus sign included.
pub fn signed_decimal_string(i: i8) -> (s: String)
    ensures
        s@ == signed_decimal(i as int),
{
    let mut v: Vec<char> = Vec::new();
    if i < 0 {
        v.push('-');
        let m: i16 = -(i as i16);
        push_decimal(&mut v, m as u64);
    } else {
        push_decimal(&mut v, i as u64);
    }
    assert(v@ =~= signed_decimal(i as int));
    string_from_chars(&v)
}

/// Number of bytes of a character in UTF-8.
pub open spec fn utf8_width(c: char) -> nat {
    let u = c as u32;
    if u < 0x80 {
        1
    } else if u < 0x800 {
        2
    } else if u < 0x10000 {
        3
    } else {
        4
    }
}

/// Number of bytes of a text in UTF-8: what `str::len` returns.
pub open spec fn utf8_len(s: Seq<char>) -> nat
    decreases s.len(),
{
    if s.len() == 0 {
        0
    } else {
        utf8_len(s.drop_last()) + utf8_width(s.last())
    }
}

proof fn lemma_utf8_len_prefix(s: Seq<char>, i: int)
    requires
        0 <= i <= s.len(),
    ensures
        utf8_len(s.take(i)) <= utf8_len(s),
    decreases s.len() - i,
{
    if i < s.len() {
        lemma_utf8_len_prefix(s, i + 1);
        assert(s.take(i + 1).drop_last() =~= s.take(i));
    } else {
        assert(s.take(i) =~= s);
    }
}

/// Whether `s` takes more than `limit` bytes in UTF-8.
pub fn utf8_len_exceeds(s: &str, limit: usize) -> (r: bool)
    ensures
        r == (utf8_len(s@) > limit),
{
    let v = chars_of(s);
    let mut total: u128 = 0;
    let mut i: usize = 0;
    while i < v.len()
        invariant
            i <= v.len(),
            v@ == s@,
            total == utf8_len(v@.take(i as int)),
            total <= limit,
        decreases v.len() - i,
    {
        let u = v[i] as u32;
        let w: u128 = if u < 0x80 {
            1
        } else if u < 0x800 {
            2
        } else if u < 0x10000 {
            3
        } else {
            4
        };
        assert(v@.take(i + 1).drop_last() =~= v@.take(i as int));
        total = total + w;
        i = i + 1;
        if total > limit as u128 {
            proof {
                lemma_utf8_len_prefix(v@, i as int);
            }
            return true;
        }
    }
    assert(v@.take(i as int) =~= v@);
    false
}

/// Copies of the strings.
pub fn copy_strings(v: &[String]) -> (out: Vec<String>)
    ensures
        views(out@) == views(v@),
{
    let mut out: Vec<String> = Vec::new();
    let mut i: usize = 0;
    while i < v.len()
        invariant
            i <= v.len(),
            out.len() == i,
            forall|j: int| 0 <= j < i ==> (#[trigger] out@[j])@ == v@[j]@,
        decreases v.len() - i,
    {
        out.push(v[i].clone());
        i = i + 1;
    }
    assert(views(out@) =~= views(v@));
    out
}

/// Whether `s` begins with `p`.
pub open spec fn starts_with(s: Seq<char>, p: Seq<char>) -> bool {
    p.len() <= s.len() && s.take(p.len() as int) == p
}

/// Whether the characters `s` begin with those of `p`.
pub fn chars_start_with(s: &Vec<char>, p: &str) -> (r: bool)
    ensures
        r == starts_with(s@, p@),
{
    let q = chars_of(p);
    if q.len() > s.len() {
        return false;
    }
    let mut i: usize = 0;
    while i < q.len()
        invariant
            i <= q.len() <= s.len(),
            q@ == p@,
            forall|j: int| 0 <= j < i ==> s@[j] == q@[j],
        decreases q.len() - i,
    {
        if s[i] != q[i] {
            assert(s@.take(q.len() as int)[i as int] != p@[i as int]);
            return false;
        }
        i = i + 1;
    }
    assert(s@.take(q.len() as int) =~= p@);
    true
}

/// Whether two character vectors are equal.
pub fn chars_equal(a: &Vec<char>, b: &Vec<char>) -> (r: bool)
    ensures
        r == (a@ == b@),
{
    if a.len() != b.len() {
        return false;
    }
    let mut i: usize = 0;
    while i < a.len()
        invariant
            i <= a.len() == b.len(),
            forall|j: int| 0 <= j < i ==> a@[j] == b@[j],
        decreases a.len() - i,
    {
        if a[i] != b[i] {
            return false;
        }
        i = i + 1;
    }
    assert(a@ =~= b@);
    true
}

/// The characters of `str::to_lowercase(s)`: Unicode lowercase mapping of the whole
/// text.
pub uninterp spec fn lowercase(s: Seq<char>) -> Seq<char>;

/// The text in lower case, as `str::to_lowercase` gives it: an ASCII text has its ASCII
/// letters lowered and nothing else changed.
pub open spec fn lowered(s: Seq<char>) -> Seq<char> {
    if all_ascii(s) {
        s.map_values(|c: char| ascii_lower(c))
    } else {
        lowercase(s)
    }
}

/// Calls `str::to_lowercase`. Trusted: the result is a fixed function of `s`; an ASCII
/// text gives its ASCII letters in lower case, every other character unchanged; the
/// Unicode case mapping of other texts is not stated.
#[verifier::external_body]
pub(crate) fn to_lowercase(s: &str) -> (out: String)
    ensures
        out@ == lowercase(s@),
        all_ascii(s@) ==> out@ == s@.map_values(|c: char| ascii_lower(c)),
{
    s.to_lowercase()
}

/// `str::to_lowercase`.
pub fn lower_text(s: &str) -> (out: String)
    ensures
        out@ == lowered(s@),
{
    to_lowercase(s)
}

/// Whether a text holds nothing but whitespace.
pub fn is_blank(s: &str) -> (b: bool)
    ensures
        b == (trim(s@).len() == 0),
{
    let c = chars_of(s);
    let (lo, hi) = trim_range(&c, 0, c.len(), CharClass::Whitespace);
    assert(c@.subrange(0, c.len() as int) =~= c@);
    lo == hi
}

/// Number of characters of a text.
pub fn char_count(s: &str) -> (n: usize)
    ensures
        n == s@.len(),
{
    chars_of(s).len()
}

} // verus!
