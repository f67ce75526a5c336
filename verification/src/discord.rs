//! What the bot shows in a Discord channel and how it reads what players type.
use vstd::prelude::*;

use crate::options::{
    lemma_sanitized_options_are_usable_labels, sanitized, MAX_OPTION_CHARS, MAX_STORY_OPTIONS,
};
use crate::state::{history_view, ConversationState};
use crate::text::{
    all_digits, append_range, char_count, char_views, chars_equal, chars_of, copy_range,
    count_leading, decimal, decimal_string, is_digit, is_ws, lead, lemma_decimal_len_u64,
    lemma_decimal_reads_back, lemma_field_len_is, lemma_lead, lemma_trail, parse_u64,
    parse_unsigned, parse_usize, push_decimal, split_on, string_from_chars, string_of, trail,
    trim_end, trim_end_chars, unsigned_body, views, CharClass,
};

verus! {

/// A Discord message holds at most this many characters.
pub const DISCORD_MSG_LIMIT: usize = 2000;

/// Length of the first line of `s`, its line feed included.
pub open spec fn first_line_len(s: Seq<char>) -> nat {
    let k = lead(s, CharClass::NotNewline);
    if k < s.len() {
        k + 1
    } else {
        k
    }
}

/// The lines of `s`, each with its line feed, as `str::split_inclusive('\n')` yields them.
pub open spec fn lines(s: Seq<char>) -> Seq<Seq<char>>
    decreases s.len(),
{
    if s.len() == 0 {
        seq![]
    } else {
        let k = first_line_len(s);
        proof {
            lemma_lead(s, CharClass::NotNewline);
        }
        seq![s.take(k as int)] + lines(s.skip(k as int))
    }
}

/// Adds a line to the chunks under construction (`acc.0` the finished chunks, `acc.1`
/// the current one): a line longer than `limit` is cut into pieces of `limit`
/// characters, each a chunk of its own; a line that does not fit in the current chunk
/// starts the next one.
pub open spec fn feed(acc: (Seq<Seq<char>>, Seq<char>), line: Seq<char>, limit: nat) -> (Seq<Seq<char>>, Seq<char>)
    decreases line.len(),
{
    if limit > 0 && line.len() > limit {
        let chunks = if acc.1.len() > 0 {
            acc.0.push(acc.1)
        } else {
            acc.0
        };
        feed((chunks.push(line.take(limit as int)), seq![]), line.skip(limit as int), limit)
    } else if acc.1.len() + line.len() > limit {
        (acc.0.push(acc.1), line)
    } else {
        (acc.0, acc.1 + line)
    }
}

/// The chunks after all the lines.
pub open spec fn feed_all(ls: Seq<Seq<char>>, limit: nat) -> (Seq<Seq<char>>, Seq<char>)
    decreases ls.len(),
{
    if ls.len() == 0 {
        (seq![], seq![])
    } else {
        feed(feed_all(ls.drop_last(), limit), ls.last(), limit)
    }
}

/// The chunks with their trailing whitespace removed, the empty ones dropped.
pub open spec fn cleaned_chunks(chunks: Seq<Seq<char>>) -> Seq<Seq<char>>
    decreases chunks.len(),
{
    if chunks.len() == 0 {
        seq![]
    } else {
        let t = trim_end(chunks.last());
        if t.len() == 0 {
            cleaned_chunks(chunks.drop_last())
        } else {
            cleaned_chunks(chunks.drop_last()).push(t)
        }
    }
}

/// What `split_message` gives.
pub open spec fn split_text(text: Seq<char>, limit: nat) -> Seq<Seq<char>> {
    let acc = feed_all(lines(text), limit);
    cleaned_chunks(acc.0.push(acc.1))
}

proof fn lemma_feed_step(acc: (Seq<Seq<char>>, Seq<char>), line: Seq<char>, limit: nat)
    requires
        limit > 0,
        line.len() > limit,
    ensures
        feed(acc, line, limit) == feed(
            ((if acc.1.len() > 0 {
                acc.0.push(acc.1)
            } else {
                acc.0
            }).push(line.take(limit as int)), seq![]),
            line.skip(limit as int),
            limit,
        ),
{
}

/// Cuts a text into chunks of at most `limit` characters, keeping line ends where it
/// can: a chunk ends at a line end unless a single line is longer than `limit`.
/// Trailing whitespace goes and empty chunks are dropped.
pub fn split_message(text: &str, limit: usize) -> (chunks: Vec<String>)
    requires
        limit > 0,
    ensures
        views(chunks@) == split_text(text@, limit as nat),
{
    let s = chars_of(text);
    let n = s.len();
    let mut chunks: Vec<Vec<char>> = Vec::new();
    let mut current: Vec<char> = Vec::new();
    let mut i: usize = 0;
    let ghost mut done: Seq<Seq<char>> = seq![];
    assert(s@.skip(0) =~= s@);
    assert(done + lines(s@) =~= lines(s@));
    while i < n
        invariant
            i <= n == s.len(),
            s@ == text@,
            limit > 0,
            done + lines(s@.skip(i as int)) == lines(text@),
            current.len() <= limit,
            (char_views(chunks@), current@) == feed_all(done, limit as nat),
        decreases n - i,
    {
        let j = count_leading(&s, i, n, CharClass::NotNewline);
        let end = if i + j < n { i + j + 1 } else { i + j };
        let ghost line = s@.subrange(i as int, end as int);
        proof {
            let t = s@.skip(i as int);
            assert(t =~= s@.subrange(i as int, n as int));
            assert(first_line_len(t) == end - i);
            assert(t.take((end - i) as int) =~= line);
            assert(t.skip((end - i) as int) =~= s@.skip(end as int));
            assert(lines(t) == seq![line] + lines(s@.skip(end as int)));
            assert(done + (seq![line] + lines(s@.skip(end as int))) =~= done.push(line) + lines(
                s@.skip(end as int),
            ));
            assert(done.push(line).drop_last() =~= done);
        }
        let ghost target = feed(feed_all(done, limit as nat), line, limit as nat);
        let mut lo = i;
        while end - lo > limit
            invariant
                i <= lo <= end <= n == s.len(),
                limit > 0,
                current.len() <= limit,
                target == feed((char_views(chunks@), current@), s@.subrange(lo as int, end as int), limit as nat),
            decreases end - lo,
        {
            proof {
                let l = s@.subrange(lo as int, end as int);
                lemma_feed_step((char_views(chunks@), current@), l, limit as nat);
                assert(l.take(limit as int) =~= s@.subrange(lo as int, (lo + limit) as int));
                assert(l.skip(limit as int) =~= s@.subrange((lo + limit) as int, end as int));
            }
            if current.len() > 0 {
                let ghost prev = char_views(chunks@);
                let full = current;
                chunks.push(full);
                current = Vec::new();
                assert(char_views(chunks@) =~= prev.push(full@));
            }
            let piece = copy_range(&s, lo, lo + limit);
            let ghost prev2 = char_views(chunks@);
            chunks.push(piece);
            assert(char_views(chunks@) =~= prev2.push(piece@));
            assert(current@ =~= Seq::<char>::empty());
            lo = lo + limit;
        }
        if end - lo > limit - current.len() {
            let ghost prev = char_views(chunks@);
            let full = current;
            chunks.push(full);
            assert(char_views(chunks@) =~= prev.push(full@));
            current = copy_range(&s, lo, end);
        } else {
            append_range(&mut current, &s, lo, end);
        }
        proof {
            done = done.push(line);
        }
        i = end;
    }
    proof {
        assert(s@.skip(n as int) =~= Seq::<char>::empty());
        assert(lines(Seq::<char>::empty()) =~= Seq::<Seq<char>>::empty());
        assert(done + Seq::<Seq<char>>::empty() =~= done);
    }
    let ghost raw = char_views(chunks@).push(current@);
    let ghost before_push = char_views(chunks@);
    chunks.push(current);
    assert(char_views(chunks@) =~= raw);
    let mut out: Vec<String> = Vec::new();
    let mut k: usize = 0;
    while k < chunks.len()
        invariant
            k <= chunks.len(),
            char_views(chunks@) == raw,
            views(out@) == cleaned_chunks(raw.take(k as int)),
        decreases chunks.len() - k,
    {
        proof {
            assert(raw.take(k + 1).drop_last() =~= raw.take(k as int));
        }
        let t = trim_end_chars(&chunks[k]);
        if t.len() > 0 {
            let ghost prev = views(out@);
            out.push(string_from_chars(&t));
            assert(views(out@) =~= prev.push(t@));
        }
        k = k + 1;
    }
    assert(raw.take(k as int) =~= raw);
    out
}

/// All pieces have at most `limit` characters.
pub open spec fn all_within(chunks: Seq<Seq<char>>, limit: nat) -> bool {
    forall|i: int| 0 <= i < chunks.len() ==> (#[trigger] chunks[i]).len() <= limit
}

proof fn lemma_feed_within(acc: (Seq<Seq<char>>, Seq<char>), line: Seq<char>, limit: nat)
    requires
        limit > 0,
        all_within(acc.0, limit),
        acc.1.len() <= limit,
    ensures
        all_within(feed(acc, line, limit).0, limit),
        feed(acc, line, limit).1.len() <= limit,
    decreases line.len(),
{
    if line.len() > limit {
        let chunks = if acc.1.len() > 0 {
            acc.0.push(acc.1)
        } else {
            acc.0
        };
        let next = chunks.push(line.take(limit as int));
        assert(all_within(next, limit));
        lemma_feed_within((next, seq![]), line.skip(limit as int), limit);
    } else if acc.1.len() + line.len() > limit {
        assert(all_within(acc.0.push(acc.1), limit));
    }
}

proof fn lemma_feed_all_within(ls: Seq<Seq<char>>, limit: nat)
    requires
        limit > 0,
    ensures
        all_within(feed_all(ls, limit).0, limit),
        feed_all(ls, limit).1.len() <= limit,
    decreases ls.len(),
{
    if ls.len() > 0 {
        lemma_feed_all_within(ls.drop_last(), limit);
        lemma_feed_within(feed_all(ls.drop_last(), limit), ls.last(), limit);
    }
}

proof fn lemma_cleaned_chunks(chunks: Seq<Seq<char>>, limit: nat)
    requires
        all_within(chunks, limit),
    ensures
        forall|i: int|
            0 <= i < cleaned_chunks(chunks).len() ==> 0 < (#[trigger] cleaned_chunks(chunks)[i]).len()
                <= limit && !is_ws(cleaned_chunks(chunks)[i].last()),
    decreases chunks.len(),
{
    if chunks.len() > 0 {
        let init = chunks.drop_last();
        assert(all_within(init, limit)) by {
            assert forall|i: int| 0 <= i < init.len() implies (#[trigger] init[i]).len() <= limit by {
                assert(init[i] == chunks[i]);
            }
        }
        lemma_cleaned_chunks(init, limit);
        let x = chunks.last();
        let t = trim_end(x);
        lemma_trail(x, CharClass::Whitespace);
        if t.len() > 0 {
            assert(t.last() == x[x.len() - trail(x, CharClass::Whitespace) - 1]);
            let c = cleaned_chunks(chunks);
            assert forall|i: int| 0 <= i < c.len() implies 0 < (#[trigger] c[i]).len() <= limit
                && !is_ws(c[i].last()) by {
                if i < c.len() - 1 {
                    assert(c[i] == cleaned_chunks(init)[i]);
                }
            }
        }
    }
}

/// Every message that `split_message` produces can be sent: it is not empty, has at
/// most `limit` characters, and does not end with whitespace.
pub proof fn lemma_split_message_chunks_fit(text: Seq<char>, limit: nat)
    requires
        limit > 0,
    ensures
        forall|i: int|
            0 <= i < split_text(text, limit).len() ==> 0 < (#[trigger] split_text(text, limit)[i]).len()
                <= limit && !is_ws(split_text(text, limit)[i].last()),
{
    let acc = feed_all(lines(text), limit);
    lemma_feed_all_within(lines(text), limit);
    assert(all_within(acc.0.push(acc.1), limit)) by {
        assert forall|i: int| 0 <= i < acc.0.push(acc.1).len() implies (#[trigger] acc.0.push(acc.1)[i]).len() <= limit by {
            if i < acc.0.len() {
                assert(acc.0.push(acc.1)[i] == acc.0[i]);
            }
        }
    }
    lemma_cleaned_chunks(acc.0.push(acc.1), limit);
}

/// The lines of a text, put back together, are the text.
proof fn lemma_lines_flatten(s: Seq<char>)
    ensures
        lines(s).flatten() == s,
    decreases s.len(),
{
    if s.len() > 0 {
        let k = first_line_len(s);
        lemma_lead(s, CharClass::NotNewline);
        lemma_lines_flatten(s.skip(k as int));
        let ls = lines(s);
        assert(ls.first() == s.take(k as int));
        assert(ls.drop_first() =~= lines(s.skip(k as int)));
        assert(s.take(k as int) + s.skip(k as int) =~= s);
    }
}

/// The pieces under construction, the current one last.
spec fn pieces(acc: (Seq<Seq<char>>, Seq<char>)) -> Seq<Seq<char>> {
    acc.0.push(acc.1)
}

/// Feeding a line adds exactly that line to the text held by the pieces.
proof fn lemma_feed_keeps_text(acc: (Seq<Seq<char>>, Seq<char>), line: Seq<char>, limit: nat)
    requires
        limit > 0,
    ensures
        pieces(feed(acc, line, limit)).flatten() == pieces(acc).flatten() + line,
    decreases line.len(),
{
    broadcast use Seq::lemma_flatten_push;

    if line.len() > limit {
        let chunks = if acc.1.len() > 0 {
            acc.0.push(acc.1)
        } else {
            acc.0
        };
        assert(chunks.flatten() == pieces(acc).flatten()) by {
            if acc.1.len() == 0 {
                assert(acc.0.flatten() + acc.1 =~= acc.0.flatten());
            }
        }
        let next = chunks.push(line.take(limit as int));
        lemma_feed_keeps_text((next, seq![]), line.skip(limit as int), limit);
        assert(next.push(seq![]).flatten() =~= next.flatten() + seq![]);
        assert(line.take(limit as int) + line.skip(limit as int) =~= line);
        assert(chunks.flatten() + line.take(limit as int) + line.skip(limit as int) =~= chunks.flatten()
            + line);
    } else if acc.1.len() + line.len() > limit {
    } else {
        assert(acc.0.flatten() + (acc.1 + line) =~= acc.0.flatten() + acc.1 + line);
    }
}

proof fn lemma_feed_all_keeps_text(ls: Seq<Seq<char>>, limit: nat)
    requires
        limit > 0,
    ensures
        pieces(feed_all(ls, limit)).flatten() == ls.flatten(),
    decreases ls.len(),
{
    broadcast use Seq::lemma_flatten_push;

    if ls.len() == 0 {
        assert(pieces(feed_all(ls, limit)) =~= seq![Seq::<char>::empty()]);
        assert(seq![Seq::<char>::empty()].drop_first() =~= Seq::<Seq<char>>::empty());
    } else {
        lemma_feed_all_keeps_text(ls.drop_last(), limit);
        lemma_feed_keeps_text(feed_all(ls.drop_last(), limit), ls.last(), limit);
        assert(ls.drop_last().push(ls.last()) =~= ls);
    }
}

/// Dropping trailing whitespace and empty chunks changes nothing when the chunks hold
/// no whitespace.
proof fn lemma_cleaned_chunks_keep_text(chunks: Seq<Seq<char>>)
    requires
        forall|i: int| 0 <= i < chunks.flatten().len() ==> !is_ws(#[trigger] chunks.flatten()[i]),
    ensures
        cleaned_chunks(chunks).flatten() == chunks.flatten(),
    decreases chunks.len(),
{
    broadcast use Seq::lemma_flatten_push;

    if chunks.len() > 0 {
        let init = chunks.drop_last();
        let x = chunks.last();
        assert(init.push(x) =~= chunks);
        let f = init.flatten();
        assert(chunks.flatten() == f + x);
        assert forall|i: int| 0 <= i < f.len() implies !is_ws(#[trigger] f[i]) by {
            assert(chunks.flatten()[i] == f[i]);
        }
        lemma_cleaned_chunks_keep_text(init);
        lemma_trail(x, CharClass::Whitespace);
        if x.len() > 0 {
            assert(chunks.flatten()[f.len() + x.len() - 1] == x.last());
            assert(trail(x, CharClass::Whitespace) == 0);
            assert(trim_end(x) =~= x);
        } else {
            assert(trim_end(x) =~= x);
            assert(f + x =~= f);
        }
    }
}

/// Cutting a text loses nothing but whitespace: the chunks of a text that holds no
/// whitespace, put back together in order, are the text.
pub proof fn lemma_split_keeps_text_without_whitespace(text: Seq<char>, limit: nat)
    requires
        limit > 0,
        forall|i: int| 0 <= i < text.len() ==> !is_ws(#[trigger] text[i]),
    ensures
        split_text(text, limit).flatten() == text,
{
    lemma_lines_flatten(text);
    lemma_feed_all_keeps_text(lines(text), limit);
    lemma_cleaned_chunks_keep_text(pieces(feed_all(lines(text), limit)));
}

/// Lines that fit together in one message stay in the current chunk.
proof fn lemma_feed_all_short(ls: Seq<Seq<char>>, limit: nat)
    requires
        ls.flatten().len() <= limit,
    ensures
        feed_all(ls, limit) == (Seq::<Seq<char>>::empty(), ls.flatten()),
    decreases ls.len(),
{
    broadcast use Seq::lemma_flatten_push;

    if ls.len() > 0 {
        assert(ls.drop_last().push(ls.last()) =~= ls);
        assert(ls.flatten() == ls.drop_last().flatten() + ls.last());
        lemma_feed_all_short(ls.drop_last(), limit);
    }
}

/// A text that fits in one message is not cut: it is sent as it is, without its
/// trailing whitespace, or not at all when nothing else is left.
pub proof fn lemma_short_text_is_not_split(text: Seq<char>, limit: nat)
    requires
        text.len() <= limit,
    ensures
        split_text(text, limit) == (if trim_end(text).len() == 0 {
            Seq::<Seq<char>>::empty()
        } else {
            seq![trim_end(text)]
        }),
{
    lemma_lines_flatten(text);
    lemma_feed_all_short(lines(text), limit);
    let raw = pieces(feed_all(lines(text), limit));
    assert(raw =~= seq![text]);
    assert(raw.drop_last() =~= Seq::<Seq<char>>::empty());
    assert(cleaned_chunks(raw.drop_last()) == Seq::<Seq<char>>::empty());
    assert(raw.last() == text);
    assert(Seq::<Seq<char>>::empty().push(trim_end(text)) =~= seq![trim_end(text)]);
}

/// The reply sent for a text: its chunks; a slash command, which must get an answer,
/// gets a placeholder when there is nothing to send.
pub fn reply_chunks(content: &str, is_command: bool) -> (chunks: Vec<String>)
    ensures
        split_text(content@, DISCORD_MSG_LIMIT as nat).len() > 0 ==> views(chunks@) == split_text(
            content@,
            DISCORD_MSG_LIMIT as nat,
        ),
        split_text(content@, DISCORD_MSG_LIMIT as nat).len() == 0 && is_command ==> views(chunks@)
            == seq!["🧛 …"@],
        split_text(content@, DISCORD_MSG_LIMIT as nat).len() == 0 && !is_command ==> chunks@.len()
            == 0,
{
    let mut chunks = split_message(content, DISCORD_MSG_LIMIT);
    if chunks.len() == 0 && is_command {
        chunks.push(string_of("🧛 …"));
        assert(views(chunks@) =~= seq!["🧛 …"@]);
    }
    chunks
}

/// The chunk of a reply that carries the buttons: the last one, as the buttons belong to
/// the end of the narration.
pub fn buttons_chunk(count: usize) -> (r: Option<usize>)
    ensures
        r == if count == 0 {
            None::<usize>
        } else {
            Some((count - 1) as usize)
        },
{
    if count == 0 {
        None
    } else {
        Some(count - 1)
    }
}

/// The prefix of our buttons' ids.
pub open spec fn option_prefix() -> Seq<char> {
    "opt"@
}

/// The id of the button of follow-up `index` at turn `turn`: the turn is part of it, so
/// that a click on the follow-ups of a past turn does nothing.
pub open spec fn option_id_text(turn: nat, index: nat) -> Seq<char> {
    option_prefix() + seq![':'] + decimal(turn) + seq![':'] + decimal(index)
}

pub fn option_button_id(turn: u64, index: usize) -> (id: String)
    ensures
        id@ == option_id_text(turn as nat, index as nat),
{
    let mut v = chars_of("opt");
    v.push(':');
    push_decimal(&mut v, turn);
    v.push(':');
    push_decimal(&mut v, index as u64);
    assert(v@ =~= option_id_text(turn as nat, index as nat));
    string_from_chars(&v)
}

/// What a button id designates: `(turn, index)` for `opt:<turn>:<index>`, nothing for an
/// id that is not ours.
pub open spec fn parse_option_id_spec(id: Seq<char>) -> Option<(u64, usize)> {
    let f = split_on(id, ':');
    if f.len() == 3 && f[0] == option_prefix() {
        match (parse_unsigned(f[1], u64::MAX as nat), parse_unsigned(f[2], usize::MAX as nat)) {
            (Some(t), Some(i)) => Some((t as u64, i as usize)),
            _ => None,
        }
    } else {
        None
    }
}

/// Splits `s` at each `c`.
pub fn split_fields(s: &Vec<char>, c: char) -> (out: Vec<Vec<char>>)
    ensures
        char_views(out@) == split_on(s@, c),
{
    let n = s.len();
    let mut out: Vec<Vec<char>> = Vec::new();
    let mut lo: usize = 0;
    assert(s@.skip(0) =~= s@);
    assert(char_views(out@) + split_on(s@, c) =~= split_on(s@, c));
    loop
        invariant
            lo <= n == s.len(),
            char_views(out@) + split_on(s@.skip(lo as int), c) == split_on(s@, c),
        decreases n - lo,
    {
        let mut k = lo;
        while k < n && s[k] != c
            invariant
                lo <= k <= n == s.len(),
                forall|j: int| lo <= j < k ==> s@[j] != c,
            decreases n - k,
        {
            k = k + 1;
        }
        let ghost t = s@.skip(lo as int);
        proof {
            assert forall|j: int| 0 <= j < k - lo implies #[trigger] t[j] != c by {
                assert(t[j] == s@[lo + j]);
            }
            if k < n {
                assert(t[k - lo] == s@[k as int]);
            }
            lemma_field_len_is(t, c, k - lo);
        }
        let field = copy_range(s, lo, k);
        let ghost prev = char_views(out@);
        out.push(field);
        assert(char_views(out@) =~= prev.push(field@));
        if k == n {
            proof {
                assert(t =~= field@);
                assert(split_on(t, c) == seq![field@]);
                assert(prev + seq![field@] =~= prev.push(field@));
            }
            return out;
        }
        proof {
            assert(t.take(k - lo) =~= field@);
            assert(t.skip(k - lo + 1) =~= s@.skip(k + 1));
            assert(split_on(t, c) == seq![field@] + split_on(s@.skip(k + 1), c));
            assert(prev + (seq![field@] + split_on(s@.skip(k + 1), c)) =~= prev.push(field@)
                + split_on(s@.skip(k + 1), c));
        }
        lo = k + 1;
    }
}

/// The follow-up a button designates, or `None` for an id that is not ours (including
/// buttons of earlier versions that stay clickable on old messages).
pub fn parse_option_id(custom_id: &str) -> (r: Option<(u64, usize)>)
    ensures
        r == parse_option_id_spec(custom_id@),
{
    let fields = split_fields(&chars_of(custom_id), ':');
    if fields.len() != 3 {
        return None;
    }
    assert(fields@[0]@ == split_on(custom_id@, ':')[0]);
    let prefix = chars_of("opt");
    if !chars_equal(&fields[0], &prefix) {
        return None;
    }
    let turn_text = string_from_chars(&fields[1]);
    let index_text = string_from_chars(&fields[2]);
    assert(turn_text@ == split_on(custom_id@, ':')[1]);
    assert(index_text@ == split_on(custom_id@, ':')[2]);
    match (parse_u64(turn_text.as_str()), parse_usize(index_text.as_str())) {
        (Some(t), Some(i)) => Some((t, i)),
        _ => None,
    }
}

proof fn lemma_digits_hold_no_colon(d: Seq<char>)
    requires
        all_digits(d),
    ensures
        forall|j: int| 0 <= j < d.len() ==> #[trigger] d[j] != ':',
        d.len() > 0 ==> unsigned_body(d) == d,
{
    assert forall|j: int| 0 <= j < d.len() implies #[trigger] d[j] != ':' by {
        assert(is_digit(d[j]));
    }
    if d.len() > 0 {
        assert(is_digit(d[0]));
    }
}

/// Reading back the id of follow-up `index` at turn `turn` gives that turn and that
/// follow-up; and the id, all ASCII, stays within the 100 characters that Discord
/// allows a button id.
pub proof fn lemma_option_id_round_trip(turn: u64, index: usize)
    ensures
        parse_option_id_spec(option_id_text(turn as nat, index as nat)) == Some((turn, index)),
        option_id_text(turn as nat, index as nat).len() <= 100,
        forall|j: int|
            0 <= j < option_id_text(turn as nat, index as nat).len() ==> (#[trigger] option_id_text(
                turn as nat,
                index as nat,
            )[j]) as u32 <= 127,
{
    reveal_strlit("opt");
    let d1 = decimal(turn as nat);
    let d2 = decimal(index as nat);
    lemma_decimal_reads_back(turn as nat);
    lemma_decimal_reads_back(index as nat);
    lemma_decimal_len_u64(turn);
    lemma_decimal_len_u64(index as u64);
    lemma_digits_hold_no_colon(d1);
    lemma_digits_hold_no_colon(d2);
    let id = option_id_text(turn as nat, index as nat);
    let rest = d1 + seq![':'] + d2;
    assert(id =~= option_prefix() + seq![':'] + rest);
    lemma_field_len_is(id, ':', 3);
    assert(id.take(3) =~= option_prefix());
    assert(id.skip(4) =~= rest);
    assert forall|j: int| 0 <= j < d1.len() implies #[trigger] rest[j] != ':' by {
        assert(rest[j] == d1[j]);
    }
    lemma_field_len_is(rest, ':', d1.len() as int);
    assert(rest.take(d1.len() as int) =~= d1);
    assert(rest.skip(d1.len() + 1int) =~= d2);
    lemma_field_len_is(d2, ':', d2.len() as int);
    assert(split_on(d2, ':') == seq![d2]);
    assert(split_on(rest, ':') == seq![d1] + split_on(d2, ':'));
    assert(split_on(id, ':') == seq![option_prefix()] + split_on(rest, ':'));
    assert(split_on(id, ':') =~= seq![option_prefix(), d1, d2]);
    assert forall|j: int| 0 <= j < id.len() implies (#[trigger] id[j]) as u32 <= 127 by {
        if j < 4 {
        } else if j < 4 + d1.len() {
            assert(id[j] == d1[j - 4]);
            assert(is_digit(d1[j - 4]));
        } else if j == 4 + d1.len() {
        } else {
            assert(id[j] == d2[j - 5 - d1.len()]);
            assert(is_digit(d2[j - 5 - d1.len()]));
        }
    }
}

/// A follow-up button: its id and its label.
#[derive(Clone, Debug)]
pub struct OptionButton {
    pub custom_id: String,
    pub label: String,
}

/// The label of the button of follow-up `index`: its number, then its text.
pub open spec fn button_label(index: int, option: Seq<char>) -> Seq<char> {
    decimal((index + 1) as nat) + ". "@ + option
}

/// The buttons of a turn: one per follow-up, at most `MAX_STORY_OPTIONS`, each on a row
/// of its own so that a phone shows its whole label.
pub fn action_rows(turn: u64, options: &[String]) -> (buttons: Vec<OptionButton>)
    ensures
        buttons@.len() == if options@.len() < MAX_STORY_OPTIONS {
            options@.len()
        } else {
            MAX_STORY_OPTIONS as nat
        },
        forall|i: int|
            0 <= i < buttons@.len() ==> (#[trigger] buttons@[i]).custom_id@ == option_id_text(
                turn as nat,
                i as nat,
            ) && buttons@[i].label@ == button_label(i, options@[i]@),
{
    let mut buttons: Vec<OptionButton> = Vec::new();
    let mut i: usize = 0;
    while i < options.len() && i < MAX_STORY_OPTIONS
        invariant
            i <= options.len(),
            i <= MAX_STORY_OPTIONS,
            buttons.len() == i,
            forall|j: int|
                0 <= j < i ==> (#[trigger] buttons@[j]).custom_id@ == option_id_text(
                    turn as nat,
                    j as nat,
                ) && buttons@[j].label@ == button_label(j, options@[j]@),
        decreases options.len() - i,
    {
        let mut label = decimal_string(i as u64 + 1);
        label.append(". ");
        label.append(options[i].as_str());
        buttons.push(OptionButton { custom_id: option_button_id(turn, i), label });
        i = i + 1;
    }
    buttons
}

/// The buttons of the follow-ups that `sanitize_options` keeps fit a phone screen: no
/// label is longer than `MAX_OPTION_CHARS` characters of follow-up, its number, a dot
/// and a space; and there are at most `MAX_STORY_OPTIONS` of them, within the five
/// rows a Discord message allows.
pub proof fn lemma_button_labels_fit(raw: Seq<Seq<char>>)
    ensures
        sanitized(raw).len() <= MAX_STORY_OPTIONS <= 5,
        forall|i: int|
            0 <= i < sanitized(raw).len() ==> #[trigger] button_label(i, sanitized(raw)[i]).len()
                <= MAX_OPTION_CHARS + 3,
{
    lemma_sanitized_options_are_usable_labels(raw);
    assert forall|i: int| 0 <= i < sanitized(raw).len() implies #[trigger] button_label(
        i,
        sanitized(raw)[i],
    ).len() <= MAX_OPTION_CHARS + 3 by {
        reveal_strlit(". ");
        assert(decimal((i + 1) as nat).len() == 1);
    }
}

/// What the message of a turn says once a player has clicked: the action chosen,
/// attributed to the character and the player.
pub open spec fn choice_note_text(user: nat, character: Seq<char>, action: Seq<char>) -> Seq<char> {
    "\n\n> 🎭 **"@ + character + "** (<@"@ + decimal(user) + ">) — "@ + action
}

pub fn choice_note(user: u64, character: &str, action: &str) -> (note: String)
    ensures
        note@ == choice_note_text(user as nat, character@, action@),
{
    let mut note = string_of("\n\n> 🎭 **");
    note.append(character);
    note.append("** (<@");
    note.append(decimal_string(user).as_str());
    note.append(">) — ");
    note.append(action);
    note
}

/// The message with the choice noted under it, when both fit in a Discord message;
/// otherwise only the buttons go.
pub fn annotated_content(content: &str, note: &str) -> (r: Option<String>)
    ensures
        content@.len() + note@.len() <= DISCORD_MSG_LIMIT ==> (r matches Some(t) && t@ == content@
            + note@),
        content@.len() + note@.len() > DISCORD_MSG_LIMIT ==> r is None,
{
    let a = char_count(content);
    let b = char_count(note);
    if a <= DISCORD_MSG_LIMIT && b <= DISCORD_MSG_LIMIT - a {
        let mut t = string_of(content);
        t.append(note);
        Some(t)
    } else {
        None
    }
}

/// After a click, the interaction removed the buttons itself: the state forgets the
/// message that carries them, but only if the click came from that message.
pub fn forget_options_message(state: &mut ConversationState, message_id: u64)
    ensures
        final(state).options_message_id == if old(state).options_message_id == Some(message_id) {
            None
        } else {
            old(state).options_message_id
        },
        final(state).provider == old(state).provider,
        final(state).last_roll == old(state).last_roll,
        final(state).characters@ == old(state).characters@,
        final(state).last_message_id == old(state).last_message_id,
        final(state).turn == old(state).turn,
        views(final(state).pending_options@) == views(old(state).pending_options@),
        final(state).summary@ == old(state).summary@,
        history_view(final(state).recent@) == history_view(old(state).recent@),
{
    if state.options_message_id == Some(message_id) {
        state.options_message_id = None;
    }
}

} // verus!
