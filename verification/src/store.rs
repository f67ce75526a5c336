//! Where the adventures are kept: one JSON file per Discord channel, named after it.
use vstd::prelude::*;

use crate::text::{
    chars_equal, chars_of, copy_range, decimal, decimal_string, is_digit, lemma_decimal_reads_back,
    parse_u64, parse_unsigned, string_from_chars, unsigned_body,
};

verus! {

/// The file of the adventure of channel `channel`: its id, then `.json`.
pub open spec fn session_file_text(channel: u64) -> Seq<char> {
    decimal(channel as nat) + ".json"@
}

pub fn session_file_name(channel: u64) -> (name: String)
    ensures
        name@ == session_file_text(channel),
{
    let mut name = decimal_string(channel);
    name.append(".json");
    name
}

/// The channel whose adventure a file holds: a file named `<id>.json` where the id reads
/// as a number; `None` for any other file.
pub open spec fn session_channel_spec(name: Seq<char>) -> Option<u64> {
    if name.len() >= 5 && name.skip(name.len() - 5) == ".json"@ {
        match parse_unsigned(name.take(name.len() - 5), u64::MAX as nat) {
            Some(v) => Some(v as u64),
            None => None,
        }
    } else {
        None
    }
}

pub fn session_channel(name: &str) -> (channel: Option<u64>)
    ensures
        channel == session_channel_spec(name@),
{
    let c = chars_of(name);
    let n = c.len();
    if n < 5 {
        return None;
    }
    let ext = copy_range(&c, n - 5, n);
    assert(ext@ =~= name@.skip(n - 5));
    if !chars_equal(&ext, &chars_of(".json")) {
        return None;
    }
    let stem = string_from_chars(&copy_range(&c, 0, n - 5));
    assert(stem@ =~= name@.take(n - 5));
    parse_u64(stem.as_str())
}

/// The store finds again the channel of every file it writes.
pub proof fn lemma_session_file_round_trip(channel: u64)
    ensures
        session_channel_spec(session_file_text(channel)) == Some(channel),
{
    reveal_strlit(".json");
    let d = decimal(channel as nat);
    let name = session_file_text(channel);
    lemma_decimal_reads_back(channel as nat);
    assert(name.skip(name.len() - 5) =~= ".json"@);
    assert(name.take(name.len() - 5) =~= d);
    assert(is_digit(d[0]));
    assert(unsigned_body(d) == d);
}

} // verus!
