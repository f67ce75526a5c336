//! Catching up after a downtime: Discord does not replay the messages sent while the
//! bot was offline, so the bot reads the channel's history and replays what it missed,
//! within limits of age and number.
use vstd::prelude::*;

use crate::commands::{is_replayable, replayable_message};
use crate::state::lemma_first_difference;
use crate::text::{parse_i64, parse_i64_spec, parse_unsigned, parse_usize};

verus! {

/// At most this many missed actions are replayed, unless `CATCHUP_LIMIT` says otherwise.
pub const DEFAULT_CATCHUP_LIMIT: usize = 20;

/// Actions older than this many hours are not replayed, unless `CATCHUP_MAX_AGE_HOURS`
/// says otherwise.
pub const DEFAULT_CATCHUP_MAX_AGE_HOURS: i64 = 24;

/// The limit on replayed actions: the `CATCHUP_LIMIT` setting when it reads as a
/// number, the default otherwise.
pub fn catchup_limit(setting: Option<&str>) -> (limit: usize)
    ensures
        limit == match setting {
            Some(s) => match parse_unsigned(s@, usize::MAX as nat) {
                Some(v) => v,
                None => DEFAULT_CATCHUP_LIMIT as nat,
            },
            None => DEFAULT_CATCHUP_LIMIT as nat,
        },
{
    match setting {
        Some(s) => match parse_usize(s) {
            Some(v) => v,
            None => DEFAULT_CATCHUP_LIMIT,
        },
        None => DEFAULT_CATCHUP_LIMIT,
    }
}

/// The age limit in hours: the `CATCHUP_MAX_AGE_HOURS` setting when it reads as a
/// number, the default otherwise.
pub fn catchup_max_age_hours(setting: Option<&str>) -> (hours: i64)
    ensures
        hours == match setting {
            Some(s) => match parse_i64_spec(s@) {
                Some(v) => v,
                None => DEFAULT_CATCHUP_MAX_AGE_HOURS as int,
            },
            None => DEFAULT_CATCHUP_MAX_AGE_HOURS as int,
        },
{
    match setting {
        Some(s) => match parse_i64(s) {
            Some(v) => v,
            None => DEFAULT_CATCHUP_MAX_AGE_HOURS,
        },
        None => DEFAULT_CATCHUP_MAX_AGE_HOURS,
    }
}

/// `n as i64`: a number of seconds read as a signed one, wrapping past `i64::MAX`.
pub open spec fn signed_seconds(n: u64) -> int {
    if n <= i64::MAX {
        n as int
    } else {
        n - 0x1_0000_0000_0000_0000
    }
}

/// The oldest timestamp, in seconds since the epoch, of a message that is replayed:
/// `max_age_hours` before now; 0 when the clock reads before the epoch.
pub open spec fn oldest_allowed_spec(now_secs: Option<u64>, max_age_hours: i64) -> int {
    match now_secs {
        Some(n) => signed_seconds(n) - max_age_hours * 3600,
        None => 0,
    }
}

/// Computes `oldest_allowed_spec`; the arithmetic must not overflow an `i64`.
pub fn oldest_allowed(now_secs: Option<u64>, max_age_hours: i64) -> (t: i64)
    requires
        now_secs is Some ==> i64::MIN <= max_age_hours * 3600 <= i64::MAX && i64::MIN
            <= oldest_allowed_spec(now_secs, max_age_hours) <= i64::MAX,
    ensures
        t == oldest_allowed_spec(now_secs, max_age_hours),
{
    match now_secs {
        None => 0,
        Some(n) => {
            let secs: i64 = if n <= 0x7fff_ffff_ffff_ffff {
                n as i64
            } else {
                ((n - 0x8000_0000_0000_0000) as i64) + i64::MIN
            };
            secs - max_age_hours * 3600
        },
    }
}

/// A message of the channel's history, as the catch-up reads it.
#[derive(Clone, Debug)]
pub struct ChannelMessage {
    pub id: u64,
    /// Seconds since the epoch.
    pub timestamp: i64,
    pub author_is_bot: bool,
    /// Whether it answers another message.
    pub is_reply: bool,
    pub content: String,
}

/// A message is replayed when it came after the last one taken into account, is recent
/// enough, and is an action or a character declaration.
pub open spec fn qualifies(m: ChannelMessage, last_id: u64, oldest: int) -> bool {
    &&& m.id > last_id
    &&& m.timestamp >= oldest
    &&& replayable_message(m.author_is_bot, m.is_reply, m.content@)
}

/// Message `a` is replayed before message `b`: by id, and in the order of the history
/// between equal ids.
pub open spec fn before(ms: Seq<ChannelMessage>, a: int, b: int) -> bool {
    ms[a].id < ms[b].id || (ms[a].id == ms[b].id && a < b)
}

/// `q` lists the positions of the messages to replay, each once, in replay order.
pub open spec fn in_replay_order(ms: Seq<ChannelMessage>, q: Seq<usize>, last_id: u64, oldest: int) -> bool {
    &&& forall|k: int|
        0 <= k < q.len() ==> #[trigger] q[k] < ms.len() && qualifies(ms[q[k] as int], last_id, oldest)
    &&& forall|i: int|
        0 <= i < ms.len() && #[trigger] qualifies(ms[i], last_id, oldest) ==> exists|k: int|
            0 <= k < q.len() && q[k] == i
    &&& forall|a: int, b: int|
        0 <= a < b < q.len() ==> before(ms, #[trigger] q[a] as int, #[trigger] q[b] as int)
}

/// The positions of the messages to replay, in replay order.
pub open spec fn replay_order(ms: Seq<ChannelMessage>, last_id: u64, oldest: int) -> Seq<usize> {
    choose|q: Seq<usize>| in_replay_order(ms, q, last_id, oldest)
}

proof fn lemma_replay_order_distinct(ms: Seq<ChannelMessage>, q: Seq<usize>, last_id: u64, oldest: int)
    requires
        in_replay_order(ms, q, last_id, oldest),
    ensures
        q.no_duplicates(),
{
    assert forall|a: int, b: int| 0 <= a < q.len() && 0 <= b < q.len() && a != b implies q[a] != q[b] by {
        if a < b {
            assert(before(ms, q[a] as int, q[b] as int));
        } else {
            assert(before(ms, q[b] as int, q[a] as int));
        }
    }
}

/// There is one replay order.
proof fn lemma_replay_order_unique(ms: Seq<ChannelMessage>, p: Seq<usize>, q: Seq<usize>, last_id: u64, oldest: int)
    requires
        in_replay_order(ms, p, last_id, oldest),
        in_replay_order(ms, q, last_id, oldest),
    ensures
        p == q,
{
    lemma_replay_order_distinct(ms, p, last_id, oldest);
    lemma_replay_order_distinct(ms, q, last_id, oldest);
    assert(p.to_set() =~= q.to_set()) by {
        assert forall|x: usize| p.to_set().contains(x) implies q.to_set().contains(x) by {
            let k = choose|k: int| 0 <= k < p.len() && p[k] == x;
            assert(qualifies(ms[x as int], last_id, oldest));
            let j = choose|j: int| 0 <= j < q.len() && q[j] == x;
        }
        assert forall|x: usize| q.to_set().contains(x) implies p.to_set().contains(x) by {
            let k = choose|k: int| 0 <= k < q.len() && q[k] == x;
            assert(qualifies(ms[x as int], last_id, oldest));
            let j = choose|j: int| 0 <= j < p.len() && p[j] == x;
        }
    }
    p.unique_seq_to_set();
    q.unique_seq_to_set();
    if !(p =~= q) {
        let k = choose|k: int| 0 <= k < p.len() && p[k] != q[k];
        let i = lemma_first_difference(p, q, k);
        let x = p[i];
        let y = q[i];
        assert(qualifies(ms[x as int], last_id, oldest));
        assert(qualifies(ms[y as int], last_id, oldest));
        if before(ms, x as int, y as int) {
            let j = choose|j: int| 0 <= j < q.len() && q[j] == x;
            if j > i {
                assert(before(ms, y as int, x as int));
            } else {
                assert(p[j] == q[j]);
                assert(before(ms, p[j] as int, p[i] as int));
            }
        } else {
            let j = choose|j: int| 0 <= j < p.len() && p[j] == y;
            if j > i {
                assert(before(ms, x as int, y as int));
            } else {
                assert(p[j] == q[j]);
                assert(before(ms, q[j] as int, q[i] as int));
            }
        }
    }
}

/// The positions of the messages to replay, in replay order: the history sorted by id
/// (stably), then filtered.
pub fn replay_positions(messages: &[ChannelMessage], last_id: u64, oldest: i64) -> (out: Vec<usize>)
    ensures
        out@ == replay_order(messages@, last_id, oldest as int),
        in_replay_order(messages@, out@, last_id, oldest as int),
{
    let ghost ms = messages@;
    let ghost old_t = oldest as int;
    let mut out: Vec<usize> = Vec::new();
    let mut i: usize = 0;
    while i < messages.len()
        invariant
            i <= messages.len(),
            ms == messages@,
            old_t == oldest as int,
            forall|k: int|
                0 <= k < out.len() ==> #[trigger] out@[k] < i && qualifies(ms[out@[k] as int], last_id, old_t),
            forall|j: int|
                0 <= j < i && #[trigger] qualifies(ms[j], last_id, old_t) ==> exists|k: int|
                    0 <= k < out.len() && out@[k] == j,
            forall|a: int, b: int|
                0 <= a < b < out.len() ==> before(ms, #[trigger] out@[a] as int, #[trigger] out@[b] as int),
        decreases messages.len() - i,
    {
        let m = &messages[i];
        let wanted = m.id > last_id && m.timestamp >= oldest && is_replayable(
            m.author_is_bot,
            m.is_reply,
            m.content.as_str(),
        );
        assert(wanted == qualifies(ms[i as int], last_id, old_t));
        if wanted {
            let mut p: usize = 0;
            while p < out.len() && messages[out[p]].id <= m.id
                invariant
                    p <= out.len(),
                    i < messages.len(),
                    ms == messages@,
                    m == ms[i as int],
                    forall|k: int| 0 <= k < out.len() ==> #[trigger] out@[k] < i,
                    forall|k: int| 0 <= k < p ==> #[trigger] ms[out@[k] as int].id <= m.id,
                decreases out.len() - p,
            {
                p = p + 1;
            }
            proof {
                if p < out.len() {
                    assert(ms[out@[p as int] as int].id > m.id);
                    assert forall|k: int| p <= k < out.len() implies #[trigger] ms[out@[k] as int].id > m.id by {
                        if k > p {
                            assert(before(ms, out@[p as int] as int, out@[k] as int));
                        }
                    }
                }
            }
            let ghost prev = out@;
            out.insert(p, i);
            proof {
                prev.insert_ensures(p as int, i);
                assert forall|k: int| 0 <= k < out.len() implies #[trigger] out@[k] < i + 1 && qualifies(
                    ms[out@[k] as int],
                    last_id,
                    old_t,
                ) by {
                    if k < p {
                        assert(out@[k] == prev[k]);
                    } else if k > p {
                        assert(out@[k] == prev[k - 1]);
                    }
                }
                assert forall|j: int| 0 <= j < i + 1 && #[trigger] qualifies(ms[j], last_id, old_t) implies exists|k: int|
                    0 <= k < out.len() && out@[k] == j by {
                    if j == i {
                        assert(out@[p as int] == j);
                    } else {
                        let k = choose|k: int| 0 <= k < prev.len() && prev[k] == j;
                        if k < p {
                            assert(out@[k] == j);
                        } else {
                            assert(out@[k + 1] == j);
                        }
                    }
                }
                assert forall|a: int, b: int| 0 <= a < b < out.len() implies before(
                    ms,
                    #[trigger] out@[a] as int,
                    #[trigger] out@[b] as int,
                ) by {
                    if b < p {
                        assert(out@[a] == prev[a] && out@[b] == prev[b]);
                    } else if b == p {
                        assert(out@[a] == prev[a]);
                        assert(ms[prev[a] as int].id <= m.id);
                    } else if a < p {
                        assert(out@[a] == prev[a] && out@[b] == prev[b - 1]);
                        if b - 1 > a {
                            assert(before(ms, prev[a] as int, prev[b - 1] as int));
                        }
                    } else if a == p {
                        assert(out@[b] == prev[b - 1]);
                        assert(ms[prev[b - 1] as int].id > m.id);
                    } else {
                        assert(out@[a] == prev[a - 1] && out@[b] == prev[b - 1]);
                    }
                }
            }
        }
        i = i + 1;
    }
    proof {
        let q = out@;
        assert(in_replay_order(ms, q, last_id, old_t));
        let r = replay_order(ms, last_id, old_t);
        lemma_replay_order_unique(ms, q, r, last_id, old_t);
    }
    out
}

/// What to replay after a downtime.
#[derive(Debug)]
pub struct CatchUp {
    /// The positions in the history of the messages to replay, in replay order.
    pub to_play: Vec<usize>,
    /// How many messages that qualified are left out, the oldest ones, by the limit.
    pub skipped: usize,
}

/// The messages to replay: those after `last_id`, not older than `oldest`, that are
/// actions or character declarations, in the order of their ids; at most `limit` of
/// them, the most recent ones.
pub fn plan_catch_up(messages: &[ChannelMessage], last_id: u64, oldest: i64, limit: usize) -> (plan: CatchUp)
    ensures
        ({
            let q = replay_order(messages@, last_id, oldest as int);
            &&& plan.skipped == if q.len() > limit {
                q.len() - limit
            } else {
                0
            }
            &&& plan.to_play@ == q.skip(plan.skipped as int)
        }),
        plan.to_play@.len() <= limit,
        forall|k: int|
            0 <= k < plan.to_play@.len() ==> #[trigger] plan.to_play@[k] < messages@.len() && qualifies(
                messages@[plan.to_play@[k] as int],
                last_id,
                oldest as int,
            ),
        forall|a: int, b: int|
            0 <= a < b < plan.to_play@.len() ==> messages@[#[trigger] plan.to_play@[a] as int].id
                <= messages@[#[trigger] plan.to_play@[b] as int].id,
{
    let order = replay_positions(messages, last_id, oldest);
    let skipped = if order.len() > limit {
        order.len() - limit
    } else {
        0
    };
    let mut to_play: Vec<usize> = Vec::new();
    let mut k = skipped;
    while k < order.len()
        invariant
            skipped <= k <= order.len(),
            to_play@ == order@.subrange(skipped as int, k as int),
        decreases order.len() - k,
    {
        to_play.push(order[k]);
        k = k + 1;
    }
    assert(order@.subrange(skipped as int, order.len() as int) =~= order@.skip(skipped as int));
    proof {
        let s = skipped as int;
        assert forall|a: int, b: int| 0 <= a < b < to_play@.len() implies messages@[#[trigger] to_play@[a] as int].id
            <= messages@[#[trigger] to_play@[b] as int].id by {
            assert(to_play@[a] == order@[a + s] && to_play@[b] == order@[b + s]);
            assert(before(messages@, order@[a + s] as int, order@[b + s] as int));
        }
        assert forall|k: int| 0 <= k < to_play@.len() implies #[trigger] to_play@[k] < messages@.len() && qualifies(
            messages@[to_play@[k] as int],
            last_id,
            oldest as int,
        ) by {
            assert(to_play@[k] == order@[k + s]);
        }
    }
    CatchUp { to_play, skipped }
}

/// The largest id of the history: the new mark once the catch-up is done.
pub fn newest_id(messages: &[ChannelMessage]) -> (r: Option<u64>)
    ensures
        messages@.len() == 0 ==> r is None,
        messages@.len() > 0 ==> (r matches Some(n) && (exists|i: int|
            0 <= i < messages@.len() && messages@[i].id == n) && (forall|i: int|
            0 <= i < messages@.len() ==> messages@[i].id <= n)),
{
    if messages.len() == 0 {
        return None;
    }
    let mut best = messages[0].id;
    let mut i: usize = 1;
    while i < messages.len()
        invariant
            1 <= i <= messages.len(),
            exists|j: int| 0 <= j < i && messages@[j].id == best,
            forall|j: int| 0 <= j < i ==> messages@[j].id <= best,
        decreases messages.len() - i,
    {
        if messages[i].id > best {
            best = messages[i].id;
        }
        i = i + 1;
    }
    Some(best)
}

} // verus!
