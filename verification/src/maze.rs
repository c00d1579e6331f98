//! The crawler trap: a maze of pages that link only to each other. Each
//! request for a maze page is counted for its address; an address that
//! keeps asking is banned.

use crate::admin::{EventLogEntry, EventType, EventView};
use crate::ban::{escalate, escalated};
use crate::config::Config;
use crate::decimal::{decimal, decimal_bytes, decimal_chars, decimal_text, number_in, parse_u32};
use crate::metrics::{counted, increment, metric_key_of, MetricName};
use crate::store::KeyValueStore;
use crate::text::{chars_of, starts_with, text_of};
use vstd::prelude::*;

verus! {

/// `/maze/`
pub open spec fn maze_prefix() -> Seq<char> {
    seq!['/', 'm', 'a', 'z', 'e', '/']
}

/// `/trap/`
pub open spec fn trap_prefix() -> Seq<char> {
    seq!['/', 't', 'r', 'a', 'p', '/']
}

/// Whether `path` lies in the maze: under `/maze/` or under `/trap/`.
pub open spec fn maze_path(path: Seq<char>) -> bool {
    maze_prefix().is_prefix_of(path) || trap_prefix().is_prefix_of(path)
}

/// Whether `path` lies in the maze.
pub fn is_maze_path(path: &str) -> (r: bool)
    ensures
        r == maze_path(path@),
{
    let p = chars_of(path);
    let maze: Vec<char> = vec!['/', 'm', 'a', 'z', 'e', '/'];
    let trap: Vec<char> = vec!['/', 't', 'r', 'a', 'p', '/'];
    assert(maze@ =~= maze_prefix());
    assert(trap@ =~= trap_prefix());
    starts_with(p.as_slice(), maze.as_slice()) || starts_with(p.as_slice(), trap.as_slice())
}

/// The key of the maze counter of `ip`: `maze_hits:<ip>`.
pub open spec fn maze_key_of(ip: Seq<char>) -> Seq<char> {
    seq!['m', 'a', 'z', 'e', '_', 'h', 'i', 't', 's', ':'] + ip
}

/// The key of the maze counter of `ip`.
pub fn maze_key(ip: &str) -> (key: String)
    ensures
        key@ == maze_key_of(ip@),
{
    proof {
        reveal_strlit("maze_hits:");
    }
    let mut key = String::from_str("maze_hits:");
    key.append(ip);
    assert(key@ =~= maze_key_of(ip@));
    key
}

/// The maze pages that `m` has counted for `ip`: zero where it holds no
/// count, or nothing that reads as one.
pub open spec fn hits_in(m: Map<Seq<char>, Seq<u8>>, ip: Seq<char>) -> u32 {
    if m.contains_key(maze_key_of(ip)) {
        match number_in(m[maze_key_of(ip)], u32::MAX as nat) {
            Some(n) => n as u32,
            None => 0,
        }
    } else {
        0
    }
}

/// The count after one more page: the next number, and the same where
/// there is no next.
pub open spec fn one_more(hits: u32) -> u32 {
    if hits < u32::MAX {
        (hits + 1) as u32
    } else {
        hits
    }
}

/// Whether a request that finds `hits` pages counted leads to a ban: the
/// maze bans by itself, and the count has reached the threshold. The count
/// is the one before this request.
pub open spec fn maze_ban_due(cfg: Config, hits: u32) -> bool {
    cfg.maze_auto_ban && hits >= cfg.maze_auto_ban_threshold
}

/// The site that the maze and the reports act for.
pub open spec fn default_site() -> Seq<char> {
    seq!['d', 'e', 'f', 'a', 'u', 'l', 't']
}

/// `maze_crawler`: the reason of a ban by the maze.
pub open spec fn maze_reason() -> Seq<char> {
    seq!['m', 'a', 'z', 'e', '_', 'c', 'r', 'a', 'w', 'l', 'e', 'r']
}

/// The store `m` after a request of `ip` for a maze page at time `now`:
/// the request is counted in the metrics and for the address, and the
/// address is banned where a ban is due.
pub open spec fn maze_store_after(
    m: Map<Seq<char>, Seq<u8>>,
    cfg: Config,
    ip: Seq<char>,
    now: u64,
) -> Map<Seq<char>, Seq<u8>> {
    let hits = hits_in(m, ip);
    let counted_hit = counted(m, metric_key_of(MetricName::MazeHits, None)).insert(
        maze_key_of(ip),
        decimal(one_more(hits) as nat),
    );
    if maze_ban_due(cfg, hits) {
        counted(
            escalated(
                counted_hit,
                default_site(),
                ip,
                maze_reason(),
                cfg.ban_durations.honeypot,
                now,
            ),
            metric_key_of(MetricName::BansTotal, Some(maze_reason())),
        )
    } else {
        counted_hit
    }
}

/// The event that every request for a maze page leaves.
pub open spec fn maze_hit_event(ip: Seq<char>, now: u64) -> EventView {
    EventView {
        ts: now,
        event: EventType::Challenge,
        ip: Some(ip),
        reason: Some("maze_trap"@),
        outcome: Some("maze_page_served"@),
        admin: None,
    }
}

/// The event that a ban by the maze leaves.
pub open spec fn maze_ban_event(ip: Seq<char>, threshold: u32, now: u64) -> EventView {
    EventView {
        ts: now,
        event: EventType::Ban,
        ip: Some(ip),
        reason: Some(maze_reason()),
        outcome: Some("banned_after_"@ + decimal_text(threshold as nat) + "_maze_pages"@),
        admin: None,
    }
}

/// What a request for a maze page led to.
pub struct MazeOutcome {
    /// The pages counted for the address before this request.
    pub hits_before: u32,
    /// Whether a ban was due.
    pub banned: bool,
    /// The events to log, in order.
    pub events: Vec<EventLogEntry>,
}

/// The count that a read of a maze counter stands for.
pub fn hits_of(read: &Result<Option<Vec<u8>>, ()>) -> (hits: u32)
    ensures
        hits == match *read {
            Ok(Some(v)) => match number_in(v@, u32::MAX as nat) {
                Some(n) => n as u32,
                None => 0,
            },
            _ => 0,
        },
{
    match read {
        Ok(Some(v)) => match parse_u32(v.as_slice()) {
            Some(n) => n,
            None => 0,
        },
        _ => 0,
    }
}

/// Whether a request that finds `hits` pages counted leads to a ban.
pub fn is_maze_ban_due(cfg: &Config, hits: u32) -> (due: bool)
    ensures
        due == maze_ban_due(*cfg, hits),
{
    hits >= cfg.maze_auto_ban_threshold && cfg.maze_auto_ban
}

/// Counts a request of `ip` for a maze page at time `now`, and bans the
/// address where it had reached the threshold before this request.
pub fn handle_maze_hit_at<S: KeyValueStore>(store: &mut S, cfg: &Config, ip: &str, now: u64) -> (out:
    MazeOutcome)
    ensures
        final(store).dependable() == old(store).dependable(),
        out.banned == maze_ban_due(*cfg, out.hits_before),
        out.hits_before == 0 || out.hits_before == hits_in(old(store).contents(), ip@),
        old(store).dependable() ==> out.hits_before == hits_in(old(store).contents(), ip@),
        old(store).dependable() ==> final(store).contents() == maze_store_after(
            old(store).contents(),
            *cfg,
            ip@,
            now,
        ),
        out.events@.len() == if out.banned {
            2int
        } else {
            1int
        },
        out.events@[0]@ == maze_hit_event(ip@, now),
        out.banned ==> out.events@[1]@ == maze_ban_event(ip@, cfg.maze_auto_ban_threshold, now),
{
    let ghost m = store.contents();
    increment(store, MetricName::MazeHits, None);
    let mut events: Vec<EventLogEntry> = Vec::new();
    events.push(
        EventLogEntry {
            ts: now,
            event: EventType::Challenge,
            ip: Some(ip.to_owned()),
            reason: Some(String::from_str("maze_trap")),
            outcome: Some(String::from_str("maze_page_served")),
            admin: None,
        },
    );
    let key = maze_key(ip);
    proof {
        crate::keys::lemma_maze_key_apart(ip@, MetricName::MazeHits, None);
    }
    let read = store.get(key.as_str());
    let hits = hits_of(&read);
    let next: u32 = if hits < u32::MAX {
        hits + 1
    } else {
        hits
    };
    let bytes = decimal_bytes(next as u64);
    let _ = store.set(key.as_str(), bytes.as_slice());
    let banned = is_maze_ban_due(cfg, hits);
    if banned {
        proof {
            reveal_strlit("default");
            reveal_strlit("maze_crawler");
            assert("default"@ =~= default_site());
            assert("maze_crawler"@ =~= maze_reason());
        }
        escalate(store, "default", ip, "maze_crawler", cfg.ban_durations.honeypot, now);
        increment(store, MetricName::BansTotal, Some("maze_crawler"));
        let mut outcome: Vec<char> = chars_of("banned_after_");
        let mut number = decimal_chars(cfg.maze_auto_ban_threshold as u64);
        outcome.append(&mut number);
        let mut tail = chars_of("_maze_pages");
        outcome.append(&mut tail);
        events.push(
            EventLogEntry {
                ts: now,
                event: EventType::Ban,
                ip: Some(ip.to_owned()),
                reason: Some(String::from_str("maze_crawler")),
                outcome: Some(text_of(outcome.as_slice())),
                admin: None,
            },
        );
    }
    MazeOutcome { hits_before: hits, banned, events }
}

} // verus!

verus! {

/// The store `m` after `n` requests of `ip` for maze pages, all at time
/// `now`.
pub open spec fn after_hits(
    m: Map<Seq<char>, Seq<u8>>,
    cfg: Config,
    ip: Seq<char>,
    now: u64,
    n: nat,
) -> Map<Seq<char>, Seq<u8>>
    decreases n,
{
    if n == 0 {
        m
    } else {
        maze_store_after(after_hits(m, cfg, ip, now, (n - 1) as nat), cfg, ip, now)
    }
}

/// A request for a maze page adds one to the count of its address, and
/// writes no ban record unless a ban is due.
pub proof fn lemma_maze_step(m: Map<Seq<char>, Seq<u8>>, cfg: Config, ip: Seq<char>, now: u64)
    ensures
        hits_in(maze_store_after(m, cfg, ip, now), ip) == one_more(hits_in(m, ip)),
        !maze_ban_due(cfg, hits_in(m, ip)) ==> crate::ban::same_ledger(
            m,
            maze_store_after(m, cfg, ip, now),
        ),
        crate::ban::same_ledger_but(m, maze_store_after(m, cfg, ip, now), default_site(), ip),
        maze_ban_due(cfg, hits_in(m, ip)) && now + cfg.ban_durations.honeypot <= u64::MAX
            ==> maze_store_after(m, cfg, ip, now)[crate::ban::ban_key_of(default_site(), ip)]
            == crate::record::record_bytes(
            maze_reason(),
            (now + cfg.ban_durations.honeypot) as u64,
        ) && maze_store_after(m, cfg, ip, now).contains_key(
            crate::ban::ban_key_of(default_site(), ip),
        ),
{
    let hits = hits_in(m, ip);
    let after = maze_store_after(m, cfg, ip, now);
    crate::keys::lemma_maze_key_apart(ip, MetricName::MazeHits, None);
    crate::keys::lemma_maze_key_apart(ip, MetricName::BansTotal, Some(maze_reason()));
    crate::keys::lemma_ban_key_apart(
        default_site(),
        ip,
        default_site(),
        ip,
        MetricName::BansTotal,
        Some(maze_reason()),
    );
    crate::decimal::lemma_number_in_decimal(one_more(hits) as nat, u32::MAX as nat);
    assert forall|s: Seq<char>, i: Seq<char>|
        crate::ban::ban_key_of(s, i) != metric_key_of(MetricName::MazeHits, None)
            && crate::ban::ban_key_of(s, i) != metric_key_of(
            MetricName::BansTotal,
            Some(maze_reason()),
        ) && #[trigger] crate::ban::ban_key_of(s, i) != maze_key_of(ip) by {
        crate::keys::lemma_ban_key_apart(s, i, s, ip, MetricName::MazeHits, None);
        crate::keys::lemma_ban_key_apart(s, i, s, ip, MetricName::BansTotal, Some(maze_reason()));
    }
}

/// As long as no ban is due, the maze counts and writes no ban record:
/// after `n` requests of an address that had none counted, with `n` no
/// more than the threshold, the count is `n` and the ledger is as it was.
pub proof fn lemma_maze_counts(
    m: Map<Seq<char>, Seq<u8>>,
    cfg: Config,
    ip: Seq<char>,
    now: u64,
    n: nat,
)
    requires
        hits_in(m, ip) == 0,
        n <= cfg.maze_auto_ban_threshold || !cfg.maze_auto_ban,
    ensures
        hits_in(after_hits(m, cfg, ip, now, n), ip) == if n <= u32::MAX {
            n
        } else {
            u32::MAX as nat
        },
        crate::ban::same_ledger(m, after_hits(m, cfg, ip, now, n)),
    decreases n,
{
    if n > 0 {
        lemma_maze_counts(m, cfg, ip, now, (n - 1) as nat);
        lemma_maze_step(after_hits(m, cfg, ip, now, (n - 1) as nat), cfg, ip, now);
    }
}

/// The maze bans on the request that finds the threshold reached: an
/// address that had no page counted is banned by its request number
/// `threshold + 1`, and no ban record is written by the requests before.
pub proof fn law_maze_bans_past_threshold(
    m: Map<Seq<char>, Seq<u8>>,
    cfg: Config,
    ip: Seq<char>,
    now: u64,
)
    requires
        hits_in(m, ip) == 0,
        cfg.maze_auto_ban,
        cfg.ban_durations.honeypot > 0,
        now + cfg.ban_durations.honeypot <= u64::MAX,
    ensures
        crate::ban::same_ledger(
            m,
            after_hits(m, cfg, ip, now, cfg.maze_auto_ban_threshold as nat),
        ),
        crate::ban::banned_in(
            after_hits(m, cfg, ip, now, (cfg.maze_auto_ban_threshold + 1) as nat),
            default_site(),
            ip,
            now,
        ),
{
    let t = cfg.maze_auto_ban_threshold as nat;
    lemma_maze_counts(m, cfg, ip, now, t);
    let before = after_hits(m, cfg, ip, now, t);
    lemma_maze_step(before, cfg, ip, now);
    crate::record::lemma_record_round_trip(
        maze_reason(),
        (now + cfg.ban_durations.honeypot) as u64,
    );
    assert(after_hits(m, cfg, ip, now, (t + 1) as nat) == maze_store_after(before, cfg, ip, now));
}

/// Where the maze does not ban by itself, no number of requests writes a
/// ban record.
pub proof fn law_maze_without_auto_ban(
    m: Map<Seq<char>, Seq<u8>>,
    cfg: Config,
    ip: Seq<char>,
    now: u64,
    n: nat,
)
    requires
        !cfg.maze_auto_ban,
    ensures
        crate::ban::same_ledger(m, after_hits(m, cfg, ip, now, n)),
    decreases n,
{
    if n > 0 {
        law_maze_without_auto_ban(m, cfg, ip, now, (n - 1) as nat);
        lemma_maze_step(after_hits(m, cfg, ip, now, (n - 1) as nat), cfg, ip, now);
    }
}

} // verus!

verus! {

/// Counts a request of `ip` for a maze page now, by the system clock.
pub fn handle_maze_hit<S: KeyValueStore>(store: &mut S, cfg: &Config, ip: &str) -> (out: MazeOutcome)
    ensures
        final(store).dependable() == old(store).dependable(),
        out.banned == maze_ban_due(*cfg, out.hits_before),
        out.hits_before == 0 || out.hits_before == hits_in(old(store).contents(), ip@),
        old(store).dependable() ==> out.hits_before == hits_in(old(store).contents(), ip@),
        old(store).dependable() ==> exists|now: u64|
            final(store).contents() == #[trigger] maze_store_after(
                old(store).contents(),
                *cfg,
                ip@,
                now,
            ),
{
    let now = crate::admin::now_ts();
    handle_maze_hit_at(store, cfg, ip, now)
}

/// Whether `k` is a key that a request of `ip` for a maze page may read
/// or write: the two counters, the maze counter of the address and its
/// ban record.
pub open spec fn maze_touches(ip: Seq<char>, k: Seq<char>) -> bool {
    ||| k == metric_key_of(MetricName::MazeHits, None)
    ||| k == metric_key_of(MetricName::BansTotal, Some(maze_reason()))
    ||| k == maze_key_of(ip)
    ||| k == crate::ban::ban_key_of(default_site(), ip)
}

/// The keys that a request of `ip` for a maze page may read or write.
pub fn maze_keys(ip: &str) -> (keys: Vec<String>)
    ensures
        forall|k: Seq<char>|
            maze_touches(ip@, k) <==> exists|i: int| 0 <= i < keys@.len() && #[trigger] keys@[i]@ == k,
{
    proof {
        reveal_strlit("default");
        reveal_strlit("maze_crawler");
        assert("default"@ =~= default_site());
        assert("maze_crawler"@ =~= maze_reason());
    }
    let keys: Vec<String> = vec![
        crate::metrics::metric_key(MetricName::MazeHits, None),
        crate::metrics::metric_key(MetricName::BansTotal, Some("maze_crawler")),
        maze_key(ip),
        crate::ban::ban_key("default", ip),
    ];
    proof {
        assert forall|k: Seq<char>| maze_touches(ip@, k) implies exists|i: int|
            0 <= i < keys@.len() && #[trigger] keys@[i]@ == k by {
            if k == metric_key_of(MetricName::MazeHits, None) {
                assert(keys@[0]@ == k);
            } else if k == metric_key_of(MetricName::BansTotal, Some(maze_reason())) {
                assert(keys@[1]@ == k);
            } else if k == maze_key_of(ip@) {
                assert(keys@[2]@ == k);
            } else {
                assert(keys@[3]@ == k);
            }
        }
    }
    keys
}

/// The maze touches nothing but its keys, and looks at nothing but them:
/// under any other key the store holds afterwards what it held before,
/// and two stores that hold the same under the keys hold the same under
/// them afterwards.
pub proof fn law_maze_keeps_to_its_keys(
    a: Map<Seq<char>, Seq<u8>>,
    b: Map<Seq<char>, Seq<u8>>,
    cfg: Config,
    ip: Seq<char>,
    now: u64,
    k: Seq<char>,
)
    requires
        forall|x: Seq<char>| maze_touches(ip, x) ==> #[trigger] crate::store::agree_at(a, b, x),
    ensures
        !maze_touches(ip, k) ==> crate::store::agree_at(a, maze_store_after(a, cfg, ip, now), k),
        maze_touches(ip, k) ==> crate::store::agree_at(
            maze_store_after(a, cfg, ip, now),
            maze_store_after(b, cfg, ip, now),
            k,
        ),
{
    assert(crate::store::agree_at(a, b, metric_key_of(MetricName::MazeHits, None)));
    assert(crate::store::agree_at(a, b, metric_key_of(MetricName::BansTotal, Some(maze_reason()))));
    assert(crate::store::agree_at(a, b, maze_key_of(ip)));
    assert(crate::store::agree_at(a, b, crate::ban::ban_key_of(default_site(), ip)));
    crate::keys::lemma_maze_key_apart(ip, MetricName::MazeHits, None);
    crate::keys::lemma_maze_key_apart(ip, MetricName::BansTotal, Some(maze_reason()));
    crate::keys::lemma_ban_key_apart(
        default_site(),
        ip,
        default_site(),
        ip,
        MetricName::BansTotal,
        Some(maze_reason()),
    );
    crate::keys::lemma_ban_key_apart(default_site(), ip, default_site(), ip, MetricName::MazeHits, None);
}

} // verus!
