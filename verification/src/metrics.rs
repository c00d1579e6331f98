//! Counters of what the checks decided, kept in the store as decimal
//! numerals.

use crate::admin::now_ts;
use crate::ban::{judge_record, record_active};
use crate::decimal::{decimal, decimal_bytes, decimal_chars, decimal_text, number_in, parse_u64};
use crate::store::{lists_keys, listed, same_but_at, KeyValueStore};
use crate::text::{chars_of, push_all, starts_with, text_of};
use vstd::prelude::*;

verus! {

/// The counters.
#[derive(Debug, Clone, Copy, PartialEq, Eq, Structural)]
pub enum MetricName {
    RequestsTotal,
    BansTotal,
    BlocksTotal,
    ChallengesTotal,
    WhitelistedTotal,
    TestModeActions,
    MazeHits,
    CdpDetections,
}

impl MetricName {
    /// The name of the counter in keys and in the exposition.
    pub open spec fn name(self) -> Seq<char> {
        match self {
            MetricName::RequestsTotal => "requests_total"@,
            MetricName::BansTotal => "bans_total"@,
            MetricName::BlocksTotal => "blocks_total"@,
            MetricName::ChallengesTotal => "challenges_total"@,
            MetricName::WhitelistedTotal => "whitelisted_total"@,
            MetricName::TestModeActions => "test_mode_actions_total"@,
            MetricName::MazeHits => "maze_hits_total"@,
            MetricName::CdpDetections => "cdp_detections_total"@,
        }
    }

    /// The name of the counter in keys and in the exposition.
    pub fn as_str(&self) -> (s: &'static str)
        ensures
            s@ == self.name(),
    {
        match self {
            MetricName::RequestsTotal => "requests_total",
            MetricName::BansTotal => "bans_total",
            MetricName::BlocksTotal => "blocks_total",
            MetricName::ChallengesTotal => "challenges_total",
            MetricName::WhitelistedTotal => "whitelisted_total",
            MetricName::TestModeActions => "test_mode_actions_total",
            MetricName::MazeHits => "maze_hits_total",
            MetricName::CdpDetections => "cdp_detections_total",
        }
    }
}

/// The key of a counter: `metrics:<name>`, and `metrics:<name>:<label>`
/// for a labelled one.
pub open spec fn metric_key_of(metric: MetricName, label: Option<Seq<char>>) -> Seq<char> {
    seq!['m', 'e', 't', 'r', 'i', 'c', 's', ':'] + metric.name() + match label {
        Some(l) => seq![':'] + l,
        None => Seq::empty(),
    }
}

/// The key of a counter.
pub fn metric_key(metric: MetricName, label: Option<&str>) -> (key: String)
    ensures
        key@ == metric_key_of(
            metric,
            match label {
                Some(l) => Some(l@),
                None => None,
            },
        ),
{
    proof {
        reveal_strlit("metrics:");
        reveal_strlit(":");
    }
    let mut key = String::from_str("metrics:");
    key.append(metric.as_str());
    match label {
        Some(l) => {
            key.append(":");
            key.append(l);
            assert(key@ =~= metric_key_of(metric, Some(l@)));
        },
        None => {
            assert(key@ =~= metric_key_of(metric, None));
        },
    }
    key
}

/// The count that the store holds under `key`: zero where it holds
/// nothing there, or nothing that reads as a number.
pub open spec fn count_in(m: Map<Seq<char>, Seq<u8>>, key: Seq<char>) -> u64 {
    if m.contains_key(key) {
        match number_in(m[key], u64::MAX as nat) {
            Some(n) => n as u64,
            None => 0,
        }
    } else {
        0
    }
}

/// The count that a read of a counter stands for: zero for a failed
/// read, an absent counter and a value that is no number.
pub fn count_of(read: &Result<Option<Vec<u8>>, ()>) -> (n: u64)
    ensures
        n == match *read {
            Ok(Some(v)) => match number_in(v@, u64::MAX as nat) {
                Some(n) => n as u64,
                None => 0,
            },
            _ => 0,
        },
{
    match read {
        Ok(Some(v)) => match parse_u64(v.as_slice()) {
            Some(n) => n,
            None => 0,
        },
        _ => 0,
    }
}

/// The count under `key`.
pub fn get_counter<S: KeyValueStore>(store: &S, key: &str) -> (n: u64)
    ensures
        store.dependable() ==> n == count_in(store.contents(), key@),
        n == 0 || n == count_in(store.contents(), key@),
{
    let read = store.get(key);
    count_of(&read)
}

/// The count after one more: the next number, and the same where there is
/// no next.
pub open spec fn bumped(n: u64) -> u64 {
    if n < u64::MAX {
        (n + 1) as u64
    } else {
        n
    }
}

/// The store `m` after the counter under `key` went up by one.
pub open spec fn counted(m: Map<Seq<char>, Seq<u8>>, key: Seq<char>) -> Map<Seq<char>, Seq<u8>> {
    m.insert(key, decimal(bumped(count_in(m, key)) as nat))
}

/// Adds one to the counter of `metric`, labelled or not. A counter that
/// is absent or unreadable counts from zero.
pub fn increment<S: KeyValueStore>(store: &mut S, metric: MetricName, label: Option<&str>)
    ensures
        final(store).dependable() == old(store).dependable(),
        old(store).dependable() ==> final(store).contents() == counted(
            old(store).contents(),
            metric_key_of(
                metric,
                match label {
                    Some(l) => Some(l@),
                    None => None,
                },
            ),
        ),
        same_but_at(
            old(store).contents(),
            final(store).contents(),
            metric_key_of(
                metric,
                match label {
                    Some(l) => Some(l@),
                    None => None,
                },
            ),
        ),
{
    let key = metric_key(metric, label);
    let current = get_counter(store, key.as_str());
    let next: u64 = if current < u64::MAX {
        current + 1
    } else {
        current
    };
    let bytes = decimal_bytes(next);
    let _ = store.set(key.as_str(), bytes.as_slice());
}

} // verus!

verus! {

/// `ban:default:`: what the keys of the ban records of the site begin
/// with.
pub open spec fn ban_prefix() -> Seq<char> {
    seq!['b', 'a', 'n', ':', 'd', 'e', 'f', 'a', 'u', 'l', 't', ':']
}

/// Whether `k` is the key of a ban record of the site that is in force
/// at time `now`.
pub open spec fn active_ban_key(m: Map<Seq<char>, Seq<u8>>, k: Seq<char>, now: u64) -> bool {
    m.contains_key(k) && ban_prefix().is_prefix_of(k) && record_active(m[k], now)
}

/// The keys of the ban records of the site that are in force at time
/// `now`.
pub open spec fn active_bans(m: Map<Seq<char>, Seq<u8>>, now: u64) -> Set<Seq<char>> {
    Set::new(|k: Seq<char>| active_ban_key(m, k, now))
}

/// Whether one of the first `n` of `keys` is `k`.
spec fn listed_before(keys: Seq<String>, n: int, k: Seq<char>) -> bool {
    exists|j: int| 0 <= j < n && #[trigger] keys[j]@ == k
}

/// How many bans of the site are in force at time `now`.
pub fn count_active_bans_at<S: KeyValueStore>(store: &S, now: u64) -> (n: u64)
    ensures
        store.dependable() ==> active_bans(store.contents(), now).finite() && n == active_bans(
            store.contents(),
            now,
        ).len(),
{
    let ghost m = store.contents();
    let keys = match store.get_keys() {
        Ok(keys) => keys,
        Err(_) => {
            return 0;
        },
    };
    let prefix: Vec<char> = vec!['b', 'a', 'n', ':', 'd', 'e', 'f', 'a', 'u', 'l', 't', ':'];
    assert(prefix@ =~= ban_prefix());
    let mut count: usize = 0;
    let ghost mut seen: Set<Seq<char>> = Set::empty();
    let mut i: usize = 0;
    while i < keys.len()
        invariant
            i <= keys.len(),
            count <= i,
            m == store.contents(),
            lists_keys(keys@, m),
            prefix@ == ban_prefix(),
            store.dependable() ==> seen.finite() && seen.len() == count,
            store.dependable() ==> forall|k: Seq<char>|
                seen.contains(k) <==> (listed_before(keys@, i as int, k) && active_ban_key(
                    m,
                    k,
                    now,
                )),
        decreases keys.len() - i,
    {
        let ghost key = keys@[i as int]@;
        let name = chars_of(keys[i].as_str());
        let mut active = false;
        if starts_with(name.as_slice(), prefix.as_slice()) {
            match store.get(keys[i].as_str()) {
                Ok(Some(bytes)) => {
                    active = judge_record(bytes.as_slice(), now);
                },
                _ => {},
            }
        }
        proof {
            assert(m.contains_key(key));
            assert(!listed_before(keys@, i as int, key)) by {
                if listed_before(keys@, i as int, key) {
                    let j = choose|j: int| 0 <= j < i && #[trigger] keys@[j]@ == key;
                    assert(keys@[j]@ != keys@[i as int]@);
                }
            }
            let before = seen;
            if store.dependable() {
                assert(active == active_ban_key(m, key, now));
                assert(!before.contains(key));
            }
            if active && store.dependable() {
                seen = seen.insert(key);
            }
            assert forall|k: Seq<char>| store.dependable() implies (seen.contains(k) <==> (
            listed_before(keys@, i + 1, k) && active_ban_key(m, k, now))) by {
                if listed_before(keys@, i + 1, k) {
                    let j = choose|j: int| 0 <= j < i + 1 && #[trigger] keys@[j]@ == k;
                    if j < i {
                        assert(listed_before(keys@, i as int, k));
                    }
                }
                if listed_before(keys@, i as int, k) {
                    let j = choose|j: int| 0 <= j < i && #[trigger] keys@[j]@ == k;
                    assert(listed_before(keys@, i + 1, k));
                }
                if k == key {
                    assert(keys@[i as int]@ == k);
                    assert(listed_before(keys@, i + 1, k));
                }
            }
        }
        if active {
            count = count + 1;
        }
        i = i + 1;
    }
    proof {
        if store.dependable() {
            assert(seen =~= active_bans(m, now)) by {
                assert forall|k: Seq<char>| seen.contains(k) <==> active_ban_key(m, k, now) by {
                    if active_ban_key(m, k, now) {
                        assert(listed(keys@, k));
                        let j = choose|j: int| 0 <= j < keys@.len() && #[trigger] keys@[j]@ == k;
                        assert(listed_before(keys@, keys@.len() as int, k));
                    }
                }
            }
        }
    }
    count as u64
}

/// How many bans of the site are in force now, by the system clock.
pub fn count_active_bans<S: KeyValueStore>(store: &S) -> (n: u64)
    ensures
        store.dependable() ==> exists|now: u64|
            n == (#[trigger] active_bans(store.contents(), now)).len(),
{
    let now = now_ts();
    count_active_bans_at(store, now)
}

/// A line of the exposition: a name, a value, the end of the line.
pub open spec fn sample(name: Seq<char>, value: u64) -> Seq<char> {
    name + seq![' '] + decimal_text(value as nat) + seq!['\n']
}

/// The line of the bans for one reason.
pub open spec fn ban_sample(m: Map<Seq<char>, Seq<u8>>, reason: Seq<char>) -> Seq<char> {
    sample(
        "bot_trap_bans_total{reason=\""@ + reason + "\"}"@,
        count_in(m, metric_key_of(MetricName::BansTotal, Some(reason))),
    )
}

/// The counter of `metric` without a label.
pub open spec fn plain_count(m: Map<Seq<char>, Seq<u8>>, metric: MetricName) -> u64 {
    count_in(m, metric_key_of(metric, None))
}

/// The exposition of the counters of `m` in the text format of
/// Prometheus, with `active` bans in force.
pub open spec fn metrics_text(m: Map<Seq<char>, Seq<u8>>, active: u64, test_mode: bool) -> Seq<
    char,
> {
    "# WASM Bot Trap Metrics\n# TYPE bot_trap_requests_total counter\n"@ + sample(
        "bot_trap_requests_total"@,
        plain_count(m, MetricName::RequestsTotal),
    )
        + "\n# TYPE bot_trap_bans_total counter\n# HELP bot_trap_bans_total Total number of IP bans by reason\n"@
        + ban_sample(m, "honeypot"@) + ban_sample(m, "rate_limit"@) + ban_sample(m, "browser"@)
        + ban_sample(m, "admin"@) + "\n# TYPE bot_trap_blocks_total counter\n"@ + sample(
        "bot_trap_blocks_total"@,
        plain_count(m, MetricName::BlocksTotal),
    ) + "\n# TYPE bot_trap_challenges_total counter\n"@ + sample(
        "bot_trap_challenges_total"@,
        plain_count(m, MetricName::ChallengesTotal),
    ) + "\n# TYPE bot_trap_whitelisted_total counter\n"@ + sample(
        "bot_trap_whitelisted_total"@,
        plain_count(m, MetricName::WhitelistedTotal),
    ) + "\n# TYPE bot_trap_test_mode_actions_total counter\n"@ + sample(
        "bot_trap_test_mode_actions_total"@,
        plain_count(m, MetricName::TestModeActions),
    )
        + "\n# TYPE bot_trap_maze_hits_total counter\n# HELP bot_trap_maze_hits_total Total hits on link maze honeypot pages\n"@
        + sample("bot_trap_maze_hits_total"@, plain_count(m, MetricName::MazeHits))
        + "\n# TYPE bot_trap_active_bans gauge\n# HELP bot_trap_active_bans Current number of active (non-expired) bans\n"@
        + sample("bot_trap_active_bans"@, active) + "\n# TYPE bot_trap_test_mode_enabled gauge\n"@
        + sample(
        "bot_trap_test_mode_enabled"@,
        if test_mode {
            1
        } else {
            0
        },
    )
}

/// Appends the characters of `s` to `out`.
fn push_str(out: &mut Vec<char>, s: &str)
    ensures
        final(out)@ == old(out)@ + s@,
{
    let more = chars_of(s);
    push_all(out, more.as_slice());
}

/// Appends a line of the exposition to `out`.
fn push_sample(out: &mut Vec<char>, name: &[char], value: u64)
    ensures
        final(out)@ == old(out)@ + sample(name@, value),
{
    push_all(out, name);
    out.push(' ');
    let digits = decimal_chars(value);
    push_all(out, digits.as_slice());
    out.push('\n');
    assert(out@ =~= old(out)@ + sample(name@, value));
}

/// Appends the line of a plain counter to `out`.
fn push_plain<S: KeyValueStore>(out: &mut Vec<char>, store: &S, name: &str, metric: MetricName)
    ensures
        store.dependable() ==> final(out)@ == old(out)@ + sample(
            name@,
            plain_count(store.contents(), metric),
        ),
{
    let key = metric_key(metric, None);
    let value = get_counter(store, key.as_str());
    let label = chars_of(name);
    push_sample(out, label.as_slice(), value);
}

/// Appends the line of the bans for one reason to `out`.
fn push_bans<S: KeyValueStore>(out: &mut Vec<char>, store: &S, reason: &str)
    ensures
        store.dependable() ==> final(out)@ == old(out)@ + ban_sample(store.contents(), reason@),
{
    let key = metric_key(MetricName::BansTotal, Some(reason));
    let value = get_counter(store, key.as_str());
    let mut name = chars_of("bot_trap_bans_total{reason=\"");
    push_str(&mut name, reason);
    push_str(&mut name, "\"}");
    push_sample(out, name.as_slice(), value);
}

/// The exposition of the counters in the text format of Prometheus, at
/// time `now`.
pub fn render_metrics_at<S: KeyValueStore>(store: &S, test_mode: bool, now: u64) -> (text: String)
    ensures
        store.dependable() ==> text@ == metrics_text(
            store.contents(),
            active_bans(store.contents(), now).len() as u64,
            test_mode,
        ),
{
    let mut out: Vec<char> = Vec::new();
    push_str(&mut out, "# WASM Bot Trap Metrics\n# TYPE bot_trap_requests_total counter\n");
    push_plain(&mut out, store, "bot_trap_requests_total", MetricName::RequestsTotal);
    push_str(
        &mut out,
        "\n# TYPE bot_trap_bans_total counter\n# HELP bot_trap_bans_total Total number of IP bans by reason\n",
    );
    push_bans(&mut out, store, "honeypot");
    push_bans(&mut out, store, "rate_limit");
    push_bans(&mut out, store, "browser");
    push_bans(&mut out, store, "admin");
    push_str(&mut out, "\n# TYPE bot_trap_blocks_total counter\n");
    push_plain(&mut out, store, "bot_trap_blocks_total", MetricName::BlocksTotal);
    push_str(&mut out, "\n# TYPE bot_trap_challenges_total counter\n");
    push_plain(&mut out, store, "bot_trap_challenges_total", MetricName::ChallengesTotal);
    push_str(&mut out, "\n# TYPE bot_trap_whitelisted_total counter\n");
    push_plain(&mut out, store, "bot_trap_whitelisted_total", MetricName::WhitelistedTotal);
    push_str(&mut out, "\n# TYPE bot_trap_test_mode_actions_total counter\n");
    push_plain(&mut out, store, "bot_trap_test_mode_actions_total", MetricName::TestModeActions);
    push_str(
        &mut out,
        "\n# TYPE bot_trap_maze_hits_total counter\n# HELP bot_trap_maze_hits_total Total hits on link maze honeypot pages\n",
    );
    push_plain(&mut out, store, "bot_trap_maze_hits_total", MetricName::MazeHits);
    push_str(
        &mut out,
        "\n# TYPE bot_trap_active_bans gauge\n# HELP bot_trap_active_bans Current number of active (non-expired) bans\n",
    );
    let active = count_active_bans_at(store, now);
    let gauge = chars_of("bot_trap_active_bans");
    push_sample(&mut out, gauge.as_slice(), active);
    push_str(&mut out, "\n# TYPE bot_trap_test_mode_enabled gauge\n");
    let flag = chars_of("bot_trap_test_mode_enabled");
    push_sample(
        &mut out,
        flag.as_slice(),
        if test_mode {
            1
        } else {
            0
        },
    );
    text_of(out.as_slice())
}

/// The exposition of the counters now, by the system clock.
pub fn render_metrics<S: KeyValueStore>(store: &S, test_mode: bool) -> (text: String)
    ensures
        store.dependable() ==> exists|now: u64|
            text@ == metrics_text(
                store.contents(),
                (#[trigger] active_bans(store.contents(), now)).len() as u64,
                test_mode,
            ),
{
    let now = now_ts();
    render_metrics_at(store, test_mode, now)
}

} // verus!
