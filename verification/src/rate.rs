//! The rate counter: for each address of a site, how many requests it has
//! made in the current window. Windows are fixed and do not overlap; a
//! request in a new window starts the count again.

use crate::admin::now_ts;
use crate::decimal::{all_digits, decimal, decimal_bytes, is_digit, lemma_decimal, number_in,
    parse_u64};
use crate::metrics::bumped;
use crate::store::{same_but_at, KeyValueStore};
use vstd::prelude::*;

verus! {

/// The width of a window in seconds.
pub const RATE_WINDOW_SECS: u64 = 60;

/// The window that the second `now` lies in.
pub open spec fn window_of(now: u64) -> u64 {
    now / 60
}

/// The key of the counter of `ip` at `site`: `rate:<site>:<ip>`.
pub open spec fn rate_key_of(site: Seq<char>, ip: Seq<char>) -> Seq<char> {
    seq!['r', 'a', 't', 'e', ':'] + site + seq![':'] + ip
}

/// The key of the counter of `ip` at `site_id`.
pub fn rate_key(site_id: &str, ip: &str) -> (key: String)
    ensures
        key@ == rate_key_of(site_id@, ip@),
{
    proof {
        reveal_strlit("rate:");
        reveal_strlit(":");
    }
    let mut key = String::from_str("rate:");
    key.append(site_id);
    key.append(":");
    key.append(ip);
    assert(key@ =~= rate_key_of(site_id@, ip@));
    key
}

/// The index of the first colon in `s`, or the length of `s`.
pub open spec fn colon_index(s: Seq<u8>) -> int
    decreases s.len(),
{
    if s.len() == 0 || s[0] == 0x3a {
        0
    } else {
        1 + colon_index(s.skip(1))
    }
}

proof fn lemma_colon_index(s: Seq<u8>, i: int)
    requires
        0 <= i <= s.len(),
        forall|j: int| 0 <= j < i ==> s[j] != 0x3a,
        i < s.len() ==> s[i] == 0x3a,
    ensures
        colon_index(s) == i,
    decreases s.len(),
{
    if s.len() == 0 || s[0] == 0x3a {
    } else {
        let t = s.skip(1);
        assert forall|j: int| 0 <= j < i - 1 implies t[j] != 0x3a by {
            assert(t[j] == s[j + 1]);
        }
        lemma_colon_index(t, i - 1);
    }
}

/// How a counter is stored: the window, a colon, the count.
pub open spec fn rate_state_bytes(window: u64, count: u64) -> Seq<u8> {
    decimal(window as nat) + seq![0x3au8] + decimal(count as nat)
}

/// The window and the count that `bytes` holds, if it holds them: two
/// numbers with a colon between.
pub open spec fn rate_state_of(bytes: Seq<u8>) -> Option<(u64, u64)> {
    let i = colon_index(bytes);
    if i < bytes.len() {
        match (
            number_in(bytes.take(i), u64::MAX as nat),
            number_in(bytes.skip(i + 1), u64::MAX as nat),
        ) {
            (Some(w), Some(c)) => Some((w as u64, c as u64)),
            _ => None,
        }
    } else {
        None
    }
}

/// The count that `bytes` holds for `window`: zero where it holds
/// another window, or nothing that can be read.
pub open spec fn count_for(bytes: Seq<u8>, window: u64) -> u64 {
    match rate_state_of(bytes) {
        Some((w, c)) => if w == window {
            c
        } else {
            0
        },
        None => 0,
    }
}

/// The requests of `ip` at `site` that `m` has counted in `window`.
pub open spec fn count_at(m: Map<Seq<char>, Seq<u8>>, site: Seq<char>, ip: Seq<char>, window: u64)
    -> u64 {
    if m.contains_key(rate_key_of(site, ip)) {
        count_for(m[rate_key_of(site, ip)], window)
    } else {
        0
    }
}

/// The store `m` after one more request of `ip` at `site` was counted in
/// `window`.
pub open spec fn rate_counted(
    m: Map<Seq<char>, Seq<u8>>,
    site: Seq<char>,
    ip: Seq<char>,
    window: u64,
) -> Map<Seq<char>, Seq<u8>> {
    m.insert(rate_key_of(site, ip), rate_state_bytes(window, bumped(count_at(m, site, ip, window))))
}

/// What is stored is read back as it was written.
pub proof fn lemma_rate_state_round_trip(window: u64, count: u64)
    ensures
        rate_state_of(rate_state_bytes(window, count)) == Some((window, count)),
{
    let w = decimal(window as nat);
    let c = decimal(count as nat);
    let s = rate_state_bytes(window, count);
    lemma_decimal(window as nat);
    lemma_decimal(count as nat);
    assert forall|j: int| 0 <= j < w.len() implies s[j] != 0x3a by {
        assert(s[j] == w[j]);
        assert(is_digit(w[j]));
    }
    assert(s[w.len() as int] == 0x3a);
    lemma_colon_index(s, w.len() as int);
    assert(s.take(w.len() as int) =~= w);
    assert(s.skip(w.len() as int + 1) =~= c);
    assert(is_digit(w[0]) && is_digit(c[0]));
}

/// The count that the stored bytes hold for `window`.
pub fn window_count(bytes: &[u8], window: u64) -> (count: u64)
    ensures
        count == count_for(bytes@, window),
{
    let mut i: usize = 0;
    while i < bytes.len() && bytes[i] != 0x3a
        invariant
            i <= bytes.len(),
            forall|j: int| 0 <= j < i ==> bytes@[j] != 0x3a,
        decreases bytes.len() - i,
    {
        i = i + 1;
    }
    proof {
        lemma_colon_index(bytes@, i as int);
    }
    if i == bytes.len() {
        return 0;
    }
    let head = vstd::slice::slice_subrange(bytes, 0, i);
    let tail = vstd::slice::slice_subrange(bytes, i + 1, bytes.len());
    assert(head@ =~= bytes@.take(i as int));
    assert(tail@ =~= bytes@.skip(i + 1));
    match (parse_u64(head), parse_u64(tail)) {
        (Some(w), Some(c)) => if w == window {
            c
        } else {
            0
        },
        _ => 0,
    }
}

/// Counts one request of `ip` at `site_id` at time `now`, and says whether
/// it is within the limit: whether fewer than `limit` requests had been
/// counted in this window before it.
///
/// A request beyond the limit is counted too. A counter that cannot be
/// read counts from zero, so a store that fails lets the request pass.
pub fn check_rate_limit_at<S: KeyValueStore>(
    store: &mut S,
    site_id: &str,
    ip: &str,
    limit: u32,
    now: u64,
) -> (within: bool)
    ensures
        final(store).dependable() == old(store).dependable(),
        !within ==> count_at(old(store).contents(), site_id@, ip@, window_of(now)) >= limit,
        old(store).dependable() ==> within == (count_at(
            old(store).contents(),
            site_id@,
            ip@,
            window_of(now),
        ) < limit),
        old(store).dependable() ==> final(store).contents() == rate_counted(
            old(store).contents(),
            site_id@,
            ip@,
            window_of(now),
        ),
        same_but_at(old(store).contents(), final(store).contents(), rate_key_of(site_id@, ip@)),
{
    let key = rate_key(site_id, ip);
    let window: u64 = now / RATE_WINDOW_SECS;
    let count: u64 = match store.get(key.as_str()) {
        Ok(Some(bytes)) => window_count(bytes.as_slice(), window),
        _ => 0,
    };
    let next: u64 = if count < u64::MAX {
        count + 1
    } else {
        count
    };
    let mut state = decimal_bytes(window);
    state.push(0x3a);
    let mut tail = decimal_bytes(next);
    state.append(&mut tail);
    assert(state@ =~= rate_state_bytes(window, next));
    let _ = store.set(key.as_str(), state.as_slice());
    count < limit as u64
}

/// Counts one request of `ip` at `site_id` now, by the system clock, and
/// says whether it is within the limit.
pub fn check_rate_limit<S: KeyValueStore>(store: &mut S, site_id: &str, ip: &str, limit: u32) -> (within:
    bool)
    ensures
        final(store).dependable() == old(store).dependable(),
        !within ==> exists|window: u64|
            #[trigger] count_at(old(store).contents(), site_id@, ip@, window) >= limit,
        old(store).dependable() ==> exists|window: u64|
            within == (count_at(old(store).contents(), site_id@, ip@, window) < limit)
                && final(store).contents() == #[trigger] rate_counted(
                old(store).contents(),
                site_id@,
                ip@,
                window,
            ),
        same_but_at(old(store).contents(), final(store).contents(), rate_key_of(site_id@, ip@)),
{
    let now = now_ts();
    let within = check_rate_limit_at(store, site_id, ip, limit, now);
    assert(!within ==> count_at(old(store).contents(), site_id@, ip@, window_of(now)) >= limit);
    within
}

/// The store `m` after `n` requests of `ip` at `site` were counted in
/// `window`.
pub open spec fn after_requests(
    m: Map<Seq<char>, Seq<u8>>,
    site: Seq<char>,
    ip: Seq<char>,
    window: u64,
    n: nat,
) -> Map<Seq<char>, Seq<u8>>
    decreases n,
{
    if n == 0 {
        m
    } else {
        rate_counted(after_requests(m, site, ip, window, (n - 1) as nat), site, ip, window)
    }
}

/// After `n` requests in a window that had counted none, the count is
/// `n`, or the largest count there is.
pub proof fn lemma_count_after_requests(
    m: Map<Seq<char>, Seq<u8>>,
    site: Seq<char>,
    ip: Seq<char>,
    window: u64,
    n: nat,
)
    requires
        count_at(m, site, ip, window) == 0,
    ensures
        count_at(after_requests(m, site, ip, window, n), site, ip, window) == if n <= u64::MAX {
            n
        } else {
            u64::MAX as nat
        },
    decreases n,
{
    if n > 0 {
        lemma_count_after_requests(m, site, ip, window, (n - 1) as nat);
        let before = after_requests(m, site, ip, window, (n - 1) as nat);
        lemma_rate_state_round_trip(window, bumped(count_at(before, site, ip, window)));
    }
}

/// In a window that has counted nothing yet, the first `limit` requests
/// are within the limit and every later one is not: the request that
/// follows `n` others is within the limit exactly if `n` is below `limit`.
pub proof fn law_rate_limit_per_window(
    m: Map<Seq<char>, Seq<u8>>,
    site: Seq<char>,
    ip: Seq<char>,
    window: u64,
    limit: u32,
    n: nat,
)
    requires
        count_at(m, site, ip, window) == 0,
    ensures
        (count_at(after_requests(m, site, ip, window, n), site, ip, window) < limit) == (n < limit),
{
    lemma_count_after_requests(m, site, ip, window, n);
}

/// A request in one window leaves nothing counted for any other window.
pub proof fn law_new_window_counts_from_zero(
    m: Map<Seq<char>, Seq<u8>>,
    site: Seq<char>,
    ip: Seq<char>,
    window: u64,
    other: u64,
)
    requires
        other != window,
    ensures
        count_at(rate_counted(m, site, ip, window), site, ip, other) == 0,
{
    lemma_rate_state_round_trip(window, bumped(count_at(m, site, ip, window)));
}

} // verus!
