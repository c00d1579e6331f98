//! The ban ledger: one record for each banned address of a site, with a
//! reason and an expiry. Expiry is enforced where a record is read, and
//! nowhere else: a record found expired or corrupt is deleted on the spot.

use crate::admin::now_ts;
use crate::record::{decode_record, encode_record, lemma_record_round_trip, record_bytes,
    record_of};
use crate::store::KeyValueStore;
use vstd::prelude::*;

verus! {

/// A ban as the store holds it.
#[derive(Debug, Clone)]
pub struct BanEntry {
    /// Why the address was banned.
    pub reason: String,
    /// The second, counted from the Unix epoch, at which the ban ends.
    pub expires: u64,
}

impl View for BanEntry {
    type V = (Seq<char>, u64);

    open spec fn view(&self) -> (Seq<char>, u64) {
        (self.reason@, self.expires)
    }
}

impl BanEntry {
    /// The bytes under which the store holds this entry.
    pub fn to_bytes(&self) -> (bytes: Vec<u8>)
        ensures
            bytes@ == record_bytes(self.reason@, self.expires),
    {
        encode_record(self.reason.as_str(), self.expires)
    }

    /// The entry that `bytes` stands for, if it stands for one.
    pub fn from_bytes(bytes: &[u8]) -> (entry: Option<BanEntry>)
        ensures
            match entry {
                Some(e) => record_of(bytes@) == Some(e@),
                None => record_of(bytes@) is None,
            },
    {
        match decode_record(bytes) {
            Some((reason, expires)) => Some(BanEntry { reason, expires }),
            None => None,
        }
    }
}

/// Why an address is banned.
#[derive(Debug, Clone, Copy, PartialEq, Eq, Structural)]
pub enum BanReason {
    Honeypot,
    RateLimit,
    Browser,
    Admin,
    MazeCrawler,
    Automation,
}

impl BanReason {
    /// The reason as a ban record names it.
    pub open spec fn text(self) -> Seq<char> {
        match self {
            BanReason::Honeypot => "honeypot"@,
            BanReason::RateLimit => "rate"@,
            BanReason::Browser => "browser"@,
            BanReason::Admin => "admin_ban"@,
            BanReason::MazeCrawler => "maze_crawler"@,
            BanReason::Automation => "cdp_automation"@,
        }
    }

    /// The label under which bans for this reason are counted.
    pub open spec fn label(self) -> Seq<char> {
        match self {
            BanReason::Honeypot => "honeypot"@,
            BanReason::RateLimit => "rate_limit"@,
            BanReason::Browser => "browser"@,
            BanReason::Admin => "admin"@,
            BanReason::MazeCrawler => "maze_crawler"@,
            BanReason::Automation => "cdp_automation"@,
        }
    }

    /// The label under which bans for this reason are counted.
    pub fn label_str(self) -> (s: &'static str)
        ensures
            s@ == self.label(),
    {
        match self {
            BanReason::Honeypot => "honeypot",
            BanReason::RateLimit => "rate_limit",
            BanReason::Browser => "browser",
            BanReason::Admin => "admin",
            BanReason::MazeCrawler => "maze_crawler",
            BanReason::Automation => "cdp_automation",
        }
    }

    /// The reason as a ban record names it.
    pub fn as_str(self) -> (s: &'static str)
        ensures
            s@ == self.text(),
    {
        match self {
            BanReason::Honeypot => "honeypot",
            BanReason::RateLimit => "rate",
            BanReason::Browser => "browser",
            BanReason::Admin => "admin_ban",
            BanReason::MazeCrawler => "maze_crawler",
            BanReason::Automation => "cdp_automation",
        }
    }
}

/// The key of the ban record of `ip` at `site`: `ban:<site>:<ip>`.
pub open spec fn ban_key_of(site: Seq<char>, ip: Seq<char>) -> Seq<char> {
    seq!['b', 'a', 'n', ':'] + site + seq![':'] + ip
}

/// The key of the ban record of `ip` at `site_id`.
pub fn ban_key(site_id: &str, ip: &str) -> (key: String)
    ensures
        key@ == ban_key_of(site_id@, ip@),
{
    proof {
        reveal_strlit("ban:");
        reveal_strlit(":");
    }
    let mut key = String::from_str("ban:");
    key.append(site_id);
    key.append(":");
    key.append(ip);
    assert(key@ =~= ban_key_of(site_id@, ip@));
    key
}

/// Whether `bytes` is a record that has not expired at time `now`.
pub open spec fn record_active(bytes: Seq<u8>, now: u64) -> bool {
    match record_of(bytes) {
        Some((_, expires)) => expires > now,
        None => false,
    }
}

/// Whether the ledger `m` holds a ban of `ip` at `site` that has not
/// expired at time `now`.
pub open spec fn banned_in(
    m: Map<Seq<char>, Seq<u8>>,
    site: Seq<char>,
    ip: Seq<char>,
    now: u64,
) -> bool {
    m.contains_key(ban_key_of(site, ip)) && record_active(m[ban_key_of(site, ip)], now)
}

/// The ledger `m` after a ban of `ip` at `site` was written.
pub open spec fn ban_written(
    m: Map<Seq<char>, Seq<u8>>,
    site: Seq<char>,
    ip: Seq<char>,
    reason: Seq<char>,
    expires: u64,
) -> Map<Seq<char>, Seq<u8>> {
    m.insert(ban_key_of(site, ip), record_bytes(reason, expires))
}

/// Whether the stored bytes are a ban that is in force at time `now`.
pub fn judge_record(bytes: &[u8], now: u64) -> (active: bool)
    ensures
        active == record_active(bytes@, now),
{
    match decode_record(bytes) {
        Some((_, expires)) => expires > now,
        None => false,
    }
}

/// Whether `ip` is banned at `site_id` at time `now`.
///
/// A record that has expired, or that cannot be read as a record, is
/// deleted. A store that fails reads as no ban.
pub fn is_banned_at<S: KeyValueStore>(store: &mut S, site_id: &str, ip: &str, now: u64) -> (banned:
    bool)
    ensures
        final(store).dependable() == old(store).dependable(),
        banned ==> banned_in(old(store).contents(), site_id@, ip@, now),
        old(store).dependable() ==> banned == banned_in(old(store).contents(), site_id@, ip@, now),
        banned ==> final(store).contents() == old(store).contents(),
        !banned ==> final(store).contents() == old(store).contents() || (!banned_in(
            old(store).contents(),
            site_id@,
            ip@,
            now,
        ) && final(store).contents() == old(store).contents().remove(ban_key_of(site_id@, ip@))),
        old(store).dependable() && !banned ==> final(store).contents() == old(
            store,
        ).contents().remove(ban_key_of(site_id@, ip@)),
{
    let key = ban_key(site_id, ip);
    match store.get(key.as_str()) {
        Ok(Some(bytes)) => {
            if judge_record(bytes.as_slice(), now) {
                true
            } else {
                let _ = store.delete(key.as_str());
                false
            }
        },
        Ok(None) => {
            assert(store.contents().remove(key@) =~= store.contents());
            false
        },
        Err(_) => false,
    }
}

/// Whether `ip` is banned at `site_id` now, by the system clock.
pub fn is_banned<S: KeyValueStore>(store: &mut S, site_id: &str, ip: &str) -> (banned: bool)
    ensures
        final(store).dependable() == old(store).dependable(),
        banned ==> exists|now: u64| banned_in(old(store).contents(), site_id@, ip@, now),
        banned ==> final(store).contents() == old(store).contents(),
        !banned ==> final(store).contents() == old(store).contents() || final(store).contents()
            == old(store).contents().remove(ban_key_of(site_id@, ip@)),
        old(store).dependable() ==> exists|now: u64|
            banned == #[trigger] banned_in(old(store).contents(), site_id@, ip@, now),
        old(store).dependable() && !banned ==> final(store).contents() == old(
            store,
        ).contents().remove(ban_key_of(site_id@, ip@)),
{
    let now = now_ts();
    is_banned_at(store, site_id, ip, now)
}

/// Bans `ip` at `site_id` from time `now` for `duration_secs` seconds. A
/// ban that is already there is replaced, not prolonged: the new expiry
/// counts from `now`.
pub fn ban_ip_at<S: KeyValueStore>(
    store: &mut S,
    site_id: &str,
    ip: &str,
    reason: &str,
    duration_secs: u64,
    now: u64,
)
    requires
        now + duration_secs <= u64::MAX,
    ensures
        final(store).dependable() == old(store).dependable(),
        final(store).contents() == old(store).contents() || final(store).contents() == ban_written(
            old(store).contents(),
            site_id@,
            ip@,
            reason@,
            (now + duration_secs) as u64,
        ),
        old(store).dependable() ==> final(store).contents() == ban_written(
            old(store).contents(),
            site_id@,
            ip@,
            reason@,
            (now + duration_secs) as u64,
        ),
{
    let key = ban_key(site_id, ip);
    let bytes = encode_record(reason, now + duration_secs);
    let _ = store.set(key.as_str(), bytes.as_slice());
}

/// The ledger `m` after an offence at time `now` that is banned for
/// `duration_secs` seconds: the ban is written, unless its expiry would
/// lie beyond the last second that a record can hold.
pub open spec fn escalated(
    m: Map<Seq<char>, Seq<u8>>,
    site: Seq<char>,
    ip: Seq<char>,
    reason: Seq<char>,
    duration_secs: u64,
    now: u64,
) -> Map<Seq<char>, Seq<u8>> {
    if now + duration_secs <= u64::MAX {
        ban_written(m, site, ip, reason, (now + duration_secs) as u64)
    } else {
        m
    }
}

/// Bans `ip` at `site_id` from time `now` for `duration_secs` seconds,
/// where a record can hold the expiry; else nothing is written.
pub fn escalate<S: KeyValueStore>(
    store: &mut S,
    site_id: &str,
    ip: &str,
    reason: &str,
    duration_secs: u64,
    now: u64,
)
    ensures
        final(store).dependable() == old(store).dependable(),
        final(store).contents() == old(store).contents() || final(store).contents() == escalated(
            old(store).contents(),
            site_id@,
            ip@,
            reason@,
            duration_secs,
            now,
        ),
        old(store).dependable() ==> final(store).contents() == escalated(
            old(store).contents(),
            site_id@,
            ip@,
            reason@,
            duration_secs,
            now,
        ),
{
    if duration_secs <= u64::MAX - now {
        ban_ip_at(store, site_id, ip, reason, duration_secs, now);
    }
}

/// Bans `ip` at `site_id` from now, by the system clock, for
/// `duration_secs` seconds. Where the expiry would lie beyond the last
/// second that a record can hold, nothing is written.
pub fn ban_ip<S: KeyValueStore>(
    store: &mut S,
    site_id: &str,
    ip: &str,
    reason: &str,
    duration_secs: u64,
)
    ensures
        final(store).dependable() == old(store).dependable(),
        final(store).contents() == old(store).contents() || exists|now: u64|
            final(store).contents() == #[trigger] escalated(
                old(store).contents(),
                site_id@,
                ip@,
                reason@,
                duration_secs,
                now,
            ),
        old(store).dependable() ==> exists|now: u64|
            final(store).contents() == #[trigger] escalated(
                old(store).contents(),
                site_id@,
                ip@,
                reason@,
                duration_secs,
                now,
            ),
{
    let now = now_ts();
    escalate(store, site_id, ip, reason, duration_secs, now);
}

/// Lifts the ban of `ip` at `site_id`, whether there is one or not.
pub fn unban_ip<S: KeyValueStore>(store: &mut S, site_id: &str, ip: &str)
    ensures
        final(store).dependable() == old(store).dependable(),
        final(store).contents() == old(store).contents() || final(store).contents() == old(
            store,
        ).contents().remove(ban_key_of(site_id@, ip@)),
        old(store).dependable() ==> final(store).contents() == old(store).contents().remove(
            ban_key_of(site_id@, ip@),
        ),
{
    let key = ban_key(site_id, ip);
    let _ = store.delete(key.as_str());
}

/// Two addresses of one site have two keys.
pub proof fn lemma_ban_key_one_to_one(site: Seq<char>, ip: Seq<char>, other: Seq<char>)
    requires
        ip != other,
    ensures
        ban_key_of(site, ip) != ban_key_of(site, other),
{
    let a = ban_key_of(site, ip);
    let b = ban_key_of(site, other);
    let n = 5 + site.len();
    if a == b {
        assert(a.skip(n as int) =~= ip);
        assert(b.skip(n as int) =~= other);
    }
}

/// Once an address is banned until `expires`, it is banned at every time
/// before `expires` and at none from `expires` on, whatever the ledger held
/// for it before.
pub proof fn law_ban_holds_until_expiry(
    m: Map<Seq<char>, Seq<u8>>,
    site: Seq<char>,
    ip: Seq<char>,
    reason: Seq<char>,
    expires: u64,
    at: u64,
)
    ensures
        banned_in(ban_written(m, site, ip, reason, expires), site, ip, at) == (at < expires),
{
    lemma_record_round_trip(reason, expires);
}

/// An address that is banned at time `now` for `duration_secs` seconds
/// is banned from then on for as long: at once, if the duration is not
/// zero, and no more when the duration has passed.
pub proof fn law_ban_lasts_its_duration(
    m: Map<Seq<char>, Seq<u8>>,
    site: Seq<char>,
    ip: Seq<char>,
    reason: Seq<char>,
    duration_secs: u64,
    now: u64,
    later: u64,
)
    requires
        now + duration_secs <= u64::MAX,
        later >= now,
    ensures
        banned_in(escalated(m, site, ip, reason, duration_secs, now), site, ip, later) == (later
            - now < duration_secs),
{
    law_ban_holds_until_expiry(m, site, ip, reason, (now + duration_secs) as u64, later);
}

/// A ban of one address changes nothing for another address of the site.
pub proof fn law_ban_leaves_others(
    m: Map<Seq<char>, Seq<u8>>,
    site: Seq<char>,
    ip: Seq<char>,
    reason: Seq<char>,
    expires: u64,
    other: Seq<char>,
    at: u64,
)
    requires
        other != ip,
    ensures
        banned_in(ban_written(m, site, ip, reason, expires), site, other, at) == banned_in(
            m,
            site,
            other,
            at,
        ),
{
    lemma_ban_key_one_to_one(site, ip, other);
}

/// Once the ban of an address is lifted, the address is not banned at any
/// time, whatever the ledger held for it before.
pub proof fn law_unban_clears(
    m: Map<Seq<char>, Seq<u8>>,
    site: Seq<char>,
    ip: Seq<char>,
    at: u64,
)
    ensures
        !banned_in(m.remove(ban_key_of(site, ip)), site, ip, at),
{
}

} // verus!

verus! {

/// Whether `a` and `b` hold the same ban records.
pub open spec fn same_ledger(a: Map<Seq<char>, Seq<u8>>, b: Map<Seq<char>, Seq<u8>>) -> bool {
    forall|site: Seq<char>, ip: Seq<char>|
        a.contains_key(#[trigger] ban_key_of(site, ip)) == b.contains_key(ban_key_of(site, ip))
            && (a.contains_key(ban_key_of(site, ip)) ==> a[ban_key_of(site, ip)] == b[ban_key_of(
            site,
            ip,
        )])
}

/// Whether `b` holds the ban records of `a` but for the one of `ip` at
/// `site`.
pub open spec fn same_ledger_but(
    a: Map<Seq<char>, Seq<u8>>,
    b: Map<Seq<char>, Seq<u8>>,
    site: Seq<char>,
    ip: Seq<char>,
) -> bool {
    forall|s: Seq<char>, i: Seq<char>|
        #[trigger] ban_key_of(s, i) != ban_key_of(site, ip) ==> a.contains_key(ban_key_of(s, i))
            == b.contains_key(ban_key_of(s, i)) && (a.contains_key(ban_key_of(s, i)) ==> a[ban_key_of(
            s,
            i,
        )] == b[ban_key_of(s, i)])
}

} // verus!

verus! {

/// `ban:<site>:`: what the keys of the ban records of `site` begin with.
pub open spec fn ban_prefix_of(site: Seq<char>) -> Seq<char> {
    seq!['b', 'a', 'n', ':'] + site + seq![':']
}

/// Whether `m` holds the record `entry` for `ip` at `site`.
pub open spec fn holds_ban(
    m: Map<Seq<char>, Seq<u8>>,
    site: Seq<char>,
    ip: Seq<char>,
    entry: (Seq<char>, u64),
) -> bool {
    m.contains_key(ban_key_of(site, ip)) && record_of(m[ban_key_of(site, ip)]) == Some(entry)
}

/// Whether `m` holds a record for `ip` at `site` that can be read.
pub open spec fn has_ban(m: Map<Seq<char>, Seq<u8>>, site: Seq<char>, ip: Seq<char>) -> bool {
    m.contains_key(ban_key_of(site, ip)) && record_of(m[ban_key_of(site, ip)]) is Some
}

/// Whether `ip` is one of the addresses of `bans`.
pub open spec fn names_ip(bans: Seq<(String, BanEntry)>, ip: Seq<char>) -> bool {
    exists|i: int| 0 <= i < bans.len() && (#[trigger] bans[i]).0@ == ip
}

/// Whether the keys before index `n` that hold a readable record of
/// `site` have their addresses among `bans`.
spec fn covered(
    m: Map<Seq<char>, Seq<u8>>,
    site: Seq<char>,
    keys: Seq<String>,
    n: int,
    bans: Seq<(String, BanEntry)>,
) -> bool {
    forall|j: int, ip: Seq<char>|
        0 <= j < n && (#[trigger] keys[j])@ == #[trigger] ban_key_of(site, ip) && has_ban(
            m,
            site,
            ip,
        ) ==> names_ip(bans, ip)
}

/// Whether each address of `bans` has its key among the keys before
/// index `n`.
spec fn drawn_from(site: Seq<char>, keys: Seq<String>, n: int, bans: Seq<(String, BanEntry)>) -> bool {
    forall|i: int|
        0 <= i < bans.len() ==> exists|j: int|
            0 <= j < n && #[trigger] keys[j]@ == ban_key_of(site, (#[trigger] bans[i]).0@)
}

/// The bans of `site_id` that the store holds, expired ones too, each
/// with its address. A record that cannot be read is left out, and a
/// store that fails lists what it still answers for.
pub fn list_bans<S: KeyValueStore>(store: &S, site_id: &str) -> (bans: Vec<(String, BanEntry)>)
    ensures
        forall|i: int|
            0 <= i < bans@.len() ==> holds_ban(
                store.contents(),
                site_id@,
                (#[trigger] bans@[i]).0@,
                bans@[i].1@,
            ),
        forall|i: int, j: int|
            0 <= i < j < bans@.len() ==> (#[trigger] bans@[i]).0@ != (#[trigger] bans@[j]).0@,
        store.dependable() ==> forall|ip: Seq<char>|
            #[trigger] has_ban(store.contents(), site_id@, ip) ==> names_ip(bans@, ip),
{
    let ghost m = store.contents();
    let mut bans: Vec<(String, BanEntry)> = Vec::new();
    let keys = match store.get_keys() {
        Ok(keys) => keys,
        Err(_) => {
            return bans;
        },
    };
    let mut prefix: Vec<char> = vec!['b', 'a', 'n', ':'];
    let site = crate::text::chars_of(site_id);
    crate::text::push_all(&mut prefix, site.as_slice());
    prefix.push(':');
    assert(prefix@ =~= ban_prefix_of(site_id@));
    let mut i: usize = 0;
    while i < keys.len()
        invariant
            i <= keys.len(),
            m == store.contents(),
            crate::store::lists_keys(keys@, m),
            prefix@ == ban_prefix_of(site_id@),
            forall|x: int|
                0 <= x < bans@.len() ==> holds_ban(m, site_id@, (#[trigger] bans@[x]).0@, bans@[x].1@),
            drawn_from(site_id@, keys@, i as int, bans@),
            forall|a: int, b: int|
                0 <= a < b < bans@.len() ==> (#[trigger] bans@[a]).0@ != (#[trigger] bans@[b]).0@,
            store.dependable() ==> covered(m, site_id@, keys@, i as int, bans@),
        decreases keys.len() - i,
    {
        let key = crate::text::chars_of(keys[i].as_str());
        let ghost before = bans@;
        let mut added = false;
        if crate::text::starts_with(key.as_slice(), prefix.as_slice()) {
            let ip = crate::text::slice_of(key.as_slice(), prefix.len(), key.len());
            assert(key@ =~= ban_key_of(site_id@, ip@));
            match store.get(keys[i].as_str()) {
                Ok(Some(bytes)) => {
                    match BanEntry::from_bytes(bytes.as_slice()) {
                        Some(entry) => {
                            bans.push((crate::text::text_of(ip.as_slice()), entry));
                            added = true;
                        },
                        None => {},
                    }
                },
                _ => {},
            }
        }
        proof {
            assert forall|x: int| 0 <= x < bans@.len() implies holds_ban(
                m,
                site_id@,
                (#[trigger] bans@[x]).0@,
                bans@[x].1@,
            ) by {
                if x < before.len() {
                    assert(bans@[x] == before[x]);
                }
            }
            assert forall|a: int, b: int| 0 <= a < b < bans@.len() implies (#[trigger] bans@[a]).0@
                != (#[trigger] bans@[b]).0@ by {
                assert(bans@[a] == before[a]);
                if b < before.len() {
                    assert(bans@[b] == before[b]);
                } else {
                    let j = choose|j: int|
                        0 <= j < i && #[trigger] keys@[j]@ == ban_key_of(site_id@, before[a].0@);
                    assert(keys@[i as int]@ == ban_key_of(site_id@, bans@[b].0@));
                    assert(keys@[j]@ != keys@[i as int]@);
                }
            }
            assert(drawn_from(site_id@, keys@, i + 1, bans@)) by {
                assert forall|x: int| 0 <= x < bans@.len() implies exists|j: int|
                    0 <= j < i + 1 && #[trigger] keys@[j]@ == ban_key_of(
                        site_id@,
                        (#[trigger] bans@[x]).0@,
                    ) by {
                    if x < before.len() {
                        assert(bans@[x] == before[x]);
                        let j = choose|j: int|
                            0 <= j < i && #[trigger] keys@[j]@ == ban_key_of(
                                site_id@,
                                before[x].0@,
                            );
                        assert(keys@[j]@ == ban_key_of(site_id@, bans@[x].0@));
                    } else {
                        assert(keys@[i as int]@ == ban_key_of(site_id@, bans@[x].0@));
                    }
                }
            }
            if store.dependable() {
                assert(covered(m, site_id@, keys@, i + 1, bans@)) by {
                    assert forall|j: int, ip: Seq<char>|
                        0 <= j < i + 1 && (#[trigger] keys@[j])@ == #[trigger] ban_key_of(
                            site_id@,
                            ip,
                        ) && has_ban(m, site_id@, ip) implies names_ip(bans@, ip) by {
                        if j < i {
                            assert(names_ip(before, ip));
                            let x = choose|x: int|
                                0 <= x < before.len() && (#[trigger] before[x]).0@ == ip;
                            assert(bans@[x] == before[x]);
                        } else {
                            assert(ban_prefix_of(site_id@).is_prefix_of(key@)) by {
                                assert(key@ =~= ban_prefix_of(site_id@) + ip);
                            }
                            assert(added);
                            let last = bans@.len() - 1;
                            assert(ban_key_of(site_id@, bans@[last].0@) == ban_key_of(site_id@, ip));
                            if bans@[last].0@ != ip {
                                lemma_ban_key_one_to_one(site_id@, bans@[last].0@, ip);
                            }
                        }
                    }
                }
            }
        }
        i = i + 1;
    }
    proof {
        if store.dependable() {
            assert forall|ip: Seq<char>| #[trigger]
                has_ban(m, site_id@, ip) implies names_ip(bans@, ip) by {
                assert(crate::store::listed(keys@, ban_key_of(site_id@, ip)));
                let j = choose|j: int|
                    0 <= j < keys@.len() && #[trigger] keys@[j]@ == ban_key_of(site_id@, ip);
                assert(keys@[j]@ == ban_key_of(site_id@, ip));
            }
        }
    }
    bans
}

} // verus!
