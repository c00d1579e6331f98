//! The admission chain: the checks in their fixed order, from the
//! cheapest to the dearest. The first check that decides ends the chain;
//! no later check runs, reads or counts.

use crate::admin::{now_ts, opt_text, EventLogEntry, EventType, EventView};
use crate::ban::{ban_key_of, banned_in, escalate, escalated, is_banned_at, BanReason};
use crate::browser::{is_outdated_browser, outdated_browser, trusted_browser};
use crate::config::Config;
use crate::geo::{high_risk_geo, is_high_risk_geo};
use crate::honeypot::{honeypot_path, is_honeypot};
use crate::js::{agent_of, challenge_needed, needs_js_verification_with_whitelist, token_of};
use crate::maze::default_site;
use crate::metrics::{counted, increment, metric_key_of, MetricName};
use crate::rate::{check_rate_limit_at, count_at, rate_counted, window_of};
use crate::request::{client_ip_of, extract_client_ip, text_view, Request};
use crate::store::KeyValueStore;
use crate::text::same_str;
use crate::whitelist::{is_path_whitelisted, is_whitelisted, path_whitelisted, whitelisted};
use vstd::prelude::*;

verus! {

/// The check that decided a request.
#[derive(Debug, Clone, Copy, PartialEq, Eq, Structural)]
pub enum Stage {
    /// The path is on the path whitelist.
    PathWhitelisted,
    /// The address is on the whitelist.
    IpWhitelisted,
    /// The path is a honeypot.
    Honeypot,
    /// The address has used up its requests for this window.
    RateLimited,
    /// The address is banned.
    Banned,
    /// The client has not passed the challenge.
    NeedsChallenge,
    /// The browser is too old.
    OutdatedBrowser,
    /// The request comes from a country that is always challenged.
    GeoRisk,
    /// No check objected.
    Passed,
}

/// What is done with a request.
#[derive(Debug, Clone, Copy, PartialEq, Eq, Structural)]
pub enum Decision {
    Allow,
    Challenge,
    Block,
}

/// Why a block page is shown.
#[derive(Debug, Clone, Copy, PartialEq, Eq, Structural)]
pub enum BlockReason {
    Honeypot,
    RateLimit,
    OutdatedBrowser,
}

impl Stage {
    /// What a site that enforces its checks does with a request that was
    /// decided at this stage.
    pub open spec fn verdict(self) -> Decision {
        match self {
            Stage::PathWhitelisted | Stage::IpWhitelisted | Stage::Passed => Decision::Allow,
            Stage::NeedsChallenge | Stage::GeoRisk => Decision::Challenge,
            Stage::Honeypot | Stage::RateLimited | Stage::Banned | Stage::OutdatedBrowser =>
                Decision::Block,
        }
    }

    /// What a site that enforces its checks does with a request that was
    /// decided at this stage.
    pub fn would_be(self) -> (d: Decision)
        ensures
            d == self.verdict(),
    {
        match self {
            Stage::PathWhitelisted | Stage::IpWhitelisted | Stage::Passed => Decision::Allow,
            Stage::NeedsChallenge | Stage::GeoRisk => Decision::Challenge,
            Stage::Honeypot | Stage::RateLimited | Stage::Banned | Stage::OutdatedBrowser =>
                Decision::Block,
        }
    }

    /// Whether a request that is decided at this stage has been counted
    /// by the rate counter: whether the chain came as far as the counter.
    pub open spec fn past_rate_counter(self) -> bool {
        !(self == Stage::PathWhitelisted || self == Stage::IpWhitelisted || self
            == Stage::Honeypot)
    }

    /// Whether a request that is decided at this stage has been held
    /// against the ban ledger and found free.
    pub open spec fn past_ban_check(self) -> bool {
        self == Stage::NeedsChallenge || self == Stage::OutdatedBrowser || self == Stage::GeoRisk
            || self == Stage::Passed
    }

    /// The offence that a site which enforces its checks bans for at this
    /// stage.
    pub open spec fn offence(self) -> Option<BanReason> {
        match self {
            Stage::Honeypot => Some(BanReason::Honeypot),
            Stage::RateLimited => Some(BanReason::RateLimit),
            Stage::OutdatedBrowser => Some(BanReason::Browser),
            _ => None,
        }
    }
}

/// `/health`
pub open spec fn health_path() -> Seq<char> {
    "/health"@
}

/// The address that sent `req`.
pub open spec fn sender(req: Request) -> Seq<char> {
    client_ip_of(text_view(req.forwarded_for), text_view(req.real_ip))
}

/// Whether the client that sent `req` must be challenged: it declares no
/// browser that the site trusts, and presents no valid token.
pub open spec fn unverified(req: Request, cfg: Config, secret: Seq<u8>) -> bool {
    req.path@ != health_path() && !trusted_browser(
        agent_of(text_view(req.user_agent)),
        cfg.browser_whitelist@,
    ) && challenge_needed(text_view(req.cookie), token_of(secret, sender(req)))
}

/// The stage at which the request `req`, arriving at time `now` at a
/// site with the settings `cfg` and the state `m`, is decided: the first
/// check in the order of the chain that objects. Test mode has no part in
/// it.
pub open spec fn stage_of(
    m: Map<Seq<char>, Seq<u8>>,
    req: Request,
    cfg: Config,
    secret: Seq<u8>,
    now: u64,
) -> Stage {
    let ip = sender(req);
    if path_whitelisted(req.path@, cfg.path_whitelist@) {
        Stage::PathWhitelisted
    } else if whitelisted(ip, cfg.whitelist@) {
        Stage::IpWhitelisted
    } else if honeypot_path(req.path@, cfg.honeypots@) {
        Stage::Honeypot
    } else if count_at(m, default_site(), ip, window_of(now)) >= cfg.rate_limit {
        Stage::RateLimited
    } else if banned_in(m, default_site(), ip, now) {
        Stage::Banned
    } else if unverified(req, cfg, secret) {
        Stage::NeedsChallenge
    } else if outdated_browser(agent_of(text_view(req.user_agent)), cfg.browser_block@) {
        Stage::OutdatedBrowser
    } else if high_risk_geo(req.geo_country, cfg.geo_risk@) {
        Stage::GeoRisk
    } else {
        Stage::Passed
    }
}

/// Whether the request `req` can be decided at `stage` by a store that
/// may fail. A failing store reads as an empty one, so it can let a
/// request past the rate counter and the ban ledger; it cannot make any
/// check object that the request and the state give no ground for.
pub open spec fn stage_grounded(
    m: Map<Seq<char>, Seq<u8>>,
    req: Request,
    cfg: Config,
    secret: Seq<u8>,
    now: u64,
    stage: Stage,
) -> bool {
    let ip = sender(req);
    let listed_path = path_whitelisted(req.path@, cfg.path_whitelist@);
    let listed = whitelisted(ip, cfg.whitelist@);
    let trap = honeypot_path(req.path@, cfg.honeypots@);
    let open = !listed_path && !listed && !trap;
    let old_browser = outdated_browser(agent_of(text_view(req.user_agent)), cfg.browser_block@);
    match stage {
        Stage::PathWhitelisted => listed_path,
        Stage::IpWhitelisted => !listed_path && listed,
        Stage::Honeypot => !listed_path && !listed && trap,
        Stage::RateLimited => open && count_at(m, default_site(), ip, window_of(now))
            >= cfg.rate_limit,
        Stage::Banned => open && banned_in(m, default_site(), ip, now),
        Stage::NeedsChallenge => open && unverified(req, cfg, secret),
        Stage::OutdatedBrowser => open && !unverified(req, cfg, secret) && old_browser,
        Stage::GeoRisk => open && !unverified(req, cfg, secret) && !old_browser && high_risk_geo(
            req.geo_country,
            cfg.geo_risk@,
        ),
        Stage::Passed => open && !unverified(req, cfg, secret) && !old_browser && !high_risk_geo(
            req.geo_country,
            cfg.geo_risk@,
        ),
    }
}

/// The key of the counter of all requests.
pub open spec fn requests_key() -> Seq<char> {
    metric_key_of(MetricName::RequestsTotal, None)
}

/// The store `m` after the chain has run as far as `stage`, before the
/// stage acts: the request is counted; past the rate counter, it is
/// counted for its address; past the ban check, a record of the address
/// that had expired or could not be read is gone.
pub open spec fn store_at_stage(
    m: Map<Seq<char>, Seq<u8>>,
    stage: Stage,
    ip: Seq<char>,
    now: u64,
) -> Map<Seq<char>, Seq<u8>> {
    let counted_request = counted(m, requests_key());
    if !stage.past_rate_counter() {
        counted_request
    } else {
        let counted_for_ip = rate_counted(counted_request, default_site(), ip, window_of(now));
        if stage.past_ban_check() {
            counted_for_ip.remove(ban_key_of(default_site(), ip))
        } else {
            counted_for_ip
        }
    }
}

/// The store `m` after `stage` has acted on a request of `ip` at time
/// `now`. In test mode the stage only counts a test-mode action. Else a
/// stage that bans writes the ban and counts it, and each stage counts
/// what it decided.
pub open spec fn settled(
    m: Map<Seq<char>, Seq<u8>>,
    stage: Stage,
    shadow: bool,
    ip: Seq<char>,
    cfg: Config,
    now: u64,
) -> Map<Seq<char>, Seq<u8>> {
    match stage {
        Stage::PathWhitelisted | Stage::IpWhitelisted => counted(
            m,
            metric_key_of(MetricName::WhitelistedTotal, None),
        ),
        Stage::Passed => m,
        _ => if shadow {
            counted(m, metric_key_of(MetricName::TestModeActions, None))
        } else {
            match stage.offence() {
                Some(reason) => counted(
                    counted(
                        escalated(
                            m,
                            default_site(),
                            ip,
                            reason.text(),
                            cfg.ban_durations.duration_of(reason.text()),
                            now,
                        ),
                        metric_key_of(MetricName::BansTotal, Some(reason.label())),
                    ),
                    metric_key_of(MetricName::BlocksTotal, None),
                ),
                None => if stage == Stage::Banned {
                    counted(m, metric_key_of(MetricName::BlocksTotal, None))
                } else {
                    counted(m, metric_key_of(MetricName::ChallengesTotal, None))
                },
            }
        },
    }
}

/// The store `m` after a request of `ip` that was decided at `stage`.
pub open spec fn store_after(
    m: Map<Seq<char>, Seq<u8>>,
    stage: Stage,
    shadow: bool,
    ip: Seq<char>,
    cfg: Config,
    now: u64,
) -> Map<Seq<char>, Seq<u8>> {
    settled(store_at_stage(m, stage, ip, now), stage, shadow, ip, cfg, now)
}

/// The kind, the reason and the outcome of the event that a decision at
/// `stage` leaves; none where the request is allowed.
pub open spec fn event_text(stage: Stage, shadow: bool) -> Option<(EventType, Seq<char>, Seq<char>)> {
    if shadow {
        match stage {
            Stage::Honeypot => Some((EventType::Block, "honeypot [TEST MODE]"@, "would_block"@)),
            Stage::RateLimited => Some(
                (EventType::Block, "rate_limit [TEST MODE]"@, "would_block"@),
            ),
            Stage::Banned => Some((EventType::Block, "banned [TEST MODE]"@, "would_serve_quiz"@)),
            Stage::NeedsChallenge => Some(
                (EventType::Challenge, "js_verification [TEST MODE]"@, "would_challenge"@),
            ),
            Stage::OutdatedBrowser => Some(
                (EventType::Block, "browser [TEST MODE]"@, "would_block"@),
            ),
            Stage::GeoRisk => Some(
                (EventType::Challenge, "geo_risk [TEST MODE]"@, "would_challenge"@),
            ),
            _ => None,
        }
    } else {
        match stage {
            Stage::Honeypot => Some((EventType::Ban, "honeypot"@, "banned"@)),
            Stage::RateLimited => Some((EventType::Ban, "rate"@, "banned"@)),
            Stage::Banned => Some((EventType::Ban, "banned"@, "block page"@)),
            Stage::NeedsChallenge => Some(
                (EventType::Challenge, "js_verification"@, "js challenge"@),
            ),
            Stage::OutdatedBrowser => Some((EventType::Ban, "browser"@, "banned"@)),
            Stage::GeoRisk => Some((EventType::Challenge, "geo_risk"@, "js challenge"@)),
            _ => None,
        }
    }
}

/// The event that a decision at `stage` on a request of `ip` leaves.
pub open spec fn event_of(stage: Stage, shadow: bool, ip: Seq<char>, now: u64) -> Option<EventView> {
    match event_text(stage, shadow) {
        Some((event, reason, outcome)) => Some(
            EventView {
                ts: now,
                event,
                ip: Some(ip),
                reason: Some(reason),
                outcome: Some(outcome),
                admin: None,
            },
        ),
        None => None,
    }
}

/// The view of an optional event.
pub open spec fn event_view(e: Option<EventLogEntry>) -> Option<EventView> {
    match e {
        Some(entry) => Some(entry@),
        None => None,
    }
}

/// How a request was decided.
pub struct Verdict {
    /// The check that decided.
    pub stage: Stage,
    /// Whether the site is in test mode: the decision was reached and
    /// reported, and the request is let through whatever it was.
    pub shadow: bool,
    /// The address of the client.
    pub ip: String,
    /// The event to log, if the decision leaves one.
    pub event: Option<EventLogEntry>,
}

impl Verdict {
    /// What is done with the request: in test mode it is allowed; else
    /// what the stage demands.
    pub open spec fn decision_of(self) -> Decision {
        if self.shadow {
            Decision::Allow
        } else {
            self.stage.verdict()
        }
    }

    /// What is done with the request.
    pub fn decision(&self) -> (d: Decision)
        ensures
            d == self.decision_of(),
    {
        if self.shadow {
            Decision::Allow
        } else {
            self.stage.would_be()
        }
    }

    /// The status of the reply: success in test mode; else 429 for a
    /// request beyond the rate limit, 403 for every other block, and
    /// success for the rest.
    pub open spec fn status_of(self) -> u16 {
        if self.shadow {
            200
        } else {
            match self.stage {
                Stage::RateLimited => 429,
                Stage::Honeypot | Stage::Banned | Stage::OutdatedBrowser => 403,
                _ => 200,
            }
        }
    }

    /// The status of the reply.
    pub fn status(&self) -> (code: u16)
        ensures
            code == self.status_of(),
    {
        if self.shadow {
            200
        } else {
            match self.stage {
                Stage::RateLimited => 429,
                Stage::Honeypot | Stage::Banned | Stage::OutdatedBrowser => 403,
                _ => 200,
            }
        }
    }

    /// The block page to show, where the request is blocked. A banned
    /// address is shown the page of the honeypot.
    pub fn block_reason(&self) -> (reason: Option<BlockReason>)
        ensures
            reason is Some <==> self.decision_of() == Decision::Block,
            self.decision_of() == Decision::Block ==> reason == Some(
                match self.stage {
                    Stage::RateLimited => BlockReason::RateLimit,
                    Stage::OutdatedBrowser => BlockReason::OutdatedBrowser,
                    _ => BlockReason::Honeypot,
                },
            ),
    {
        if self.shadow {
            None
        } else {
            match self.stage {
                Stage::Honeypot | Stage::Banned => Some(BlockReason::Honeypot),
                Stage::RateLimited => Some(BlockReason::RateLimit),
                Stage::OutdatedBrowser => Some(BlockReason::OutdatedBrowser),
                _ => None,
            }
        }
    }

    /// The text of the reply, where the reply is a text: where the
    /// request is allowed, and always in test mode.
    pub fn message(&self) -> (text: Option<&'static str>)
        ensures
            text is Some <==> self.decision_of() == Decision::Allow,
            match text {
                Some(t) => t@ == message_of(self.stage, self.shadow),
                None => true,
            },
    {
        match self.stage {
            Stage::PathWhitelisted => Some("OK (path whitelisted)"),
            Stage::IpWhitelisted => Some("OK (whitelisted)"),
            Stage::Passed => if self.shadow {
                Some("TEST MODE: Would allow (passed bot trap)")
            } else {
                Some("OK (passed bot trap)")
            },
            Stage::Honeypot => if self.shadow {
                Some("TEST MODE: Would block (honeypot)")
            } else {
                None
            },
            Stage::RateLimited => if self.shadow {
                Some("TEST MODE: Would block (rate limit)")
            } else {
                None
            },
            Stage::Banned => if self.shadow {
                Some("TEST MODE: Would serve quiz")
            } else {
                None
            },
            Stage::NeedsChallenge => if self.shadow {
                Some("TEST MODE: Would inject JS challenge")
            } else {
                None
            },
            Stage::OutdatedBrowser => if self.shadow {
                Some("TEST MODE: Would block (outdated browser)")
            } else {
                None
            },
            Stage::GeoRisk => if self.shadow {
                Some("TEST MODE: Would inject JS challenge (geo-risk)")
            } else {
                None
            },
        }
    }
}

/// The text of the reply to a request that is let through.
pub open spec fn message_of(stage: Stage, shadow: bool) -> Seq<char> {
    match stage {
        Stage::PathWhitelisted => "OK (path whitelisted)"@,
        Stage::IpWhitelisted => "OK (whitelisted)"@,
        Stage::Passed => if shadow {
            "TEST MODE: Would allow (passed bot trap)"@
        } else {
            "OK (passed bot trap)"@
        },
        Stage::Honeypot => "TEST MODE: Would block (honeypot)"@,
        Stage::RateLimited => "TEST MODE: Would block (rate limit)"@,
        Stage::Banned => "TEST MODE: Would serve quiz"@,
        Stage::NeedsChallenge => "TEST MODE: Would inject JS challenge"@,
        Stage::OutdatedBrowser => "TEST MODE: Would block (outdated browser)"@,
        Stage::GeoRisk => "TEST MODE: Would inject JS challenge (geo-risk)"@,
    }
}

/// An event of a request of `ip` at time `now`.
fn event(kind: EventType, ip: &str, reason: &str, outcome: &str, now: u64) -> (e: EventLogEntry)
    ensures
        e@ == (EventView {
            ts: now,
            event: kind,
            ip: Some(ip@),
            reason: Some(reason@),
            outcome: Some(outcome@),
            admin: None,
        }),
{
    EventLogEntry {
        ts: now,
        event: kind,
        ip: Some(ip.to_owned()),
        reason: Some(reason.to_owned()),
        outcome: Some(outcome.to_owned()),
        admin: None,
    }
}

/// The event that a decision at `stage` leaves.
fn event_for(stage: Stage, shadow: bool, ip: &str, now: u64) -> (e: Option<EventLogEntry>)
    ensures
        event_view(e) == event_of(stage, shadow, ip@, now),
{
    if shadow {
        match stage {
            Stage::Honeypot => Some(
                event(EventType::Block, ip, "honeypot [TEST MODE]", "would_block", now),
            ),
            Stage::RateLimited => Some(
                event(EventType::Block, ip, "rate_limit [TEST MODE]", "would_block", now),
            ),
            Stage::Banned => Some(
                event(EventType::Block, ip, "banned [TEST MODE]", "would_serve_quiz", now),
            ),
            Stage::NeedsChallenge => Some(
                event(
                    EventType::Challenge,
                    ip,
                    "js_verification [TEST MODE]",
                    "would_challenge",
                    now,
                ),
            ),
            Stage::OutdatedBrowser => Some(
                event(EventType::Block, ip, "browser [TEST MODE]", "would_block", now),
            ),
            Stage::GeoRisk => Some(
                event(EventType::Challenge, ip, "geo_risk [TEST MODE]", "would_challenge", now),
            ),
            _ => None,
        }
    } else {
        match stage {
            Stage::Honeypot => Some(event(EventType::Ban, ip, "honeypot", "banned", now)),
            Stage::RateLimited => Some(event(EventType::Ban, ip, "rate", "banned", now)),
            Stage::Banned => Some(event(EventType::Ban, ip, "banned", "block page", now)),
            Stage::NeedsChallenge => Some(
                event(EventType::Challenge, ip, "js_verification", "js challenge", now),
            ),
            Stage::OutdatedBrowser => Some(event(EventType::Ban, ip, "browser", "banned", now)),
            Stage::GeoRisk => Some(
                event(EventType::Challenge, ip, "geo_risk", "js challenge", now),
            ),
            _ => None,
        }
    }
}

/// Bans `ip` for an offence and counts the ban and the block.
fn punish<S: KeyValueStore>(store: &mut S, ip: &str, reason: BanReason, cfg: &Config, now: u64)
    ensures
        final(store).dependable() == old(store).dependable(),
        old(store).dependable() ==> final(store).contents() == counted(
            counted(
                escalated(
                    old(store).contents(),
                    default_site(),
                    ip@,
                    reason.text(),
                    cfg.ban_durations.duration_of(reason.text()),
                    now,
                ),
                metric_key_of(MetricName::BansTotal, Some(reason.label())),
            ),
            metric_key_of(MetricName::BlocksTotal, None),
        ),
{
    proof {
        reveal_strlit("default");
        assert("default"@ =~= default_site());
    }
    let text = reason.as_str();
    escalate(store, "default", ip, text, cfg.get_ban_duration(text), now);
    increment(store, MetricName::BansTotal, Some(reason.label_str()));
    increment(store, MetricName::BlocksTotal, None);
}

/// Lets `stage` act on a request of `ip`: it counts what it decided,
/// bans where the site enforces its checks and the stage bans, and hands
/// back the verdict with the event to log.
fn settle<S: KeyValueStore>(
    store: &mut S,
    stage: Stage,
    ip: String,
    cfg: &Config,
    now: u64,
) -> (v: Verdict)
    ensures
        final(store).dependable() == old(store).dependable(),
        v.stage == stage,
        v.shadow == cfg.test_mode,
        v.ip == ip,
        event_view(v.event) == event_of(stage, cfg.test_mode, ip@, now),
        old(store).dependable() ==> final(store).contents() == settled(
            old(store).contents(),
            stage,
            cfg.test_mode,
            ip@,
            *cfg,
            now,
        ),
{
    let shadow = cfg.test_mode;
    match stage {
        Stage::PathWhitelisted | Stage::IpWhitelisted => {
            increment(store, MetricName::WhitelistedTotal, None);
        },
        Stage::Passed => {},
        _ => {
            if shadow {
                increment(store, MetricName::TestModeActions, None);
            } else {
                match stage {
                    Stage::Honeypot => {
                        punish(store, ip.as_str(), BanReason::Honeypot, cfg, now);
                    },
                    Stage::RateLimited => {
                        punish(store, ip.as_str(), BanReason::RateLimit, cfg, now);
                    },
                    Stage::OutdatedBrowser => {
                        punish(store, ip.as_str(), BanReason::Browser, cfg, now);
                    },
                    Stage::Banned => {
                        increment(store, MetricName::BlocksTotal, None);
                    },
                    _ => {
                        increment(store, MetricName::ChallengesTotal, None);
                    },
                }
            }
        },
    }
    let event = event_for(stage, shadow, ip.as_str(), now);
    Verdict { stage, shadow, ip, event }
}

/// Decides the request `req`, arriving at time `now`, by the checks of
/// the chain in their order, and acts on the decision.
///
/// With a store that does not fail, the stage is the first whose check
/// objects, and the store is changed as that stage and the stages before
/// it demand, and by nothing else. A store that fails can let a request
/// pass the rate counter and the ban ledger; every other check decides as
/// it would.
pub fn handle_bot_trap_impl_at<S: KeyValueStore>(
    store: &mut S,
    req: &Request,
    cfg: &Config,
    secret: &[u8],
    now: u64,
) -> (v: Verdict)
    ensures
        final(store).dependable() == old(store).dependable(),
        v.shadow == cfg.test_mode,
        v.ip@ == sender(*req),
        event_view(v.event) == event_of(v.stage, v.shadow, v.ip@, now),
        stage_grounded(old(store).contents(), *req, *cfg, secret@, now, v.stage),
        old(store).dependable() ==> v.stage == stage_of(
            old(store).contents(),
            *req,
            *cfg,
            secret@,
            now,
        ),
        old(store).dependable() ==> final(store).contents() == store_after(
            old(store).contents(),
            v.stage,
            v.shadow,
            v.ip@,
            *cfg,
            now,
        ),
{
    let ghost m = store.contents();
    let ip = extract_client_ip(req);
    let ghost who = ip@;
    proof {
        reveal_strlit("default");
        reveal_strlit("/health");
        assert("default"@ =~= default_site());
        crate::keys::lemma_rate_key_apart(
            default_site(),
            who,
            who,
            MetricName::RequestsTotal,
            None,
        );
        crate::keys::lemma_ban_key_apart(
            default_site(),
            who,
            default_site(),
            who,
            MetricName::RequestsTotal,
            None,
        );
    }
    increment(store, MetricName::RequestsTotal, None);
    if is_path_whitelisted(req.path.as_str(), cfg.path_whitelist.as_slice()) {
        return settle(store, Stage::PathWhitelisted, ip, cfg, now);
    }
    if is_whitelisted(ip.as_str(), cfg.whitelist.as_slice()) {
        return settle(store, Stage::IpWhitelisted, ip, cfg, now);
    }
    if is_honeypot(req.path.as_str(), cfg.honeypots.as_slice()) {
        return settle(store, Stage::Honeypot, ip, cfg, now);
    }
    if !check_rate_limit_at(store, "default", ip.as_str(), cfg.rate_limit, now) {
        return settle(store, Stage::RateLimited, ip, cfg, now);
    }
    if is_banned_at(store, "default", ip.as_str(), now) {
        return settle(store, Stage::Banned, ip, cfg, now);
    }
    if !same_str(req.path.as_str(), "/health") && needs_js_verification_with_whitelist(
        req,
        secret,
        ip.as_str(),
        cfg.browser_whitelist.as_slice(),
    ) {
        return settle(store, Stage::NeedsChallenge, ip, cfg, now);
    }
    let agent: &str = match &req.user_agent {
        Some(ua) => ua.as_str(),
        None => {
            proof {
                reveal_strlit("");
                assert(""@ =~= Seq::<char>::empty());
            }
            ""
        },
    };
    if is_outdated_browser(agent, cfg.browser_block.as_slice()) {
        return settle(store, Stage::OutdatedBrowser, ip, cfg, now);
    }
    if is_high_risk_geo(req, cfg.geo_risk.as_slice()) {
        return settle(store, Stage::GeoRisk, ip, cfg, now);
    }
    settle(store, Stage::Passed, ip, cfg, now)
}

/// Decides the request `req` as it arrives now, by the system clock.
pub fn handle_bot_trap_impl<S: KeyValueStore>(
    store: &mut S,
    req: &Request,
    cfg: &Config,
    secret: &[u8],
) -> (v: Verdict)
    ensures
        final(store).dependable() == old(store).dependable(),
        v.shadow == cfg.test_mode,
        v.ip@ == sender(*req),
        exists|now: u64|
            #[trigger] stage_grounded(old(store).contents(), *req, *cfg, secret@, now, v.stage)
                && event_view(v.event) == event_of(v.stage, v.shadow, v.ip@, now) && (old(
                store,
            ).dependable() ==> v.stage == stage_of(old(store).contents(), *req, *cfg, secret@, now)
                && final(store).contents() == store_after(
                old(store).contents(),
                v.stage,
                v.shadow,
                v.ip@,
                *cfg,
                now,
            )),
{
    let now = now_ts();
    handle_bot_trap_impl_at(store, req, cfg, secret, now)
}

} // verus!

verus! {

/// No ban key is the key of a counter that the chain counts.
proof fn lemma_ledger_apart_from_counters(label: Seq<char>)
    ensures
        forall|s: Seq<char>, i: Seq<char>|
            {
                &&& #[trigger] ban_key_of(s, i) != requests_key()
                &&& ban_key_of(s, i) != metric_key_of(MetricName::WhitelistedTotal, None)
                &&& ban_key_of(s, i) != metric_key_of(MetricName::TestModeActions, None)
                &&& ban_key_of(s, i) != metric_key_of(MetricName::BlocksTotal, None)
                &&& ban_key_of(s, i) != metric_key_of(MetricName::ChallengesTotal, None)
                &&& ban_key_of(s, i) != metric_key_of(MetricName::BansTotal, Some(label))
            },
        forall|s: Seq<char>, i: Seq<char>, s2: Seq<char>, i2: Seq<char>|
            #[trigger] ban_key_of(s, i) != #[trigger] crate::rate::rate_key_of(s2, i2),
{
    assert forall|s: Seq<char>, i: Seq<char>|
        {
            &&& #[trigger] ban_key_of(s, i) != requests_key()
            &&& ban_key_of(s, i) != metric_key_of(MetricName::WhitelistedTotal, None)
            &&& ban_key_of(s, i) != metric_key_of(MetricName::TestModeActions, None)
            &&& ban_key_of(s, i) != metric_key_of(MetricName::BlocksTotal, None)
            &&& ban_key_of(s, i) != metric_key_of(MetricName::ChallengesTotal, None)
            &&& ban_key_of(s, i) != metric_key_of(MetricName::BansTotal, Some(label))
        } by {
        crate::keys::lemma_ban_key_apart(s, i, s, i, MetricName::RequestsTotal, None);
        crate::keys::lemma_ban_key_apart(s, i, s, i, MetricName::WhitelistedTotal, None);
        crate::keys::lemma_ban_key_apart(s, i, s, i, MetricName::TestModeActions, None);
        crate::keys::lemma_ban_key_apart(s, i, s, i, MetricName::BlocksTotal, None);
        crate::keys::lemma_ban_key_apart(s, i, s, i, MetricName::ChallengesTotal, None);
        crate::keys::lemma_ban_key_apart(s, i, s, i, MetricName::BansTotal, Some(label));
    }
    assert forall|s: Seq<char>, i: Seq<char>, s2: Seq<char>, i2: Seq<char>|
        #[trigger] ban_key_of(s, i) != #[trigger] crate::rate::rate_key_of(s2, i2) by {
        crate::keys::lemma_ban_key_apart(s, i, s2, i2, MetricName::RequestsTotal, None);
    }
}

/// No rate key is the key of a counter that the chain counts, or of a
/// ban record.
proof fn lemma_rate_apart_from_counters(site: Seq<char>, ip: Seq<char>, label: Seq<char>)
    ensures
        crate::rate::rate_key_of(site, ip) != requests_key(),
        crate::rate::rate_key_of(site, ip) != metric_key_of(MetricName::WhitelistedTotal, None),
        crate::rate::rate_key_of(site, ip) != metric_key_of(MetricName::TestModeActions, None),
        crate::rate::rate_key_of(site, ip) != metric_key_of(MetricName::BlocksTotal, None),
        crate::rate::rate_key_of(site, ip) != metric_key_of(MetricName::ChallengesTotal, None),
        crate::rate::rate_key_of(site, ip) != metric_key_of(MetricName::BansTotal, Some(label)),
        forall|s: Seq<char>, i: Seq<char>|
            crate::rate::rate_key_of(site, ip) != #[trigger] ban_key_of(s, i),
{
    crate::keys::lemma_rate_key_apart(site, ip, ip, MetricName::RequestsTotal, None);
    crate::keys::lemma_rate_key_apart(site, ip, ip, MetricName::WhitelistedTotal, None);
    crate::keys::lemma_rate_key_apart(site, ip, ip, MetricName::TestModeActions, None);
    crate::keys::lemma_rate_key_apart(site, ip, ip, MetricName::BlocksTotal, None);
    crate::keys::lemma_rate_key_apart(site, ip, ip, MetricName::ChallengesTotal, None);
    crate::keys::lemma_rate_key_apart(site, ip, ip, MetricName::BansTotal, Some(label));
    assert forall|s: Seq<char>, i: Seq<char>|
        crate::rate::rate_key_of(site, ip) != #[trigger] ban_key_of(s, i) by {
        crate::keys::lemma_ban_key_apart(s, i, site, ip, MetricName::RequestsTotal, None);
    }
}

/// The honeypot comes before the rate limit: a request for a honeypot
/// path from an address that is on no whitelist is decided by the
/// honeypot, however many requests the address has made. Where the site
/// enforces its checks, the request is not counted for its address, and
/// the one ban record that is written is that of the address, for the
/// honeypot.
pub proof fn law_honeypot_before_rate_limit(
    m: Map<Seq<char>, Seq<u8>>,
    req: Request,
    cfg: Config,
    secret: Seq<u8>,
    now: u64,
    window: u64,
)
    requires
        !path_whitelisted(req.path@, cfg.path_whitelist@),
        !whitelisted(sender(req), cfg.whitelist@),
        honeypot_path(req.path@, cfg.honeypots@),
    ensures
        stage_of(m, req, cfg, secret, now) == Stage::Honeypot,
        ({
            let after = store_after(m, Stage::Honeypot, false, sender(req), cfg, now);
            &&& count_at(after, default_site(), sender(req), window) == count_at(
                m,
                default_site(),
                sender(req),
                window,
            )
            &&& crate::ban::same_ledger_but(m, after, default_site(), sender(req))
            &&& now + cfg.ban_durations.duration_of("honeypot"@) <= u64::MAX ==> after.contains_key(
                ban_key_of(default_site(), sender(req)),
            ) && after[ban_key_of(default_site(), sender(req))] == crate::record::record_bytes(
                "honeypot"@,
                (now + cfg.ban_durations.duration_of("honeypot"@)) as u64,
            )
        }),
{
    lemma_ledger_apart_from_counters("honeypot"@);
    lemma_rate_apart_from_counters(default_site(), sender(req), "honeypot"@);
}

/// Test mode decides as the enforcing site does: the stage at which a
/// request is decided does not depend on test mode.
pub proof fn law_test_mode_same_branch(
    m: Map<Seq<char>, Seq<u8>>,
    req: Request,
    cfg: Config,
    other: Config,
    secret: Seq<u8>,
    now: u64,
)
    requires
        other == (Config { test_mode: !cfg.test_mode, ..cfg }),
    ensures
        stage_of(m, req, cfg, secret, now) == stage_of(m, req, other, secret, now),
{
}

/// Test mode bans nobody and pardons nobody: after a request in test
/// mode, every address is banned at the time of the request and at any
/// later time exactly if it was before. The one record that may be gone
/// is one of the sender that had expired or could not be read.
pub proof fn law_test_mode_spares_ledger(
    m: Map<Seq<char>, Seq<u8>>,
    stage: Stage,
    ip: Seq<char>,
    cfg: Config,
    now: u64,
    site: Seq<char>,
    other: Seq<char>,
    at: u64,
)
    requires
        at >= now,
        stage.past_ban_check() ==> !banned_in(m, default_site(), ip, now),
    ensures
        banned_in(store_after(m, stage, true, ip, cfg, now), site, other, at) == banned_in(
            m,
            site,
            other,
            at,
        ),
        crate::ban::same_ledger_but(
            m,
            store_after(m, stage, true, ip, cfg, now),
            default_site(),
            ip,
        ),
{
    lemma_ledger_apart_from_counters("honeypot"@);
    let after = store_after(m, stage, true, ip, cfg, now);
    let key = ban_key_of(site, other);
    if key == ban_key_of(default_site(), ip) {
        if stage.past_ban_check() {
            assert(!after.contains_key(key));
        } else {
            assert(after.contains_key(key) == m.contains_key(key));
        }
    } else {
        assert(after.contains_key(key) == m.contains_key(key));
    }
}

/// Test mode counts requests as the enforcing site does: after a
/// request, the rate counter holds the same for every address in both
/// modes.
pub proof fn law_test_mode_counts_alike(
    m: Map<Seq<char>, Seq<u8>>,
    stage: Stage,
    ip: Seq<char>,
    cfg: Config,
    now: u64,
    site: Seq<char>,
    other: Seq<char>,
    window: u64,
)
    ensures
        count_at(store_after(m, stage, true, ip, cfg, now), site, other, window) == count_at(
            store_after(m, stage, false, ip, cfg, now),
            site,
            other,
            window,
        ),
{
    lemma_rate_apart_from_counters(site, other, "honeypot"@);
    lemma_rate_apart_from_counters(site, other, "rate_limit"@);
    lemma_rate_apart_from_counters(site, other, "browser"@);
}

} // verus!

verus! {

/// Whether `k` is a key that the chain may read or write for a request
/// of `ip`: the counters of the decisions, the rate counter of the
/// address and its ban record.
pub open spec fn chain_key(ip: Seq<char>, k: Seq<char>) -> bool {
    ||| k == requests_key()
    ||| k == metric_key_of(MetricName::WhitelistedTotal, None)
    ||| k == metric_key_of(MetricName::TestModeActions, None)
    ||| k == metric_key_of(MetricName::BlocksTotal, None)
    ||| k == metric_key_of(MetricName::ChallengesTotal, None)
    ||| k == metric_key_of(MetricName::BansTotal, Some("honeypot"@))
    ||| k == metric_key_of(MetricName::BansTotal, Some("rate_limit"@))
    ||| k == metric_key_of(MetricName::BansTotal, Some("browser"@))
    ||| k == crate::rate::rate_key_of(default_site(), ip)
    ||| k == ban_key_of(default_site(), ip)
}

/// The keys that the chain may read or write for a request of `ip`.
pub fn chain_keys(ip: &str) -> (keys: Vec<String>)
    ensures
        forall|k: Seq<char>|
            chain_key(ip@, k) <==> exists|i: int| 0 <= i < keys@.len() && #[trigger] keys@[i]@ == k,
{
    proof {
        reveal_strlit("default");
        assert("default"@ =~= default_site());
    }
    let keys: Vec<String> = vec![
        crate::metrics::metric_key(MetricName::RequestsTotal, None),
        crate::metrics::metric_key(MetricName::WhitelistedTotal, None),
        crate::metrics::metric_key(MetricName::TestModeActions, None),
        crate::metrics::metric_key(MetricName::BlocksTotal, None),
        crate::metrics::metric_key(MetricName::ChallengesTotal, None),
        crate::metrics::metric_key(MetricName::BansTotal, Some("honeypot")),
        crate::metrics::metric_key(MetricName::BansTotal, Some("rate_limit")),
        crate::metrics::metric_key(MetricName::BansTotal, Some("browser")),
        crate::rate::rate_key("default", ip),
        crate::ban::ban_key("default", ip),
    ];
    proof {
        assert forall|k: Seq<char>| chain_key(ip@, k) implies exists|i: int|
            0 <= i < keys@.len() && #[trigger] keys@[i]@ == k by {
            if k == requests_key() {
                assert(keys@[0]@ == k);
            } else if k == metric_key_of(MetricName::WhitelistedTotal, None) {
                assert(keys@[1]@ == k);
            } else if k == metric_key_of(MetricName::TestModeActions, None) {
                assert(keys@[2]@ == k);
            } else if k == metric_key_of(MetricName::BlocksTotal, None) {
                assert(keys@[3]@ == k);
            } else if k == metric_key_of(MetricName::ChallengesTotal, None) {
                assert(keys@[4]@ == k);
            } else if k == metric_key_of(MetricName::BansTotal, Some("honeypot"@)) {
                assert(keys@[5]@ == k);
            } else if k == metric_key_of(MetricName::BansTotal, Some("rate_limit"@)) {
                assert(keys@[6]@ == k);
            } else if k == metric_key_of(MetricName::BansTotal, Some("browser"@)) {
                assert(keys@[7]@ == k);
            } else if k == crate::rate::rate_key_of(default_site(), ip@) {
                assert(keys@[8]@ == k);
            } else {
                assert(keys@[9]@ == k);
            }
        }
    }
    keys
}

/// Whether `a` and `b` hold the same under every key that the chain may
/// read or write for a request of `ip`.
pub open spec fn agree_on_chain(
    a: Map<Seq<char>, Seq<u8>>,
    b: Map<Seq<char>, Seq<u8>>,
    ip: Seq<char>,
) -> bool {
    forall|k: Seq<char>| chain_key(ip, k) ==> #[trigger] crate::store::agree_at(a, b, k)
}

/// The chain touches nothing but its keys: under any other key the store
/// holds after a request what it held before.
pub proof fn law_chain_touches_its_keys_only(
    m: Map<Seq<char>, Seq<u8>>,
    stage: Stage,
    shadow: bool,
    ip: Seq<char>,
    cfg: Config,
    now: u64,
    k: Seq<char>,
)
    requires
        !chain_key(ip, k),
    ensures
        crate::store::agree_at(m, store_after(m, stage, shadow, ip, cfg, now), k),
{
}

/// Counting under a key of the chain keeps two stores in agreement.
proof fn lemma_counting_agrees(
    a: Map<Seq<char>, Seq<u8>>,
    b: Map<Seq<char>, Seq<u8>>,
    ip: Seq<char>,
    key: Seq<char>,
)
    requires
        agree_on_chain(a, b, ip),
        chain_key(ip, key),
    ensures
        agree_on_chain(counted(a, key), counted(b, key), ip),
{
    assert(crate::store::agree_at(a, b, key));
    assert forall|k: Seq<char>| chain_key(ip, k) implies #[trigger] crate::store::agree_at(
        counted(a, key),
        counted(b, key),
        k,
    ) by {
        assert(crate::store::agree_at(a, b, k));
    }
}

/// Banning the sender keeps two stores in agreement.
proof fn lemma_banning_agrees(
    a: Map<Seq<char>, Seq<u8>>,
    b: Map<Seq<char>, Seq<u8>>,
    ip: Seq<char>,
    reason: Seq<char>,
    duration: u64,
    now: u64,
)
    requires
        agree_on_chain(a, b, ip),
    ensures
        agree_on_chain(
            escalated(a, default_site(), ip, reason, duration, now),
            escalated(b, default_site(), ip, reason, duration, now),
            ip,
        ),
{
    assert forall|k: Seq<char>| chain_key(ip, k) implies #[trigger] crate::store::agree_at(
        escalated(a, default_site(), ip, reason, duration, now),
        escalated(b, default_site(), ip, reason, duration, now),
        k,
    ) by {
        assert(crate::store::agree_at(a, b, k));
    }
}

/// Running the chain as far as a stage keeps two stores in agreement.
proof fn lemma_progress_agrees(
    a: Map<Seq<char>, Seq<u8>>,
    b: Map<Seq<char>, Seq<u8>>,
    stage: Stage,
    ip: Seq<char>,
    now: u64,
)
    requires
        agree_on_chain(a, b, ip),
    ensures
        agree_on_chain(store_at_stage(a, stage, ip, now), store_at_stage(b, stage, ip, now), ip),
{
    lemma_counting_agrees(a, b, ip, requests_key());
    let a1 = counted(a, requests_key());
    let b1 = counted(b, requests_key());
    let rate_key = crate::rate::rate_key_of(default_site(), ip);
    let a2 = rate_counted(a1, default_site(), ip, window_of(now));
    let b2 = rate_counted(b1, default_site(), ip, window_of(now));
    assert(crate::store::agree_at(a1, b1, rate_key));
    assert(agree_on_chain(a2, b2, ip)) by {
        assert forall|k: Seq<char>| chain_key(ip, k) implies #[trigger] crate::store::agree_at(
            a2,
            b2,
            k,
        ) by {
            assert(crate::store::agree_at(a1, b1, k));
        }
    }
    let ban_key = ban_key_of(default_site(), ip);
    assert(agree_on_chain(a2.remove(ban_key), b2.remove(ban_key), ip)) by {
        assert forall|k: Seq<char>| chain_key(ip, k) implies #[trigger] crate::store::agree_at(
            a2.remove(ban_key),
            b2.remove(ban_key),
            k,
        ) by {
            assert(crate::store::agree_at(a2, b2, k));
        }
    }
}

/// Letting a stage act keeps two stores in agreement.
proof fn lemma_settling_agrees(
    a: Map<Seq<char>, Seq<u8>>,
    b: Map<Seq<char>, Seq<u8>>,
    stage: Stage,
    shadow: bool,
    ip: Seq<char>,
    cfg: Config,
    now: u64,
)
    requires
        agree_on_chain(a, b, ip),
    ensures
        agree_on_chain(
            settled(a, stage, shadow, ip, cfg, now),
            settled(b, stage, shadow, ip, cfg, now),
            ip,
        ),
{
    match stage {
        Stage::PathWhitelisted | Stage::IpWhitelisted => {
            lemma_counting_agrees(a, b, ip, metric_key_of(MetricName::WhitelistedTotal, None));
        },
        Stage::Passed => {},
        _ => {
            if shadow {
                lemma_counting_agrees(a, b, ip, metric_key_of(MetricName::TestModeActions, None));
            } else {
                match stage.offence() {
                    Some(offence) => {
                        let reason = offence.text();
                        let d = cfg.ban_durations.duration_of(reason);
                        lemma_banning_agrees(a, b, ip, reason, d, now);
                        let a1 = escalated(a, default_site(), ip, reason, d, now);
                        let b1 = escalated(b, default_site(), ip, reason, d, now);
                        let bans = metric_key_of(MetricName::BansTotal, Some(offence.label()));
                        lemma_counting_agrees(a1, b1, ip, bans);
                        lemma_counting_agrees(
                            counted(a1, bans),
                            counted(b1, bans),
                            ip,
                            metric_key_of(MetricName::BlocksTotal, None),
                        );
                    },
                    None => {
                        lemma_counting_agrees(
                            a,
                            b,
                            ip,
                            metric_key_of(MetricName::BlocksTotal, None),
                        );
                        lemma_counting_agrees(
                            a,
                            b,
                            ip,
                            metric_key_of(MetricName::ChallengesTotal, None),
                        );
                    },
                }
            }
        },
    }
}

/// The chain looks at nothing but its keys: two stores that hold the same
/// under them decide a request alike and hold the same under them
/// afterwards. A copy of these keys is all that deciding a request takes.
pub proof fn law_chain_reads_its_keys_only(
    a: Map<Seq<char>, Seq<u8>>,
    b: Map<Seq<char>, Seq<u8>>,
    req: Request,
    cfg: Config,
    secret: Seq<u8>,
    now: u64,
)
    requires
        agree_on_chain(a, b, sender(req)),
    ensures
        stage_of(a, req, cfg, secret, now) == stage_of(b, req, cfg, secret, now),
        agree_on_chain(
            store_after(a, stage_of(a, req, cfg, secret, now), cfg.test_mode, sender(req), cfg, now),
            store_after(b, stage_of(b, req, cfg, secret, now), cfg.test_mode, sender(req), cfg, now),
            sender(req),
        ),
{
    let ip = sender(req);
    assert(crate::store::agree_at(a, b, crate::rate::rate_key_of(default_site(), ip)));
    assert(crate::store::agree_at(a, b, ban_key_of(default_site(), ip)));
    let stage = stage_of(a, req, cfg, secret, now);
    lemma_progress_agrees(a, b, stage, ip, now);
    lemma_settling_agrees(
        store_at_stage(a, stage, ip, now),
        store_at_stage(b, stage, ip, now),
        stage,
        cfg.test_mode,
        ip,
        cfg,
        now,
    );
}

} // verus!
