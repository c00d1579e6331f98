//! The settings of a site. The checks read one snapshot for each request
//! and never change it; only the operator does, through a patch.

use crate::text::{chars_of, same_str};
use vstd::prelude::*;

verus! {

/// How long a ban lasts, in seconds, by the kind of offence.
#[derive(Debug, Clone, Copy, PartialEq, Eq, Structural)]
pub struct BanDurations {
    /// A request to a honeypot path.
    pub honeypot: u64,
    /// More requests than the rate limit allows.
    pub rate_limit: u64,
    /// A browser older than the site accepts.
    pub browser: u64,
    /// A ban by the operator, and every kind not named here.
    pub admin: u64,
}

impl Default for BanDurations {
    fn default() -> (d: Self)
        ensures
            d == (BanDurations { honeypot: 86400, rate_limit: 3600, browser: 21600, admin: 21600 }),
    {
        BanDurations { honeypot: 86400, rate_limit: 3600, browser: 21600, admin: 21600 }
    }
}

impl BanDurations {
    /// The duration for the kind `ban_type`: `honeypot`, `rate` or
    /// `rate_limit`, `browser`; for any other kind, that of the operator.
    pub open spec fn duration_of(self, ban_type: Seq<char>) -> u64 {
        if ban_type == "honeypot"@ {
            self.honeypot
        } else if ban_type == "rate"@ || ban_type == "rate_limit"@ {
            self.rate_limit
        } else if ban_type == "browser"@ {
            self.browser
        } else {
            self.admin
        }
    }

    /// The duration for the kind `ban_type`.
    pub fn get(&self, ban_type: &str) -> (secs: u64)
        ensures
            secs == self.duration_of(ban_type@),
    {
        if same_str(ban_type, "honeypot") {
            self.honeypot
        } else if same_str(ban_type, "rate") || same_str(ban_type, "rate_limit") {
            self.rate_limit
        } else if same_str(ban_type, "browser") {
            self.browser
        } else {
            self.admin
        }
    }
}

/// The settings of one site.
#[derive(Debug, Clone)]
pub struct Config {
    /// One duration for every ban; kept for old records of the settings.
    pub ban_duration: u64,
    pub ban_durations: BanDurations,
    /// Requests that one address may make in one window.
    pub rate_limit: u32,
    pub honeypots: Vec<String>,
    /// Browsers by name with the oldest major version that is not banned.
    pub browser_block: Vec<(String, u32)>,
    /// Browsers by name with the oldest major version that needs no
    /// challenge.
    pub browser_whitelist: Vec<(String, u32)>,
    pub geo_risk: Vec<String>,
    pub whitelist: Vec<String>,
    pub path_whitelist: Vec<String>,
    /// Decide and report, but ban, block and challenge nobody.
    pub test_mode: bool,
    pub maze_enabled: bool,
    pub maze_auto_ban: bool,
    /// Maze pages that an address may have seen before it is banned.
    pub maze_auto_ban_threshold: u32,
    pub robots_enabled: bool,
    pub robots_block_ai_training: bool,
    pub robots_block_ai_search: bool,
    pub robots_allow_search_engines: bool,
    pub robots_crawl_delay: u32,
    pub cdp_detection_enabled: bool,
    pub cdp_auto_ban: bool,
    /// The score from which a report counts as automation: the bits of an
    /// IEEE 754 single.
    pub cdp_detection_threshold: u32,
}

/// Whether the maze bans by itself where the settings do not say.
pub fn default_maze_auto_ban() -> (on: bool)
    ensures
        on,
{
    true
}

/// The maze threshold where the settings do not say.
pub fn default_maze_auto_ban_threshold() -> (pages: u32)
    ensures
        pages == 50,
{
    50
}

/// The bits of the single 0.8: the automation threshold where the
/// settings do not say.
pub const DEFAULT_CDP_THRESHOLD: u32 = 0x3f4c_cccd;

/// Whether a value of the test-mode switch turns test mode on: `1`, or
/// `true` in any mix of upper and lower case.
pub open spec fn switch_on(value: Seq<char>) -> bool {
    value == seq!['1'] || (value.len() == 4 && lower(value[0]) == 't' && lower(value[1]) == 'r'
        && lower(value[2]) == 'u' && lower(value[3]) == 'e')
}

/// `c` in lower case where it is an ASCII capital, else `c`.
pub open spec fn lower(c: char) -> char {
    if 'A' <= c <= 'Z' {
        ((c as u8) + 32) as char
    } else {
        c
    }
}

fn lower_of(c: char) -> (l: char)
    ensures
        l == lower(c),
{
    if 'A' <= c && c <= 'Z' {
        ((c as u8) + 32) as char
    } else {
        c
    }
}

/// Whether a value of the test-mode switch turns test mode on.
pub fn is_switch_on(value: &str) -> (on: bool)
    ensures
        on == switch_on(value@),
{
    let v = chars_of(value);
    if v.len() == 1 {
        assert(v@[0] == '1' ==> v@ =~= seq!['1']);
        assert(seq!['1'][0] == '1');
        v[0] == '1'
    } else if v.len() == 4 {
        lower_of(v[0]) == 't' && lower_of(v[1]) == 'r' && lower_of(v[2]) == 'u' && lower_of(v[3])
            == 'e'
    } else {
        false
    }
}

/// Whether `cfg` holds the settings of a site that has stored none.
pub open spec fn is_default_config(cfg: Config, test_mode: bool) -> bool {
    &&& cfg.ban_duration == 21600
    &&& cfg.ban_durations == (BanDurations {
        honeypot: 86400,
        rate_limit: 3600,
        browser: 21600,
        admin: 21600,
    })
    &&& cfg.rate_limit == 80
    &&& cfg.honeypots@.len() == 1
    &&& cfg.honeypots@[0]@ == "/bot-trap"@
    &&& cfg.browser_block@.len() == 3
    &&& cfg.browser_block@[0].0@ == "Chrome"@
    &&& cfg.browser_block@[0].1 == 120
    &&& cfg.browser_block@[1].0@ == "Firefox"@
    &&& cfg.browser_block@[1].1 == 115
    &&& cfg.browser_block@[2].0@ == "Safari"@
    &&& cfg.browser_block@[2].1 == 15
    &&& cfg.browser_whitelist@.len() == 0
    &&& cfg.geo_risk@.len() == 0
    &&& cfg.whitelist@.len() == 0
    &&& cfg.path_whitelist@.len() == 0
    &&& cfg.test_mode == test_mode
    &&& cfg.maze_enabled
    &&& cfg.maze_auto_ban
    &&& cfg.maze_auto_ban_threshold == 50
    &&& cfg.robots_enabled
    &&& cfg.robots_block_ai_training
    &&& !cfg.robots_block_ai_search
    &&& cfg.robots_allow_search_engines
    &&& cfg.robots_crawl_delay == 2
    &&& cfg.cdp_detection_enabled
    &&& cfg.cdp_auto_ban
    &&& cfg.cdp_detection_threshold == 0x3f4c_cccd
}

/// What a patch asks for one setting: leave it, or give it a value.
#[derive(Debug, Clone, Copy)]
pub struct BanDurationsPatch {
    pub honeypot: Option<u64>,
    pub rate_limit: Option<u64>,
    pub browser: Option<u64>,
    pub admin: Option<u64>,
}

/// A change of settings by the operator: for each setting that can be
/// changed, the new value, or nothing to leave it as it is.
#[derive(Debug, Clone, Copy)]
pub struct ConfigPatch {
    pub test_mode: Option<bool>,
    pub ban_duration: Option<u64>,
    pub rate_limit: Option<u32>,
    pub ban_durations: Option<BanDurationsPatch>,
    pub maze_enabled: Option<bool>,
    pub maze_auto_ban: Option<bool>,
    pub maze_auto_ban_threshold: Option<u32>,
    pub robots_enabled: Option<bool>,
    pub robots_block_ai_training: Option<bool>,
    pub robots_block_ai_search: Option<bool>,
    pub robots_allow_search_engines: Option<bool>,
    pub robots_crawl_delay: Option<u32>,
    pub cdp_detection_enabled: Option<bool>,
    pub cdp_auto_ban: Option<bool>,
    pub cdp_detection_threshold: Option<u32>,
}

/// The value of a setting after a patch.
pub open spec fn patched<T>(old: T, new: Option<T>) -> T {
    match new {
        Some(v) => v,
        None => old,
    }
}

impl BanDurationsPatch {
    /// Whether the patch names a duration.
    pub open spec fn names_any(self) -> bool {
        self.honeypot is Some || self.rate_limit is Some || self.browser is Some || self.admin
            is Some
    }

    /// The durations after the patch.
    pub open spec fn applied(self, d: BanDurations) -> BanDurations {
        BanDurations {
            honeypot: patched(d.honeypot, self.honeypot),
            rate_limit: patched(d.rate_limit, self.rate_limit),
            browser: patched(d.browser, self.browser),
            admin: patched(d.admin, self.admin),
        }
    }
}

impl ConfigPatch {
    /// Whether the settings must be stored again after this patch: it
    /// names a setting other than test mode, or turns test mode over.
    pub open spec fn changes(self, cfg: Config) -> bool {
        ||| (self.test_mode is Some && self.test_mode->0 != cfg.test_mode)
        ||| self.ban_duration is Some
        ||| self.rate_limit is Some
        ||| (self.ban_durations is Some && self.ban_durations->0.names_any())
        ||| self.maze_enabled is Some
        ||| self.maze_auto_ban is Some
        ||| self.maze_auto_ban_threshold is Some
        ||| self.robots_enabled is Some
        ||| self.robots_block_ai_training is Some
        ||| self.robots_block_ai_search is Some
        ||| self.robots_allow_search_engines is Some
        ||| self.robots_crawl_delay is Some
        ||| self.cdp_detection_enabled is Some
        ||| self.cdp_auto_ban is Some
        ||| self.cdp_detection_threshold is Some
    }

    /// The settings after this patch.
    pub open spec fn applied(self, cfg: Config) -> Config {
        Config {
            ban_duration: patched(cfg.ban_duration, self.ban_duration),
            ban_durations: match self.ban_durations {
                Some(p) => p.applied(cfg.ban_durations),
                None => cfg.ban_durations,
            },
            rate_limit: patched(cfg.rate_limit, self.rate_limit),
            test_mode: patched(cfg.test_mode, self.test_mode),
            maze_enabled: patched(cfg.maze_enabled, self.maze_enabled),
            maze_auto_ban: patched(cfg.maze_auto_ban, self.maze_auto_ban),
            maze_auto_ban_threshold: patched(
                cfg.maze_auto_ban_threshold,
                self.maze_auto_ban_threshold,
            ),
            robots_enabled: patched(cfg.robots_enabled, self.robots_enabled),
            robots_block_ai_training: patched(
                cfg.robots_block_ai_training,
                self.robots_block_ai_training,
            ),
            robots_block_ai_search: patched(
                cfg.robots_block_ai_search,
                self.robots_block_ai_search,
            ),
            robots_allow_search_engines: patched(
                cfg.robots_allow_search_engines,
                self.robots_allow_search_engines,
            ),
            robots_crawl_delay: patched(cfg.robots_crawl_delay, self.robots_crawl_delay),
            cdp_detection_enabled: patched(cfg.cdp_detection_enabled, self.cdp_detection_enabled),
            cdp_auto_ban: patched(cfg.cdp_auto_ban, self.cdp_auto_ban),
            cdp_detection_threshold: patched(
                cfg.cdp_detection_threshold,
                self.cdp_detection_threshold,
            ),
            ..cfg
        }
    }
}

fn pick<T: Copy>(old: T, new: Option<T>) -> (r: T)
    ensures
        r == patched(old, new),
{
    match new {
        Some(v) => v,
        None => old,
    }
}

impl Config {
    /// The settings of a site: those that it has stored, or the defaults
    /// where it has stored none or what it stored cannot be read. Where
    /// the test-mode switch of the environment is set, it decides test
    /// mode either way.
    pub fn load(stored: Option<Config>, test_mode_switch: Option<&str>) -> (cfg: Config)
        ensures
            match stored {
                Some(s) => cfg == (Config {
                    test_mode: match test_mode_switch {
                        Some(v) => switch_on(v@),
                        None => s.test_mode,
                    },
                    ..s
                }),
                None => is_default_config(
                    cfg,
                    match test_mode_switch {
                        Some(v) => switch_on(v@),
                        None => false,
                    },
                ),
            },
    {
        match stored {
            Some(found) => {
                let mut cfg = found;
                match test_mode_switch {
                    Some(v) => {
                        cfg.test_mode = is_switch_on(v);
                    },
                    None => {},
                }
                cfg
            },
            None => {
                let test_mode = match test_mode_switch {
                    Some(v) => is_switch_on(v),
                    None => false,
                };
                Config {
                    ban_duration: 21600,
                    ban_durations: BanDurations::default(),
                    rate_limit: 80,
                    honeypots: vec![String::from_str("/bot-trap")],
                    browser_block: vec![
                        (String::from_str("Chrome"), 120u32),
                        (String::from_str("Firefox"), 115u32),
                        (String::from_str("Safari"), 15u32),
                    ],
                    browser_whitelist: Vec::new(),
                    geo_risk: Vec::new(),
                    whitelist: Vec::new(),
                    path_whitelist: Vec::new(),
                    test_mode,
                    maze_enabled: true,
                    maze_auto_ban: default_maze_auto_ban(),
                    maze_auto_ban_threshold: default_maze_auto_ban_threshold(),
                    robots_enabled: true,
                    robots_block_ai_training: true,
                    robots_block_ai_search: false,
                    robots_allow_search_engines: true,
                    robots_crawl_delay: 2,
                    cdp_detection_enabled: true,
                    cdp_auto_ban: true,
                    cdp_detection_threshold: DEFAULT_CDP_THRESHOLD,
                }
            },
        }
    }

    /// The ban duration for the kind `ban_type`.
    pub fn get_ban_duration(&self, ban_type: &str) -> (secs: u64)
        ensures
            secs == self.ban_durations.duration_of(ban_type@),
    {
        self.ban_durations.get(ban_type)
    }

    /// Changes the settings as `patch` asks, and says whether they must be
    /// stored again.
    pub fn apply_patch(&mut self, patch: &ConfigPatch) -> (changed: bool)
        ensures
            *final(self) == patch.applied(*old(self)),
            changed == patch.changes(*old(self)),
    {
        let mut changed = false;
        match patch.test_mode {
            Some(v) => {
                if v != self.test_mode {
                    changed = true;
                }
                self.test_mode = v;
            },
            None => {},
        }
        match patch.ban_durations {
            Some(p) => {
                if p.honeypot.is_some() || p.rate_limit.is_some() || p.browser.is_some()
                    || p.admin.is_some() {
                    changed = true;
                }
                self.ban_durations = BanDurations {
                    honeypot: pick(self.ban_durations.honeypot, p.honeypot),
                    rate_limit: pick(self.ban_durations.rate_limit, p.rate_limit),
                    browser: pick(self.ban_durations.browser, p.browser),
                    admin: pick(self.ban_durations.admin, p.admin),
                };
            },
            None => {},
        }
        if patch.ban_duration.is_some() || patch.rate_limit.is_some() || patch.maze_enabled.is_some()
            || patch.maze_auto_ban.is_some() || patch.maze_auto_ban_threshold.is_some()
            || patch.robots_enabled.is_some() || patch.robots_block_ai_training.is_some()
            || patch.robots_block_ai_search.is_some()
            || patch.robots_allow_search_engines.is_some() || patch.robots_crawl_delay.is_some()
            || patch.cdp_detection_enabled.is_some() || patch.cdp_auto_ban.is_some()
            || patch.cdp_detection_threshold.is_some() {
            changed = true;
        }
        self.ban_duration = pick(self.ban_duration, patch.ban_duration);
        self.rate_limit = pick(self.rate_limit, patch.rate_limit);
        self.maze_enabled = pick(self.maze_enabled, patch.maze_enabled);
        self.maze_auto_ban = pick(self.maze_auto_ban, patch.maze_auto_ban);
        self.maze_auto_ban_threshold = pick(
            self.maze_auto_ban_threshold,
            patch.maze_auto_ban_threshold,
        );
        self.robots_enabled = pick(self.robots_enabled, patch.robots_enabled);
        self.robots_block_ai_training = pick(
            self.robots_block_ai_training,
            patch.robots_block_ai_training,
        );
        self.robots_block_ai_search = pick(
            self.robots_block_ai_search,
            patch.robots_block_ai_search,
        );
        self.robots_allow_search_engines = pick(
            self.robots_allow_search_engines,
            patch.robots_allow_search_engines,
        );
        self.robots_crawl_delay = pick(self.robots_crawl_delay, patch.robots_crawl_delay);
        self.cdp_detection_enabled = pick(self.cdp_detection_enabled, patch.cdp_detection_enabled);
        self.cdp_auto_ban = pick(self.cdp_auto_ban, patch.cdp_auto_ban);
        self.cdp_detection_threshold = pick(
            self.cdp_detection_threshold,
            patch.cdp_detection_threshold,
        );
        changed
    }
}

} // verus!
