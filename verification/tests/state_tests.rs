use bot_trap::admin::{event_log_key, sanitize_path, EventType};
use bot_trap::ban::{ban_ip_at, escalate, is_banned_at, list_bans, unban_ip, BanEntry, BanReason};
use bot_trap::cdp::{handle_cdp_report_at, join_names, judge_report, report_keys, score_reaches, CdpOutcome, CdpReport};
use bot_trap::config::{is_switch_on, BanDurations, BanDurationsPatch, Config, ConfigPatch};
use bot_trap::honeypot::is_honeypot;
use bot_trap::maze::{handle_maze_hit_at, is_maze_path, maze_keys};
use bot_trap::metrics::{count_active_bans_at, get_counter, increment, metric_key, render_metrics_at, MetricName};
use bot_trap::pipeline::chain_keys;
use bot_trap::store::{KeyValueStore, MemStore};

fn defaults() -> Config {
    Config::load(None, None)
}

fn report(score: f32) -> CdpReport {
    CdpReport { cdp_detected: true, score: score.to_bits(), checks: vec!["webdriver".to_string(), "plugins".to_string()] }
}

#[test]
fn test_cdp_report_deserialization() {
    let json = r#"{"cdp_detected":true,"score":0.95,"checks":["webdriver","automation_props"]}"#;
    let value: serde_json::Value = serde_json::from_str(json).expect("Should deserialize CdpReport");
    let report = CdpReport {
        cdp_detected: value["cdp_detected"].as_bool().unwrap(),
        score: (value["score"].as_f64().unwrap() as f32).to_bits(),
        checks: value["checks"].as_array().unwrap().iter().map(|c| c.as_str().unwrap().to_string()).collect(),
    };
    assert!(report.cdp_detected, "cdp_detected should be true");
    assert!((f32::from_bits(report.score) - 0.95).abs() < 0.01, "score should be 0.95");
    assert_eq!(report.checks.len(), 2, "should have 2 checks");
    assert!(report.checks.contains(&"webdriver".to_string()));
    assert!(report.checks.contains(&"automation_props".to_string()));
}

#[test]
fn test_cdp_report_serialization() {
    let report = CdpReport { cdp_detected: true, score: 0.85f32.to_bits(), checks: vec!["cdp_timing".to_string()] };
    let mut object = serde_json::Map::new();
    object.insert("cdp_detected".to_string(), serde_json::Value::Bool(report.cdp_detected));
    object.insert("score".to_string(), serde_json::to_value(f32::from_bits(report.score)).unwrap());
    object.insert("checks".to_string(), serde_json::to_value(&report.checks).unwrap());
    let json = serde_json::to_string(&serde_json::Value::Object(object)).expect("Should serialize CdpReport");
    assert!(json.contains("\"cdp_detected\":true"));
    assert!(json.contains("\"score\":0.85") || json.contains("\"score\": 0.85"));
    assert!(json.contains("cdp_timing"));
}

#[test]
fn stores_keep_what_is_set() {
    let mut store = MemStore::new();
    assert_eq!(store.get("a"), Ok(None));
    assert_eq!(store.set("a", b"1"), Ok(()));
    assert_eq!(store.set("b", b"2"), Ok(()));
    assert_eq!(store.set("a", b"3"), Ok(()));
    assert_eq!(store.get("a"), Ok(Some(b"3".to_vec())));
    assert_eq!(store.get("b"), Ok(Some(b"2".to_vec())));
    let mut keys = store.get_keys().unwrap();
    keys.sort();
    assert_eq!(keys, vec!["a".to_string(), "b".to_string()]);
    assert_eq!(store.delete("a"), Ok(()));
    assert_eq!(store.delete("a"), Ok(()));
    assert_eq!(store.get("a"), Ok(None));
    assert_eq!(store.get_keys(), Ok(vec!["b".to_string()]));
}

#[test]
fn a_ban_replaces_the_ban_before_it() {
    let mut store = MemStore::new();
    ban_ip_at(&mut store, "s", "1.2.3.4", "first", 1000, 0);
    ban_ip_at(&mut store, "s", "1.2.3.4", "second", 10, 5);
    let entry = BanEntry::from_bytes(&store.get("ban:s:1.2.3.4").unwrap().unwrap()).unwrap();
    assert_eq!((entry.reason.as_str(), entry.expires), ("second", 15));
    assert!(!is_banned_at(&mut store, "s", "1.2.3.5", 5));
    assert!(!is_banned_at(&mut store, "other", "1.2.3.4", 5));
    assert!(is_banned_at(&mut store, "s", "1.2.3.4", 14));
    unban_ip(&mut store, "s", "1.2.3.4");
    assert!(!is_banned_at(&mut store, "s", "1.2.3.4", 14));
}

#[test]
fn a_ban_without_duration_bans_nobody() {
    let mut store = MemStore::new();
    ban_ip_at(&mut store, "s", "1.2.3.4", "none", 0, 7);
    assert!(!is_banned_at(&mut store, "s", "1.2.3.4", 7));
}

#[test]
fn an_expiry_beyond_all_time_is_not_written() {
    let mut store = MemStore::new();
    escalate(&mut store, "s", "1.2.3.4", "r", u64::MAX, 1);
    assert_eq!(store.get("ban:s:1.2.3.4"), Ok(None));
    escalate(&mut store, "s", "1.2.3.4", "r", u64::MAX - 1, 1);
    assert!(is_banned_at(&mut store, "s", "1.2.3.4", u64::MAX - 1));
}

#[test]
fn ban_reasons() {
    assert_eq!(BanReason::Honeypot.as_str(), "honeypot");
    assert_eq!(BanReason::RateLimit.as_str(), "rate");
    assert_eq!(BanReason::Browser.as_str(), "browser");
    assert_eq!(BanReason::Admin.as_str(), "admin_ban");
    assert_eq!(BanReason::MazeCrawler.as_str(), "maze_crawler");
    assert_eq!(BanReason::Automation.as_str(), "cdp_automation");
}

#[test]
fn maze_bans_on_the_request_past_the_threshold() {
    let mut store = MemStore::new();
    let mut cfg = defaults();
    cfg.maze_auto_ban_threshold = 3;
    for n in 0..3u32 {
        let out = handle_maze_hit_at(&mut store, &cfg, "6.6.6.6", 100);
        assert_eq!(out.hits_before, n);
        assert!(!out.banned);
        assert_eq!(out.events.len(), 1);
        assert_eq!(out.events[0].reason.as_deref(), Some("maze_trap"));
        assert_eq!(out.events[0].outcome.as_deref(), Some("maze_page_served"));
        assert_eq!(store.get("ban:default:6.6.6.6"), Ok(None));
    }
    let out = handle_maze_hit_at(&mut store, &cfg, "6.6.6.6", 100);
    assert_eq!(out.hits_before, 3);
    assert!(out.banned);
    assert_eq!(out.events.len(), 2);
    assert!(matches!(out.events[1].event, EventType::Ban));
    assert_eq!(out.events[1].reason.as_deref(), Some("maze_crawler"));
    assert_eq!(out.events[1].outcome.as_deref(), Some("banned_after_3_maze_pages"));
    let entry = BanEntry::from_bytes(&store.get("ban:default:6.6.6.6").unwrap().unwrap()).unwrap();
    assert_eq!((entry.reason.as_str(), entry.expires), ("maze_crawler", 100 + 86400));
    assert_eq!(store.get("maze_hits:6.6.6.6"), Ok(Some(b"4".to_vec())));
    assert_eq!(get_counter(&store, "metrics:maze_hits_total"), 4);
    assert_eq!(get_counter(&store, "metrics:bans_total:maze_crawler"), 1);
}

#[test]
fn maze_without_auto_ban_only_counts() {
    let mut store = MemStore::new();
    let mut cfg = defaults();
    cfg.maze_auto_ban = false;
    cfg.maze_auto_ban_threshold = 0;
    for _ in 0..10 {
        assert!(!handle_maze_hit_at(&mut store, &cfg, "6.6.6.6", 100).banned);
    }
    assert_eq!(store.get("ban:default:6.6.6.6"), Ok(None));
    assert_eq!(store.get("maze_hits:6.6.6.6"), Ok(Some(b"10".to_vec())));
    cfg.maze_auto_ban = true;
    store.set("maze_hits:7.7.7.7", b"4294967295").unwrap();
    assert!(handle_maze_hit_at(&mut store, &cfg, "7.7.7.7", 100).banned);
    assert_eq!(store.get("maze_hits:7.7.7.7"), Ok(Some(b"4294967295".to_vec())));
}

#[test]
fn maze_paths() {
    assert!(is_maze_path("/maze/"));
    assert!(is_maze_path("/maze/a/b"));
    assert!(is_maze_path("/trap/x"));
    assert!(!is_maze_path("/maze"));
    assert!(!is_maze_path("/mazes/x"));
    assert!(!is_maze_path("/"));
}

#[test]
fn scores_compare_as_singles_do() {
    let values = [
        0.0f32, -0.0, 0.8, 0.79999995, 0.95, 1.0, 3.6, -1.0, -0.5, f32::MIN_POSITIVE, f32::MAX, f32::MIN,
        f32::INFINITY, f32::NEG_INFINITY, f32::NAN, -f32::NAN, 1e-45, -1e-45,
    ];
    for a in values {
        for b in values {
            assert_eq!(score_reaches(a.to_bits(), b.to_bits()), a >= b, "{} >= {}", a, b);
        }
    }
}

#[test]
fn report_below_threshold_is_only_counted() {
    let mut store = MemStore::new();
    let cfg = defaults();
    let r = report(0.5);
    let reply = handle_cdp_report_at(&mut store, &cfg, "1.2.3.4", Some(&r), "0.50", 9);
    assert_eq!(reply.outcome, CdpOutcome::Received);
    assert_eq!(reply.outcome.status(), 200);
    assert_eq!(reply.outcome.message(), "Report received");
    assert_eq!(reply.events.len(), 1);
    assert_eq!(reply.events[0].reason.as_deref(), Some("cdp_detected:score=0.50"));
    assert_eq!(reply.events[0].outcome.as_deref(), Some("checks:webdriver,plugins"));
    assert_eq!(store.get("ban:default:1.2.3.4"), Ok(None));
    assert_eq!(get_counter(&store, "metrics:cdp_detections_total"), 1);
}

#[test]
fn report_at_threshold_bans_once() {
    let mut store = MemStore::new();
    let cfg = defaults();
    let r = report(0.8);
    let reply = handle_cdp_report_at(&mut store, &cfg, "1.2.3.4", Some(&r), "0.80", 9);
    assert_eq!(reply.outcome, CdpOutcome::Banned);
    assert_eq!(reply.outcome.message(), "Automation detected - banned");
    assert_eq!(reply.events.len(), 2);
    assert_eq!(reply.events[1].reason.as_deref(), Some("cdp_automation"));
    assert_eq!(reply.events[1].outcome.as_deref(), Some("banned:score=0.80"));
    let entry = BanEntry::from_bytes(&store.get("ban:default:1.2.3.4").unwrap().unwrap()).unwrap();
    assert_eq!((entry.reason.as_str(), entry.expires), ("cdp_automation", 9 + 21600));
    assert_eq!(store.get_keys().unwrap().iter().filter(|k| k.starts_with("ban:")).count(), 1);
    assert_eq!(get_counter(&store, "metrics:bans_total:cdp_automation"), 1);
    assert_eq!(get_counter(&store, "metrics:cdp_detections_total"), 1);
}

#[test]
fn reports_disabled_malformed_or_not_banning() {
    let mut store = MemStore::new();
    let mut cfg = defaults();
    let r = report(3.0);
    let reply = handle_cdp_report_at(&mut store, &cfg, "1.2.3.4", None, "", 9);
    assert_eq!(reply.outcome, CdpOutcome::Malformed);
    assert_eq!(reply.outcome.status(), 400);
    assert_eq!(reply.outcome.message(), "Invalid CDP report format");
    cfg.cdp_auto_ban = false;
    assert_eq!(handle_cdp_report_at(&mut store, &cfg, "1.2.3.4", Some(&r), "3.00", 9).outcome, CdpOutcome::Received);
    cfg.cdp_detection_enabled = false;
    cfg.cdp_auto_ban = true;
    let reply = handle_cdp_report_at(&mut store, &cfg, "1.2.3.4", Some(&r), "3.00", 9);
    assert_eq!(reply.outcome, CdpOutcome::Disabled);
    assert_eq!(reply.outcome.message(), "CDP detection disabled");
    assert_eq!(handle_cdp_report_at(&mut store, &cfg, "1.2.3.4", None, "", 9).outcome, CdpOutcome::Disabled);
    assert_eq!(store.get("ban:default:1.2.3.4"), Ok(None));
    assert_eq!(get_counter(&store, "metrics:cdp_detections_total"), 1);
    assert_eq!(judge_report(&defaults(), Some(f32::NAN.to_bits())), CdpOutcome::Received);
}

#[test]
fn names_are_joined_with_commas() {
    let names: Vec<String> = vec!["a".to_string(), "bc".to_string(), "".to_string()];
    assert_eq!(join_names(&names).iter().collect::<String>(), "a,bc,");
    assert_eq!(join_names(&[]).iter().collect::<String>(), "");
    assert_eq!(join_names(&names[..1]).iter().collect::<String>(), "a");
}

#[test]
fn default_settings() {
    let cfg = Config::load(None, None);
    assert_eq!(cfg.ban_duration, 21600);
    assert_eq!(cfg.ban_durations, BanDurations { honeypot: 86400, rate_limit: 3600, browser: 21600, admin: 21600 });
    assert_eq!(cfg.ban_durations, BanDurations::default());
    assert_eq!(cfg.rate_limit, 80);
    assert_eq!(cfg.honeypots, vec!["/bot-trap".to_string()]);
    assert_eq!(
        cfg.browser_block,
        vec![("Chrome".to_string(), 120), ("Firefox".to_string(), 115), ("Safari".to_string(), 15)]
    );
    assert!(cfg.browser_whitelist.is_empty() && cfg.geo_risk.is_empty());
    assert!(cfg.whitelist.is_empty() && cfg.path_whitelist.is_empty());
    assert!(!cfg.test_mode);
    assert!(cfg.maze_enabled && cfg.maze_auto_ban);
    assert_eq!(cfg.maze_auto_ban_threshold, 50);
    assert_eq!(f32::from_bits(cfg.cdp_detection_threshold), 0.8);
    assert!(Config::load(None, Some("TRUE")).test_mode);
    assert!(!Config::load(None, Some("yes")).test_mode);
}

#[test]
fn stored_settings_and_the_switch() {
    let mut stored = defaults();
    stored.rate_limit = 7;
    stored.test_mode = true;
    assert!(Config::load(Some(stored.clone()), None).test_mode);
    assert!(!Config::load(Some(stored.clone()), Some("0")).test_mode);
    assert_eq!(Config::load(Some(stored.clone()), Some("1")).rate_limit, 7);
    for (value, on) in [("1", true), ("true", true), ("True", true), ("tRuE", true), ("", false), ("0", false), ("11", false), ("truee", false), ("yes!", false)] {
        assert_eq!(is_switch_on(value), on, "{:?}", value);
    }
}

#[test]
fn ban_durations_by_kind() {
    let d = BanDurations { honeypot: 1, rate_limit: 2, browser: 3, admin: 4 };
    assert_eq!(d.get("honeypot"), 1);
    assert_eq!(d.get("rate"), 2);
    assert_eq!(d.get("rate_limit"), 2);
    assert_eq!(d.get("browser"), 3);
    assert_eq!(d.get("admin"), 4);
    assert_eq!(d.get("cdp"), 4);
    assert_eq!(d.get(""), 4);
    let mut cfg = defaults();
    cfg.ban_durations = d;
    assert_eq!(cfg.get_ban_duration("rate"), 2);
    assert_eq!(cfg.get_ban_duration("maze_crawler"), 4);
}

fn empty_patch() -> ConfigPatch {
    ConfigPatch {
        test_mode: None,
        ban_duration: None,
        rate_limit: None,
        ban_durations: None,
        maze_enabled: None,
        maze_auto_ban: None,
        maze_auto_ban_threshold: None,
        robots_enabled: None,
        robots_block_ai_training: None,
        robots_block_ai_search: None,
        robots_allow_search_engines: None,
        robots_crawl_delay: None,
        cdp_detection_enabled: None,
        cdp_auto_ban: None,
        cdp_detection_threshold: None,
    }
}

#[test]
fn patches_change_what_they_name() {
    let mut cfg = defaults();
    assert!(!cfg.apply_patch(&empty_patch()));
    let mut patch = empty_patch();
    patch.test_mode = Some(false);
    assert!(!cfg.apply_patch(&patch));
    patch.test_mode = Some(true);
    assert!(cfg.apply_patch(&patch));
    assert!(cfg.test_mode);
    let mut patch = empty_patch();
    patch.rate_limit = Some(80);
    assert!(cfg.apply_patch(&patch));
    let mut patch = empty_patch();
    patch.ban_durations = Some(BanDurationsPatch { honeypot: None, rate_limit: Some(9), browser: None, admin: None });
    patch.maze_auto_ban_threshold = Some(5);
    patch.cdp_detection_threshold = Some(1.5f32.to_bits());
    assert!(cfg.apply_patch(&patch));
    assert_eq!(cfg.ban_durations, BanDurations { honeypot: 86400, rate_limit: 9, browser: 21600, admin: 21600 });
    assert_eq!(cfg.maze_auto_ban_threshold, 5);
    assert_eq!(cfg.cdp_detection_threshold, 1.5f32.to_bits());
    assert_eq!(cfg.rate_limit, 80);
    assert!(cfg.test_mode);
    let mut patch = empty_patch();
    patch.ban_durations = Some(BanDurationsPatch { honeypot: None, rate_limit: None, browser: None, admin: None });
    assert!(!cfg.apply_patch(&patch));
}

#[test]
fn counters() {
    let mut store = MemStore::new();
    assert_eq!(metric_key(MetricName::BansTotal, Some("honeypot")), "metrics:bans_total:honeypot");
    assert_eq!(metric_key(MetricName::RequestsTotal, None), "metrics:requests_total");
    increment(&mut store, MetricName::RequestsTotal, None);
    increment(&mut store, MetricName::RequestsTotal, None);
    increment(&mut store, MetricName::BansTotal, Some("honeypot"));
    assert_eq!(store.get("metrics:requests_total"), Ok(Some(b"2".to_vec())));
    assert_eq!(get_counter(&store, "metrics:requests_total"), 2);
    assert_eq!(get_counter(&store, "metrics:bans_total:honeypot"), 1);
    assert_eq!(get_counter(&store, "metrics:bans_total"), 0);
    store.set("metrics:blocks_total", b"many").unwrap();
    assert_eq!(get_counter(&store, "metrics:blocks_total"), 0);
    increment(&mut store, MetricName::BlocksTotal, None);
    assert_eq!(get_counter(&store, "metrics:blocks_total"), 1);
    store.set("metrics:blocks_total", b"18446744073709551615").unwrap();
    increment(&mut store, MetricName::BlocksTotal, None);
    assert_eq!(get_counter(&store, "metrics:blocks_total"), u64::MAX);
    let names = [
        (MetricName::RequestsTotal, "requests_total"),
        (MetricName::BansTotal, "bans_total"),
        (MetricName::BlocksTotal, "blocks_total"),
        (MetricName::ChallengesTotal, "challenges_total"),
        (MetricName::WhitelistedTotal, "whitelisted_total"),
        (MetricName::TestModeActions, "test_mode_actions_total"),
        (MetricName::MazeHits, "maze_hits_total"),
        (MetricName::CdpDetections, "cdp_detections_total"),
    ];
    for (metric, name) in names {
        assert_eq!(metric.as_str(), name);
    }
}

#[test]
fn admin_endpoints_and_event_buckets() {
    for path in ["/admin", "/admin/ban", "/admin/unban", "/admin/analytics", "/admin/events", "/admin/config", "/admin/maze", "/admin/robots", "/admin/cdp"] {
        assert!(sanitize_path(path), "{}", path);
    }
    for path in ["/admin/", "/admin/../etc", "/admin/ban/x", "", "/", "/Admin"] {
        assert!(!sanitize_path(path), "{}", path);
    }
    assert_eq!(event_log_key(0), "eventlog:0");
    assert_eq!(event_log_key(3599), "eventlog:0");
    assert_eq!(event_log_key(3600), "eventlog:1");
    assert_eq!(event_log_key(1700000000), "eventlog:472222");
}

#[test]
fn honeypots_match_exactly() {
    let list = vec!["/bot-trap".to_string(), "/wp-admin".to_string()];
    assert!(is_honeypot("/bot-trap", &list));
    assert!(is_honeypot("/wp-admin", &list));
    assert!(!is_honeypot("/bot-trap/", &list));
    assert!(!is_honeypot("/bot", &list));
    assert!(!is_honeypot("/bot-trap", &[]));
}

#[test]
fn bans_are_listed_with_their_addresses() {
    let mut store = MemStore::new();
    ban_ip_at(&mut store, "default", "1.2.3.4", "honeypot", 10, 0);
    ban_ip_at(&mut store, "default", "fd00::1", "rate", 20, 0);
    ban_ip_at(&mut store, "other", "5.6.7.8", "rate", 20, 0);
    store.set("ban:default:9.9.9.9", b"broken").unwrap();
    store.set("rate:default:1.2.3.4", b"0:1").unwrap();
    let mut bans: Vec<(String, String, u64)> =
        list_bans(&store, "default").into_iter().map(|(ip, e)| (ip, e.reason, e.expires)).collect();
    bans.sort();
    assert_eq!(
        bans,
        vec![
            ("1.2.3.4".to_string(), "honeypot".to_string(), 10),
            ("fd00::1".to_string(), "rate".to_string(), 20),
        ]
    );
    assert_eq!(list_bans(&store, "none").len(), 0);
    assert_eq!(list_bans(&store, "other").len(), 1);
}

#[test]
fn ban_labels() {
    assert_eq!(BanReason::Honeypot.label_str(), "honeypot");
    assert_eq!(BanReason::RateLimit.label_str(), "rate_limit");
    assert_eq!(BanReason::Browser.label_str(), "browser");
    assert_eq!(BanReason::Admin.label_str(), "admin");
    assert_eq!(BanReason::MazeCrawler.label_str(), "maze_crawler");
    assert_eq!(BanReason::Automation.label_str(), "cdp_automation");
}

#[test]
fn exposition_of_the_counters() {
    let mut store = MemStore::new();
    increment(&mut store, MetricName::RequestsTotal, None);
    increment(&mut store, MetricName::RequestsTotal, None);
    increment(&mut store, MetricName::BansTotal, Some("rate_limit"));
    increment(&mut store, MetricName::MazeHits, None);
    ban_ip_at(&mut store, "default", "1.2.3.4", "honeypot", 10, 0);
    ban_ip_at(&mut store, "default", "1.2.3.5", "honeypot", 5, 0);
    ban_ip_at(&mut store, "other", "1.2.3.6", "honeypot", 10, 0);
    let expected = "# WASM Bot Trap Metrics\n\
# TYPE bot_trap_requests_total counter\n\
bot_trap_requests_total 2\n\
\n\
# TYPE bot_trap_bans_total counter\n\
# HELP bot_trap_bans_total Total number of IP bans by reason\n\
bot_trap_bans_total{reason=\"honeypot\"} 0\n\
bot_trap_bans_total{reason=\"rate_limit\"} 1\n\
bot_trap_bans_total{reason=\"browser\"} 0\n\
bot_trap_bans_total{reason=\"admin\"} 0\n\
\n\
# TYPE bot_trap_blocks_total counter\n\
bot_trap_blocks_total 0\n\
\n\
# TYPE bot_trap_challenges_total counter\n\
bot_trap_challenges_total 0\n\
\n\
# TYPE bot_trap_whitelisted_total counter\n\
bot_trap_whitelisted_total 0\n\
\n\
# TYPE bot_trap_test_mode_actions_total counter\n\
bot_trap_test_mode_actions_total 0\n\
\n\
# TYPE bot_trap_maze_hits_total counter\n\
# HELP bot_trap_maze_hits_total Total hits on link maze honeypot pages\n\
bot_trap_maze_hits_total 1\n\
\n\
# TYPE bot_trap_active_bans gauge\n\
# HELP bot_trap_active_bans Current number of active (non-expired) bans\n\
bot_trap_active_bans 1\n\
\n\
# TYPE bot_trap_test_mode_enabled gauge\n\
bot_trap_test_mode_enabled 1\n";
    assert_eq!(render_metrics_at(&store, true, 7), expected);
    assert_eq!(count_active_bans_at(&store, 0), 2);
    assert_eq!(count_active_bans_at(&store, 5), 1);
    assert_eq!(count_active_bans_at(&store, 10), 0);
    assert!(render_metrics_at(&store, false, 7).ends_with("bot_trap_test_mode_enabled 0\n"));
}

#[test]
fn keys_that_a_request_can_touch() {
    let mut keys = chain_keys("1.2.3.4");
    keys.sort();
    assert_eq!(
        keys,
        vec![
            "ban:default:1.2.3.4",
            "metrics:bans_total:browser",
            "metrics:bans_total:honeypot",
            "metrics:bans_total:rate_limit",
            "metrics:blocks_total",
            "metrics:challenges_total",
            "metrics:requests_total",
            "metrics:test_mode_actions_total",
            "metrics:whitelisted_total",
            "rate:default:1.2.3.4",
        ]
    );
    assert_eq!(
        maze_keys("::1"),
        vec!["metrics:maze_hits_total", "metrics:bans_total:maze_crawler", "maze_hits:::1", "ban:default:::1"]
    );
    assert_eq!(
        report_keys("::1"),
        vec!["metrics:cdp_detections_total", "metrics:bans_total:cdp_automation", "ban:default:::1"]
    );
}
