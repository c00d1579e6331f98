use base64::Engine;
use bot_trap::admin::EventType;
use bot_trap::ban::{ban_ip_at, is_banned_at, BanEntry};
use bot_trap::config::Config;
use bot_trap::js::{cookie_has_token, inject_js_challenge, make_token, needs_js_verification,
    needs_js_verification_with_whitelist};
use bot_trap::metrics::get_counter;
use bot_trap::pipeline::{handle_bot_trap_impl, handle_bot_trap_impl_at, BlockReason, Decision, Stage};
use bot_trap::rate::{check_rate_limit, check_rate_limit_at};
use bot_trap::request::{extract_client_ip, Method, Request};
use bot_trap::router::{handle_health, handle_without_store, route, Offline, Route};
use bot_trap::store::{Breakable, KeyValueStore, MemStore};
use hmac::Mac;

const SECRET: &[u8] = b"js-challenge-secret";

fn request(path: &str, ip: &str) -> Request {
    Request {
        method: Method::Get,
        path: path.to_string(),
        forwarded_for: Some(ip.to_string()),
        real_ip: None,
        user_agent: Some("Mozilla/5.0 Chrome/130.0.0.0 Safari/537.36".to_string()),
        cookie: Some(format!("js_verified={}", make_token(SECRET, ip))),
        geo_country: None,
    }
}

fn settings(test_mode: bool) -> Config {
    let mut cfg = Config::load(None, None);
    cfg.test_mode = test_mode;
    cfg.browser_block = vec![("Chrome".to_string(), 120)];
    cfg
}

fn dead_store() -> Breakable<MemStore> {
    Breakable { inner: MemStore::new(), down: true }
}

#[test]
fn token_is_base64_of_hmac_sha256() {
    let mut mac = hmac::Hmac::<sha2::Sha256>::new_from_slice(SECRET).unwrap();
    mac.update(b"1.2.3.4");
    let expected = base64::engine::general_purpose::STANDARD.encode(mac.finalize().into_bytes());
    assert_eq!(make_token(SECRET, "1.2.3.4"), expected);
    assert_eq!(make_token(SECRET, "1.2.3.4").len(), 44);
    assert_ne!(make_token(SECRET, "1.2.3.4"), "1.2.3.4");
}

#[test]
fn token_depends_on_address_and_secret() {
    assert_eq!(make_token(SECRET, "1.2.3.4"), make_token(SECRET, "1.2.3.4"));
    assert_ne!(make_token(SECRET, "1.2.3.4"), make_token(SECRET, "1.2.3.5"));
    assert_ne!(make_token(SECRET, "1.2.3.4"), make_token(b"other", "1.2.3.4"));
}

#[test]
fn cookie_must_carry_the_token_exactly() {
    assert!(cookie_has_token("js_verified=abc", "abc"));
    assert!(cookie_has_token("a=b;  js_verified=abc ; c=d", "abc"));
    assert!(!cookie_has_token("js_verified=abcd", "abc"));
    assert!(!cookie_has_token("js_verified=ab", "abc"));
    assert!(!cookie_has_token("xjs_verified=abc", "abc"));
    assert!(!cookie_has_token("", "abc"));
    assert!(!cookie_has_token("js_verified=abc,def", "abc"));
}

#[test]
fn challenge_is_needed_without_the_token() {
    let mut req = request("/", "1.2.3.4");
    assert!(!needs_js_verification(&req, SECRET, "1.2.3.4"));
    assert!(needs_js_verification(&req, SECRET, "1.2.3.5"));
    assert!(needs_js_verification(&req, b"other", "1.2.3.4"));
    req.cookie = Some("js_verified=nonsense".to_string());
    assert!(needs_js_verification(&req, SECRET, "1.2.3.4"));
    req.cookie = None;
    assert!(needs_js_verification(&req, SECRET, "1.2.3.4"));
    let trusted = vec![("Chrome".to_string(), 130u32)];
    assert!(!needs_js_verification_with_whitelist(&req, SECRET, "1.2.3.4", &trusted));
    let newer = vec![("Chrome".to_string(), 131u32)];
    assert!(needs_js_verification_with_whitelist(&req, SECRET, "1.2.3.4", &newer));
    req.user_agent = None;
    assert!(needs_js_verification_with_whitelist(&req, SECRET, "1.2.3.4", &trusted));
}

#[test]
fn challenge_page_sets_the_cookie() {
    let page = inject_js_challenge(SECRET, "1.2.3.4");
    let token = make_token(SECRET, "1.2.3.4");
    assert!(page.contains(&format!("document.cookie = 'js_verified={}; path=/; SameSite=Strict';", token)));
    assert!(page.contains("_checkCDPAutomation"));
    assert!(page.contains("window.location.reload();"));
    assert!(page.contains("<noscript>Please enable JavaScript to continue.</noscript>"));
}

#[test]
fn client_address() {
    let mut req = request("/", "1.1.1.1");
    req.forwarded_for = Some(" 9.9.9.9 , 8.8.8.8".to_string());
    req.real_ip = Some("7.7.7.7".to_string());
    assert_eq!(extract_client_ip(&req), "9.9.9.9");
    req.forwarded_for = Some("unknown, 8.8.8.8".to_string());
    assert_eq!(extract_client_ip(&req), "7.7.7.7");
    req.forwarded_for = Some("  ,8.8.8.8".to_string());
    assert_eq!(extract_client_ip(&req), "7.7.7.7");
    req.real_ip = Some("unknown".to_string());
    assert_eq!(extract_client_ip(&req), "unknown");
    req.real_ip = Some(String::new());
    assert_eq!(extract_client_ip(&req), "unknown");
    req.forwarded_for = None;
    req.real_ip = Some(" 6.6.6.6".to_string());
    assert_eq!(extract_client_ip(&req), " 6.6.6.6");
    req.real_ip = None;
    assert_eq!(extract_client_ip(&req), "unknown");
}

#[test]
fn rate_limit_allows_limit_requests_per_window() {
    let mut store = MemStore::new();
    for _ in 0..5 {
        assert!(check_rate_limit_at(&mut store, "s", "1.2.3.4", 5, 120));
    }
    assert!(!check_rate_limit_at(&mut store, "s", "1.2.3.4", 5, 121));
    assert!(!check_rate_limit_at(&mut store, "s", "1.2.3.4", 5, 179));
    assert_eq!(store.get("rate:s:1.2.3.4"), Ok(Some(b"2:7".to_vec())));
    assert!(check_rate_limit_at(&mut store, "s", "1.2.3.5", 5, 179));
    assert!(check_rate_limit_at(&mut store, "s", "1.2.3.4", 5, 180));
    assert_eq!(store.get("rate:s:1.2.3.4"), Ok(Some(b"3:1".to_vec())));
    assert!(!check_rate_limit_at(&mut store, "s", "0.0.0.0", 0, 180));
}

#[test]
fn rate_counter_that_cannot_be_read_counts_from_zero() {
    let mut store = MemStore::new();
    store.set("rate:s:1.2.3.4", b"garbage").unwrap();
    assert!(check_rate_limit_at(&mut store, "s", "1.2.3.4", 1, 0));
    assert_eq!(store.get("rate:s:1.2.3.4"), Ok(Some(b"0:1".to_vec())));
    assert!(!check_rate_limit_at(&mut store, "s", "1.2.3.4", 1, 0));
    assert!(check_rate_limit(&mut store, "s", "5.5.5.5", 1));
    assert!(!check_rate_limit(&mut dead_store(), "s", "5.5.5.5", 0));
    assert!(check_rate_limit(&mut dead_store(), "s", "5.5.5.5", 1));
    assert!(check_rate_limit(&mut dead_store(), "s", "5.5.5.5", 1));
}

#[test]
fn a_request_that_nothing_objects_to_passes() {
    let mut store = MemStore::new();
    let v = handle_bot_trap_impl_at(&mut store, &request("/", "1.2.3.4"), &settings(false), SECRET, 1000);
    assert_eq!(v.stage, Stage::Passed);
    assert_eq!(v.decision(), Decision::Allow);
    assert_eq!(v.status(), 200);
    assert_eq!(v.message(), Some("OK (passed bot trap)"));
    assert_eq!(v.block_reason(), None);
    assert!(v.event.is_none());
    assert_eq!(v.ip, "1.2.3.4");
    assert_eq!(get_counter(&store, "metrics:requests_total"), 1);
    assert_eq!(store.get("rate:default:1.2.3.4"), Ok(Some(b"16:1".to_vec())));
    let v = handle_bot_trap_impl(&mut store, &request("/", "1.2.3.4"), &settings(false), SECRET);
    assert_eq!(v.stage, Stage::Passed);
}

#[test]
fn whitelists_come_first() {
    let mut store = MemStore::new();
    let mut cfg = settings(false);
    cfg.path_whitelist = vec!["/hook/*".to_string()];
    cfg.whitelist = vec!["10.0.0.0/8".to_string()];
    cfg.honeypots = vec!["/hook/trap".to_string(), "/bot-trap".to_string()];
    let v = handle_bot_trap_impl_at(&mut store, &request("/hook/trap", "1.2.3.4"), &cfg, SECRET, 0);
    assert_eq!(v.stage, Stage::PathWhitelisted);
    assert_eq!(v.message(), Some("OK (path whitelisted)"));
    let v = handle_bot_trap_impl_at(&mut store, &request("/bot-trap", "10.1.1.1"), &cfg, SECRET, 0);
    assert_eq!(v.stage, Stage::IpWhitelisted);
    assert_eq!(v.decision(), Decision::Allow);
    assert_eq!(v.message(), Some("OK (whitelisted)"));
    assert_eq!(get_counter(&store, "metrics:whitelisted_total"), 2);
    assert_eq!(get_counter(&store, "metrics:requests_total"), 2);
    assert_eq!(store.get("ban:default:10.1.1.1"), Ok(None));
    assert_eq!(store.get("rate:default:10.1.1.1"), Ok(None));
}

#[test]
fn honeypot_comes_before_the_rate_limit() {
    let mut store = MemStore::new();
    let mut cfg = settings(false);
    cfg.rate_limit = 0;
    let v = handle_bot_trap_impl_at(&mut store, &request("/bot-trap", "1.2.3.4"), &cfg, SECRET, 1000);
    assert_eq!(v.stage, Stage::Honeypot);
    assert_eq!(v.decision(), Decision::Block);
    assert_eq!(v.status(), 403);
    assert_eq!(v.block_reason(), Some(BlockReason::Honeypot));
    assert_eq!(v.message(), None);
    let entry = BanEntry::from_bytes(&store.get("ban:default:1.2.3.4").unwrap().unwrap()).unwrap();
    assert_eq!(entry.reason, "honeypot");
    assert_eq!(entry.expires, 1000 + 86400);
    assert_eq!(store.get("rate:default:1.2.3.4"), Ok(None));
    let keys = store.get_keys().unwrap();
    assert_eq!(keys.iter().filter(|k| k.starts_with("ban:")).count(), 1);
    assert_eq!(get_counter(&store, "metrics:bans_total:honeypot"), 1);
    assert_eq!(get_counter(&store, "metrics:blocks_total"), 1);
    let event = v.event.unwrap();
    assert!(matches!(event.event, EventType::Ban));
    assert_eq!(event.ts, 1000);
    assert_eq!(event.ip.as_deref(), Some("1.2.3.4"));
    assert_eq!(event.reason.as_deref(), Some("honeypot"));
    assert_eq!(event.outcome.as_deref(), Some("banned"));
    assert_eq!(event.admin, None);
}

#[test]
fn rate_limit_bans_each_request_beyond_it() {
    let mut store = MemStore::new();
    let mut cfg = settings(false);
    cfg.rate_limit = 2;
    let req = request("/", "1.2.3.4");
    assert_eq!(handle_bot_trap_impl_at(&mut store, &req, &cfg, SECRET, 600).stage, Stage::Passed);
    assert_eq!(handle_bot_trap_impl_at(&mut store, &req, &cfg, SECRET, 601).stage, Stage::Passed);
    let v = handle_bot_trap_impl_at(&mut store, &req, &cfg, SECRET, 602);
    assert_eq!(v.stage, Stage::RateLimited);
    assert_eq!(v.status(), 429);
    assert_eq!(v.block_reason(), Some(BlockReason::RateLimit));
    let entry = BanEntry::from_bytes(&store.get("ban:default:1.2.3.4").unwrap().unwrap()).unwrap();
    assert_eq!((entry.reason.as_str(), entry.expires), ("rate", 602 + 3600));
    let v = handle_bot_trap_impl_at(&mut store, &req, &cfg, SECRET, 610);
    assert_eq!(v.stage, Stage::RateLimited);
    let entry = BanEntry::from_bytes(&store.get("ban:default:1.2.3.4").unwrap().unwrap()).unwrap();
    assert_eq!(entry.expires, 610 + 3600);
    assert_eq!(get_counter(&store, "metrics:bans_total:rate_limit"), 2);
    assert_eq!(v.event.unwrap().reason.as_deref(), Some("rate"));
    let v = handle_bot_trap_impl_at(&mut store, &req, &cfg, SECRET, 660);
    assert_eq!(v.stage, Stage::Banned);
    assert_eq!(v.status(), 403);
    assert_eq!(v.block_reason(), Some(BlockReason::Honeypot));
    assert_eq!(v.event.unwrap().outcome.as_deref(), Some("block page"));
}

#[test]
fn an_expired_ban_is_deleted_where_it_is_read() {
    let mut store = MemStore::new();
    ban_ip_at(&mut store, "default", "1.2.3.4", "test", 10, 100);
    let req = request("/", "1.2.3.4");
    assert_eq!(handle_bot_trap_impl_at(&mut store, &req, &settings(false), SECRET, 109).stage, Stage::Banned);
    assert!(store.get("ban:default:1.2.3.4").unwrap().is_some());
    assert_eq!(handle_bot_trap_impl_at(&mut store, &req, &settings(false), SECRET, 110).stage, Stage::Passed);
    assert_eq!(store.get("ban:default:1.2.3.4"), Ok(None));
    store.set("ban:default:1.2.3.4", b"{broken").unwrap();
    assert_eq!(handle_bot_trap_impl_at(&mut store, &req, &settings(false), SECRET, 0).stage, Stage::Passed);
    assert_eq!(store.get("ban:default:1.2.3.4"), Ok(None));
}

#[test]
fn challenge_browser_and_geography() {
    let mut store = MemStore::new();
    let cfg = settings(false);
    let mut req = request("/", "1.2.3.4");
    req.cookie = None;
    let v = handle_bot_trap_impl_at(&mut store, &req, &cfg, SECRET, 5);
    assert_eq!(v.stage, Stage::NeedsChallenge);
    assert_eq!(v.decision(), Decision::Challenge);
    assert_eq!(v.status(), 200);
    assert_eq!(v.message(), None);
    assert_eq!(get_counter(&store, "metrics:challenges_total"), 1);
    let event = v.event.unwrap();
    assert!(matches!(event.event, EventType::Challenge));
    assert_eq!(event.reason.as_deref(), Some("js_verification"));
    assert_eq!(event.outcome.as_deref(), Some("js challenge"));

    let mut old = request("/", "1.2.3.4");
    old.user_agent = Some("Mozilla/5.0 Chrome/119.0 Safari/537.36".to_string());
    let v = handle_bot_trap_impl_at(&mut store, &old, &cfg, SECRET, 5);
    assert_eq!(v.stage, Stage::OutdatedBrowser);
    assert_eq!(v.block_reason(), Some(BlockReason::OutdatedBrowser));
    assert_eq!(v.status(), 403);
    let entry = BanEntry::from_bytes(&store.get("ban:default:1.2.3.4").unwrap().unwrap()).unwrap();
    assert_eq!((entry.reason.as_str(), entry.expires), ("browser", 5 + 21600));
    assert_eq!(get_counter(&store, "metrics:bans_total:browser"), 1);

    let mut cfg = settings(false);
    cfg.geo_risk = vec!["XX".to_string()];
    let mut far = request("/", "4.4.4.4");
    far.geo_country = Some("XX".to_string());
    let v = handle_bot_trap_impl_at(&mut store, &far, &cfg, SECRET, 5);
    assert_eq!(v.stage, Stage::GeoRisk);
    assert_eq!(v.decision(), Decision::Challenge);
    assert_eq!(v.event.unwrap().reason.as_deref(), Some("geo_risk"));
    far.geo_country = Some("YY".to_string());
    assert_eq!(handle_bot_trap_impl_at(&mut store, &far, &cfg, SECRET, 5).stage, Stage::Passed);
}

#[test]
fn test_mode_decides_alike_and_bans_nobody() {
    let cases: Vec<(Request, u32)> = vec![
        (request("/bot-trap", "1.0.0.1"), 80),
        (request("/", "1.0.0.2"), 0),
        (request("/", "1.0.0.3"), 80),
        ({ let mut r = request("/", "1.0.0.4"); r.cookie = None; r }, 80),
        ({ let mut r = request("/", "1.0.0.5"); r.user_agent = Some("Chrome/1".to_string()); r }, 80),
        ({ let mut r = request("/", "1.0.0.6"); r.geo_country = Some("XX".to_string()); r }, 80),
        (request("/", "1.0.0.7"), 80),
    ];
    let expected = [
        (Stage::Honeypot, "TEST MODE: Would block (honeypot)", "honeypot [TEST MODE]", "would_block"),
        (Stage::RateLimited, "TEST MODE: Would block (rate limit)", "rate_limit [TEST MODE]", "would_block"),
        (Stage::Banned, "TEST MODE: Would serve quiz", "banned [TEST MODE]", "would_serve_quiz"),
        (Stage::NeedsChallenge, "TEST MODE: Would inject JS challenge", "js_verification [TEST MODE]", "would_challenge"),
        (Stage::OutdatedBrowser, "TEST MODE: Would block (outdated browser)", "browser [TEST MODE]", "would_block"),
        (Stage::GeoRisk, "TEST MODE: Would inject JS challenge (geo-risk)", "geo_risk [TEST MODE]", "would_challenge"),
        (Stage::Passed, "TEST MODE: Would allow (passed bot trap)", "", ""),
    ];
    for ((req, limit), (stage, message, reason, outcome)) in cases.iter().zip(expected.iter()) {
        let mut shadow_store = MemStore::new();
        let mut real_store = MemStore::new();
        ban_ip_at(&mut shadow_store, "default", "1.0.0.3", "test", 1000, 0);
        ban_ip_at(&mut real_store, "default", "1.0.0.3", "test", 1000, 0);
        let before = shadow_store.get("ban:default:1.0.0.3");
        let mut cfg = settings(true);
        cfg.rate_limit = *limit;
        cfg.geo_risk = vec!["XX".to_string()];
        let shadow = handle_bot_trap_impl_at(&mut shadow_store, req, &cfg, SECRET, 50);
        cfg.test_mode = false;
        let real = handle_bot_trap_impl_at(&mut real_store, req, &cfg, SECRET, 50);
        assert_eq!(shadow.stage, *stage);
        assert_eq!(real.stage, *stage);
        assert_eq!(shadow.stage.would_be(), real.decision());
        assert_eq!(shadow.decision(), Decision::Allow);
        assert_eq!(shadow.status(), 200);
        assert_eq!(shadow.block_reason(), None);
        assert_eq!(shadow.message(), Some(*message));
        match &shadow.event {
            Some(e) => {
                assert_eq!(e.reason.as_deref(), Some(*reason));
                assert_eq!(e.outcome.as_deref(), Some(*outcome));
            }
            None => assert_eq!(*stage, Stage::Passed),
        }
        let ip = extract_client_ip(req);
        if ip != "1.0.0.3" {
            assert_eq!(shadow_store.get(&format!("ban:default:{}", ip)), Ok(None));
        }
        assert_eq!(shadow_store.get("ban:default:1.0.0.3"), before);
        assert_eq!(
            shadow_store.get(&format!("rate:default:{}", ip)),
            real_store.get(&format!("rate:default:{}", ip))
        );
        let actions = if *stage == Stage::Passed { 0 } else { 1 };
        assert_eq!(get_counter(&shadow_store, "metrics:test_mode_actions_total"), actions);
        assert_eq!(get_counter(&shadow_store, "metrics:blocks_total"), 0);
        assert_eq!(get_counter(&shadow_store, "metrics:challenges_total"), 0);
    }
}

#[test]
fn a_failing_store_lets_requests_pass() {
    let mut cfg = settings(false);
    cfg.rate_limit = 1;
    let req = request("/", "1.2.3.4");
    for _ in 0..3 {
        let v = handle_bot_trap_impl_at(&mut dead_store(), &req, &cfg, SECRET, 0);
        assert_eq!(v.stage, Stage::Passed);
        assert_eq!(v.decision(), Decision::Allow);
    }
    let v = handle_bot_trap_impl_at(&mut dead_store(), &request("/bot-trap", "1.2.3.4"), &cfg, SECRET, 0);
    assert_eq!(v.stage, Stage::Honeypot);
    assert!(!is_banned_at(&mut dead_store(), "default", "1.2.3.4", 0));
    assert_eq!(get_counter(&dead_store(), "metrics:requests_total"), 0);
}

#[test]
fn routes() {
    let mut req = request("/health", "1.2.3.4");
    assert_eq!(route(&req), Route::Health);
    req.path = "/quiz".to_string();
    assert_eq!(route(&req), Route::Site);
    req.method = Method::Post;
    assert_eq!(route(&req), Route::Quiz);
    req.path = "/metrics".to_string();
    assert_eq!(route(&req), Route::Metrics);
    req.path = "/cdp-report".to_string();
    assert_eq!(route(&req), Route::CdpReport);
    req.method = Method::Get;
    assert_eq!(route(&req), Route::Site);
    req.method = Method::Post;
    req.path = "/maze/a/b".to_string();
    assert_eq!(route(&req), Route::Maze);
    req.path = "/trap/x".to_string();
    assert_eq!(route(&req), Route::Maze);
    req.path = "/maze".to_string();
    assert_eq!(route(&req), Route::Site);
    req.path = "/admin/ban".to_string();
    assert_eq!(route(&req), Route::Admin);
    req.path = "/administrator".to_string();
    assert_eq!(route(&req), Route::Admin);
    req.path = "/".to_string();
    assert_eq!(route(&req), Route::Site);
}

#[test]
fn health_check() {
    let mut store = MemStore::new();
    assert_eq!(handle_health(&mut store, "127.0.0.1"), 200);
    assert_eq!(handle_health(&mut store, "::1"), 200);
    assert_eq!(handle_health(&mut store, "unknown"), 200);
    assert_eq!(handle_health(&mut store, "1.2.3.4"), 403);
    assert_eq!(store.get_keys(), Ok(vec![]));
    assert_eq!(handle_health(&mut dead_store(), "127.0.0.1"), 500);
    assert_eq!(handle_health(&mut dead_store(), "1.2.3.4"), 403);
}

#[test]
fn without_the_store_the_site_stays_open() {
    assert_eq!(handle_without_store(&request("/", "1.2.3.4")), Offline::Bypass);
    assert_eq!(handle_without_store(&request("/bot-trap", "1.2.3.4")), Offline::Bypass);
    assert_eq!(handle_without_store(&request("/health", "1.2.3.4")), Offline::Status(403));
    assert_eq!(handle_without_store(&request("/health", "127.0.0.1")), Offline::Status(500));
    assert_eq!(handle_without_store(&request("/metrics", "1.2.3.4")), Offline::Status(500));
    assert_eq!(handle_without_store(&request("/maze/x", "1.2.3.4")), Offline::ServeMaze);
    assert_eq!(handle_without_store(&request("/admin", "1.2.3.4")), Offline::ToAdmin);
}

#[test]
fn a_store_that_breaks_and_recovers() {
    let mut store = Breakable { inner: MemStore::new(), down: false };
    let mut cfg = settings(false);
    cfg.rate_limit = 1;
    let req = request("/", "1.2.3.4");
    assert_eq!(handle_bot_trap_impl_at(&mut store, &req, &cfg, SECRET, 0).stage, Stage::Passed);
    store.down = true;
    assert_eq!(store.get("rate:default:1.2.3.4"), Err(()));
    assert_eq!(store.set("x", b"y"), Err(()));
    assert_eq!(store.delete("x"), Err(()));
    assert_eq!(store.get_keys(), Err(()));
    assert_eq!(handle_bot_trap_impl_at(&mut store, &req, &cfg, SECRET, 1).stage, Stage::Passed);
    store.down = false;
    assert_eq!(store.get("rate:default:1.2.3.4"), Ok(Some(b"0:1".to_vec())));
    assert_eq!(handle_bot_trap_impl_at(&mut store, &req, &cfg, SECRET, 2).stage, Stage::RateLimited);
    assert_eq!(get_counter(&store, "metrics:requests_total"), 2);
}
