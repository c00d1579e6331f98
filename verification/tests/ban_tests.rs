use bot_trap::ban::{ban_ip, ban_ip_at, is_banned, is_banned_at, unban_ip, BanEntry};
use bot_trap::store::{KeyValueStore, MemStore};

#[test]
fn test_ban_and_expiry() {
    let mut store = MemStore::new();
    let site_id = "testsite";
    let ip = "1.2.3.4";
    ban_ip(&mut store, site_id, ip, "test", 1);
    assert!(is_banned(&mut store, site_id, ip));
}

#[test]
fn test_ban_and_unban_unknown_ip() {
    let mut store = MemStore::new();
    let site_id = "testsite";
    let ip = "unknown";
    ban_ip(&mut store, site_id, ip, "test", 60);
    assert!(is_banned(&mut store, site_id, ip));
    unban_ip(&mut store, site_id, ip);
    assert!(!is_banned(&mut store, site_id, ip));
}

#[test]
fn test_unban_ip_function() {
    let mut store = MemStore::new();
    let site_id = "testsite";
    let ip = "192.168.1.100";
    ban_ip(&mut store, site_id, ip, "test_reason", 3600);
    assert!(is_banned(&mut store, site_id, ip), "IP should be banned after ban_ip");
    unban_ip(&mut store, site_id, ip);
    assert!(!is_banned(&mut store, site_id, ip), "IP should not be banned after unban_ip");
}

#[test]
fn test_unban_ip_nonexistent() {
    let mut store = MemStore::new();
    let site_id = "testsite";
    let ip = "10.0.0.1";
    unban_ip(&mut store, site_id, ip);
    assert!(!is_banned(&mut store, site_id, ip), "Non-existent IP should not be banned");
}

#[test]
fn test_ban_entry_serialization() {
    let entry = BanEntry { reason: "test".to_string(), expires: 1234567890 };
    let json = entry.to_bytes();
    let de = BanEntry::from_bytes(&json).unwrap();
    assert_eq!(de.reason, "test");
    assert_eq!(de.expires, 1234567890);
}

#[test]
fn ban_record_is_compact_json() {
    let entry = BanEntry { reason: "test".to_string(), expires: 1234567890 };
    assert_eq!(entry.to_bytes(), b"{\"reason\":\"test\",\"expires\":1234567890}".to_vec());
}

#[test]
fn ban_expires_exactly_at_its_expiry() {
    let mut store = MemStore::new();
    ban_ip_at(&mut store, "s", "9.9.9.9", "test", 10, 1000);
    assert!(is_banned_at(&mut store, "s", "9.9.9.9", 1000));
    assert!(is_banned_at(&mut store, "s", "9.9.9.9", 1009));
    assert!(!is_banned_at(&mut store, "s", "9.9.9.9", 1010));
    assert_eq!(store.get("ban:s:9.9.9.9"), Ok(None));
}
