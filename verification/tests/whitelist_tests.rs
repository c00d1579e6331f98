use bot_trap::whitelist::{is_listed_exactly, is_path_whitelisted, is_whitelisted};

fn list(items: &[&str]) -> Vec<String> {
    items.iter().map(|s| s.to_string()).collect()
}

#[test]
fn test_exact_ip_match() {
    let wl = vec!["1.2.3.4".to_string()];
    assert!(is_whitelisted("1.2.3.4", &wl));
    assert!(!is_whitelisted("1.2.3.5", &wl));
}

#[test]
fn test_cidr_match() {
    let wl = vec!["192.168.1.0/24".to_string()];
    assert!(is_whitelisted("192.168.1.42", &wl));
    assert!(!is_whitelisted("192.168.2.1", &wl));
}

#[test]
fn test_inline_comment_and_whitespace() {
    let wl = vec!["10.0.0.0/8 # corp network".to_string(), "  8.8.8.8   # google dns ".to_string()];
    assert!(is_whitelisted("10.1.2.3", &wl));
    assert!(is_whitelisted("8.8.8.8", &wl));
    assert!(!is_whitelisted("8.8.4.4", &wl));
}

#[test]
fn test_empty_and_comment_only_lines() {
    let wl = vec!["# just a comment".to_string(), "   ".to_string(), "172.16.0.0/12".to_string()];
    assert!(is_whitelisted("172.16.5.5", &wl));
    assert!(!is_whitelisted("192.0.2.1", &wl));
}

#[test]
fn what_is_no_address_is_on_no_list() {
    let wl = list(&["unknown", "not-an-ip", "0.0.0.0/0"]);
    assert!(!is_whitelisted("unknown", &wl));
    assert!(!is_whitelisted("not-an-ip", &wl));
    assert!(!is_whitelisted("", &wl));
    assert!(is_listed_exactly("unknown", &wl));
    assert!(is_whitelisted("9.9.9.9", &wl));
}

#[test]
fn ipv6_addresses_and_networks() {
    let wl = list(&["fd00::/8", "::1"]);
    assert!(is_whitelisted("fd00::1", &wl));
    assert!(is_whitelisted("::1", &wl));
    assert!(!is_whitelisted("fe80::1", &wl));
    assert!(!is_whitelisted("10.0.0.1", &wl));
}

#[test]
fn a_network_entry_must_be_a_network() {
    let wl = list(&["192.168.1.0/33", "192.168.1/24", "/24"]);
    assert!(!is_whitelisted("192.168.1.1", &wl));
}

#[test]
fn exact_listing_sets_comments_aside() {
    let wl = list(&["  1.1.1.1 # one", "#2.2.2.2", ""]);
    assert!(is_listed_exactly("1.1.1.1", &wl));
    assert!(!is_listed_exactly("2.2.2.2", &wl));
    assert!(!is_listed_exactly("", &wl));
}

#[test]
fn path_whitelist_exact_and_prefix() {
    let wl = list(&["/webhook/stripe", "/api/public/*  # open", "   ", "# none"]);
    assert!(is_path_whitelisted("/webhook/stripe", &wl));
    assert!(!is_path_whitelisted("/webhook/stripe/x", &wl));
    assert!(is_path_whitelisted("/api/public/", &wl));
    assert!(is_path_whitelisted("/api/public/a/b", &wl));
    assert!(!is_path_whitelisted("/api/publi", &wl));
    assert!(!is_path_whitelisted("", &wl));
    assert!(is_path_whitelisted("/anything", &list(&["*"])));
}
