use bot_trap::ban::{judge_record, BanEntry};
use bot_trap::record::{decode_record, encode_record};

#[test]
fn records_are_what_serde_json_writes() {
    for reason in ["test", "", "a\"b\\c", "line\nbreak\ttab\r\u{8}\u{c}", "\u{1}\u{1f}\u{7f}", "é…😀"] {
        let quoted = serde_json::to_string(&serde_json::Value::String(reason.to_string())).unwrap();
        let expected = format!("{{\"reason\":{},\"expires\":{}}}", quoted, 42u64);
        assert_eq!(encode_record(reason, 42), expected.into_bytes(), "{:?}", reason);
    }
}

#[test]
fn records_read_back() {
    for reason in ["test", "", "a\"b\\c", "line\nbreak\ttab\r\u{8}\u{c}", "\u{1}\u{1f}\u{7f}", "é…😀"] {
        for expires in [0u64, 1, 1234567890, u64::MAX] {
            let bytes = encode_record(reason, expires);
            assert_eq!(decode_record(&bytes), Some((reason.to_string(), expires)));
            let parsed: serde_json::Value = serde_json::from_slice(&bytes).unwrap();
            assert_eq!(parsed["reason"].as_str(), Some(reason));
            assert_eq!(parsed["expires"].as_u64(), Some(expires));
        }
    }
}

#[test]
fn what_writing_never_produces_is_corrupt() {
    for bad in [
        "",
        "{}",
        "not json",
        "{\"reason\":\"x\",\"expires\":01}",
        "{\"reason\":\"x\",\"expires\":+1}",
        "{\"reason\":\"x\",\"expires\":}",
        "{\"reason\":\"x\",\"expires\":1} ",
        "{\"reason\":\"x\", \"expires\":1}",
        "{\"expires\":1,\"reason\":\"x\"}",
        "{\"reason\":\"x\",\"expires\":18446744073709551616}",
        "{\"reason\":\"\\u0041\",\"expires\":1}",
        "{\"reason\":\"\\u000a\",\"expires\":1}",
        "{\"reason\":\"\\/\",\"expires\":1}",
        "{\"reason\":\"a\nb\",\"expires\":1}",
        "{\"reason\":\"x",
        "{\"reason\":\"x\\",
    ] {
        assert_eq!(decode_record(bad.as_bytes()), None, "{:?}", bad);
        assert!(BanEntry::from_bytes(bad.as_bytes()).is_none());
        assert!(!judge_record(bad.as_bytes(), 0));
    }
    assert_eq!(decode_record(b"{\"reason\":\"\xff\",\"expires\":1}"), None);
}

#[test]
fn a_record_is_in_force_before_its_expiry() {
    let bytes = encode_record("r", 100);
    assert!(judge_record(&bytes, 0));
    assert!(judge_record(&bytes, 99));
    assert!(!judge_record(&bytes, 100));
    assert!(!judge_record(&bytes, u64::MAX));
}
