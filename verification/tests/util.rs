use fx_core::util::{content_hash, encode_tid, gen_session_token, parse_repo_uri, uri_to_node_id, TidClock};

#[test]
fn tid_length_is_13() {
    let mut clock = TidClock::new();
    let t = clock.tid();
    assert_eq!(t.len(), 13, "TID should be 13 characters, got: {t}");
}

#[test]
fn tid_is_ascii_base32() {
    let mut clock = TidClock::new();
    let t = clock.tid();
    let valid = b"234567abcdefghijklmnopqrstuvwxyz";
    for ch in t.bytes() {
        assert!(valid.contains(&ch), "unexpected char '{}' in TID", ch as char);
    }
}

#[test]
fn tid_uniqueness() {
    let mut clock = TidClock::new();
    let tids: Vec<String> = (0..1000).map(|_| clock.tid()).collect();
    let set: std::collections::HashSet<&String> = tids.iter().collect();
    assert_eq!(set.len(), tids.len(), "TIDs should be unique even in a tight loop");
}

#[test]
fn tid_monotonically_increasing() {
    let mut clock = TidClock::new();
    let tids: Vec<String> = (0..100).map(|_| clock.tid()).collect();
    for pair in tids.windows(2) {
        assert!(pair[1] > pair[0], "TIDs should be strictly increasing: {} vs {}", pair[0], pair[1]);
    }
}

#[test]
fn tid_encoding_orders_like_values() {
    assert_eq!(encode_tid(0), "2222222222222");
    assert_eq!(encode_tid(31), "222222222222z");
    assert_eq!(encode_tid(32), "2222222222232");
    assert!(encode_tid(1_700_000_000_000_000) < encode_tid(1_700_000_000_000_001));
    assert!(encode_tid(31) < encode_tid(32));
    assert!(encode_tid(u64::MAX - 1) < encode_tid(u64::MAX));
}

#[test]
fn tid_clock_advances_past_stale_readings() {
    let mut clock = TidClock::new();
    assert_eq!(clock.advance(100), 100);
    assert_eq!(clock.advance(50), 101);
    assert_eq!(clock.advance(101), 102);
    assert_eq!(clock.advance(500), 500);
}

#[test]
fn content_hash_deterministic() {
    assert_eq!(content_hash("hello"), content_hash("hello"));
}

#[test]
fn content_hash_differs_for_different_input() {
    assert_ne!(content_hash("hello"), content_hash("world"));
}

#[test]
fn content_hash_is_hex_string() {
    let h = content_hash("test");
    assert!(h.chars().all(|c| c.is_ascii_hexdigit()), "hash should be hex: {h}");
    assert_eq!(h.len(), 64, "blake3 hex hash should be 64 chars");
}

#[test]
fn content_hash_known_value() {
    // BLAKE3 of the empty input.
    assert_eq!(content_hash(""), "af1349b9f5f9a1a6a0404dea36dcc9499bcb25c9adc112b7cc9a93cae41f3262");
}

#[test]
fn session_token_length() {
    assert_eq!(gen_session_token().len(), 64);
}

#[test]
fn session_token_is_hex() {
    assert!(gen_session_token().chars().all(|c| c.is_ascii_hexdigit()));
}

#[test]
fn session_token_uniqueness() {
    assert_ne!(gen_session_token(), gen_session_token());
}

#[test]
fn uri_to_node_id_replaces_slashes_and_colons() {
    let node_id = uri_to_node_id("at://did:plc:abc/app.bsky.feed.post/123");
    assert!(!node_id.contains('/'));
    assert!(!node_id.contains(':'));
}

#[test]
fn uri_to_node_id_exact() {
    assert_eq!(uri_to_node_id("at://did:plc:abc/x"), "at___did_plc_abc_x");
}

#[test]
fn parse_repo_uri_extracts_did_and_rkey() {
    let (did, rkey) = parse_repo_uri("at://did:plc:abc/at.nightbo.work/quantum-intro").unwrap();
    assert_eq!(did, "did:plc:abc");
    assert_eq!(rkey, "quantum-intro");
}

#[test]
fn parse_repo_uri_rejects_non_at_scheme() {
    assert!(parse_repo_uri("server://qa/abc").is_none());
    assert!(parse_repo_uri("nightboat://article/at://foo/lex/bar/sub.md").is_none());
}

#[test]
fn parse_repo_uri_rejects_truncated_paths() {
    assert!(parse_repo_uri("at://did:plc:abc").is_none());
    assert!(parse_repo_uri("at://did:plc:abc/at.nightbo.work").is_none());
    assert!(parse_repo_uri("at://did:plc:abc/at.nightbo.work/").is_none());
}

#[test]
fn now_rfc3339_parses() {
    let ts = fx_core::util::now_rfc3339();
    chrono::DateTime::parse_from_rfc3339(&ts).expect("should be valid RFC3339");
}
