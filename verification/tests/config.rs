use startsmall::config::{
    resolve_bind_addr, resolve_relays, resolve_sheet_url, DEFAULT_BIND_ADDR, DEFAULT_SHEET_CSV_URL,
};

fn some(s: &str) -> Option<String> {
    Some(s.to_string())
}

#[test]
fn flags_take_precedence() {
    assert_eq!(resolve_sheet_url(some("flag"), some("env")), "flag");
    assert_eq!(resolve_sheet_url(None, some("env")), "env");
    assert_eq!(resolve_sheet_url(None, None), DEFAULT_SHEET_CSV_URL);
    assert_eq!(resolve_sheet_url(some(""), some("env")), "");
    assert_eq!(resolve_bind_addr(some("flag"), some("env")), "flag");
    assert_eq!(resolve_bind_addr(None, some("env")), "env");
    assert_eq!(resolve_bind_addr(None, None), "127.0.0.1:0");
    assert_eq!(DEFAULT_BIND_ADDR, "127.0.0.1:0");
    assert!(DEFAULT_SHEET_CSV_URL.ends_with("/export?format=csv&gid=0"));
}

#[test]
fn relays_are_listed() {
    assert_eq!(
        resolve_relays(None),
        vec!["wss://relay.damus.io", "wss://relay.nostr.band", "wss://nostr.wine"]
    );
    assert_eq!(
        resolve_relays(Some("wss://my-relay.example.com,wss://other.example.com")),
        vec!["wss://my-relay.example.com", "wss://other.example.com"]
    );
    assert_eq!(resolve_relays(Some(" a ,, b,\t")), vec!["a", "b"]);
    assert_eq!(resolve_relays(Some("")), Vec::<String>::new());
}
