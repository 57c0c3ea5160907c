use startsmall::report::{serve_banner, sync_report};
use startsmall::snapshot::snapshot_with_digest;
use startsmall::sync::SyncResult;

fn outcome(changed: bool, id: Option<&str>) -> SyncResult {
    SyncResult {
        snapshot: snapshot_with_digest("u", String::new(), 7, &vec![0xab]),
        commit_id: "c".to_string(),
        changed,
        nostr_event_id: id.map(|s| s.to_string()),
        nip34_event_id: id.map(|s| s.to_string()),
    }
}

#[test]
fn the_server_says_where_it_listens() {
    assert_eq!(
        serve_banner(Some("127.0.0.1:8080"), "127.0.0.1:0", "https://s"),
        vec![
            "Serving spreadsheet viewer at http://127.0.0.1:8080",
            "Fetching data from https://s",
            "POST /sync to snapshot the sheet into git",
        ]
    );
    assert_eq!(serve_banner(None, "/run/s", "u")[0], "Serving spreadsheet viewer on /run/s");
}

#[test]
fn a_sync_is_reported() {
    assert_eq!(
        sync_report(&outcome(true, None), "https://s"),
        vec![
            "Fetched 7 rows from https://s",
            "Snapshot hash: ab",
            "Commit: c",
            "Committed snapshot to git.",
        ]
    );
    assert_eq!(
        sync_report(&outcome(false, Some("e")), "https://s"),
        vec![
            "Fetched 7 rows from https://s",
            "Snapshot hash: ab",
            "Commit: c",
            "Nostr event: e",
            "NIP-34 event: e",
            "No content change; repository already matched the sheet.",
        ]
    );
}
