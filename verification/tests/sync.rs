use startsmall::snapshot::{snapshot_with_digest, Snapshot};
use startsmall::sync::{
    enter_stage, start_sync, step_after_fetch, step_sync, step_to_announcement, step_to_note,
    Phase, Stage, SyncAction, SyncEvent, SyncRequest, SyncResult, BARE_REPOSITORY, OUT_OF_STEP,
};

const KEY: &str = "0000000000000000000000000000000000000000000000000000000000000001";
const BODY: &str = "date,amount\n2024,5\n";
const HASH: &str = "3616d327ea657f39aca889f147dc634113e1a67900800c2e5185bac36fe5fd07";

fn request(privkey: Option<&str>) -> SyncRequest {
    SyncRequest {
        url: "https://s".to_string(),
        privkey: privkey.map(|k| k.to_string()),
        relays: Some("wss://r.example".to_string()),
    }
}

fn name(action: &SyncAction) -> String {
    match action {
        SyncAction::Fetch { url } => format!("fetch {url}"),
        SyncAction::ReadClock => "clock".to_string(),
        SyncAction::DiscoverRepository => "discover".to_string(),
        SyncAction::CreateDir { path } => format!("mkdir {path}"),
        SyncAction::WriteFile { path, contents } => format!("write {path} {contents}"),
        SyncAction::OpenIndex => "index".to_string(),
        SyncAction::AddToIndex { path } => format!("add {path}"),
        SyncAction::WriteIndex => "write index".to_string(),
        SyncAction::WriteTree => "write tree".to_string(),
        SyncAction::FindTree => "find tree".to_string(),
        SyncAction::ReadSignature => "signature".to_string(),
        SyncAction::MakeSignature { name, email } => format!("sign {name} <{email}>"),
        SyncAction::ReadHead => "head".to_string(),
        SyncAction::PeelHead => "peel".to_string(),
        SyncAction::Commit { message, on_head } => format!("commit {on_head} {message}"),
        SyncAction::PublishNote { privkey, content, relays } => {
            format!("note {privkey} {content} {relays:?}")
        }
        SyncAction::ReadRepository => "survey".to_string(),
        SyncAction::PublishAnnouncement { privkey, announcement, relays } => format!(
            "announce {privkey} {} {:?} {:?} {:?} {relays:?}",
            announcement.id, announcement.web, announcement.clone_urls, announcement.relays
        ),
        SyncAction::Finish { .. } => "finish".to_string(),
        SyncAction::Fail { message } => format!("fail {message}"),
    }
}

fn message(phase: &Phase, action: &SyncAction) -> String {
    assert!(matches!(phase, Phase::Over));
    match action {
        SyncAction::Fail { message } => message.clone(),
        _ => panic!("no failure"),
    }
}

/// Drives a run; `fail_at` names the action that fails. Returns the names of the actions and
/// the last action.
fn drive(req: &SyncRequest, fail_at: &str) -> (Vec<String>, SyncAction) {
    let mut names = Vec::new();
    let (mut phase, mut action) = start_sync(req);
    loop {
        names.push(name(&action));
        let failing = !fail_at.is_empty() && name(&action).starts_with(fail_at);
        let event = if failing {
            SyncEvent::Failed { message: "boom".to_string() }
        } else {
            match &action {
                SyncAction::Finish { .. } | SyncAction::Fail { .. } => return (names, action),
                SyncAction::Fetch { .. } => SyncEvent::Body { text: BODY.to_string() },
                SyncAction::ReadClock => SyncEvent::Time { unix_ns: 42 },
                SyncAction::DiscoverRepository => SyncEvent::Repository { bare: false },
                SyncAction::Commit { .. } => SyncEvent::Committed { id: "c0ffee".to_string() },
                SyncAction::PublishNote { .. } => SyncEvent::Published { id: "n1".to_string() },
                SyncAction::ReadRepository => SyncEvent::Surveyed {
                    cname: Some("example.com\n".to_string()),
                    origin: Some("git@github.com:o/r.git".to_string()),
                },
                SyncAction::PublishAnnouncement { .. } => {
                    SyncEvent::Published { id: "a1".to_string() }
                }
                _ => SyncEvent::Done,
            }
        };
        (phase, action) = step_sync(req, phase, event);
    }
}

fn finished(action: SyncAction) -> SyncResult {
    match action {
        SyncAction::Finish { result } => result,
        _ => panic!("not finished"),
    }
}

fn recording() -> Vec<String> {
    let commit = format!(
        "commit true sync: snapshot Google Sheet document\n\nsha256: {HASH}\nrows: 2\n\
         source: https://s\nfile: sheet-snapshots/google-sheet.csv\n\
         meta: sheet-snapshots/google-sheet.meta\nsynced_at_unix_ns: 42"
    );
    vec![
        "fetch https://s".to_string(),
        "clock".to_string(),
        "discover".to_string(),
        "mkdir sheet-snapshots".to_string(),
        format!("write sheet-snapshots/google-sheet.csv {BODY}"),
        format!(
            "write sheet-snapshots/google-sheet.meta source_url=https://s\nsha256={HASH}\n\
             rows=2\nsynced_at_unix_ns=42\n"
        ),
        "index".to_string(),
        "add sheet-snapshots/google-sheet.csv".to_string(),
        "add sheet-snapshots/google-sheet.meta".to_string(),
        "write index".to_string(),
        "write tree".to_string(),
        "find tree".to_string(),
        "signature".to_string(),
        "head".to_string(),
        "peel".to_string(),
        commit,
    ]
}

#[test]
fn a_sync_without_a_key_ends_with_the_commit() {
    let (names, last) = drive(&request(None), "");
    let mut expected = recording();
    expected.push("finish".to_string());
    assert_eq!(names, expected);
    let result = finished(last);
    assert_eq!(result.snapshot.csv, BODY);
    assert_eq!(result.snapshot.sha256, HASH);
    assert_eq!(result.snapshot.rows, 2);
    assert_eq!(result.commit_id, "c0ffee");
    assert!(result.changed);
    assert_eq!(result.nostr_event_id, None);
    assert_eq!(result.nip34_event_id, None);
}

#[test]
fn a_sync_with_a_key_is_announced_after_the_commit() {
    let (names, last) = drive(&request(Some(KEY)), "");
    let mut expected = recording();
    expected.push(format!(
        "note {KEY} StartSmall snapshot synced\ncommit: c0ffee\nsha256: {HASH}\nrows: 2\n\
         source: https://s [\"wss://r.example\"]"
    ));
    expected.push("survey".to_string());
    expected.push(format!(
        "announce {KEY} startsmall [\"https://example.com/\"] [\"https://github.com/o/r\"] \
         [\"wss://r.example\"] [\"wss://r.example\"]"
    ));
    expected.push("finish".to_string());
    assert_eq!(names, expected);
    assert_eq!(names.len(), 20);
    let result = finished(last);
    assert_eq!(result.nostr_event_id.as_deref(), Some("n1"));
    assert_eq!(result.nip34_event_id.as_deref(), Some("a1"));
}

#[test]
fn a_key_that_cannot_be_used_fails_after_the_commit() {
    let (names, last) = drive(&request(Some("no key")), "");
    assert_eq!(names.len(), 17);
    assert!(names[15].starts_with("commit true"));
    assert!(matches!(last, SyncAction::Fail { .. }));
}

#[test]
fn without_a_signature_the_fallback_signs() {
    let (names, _) = drive(&request(None), "signature");
    assert_eq!(names[13], "sign Start Small Bot <start-small-bot@example.com>");
    assert_eq!(names[14], "head");
    assert_eq!(names.last().unwrap(), "finish");
}

#[test]
fn without_a_head_the_commit_is_the_first() {
    let (names, _) = drive(&request(None), "head");
    assert!(names[14].starts_with("commit false sync: snapshot"));
    assert_eq!(names.last().unwrap(), "finish");
}

#[test]
fn errors_end_the_sync() {
    for fail_at in [
        "fetch", "clock", "discover", "mkdir", "write sheet-snapshots/google-sheet.csv",
        "write sheet-snapshots/google-sheet.meta", "index", "add sheet-snapshots/google-sheet.csv",
        "write index", "write tree", "find tree", "peel", "commit", "note", "announce",
    ] {
        let (names, last) = drive(&request(Some(KEY)), fail_at);
        assert_eq!(name(&last), "fail boom", "{fail_at}");
        assert!(names[names.len() - 2].starts_with(fail_at), "{fail_at}");
    }
}

#[test]
fn a_sheet_that_cannot_be_read_ends_the_sync() {
    let req = request(None);
    let (phase, _) = start_sync(&req);
    let (phase, action) = step_sync(&req, phase, SyncEvent::Body { text: "a,b\nc\n".to_string() });
    assert!(message(&phase, &action).starts_with("CSV error"));
    let (phase, action) = step_after_fetch(Err("bad".to_string()));
    assert_eq!(message(&phase, &action), "bad");
}

fn snapshot() -> Snapshot {
    snapshot_with_digest("https://s", "x".to_string(), 1, &vec![1])
}

#[test]
fn bare_repositories_are_refused() {
    let req = request(None);
    let (phase, action) = enter_stage("https://s", Stage::Discover, snapshot(), 1);
    assert_eq!(name(&action), "discover");
    let (phase, action) = step_sync(&req, phase, SyncEvent::Repository { bare: true });
    assert_eq!(message(&phase, &action), "repository must not be bare");
    assert_eq!(BARE_REPOSITORY, "repository must not be bare");
}

#[test]
fn events_that_were_not_asked_for_end_the_sync() {
    let req = request(None);
    let (phase, _) = start_sync(&req);
    let (phase, action) = step_sync(&req, phase, SyncEvent::Done);
    assert_eq!(message(&phase, &action), OUT_OF_STEP);
    let (phase, action) = step_sync(&req, phase, SyncEvent::Done);
    assert_eq!(message(&phase, &action), OUT_OF_STEP);
}

#[test]
fn publications_that_were_not_prepared_are_not_made() {
    let req = request(Some(KEY));
    let (phase, action) =
        step_to_note(&req, KEY, snapshot(), "c".to_string(), Err("key".to_string()));
    assert_eq!(message(&phase, &action), "key");
    let (phase, action) =
        step_to_note(&req, KEY, snapshot(), "c".to_string(), Ok("text".to_string()));
    assert!(matches!(phase, Phase::Note { .. }));
    assert_eq!(name(&action), format!("note {KEY} text [\"wss://r.example\"]"));
    let (phase, action) = step_to_announcement(
        &req,
        KEY,
        snapshot(),
        "c".to_string(),
        "n".to_string(),
        Err("key".to_string()),
    );
    assert_eq!(message(&phase, &action), "key");
}
