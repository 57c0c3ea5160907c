use startsmall::snapshot::{
    render_commit_message, render_meta_file, render_note, snapshot_with_digest, take_snapshot,
};

const HASH: &str = "3616d327ea657f39aca889f147dc634113e1a67900800c2e5185bac36fe5fd07";

#[test]
fn snapshots_record_the_sheet() {
    let s = take_snapshot("https://s", "date,amount\n2024,5\n".to_string()).ok().unwrap();
    assert_eq!(s.csv, "date,amount\n2024,5\n");
    assert_eq!(s.rows, 2);
    assert_eq!(s.sha256, HASH);
    assert_eq!(s.meta, format!("source_url=https://s\nsha256={HASH}\nrows=2\n"));
}

#[test]
fn the_digest_is_one_of_the_bytes() {
    let empty = take_snapshot("u", String::new()).ok().unwrap();
    assert_eq!(
        empty.sha256,
        "e3b0c44298fc1c149afbf4c8996fb92427ae41e4649b934ca495991b7852b855"
    );
    assert_eq!(empty.rows, 0);
    let accents = take_snapshot("u", "nämé,x\n".to_string()).ok().unwrap();
    assert_eq!(
        accents.sha256,
        "63113aa10d60193ea103eacb63c27b9c4bb49a249fb59bcef2a034b7d2b427c7"
    );
}

#[test]
fn a_sheet_with_an_error_has_no_snapshot() {
    let message = take_snapshot("u", "a,b\nc\n".to_string()).err().unwrap();
    assert!(message.starts_with("CSV error: record 1 "), "{message}");
}

#[test]
fn texts_of_a_snapshot() {
    let s = snapshot_with_digest("https://s", "x".to_string(), 12, &vec![0xab, 0x01]);
    assert_eq!(s.sha256, "ab01");
    assert_eq!(
        render_meta_file(&s, 1700000000000000001),
        "source_url=https://s\nsha256=ab01\nrows=12\nsynced_at_unix_ns=1700000000000000001\n"
    );
    assert_eq!(
        render_commit_message(&s, "https://s", 5),
        "sync: snapshot Google Sheet document\n\nsha256: ab01\nrows: 12\nsource: https://s\n\
         file: sheet-snapshots/google-sheet.csv\nmeta: sheet-snapshots/google-sheet.meta\n\
         synced_at_unix_ns: 5"
    );
    assert_eq!(
        render_note(&s, "c0ffee", "https://s"),
        "StartSmall snapshot synced\ncommit: c0ffee\nsha256: ab01\nrows: 12\nsource: https://s"
    );
}

#[test]
fn the_metadata_file_has_one_line_per_key() {
    let s = snapshot_with_digest("https://s", "x".to_string(), 3, &vec![0xff]);
    let file = render_meta_file(&s, 9);
    assert_eq!(
        file.split('\n').collect::<Vec<_>>(),
        vec!["source_url=https://s", "sha256=ff", "rows=3", "synced_at_unix_ns=9", ""]
    );
}
