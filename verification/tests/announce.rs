use startsmall::announce::{
    add_address, announce_addresses, cname_address, normalize_clone_url, prepare_announcement,
    prepare_note, resolve_clone_urls, resolve_relay_urls, resolve_web_urls,
};
use startsmall::snapshot::snapshot_with_digest;

const KEY: &str = "0000000000000000000000000000000000000000000000000000000000000001";
const NSEC: &str = "nsec1j4c6269y9w0q2er2xjw8sv2ehyrtfxq3jwgdlxj6qfn8z4gjsq5qfvfk99";

#[test]
fn remotes_are_normalized() {
    let clone = |remote: &str| normalize_clone_url(remote);
    assert_eq!(clone("https://github.com/o/r.git").as_deref(), Some("https://github.com/o/r"));
    assert_eq!(clone("http://h/r").as_deref(), Some("http://h/r"));
    assert_eq!(clone("https://h/r.git.git").as_deref(), Some("https://h/r"));
    assert_eq!(clone("git@github.com:o/r.git").as_deref(), Some("https://github.com/o/r"));
    assert_eq!(clone("ssh://git@github.com/o/r.git").as_deref(), Some("https://github.com/o/r"));
    assert_eq!(clone("git@gitlab.com:o/r.git"), None);
    assert_eq!(clone("/srv/r.git"), None);
    assert_eq!(clone("https://.git").as_deref(), Some("https://"));
}

#[test]
fn cname_files_name_the_site() {
    assert_eq!(cname_address(Some(" example.com\n")).as_deref(), Some("https://example.com"));
    assert_eq!(cname_address(Some("\n")), None);
    assert_eq!(cname_address(None), None);
    assert_eq!(resolve_web_urls(Some("Example.com\n")), vec!["https://example.com/"]);
    assert_eq!(resolve_web_urls(Some("two words")), Vec::<String>::new());
    assert_eq!(resolve_web_urls(Some("  ")), Vec::<String>::new());
    assert_eq!(resolve_web_urls(None), Vec::<String>::new());
}

#[test]
fn origins_are_read_as_addresses() {
    assert_eq!(
        resolve_clone_urls(Some("git@github.com:o/r.git")),
        vec!["https://github.com/o/r"]
    );
    assert_eq!(resolve_clone_urls(Some("https://HOST")), vec!["https://host/"]);
    assert_eq!(resolve_clone_urls(Some("https://")), Vec::<String>::new());
    assert_eq!(resolve_clone_urls(Some("file:///r")), Vec::<String>::new());
    assert_eq!(resolve_clone_urls(None), Vec::<String>::new());
}

#[test]
fn relays_that_are_no_relay_addresses_are_left_out() {
    assert_eq!(
        resolve_relay_urls(Some("wss://A.example, https://b.example, nonsense, ws://c.example/")),
        vec!["wss://a.example", "ws://c.example/"]
    );
    assert_eq!(resolve_relay_urls(None).len(), 3);
}

#[test]
fn addresses_are_added_where_there_is_one() {
    let mut list = vec!["a".to_string()];
    add_address(&mut list, None);
    add_address(&mut list, Some("b".to_string()));
    assert_eq!(list, vec!["a", "b"]);
}

#[test]
fn announcements_name_the_repository() {
    let a = announce_addresses(vec!["w".to_string()], vec![], vec!["r".to_string()]);
    assert_eq!(a.id, "startsmall");
    assert_eq!(a.name, "StartSmall");
    assert_eq!(a.description, "Google Sheet snapshot viewer and git sync");
    assert_eq!((a.web, a.clone_urls, a.relays), (vec!["w".to_string()], vec![], vec!["r".to_string()]));
    let b = prepare_announcement(
        KEY,
        Some("example.com"),
        Some("git@github.com:o/r.git"),
        Some("wss://r.example"),
    )
    .ok()
    .unwrap();
    assert_eq!(b.web, vec!["https://example.com/"]);
    assert_eq!(b.clone_urls, vec!["https://github.com/o/r"]);
    assert_eq!(b.relays, vec!["wss://r.example"]);
}

#[test]
fn keys_that_cannot_be_used_are_refused() {
    let s = snapshot_with_digest("u", String::new(), 0, &vec![]);
    let message = prepare_note("not a key", &s, "c", "u").err().unwrap();
    assert!(!message.is_empty());
    assert_ne!(message, "not a key");
    assert_eq!(prepare_announcement("not a key", None, None, None).err().unwrap(), message);
    assert!(prepare_note(NSEC, &s, "c", "u").is_ok());
    assert_eq!(
        prepare_note(KEY, &s, "c", "u").ok().unwrap(),
        "StartSmall snapshot synced\ncommit: c\nsha256: \nrows: 0\nsource: u"
    );
}
