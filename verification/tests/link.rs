use startsmall::link::{
    bare_domain, detect_link, is_domain_header, is_twitter_header, link_in_column,
    lowered_is_domain, lowered_is_twitter, normalized_url, render_cell, render_link,
    twitter_handle, twitter_label,
};

fn pair(label: &str, href: &str) -> Option<(String, String)> {
    Some((label.to_string(), href.to_string()))
}

#[test]
fn twitter_headings() {
    assert!(is_twitter_header("Twitter"));
    assert!(is_twitter_header("TWITTER handle"));
    assert!(is_twitter_header("X"));
    assert!(is_twitter_header("x"));
    assert!(is_twitter_header("X (Twitter)"));
    assert!(is_twitter_header("É Twitter"));
    assert!(!is_twitter_header("xx"));
    assert!(!is_twitter_header("Link"));
    assert!(!is_twitter_header(""));
    assert!(lowered_is_twitter("twitter"));
    assert!(!lowered_is_twitter("Twitter"));
}

#[test]
fn domain_headings() {
    assert!(is_domain_header("Domain"));
    assert!(is_domain_header("my DOMAINS"));
    assert!(is_domain_header("Ü-DOMAIN"));
    assert!(!is_domain_header("url"));
    assert!(lowered_is_domain("domain"));
    assert!(!lowered_is_domain("DOMAIN"));
}

#[test]
fn addresses_are_spelled_out() {
    assert_eq!(normalized_url("http://a.b").as_deref(), Some("http://a.b"));
    assert_eq!(normalized_url("https://a b").as_deref(), Some("https://a b"));
    assert_eq!(normalized_url("twitter.com/jack").as_deref(), Some("https://twitter.com/jack"));
    assert_eq!(normalized_url("//x.com/jack").as_deref(), Some("https://x.com/jack"));
    assert_eq!(normalized_url("@@x.com/jack").as_deref(), Some("https://x.com/x.com/jack"));
    assert_eq!(normalized_url("x.com"), None);
    assert_eq!(normalized_url("ftp://a.b"), None);
    assert_eq!(normalized_url(""), None);
}

#[test]
fn handles_are_found() {
    assert_eq!(twitter_handle("@jack"), Some("jack"));
    assert_eq!(twitter_handle("  @@jack  "), Some("jack"));
    assert_eq!(twitter_handle("https://x.com/jack/status/1"), Some("jack"));
    assert_eq!(twitter_handle("https://www.x.com/jack"), Some("jack"));
    assert_eq!(twitter_handle("https://twitter.com/jack"), Some("jack"));
    assert_eq!(twitter_handle("https://www.twitter.com/jack"), Some("jack"));
    assert_eq!(twitter_handle("http://x.com/jack"), Some("http:"));
    assert_eq!(twitter_handle("@"), None);
    assert_eq!(twitter_handle("/jack"), None);
    assert_eq!(twitter_handle(""), None);
}

#[test]
fn labels_are_handles_where_there_is_one() {
    assert_eq!(twitter_label("https://x.com/jack"), "@jack");
    assert_eq!(twitter_label("https://x.com/"), "https://x.com/");
}

#[test]
fn domains_are_found() {
    assert_eq!(bare_domain("example.com"), Some("example.com"));
    assert_eq!(bare_domain(" https://www.example.com/path "), Some("example.com"));
    assert_eq!(bare_domain("http://www.www.example.com"), Some("example.com"));
    assert_eq!(bare_domain("dir/page.html"), Some("dir"));
    assert_eq!(bare_domain("two words.com"), None);
    assert_eq!(bare_domain("word"), None);
    assert_eq!(bare_domain("www."), None);
}

#[test]
fn links_are_detected() {
    assert_eq!(detect_link("", None), None);
    assert_eq!(detect_link("   ", Some("Twitter")), None);
    assert_eq!(detect_link(" https://a.b/c ", None), pair("https://a.b/c", "https://a.b/c"));
    assert_eq!(
        detect_link("https://x.com/jack", Some("Twitter")),
        pair("@jack", "https://x.com/jack")
    );
    assert_eq!(detect_link("@jack", Some("X")), pair("@jack", "https://x.com/jack"));
    assert_eq!(detect_link("@", Some("X")), None);
    assert_eq!(detect_link("@jack", None), None);
    assert_eq!(detect_link("example.com", Some("Domain")), pair("example.com", "https://example.com"));
    assert_eq!(detect_link("example.com/x", Some("Why")), pair("example.com", "https://example.com"));
    assert_eq!(detect_link("no domain", Some("Domain")), None);
    assert_eq!(link_in_column("jack", true), pair("@jack", "https://x.com/jack"));
    assert_eq!(link_in_column("jack", false), None);
}

#[test]
fn links_lead_to_web_addresses() {
    for value in ["javascript:alert(1)", "javascript:x.com/", "@x.com/", "/a.b", "data:a.b", "ftp://a.b"] {
        for header in [None, Some("Twitter"), Some("Domain")] {
            if let Some((_, href)) = detect_link(value, header) {
                assert!(href.starts_with("http://") || href.starts_with("https://"), "{href}");
            }
        }
    }
}

#[test]
fn cells_are_rendered() {
    assert_eq!(render_cell("a < b", None), "a &lt; b");
    assert_eq!(render_cell(" padded ", None), " padded ");
    assert_eq!(
        render_cell("http://a.b/?x=1&y=\"2\"", None),
        "<a class=\"cell-link\" href=\"http://a.b/?x=1&amp;y=&quot;2&quot;\" target=\"_blank\" \
         rel=\"noreferrer\">http://a.b/?x=1&amp;y=&quot;2&quot;</a>"
    );
    assert_eq!(
        render_cell("jack", Some("twitter")),
        "<a class=\"cell-link\" href=\"https://x.com/jack\" target=\"_blank\" \
         rel=\"noreferrer\">@jack</a>"
    );
    assert_eq!(render_link("v", None), "v");
}
