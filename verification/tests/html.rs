use startsmall::html::escape_html;

#[test]
fn markup_is_escaped() {
    assert_eq!(escape_html(""), "");
    assert_eq!(escape_html("plain text"), "plain text");
    assert_eq!(
        escape_html("<a href=\"x\">'&'</a>"),
        "&lt;a href=&quot;x&quot;&gt;&#39;&amp;&#39;&lt;/a&gt;"
    );
}

#[test]
fn escaping_is_five_replacements() {
    for s in ["&", "&amp;", "<&>", "\"'", "é<✓", "&lt;", "&#39;"] {
        let expected = s
            .replace('&', "&amp;")
            .replace('<', "&lt;")
            .replace('>', "&gt;")
            .replace('"', "&quot;")
            .replace('\'', "&#39;");
        assert_eq!(escape_html(s), expected);
    }
}

#[test]
fn escaped_text_holds_no_markup() {
    let s = escape_html("<script>alert('x\"y')</script>");
    assert!(!s.contains(['<', '>', '"', '\'']));
}

#[test]
fn escaping_is_undone_by_reading_the_entities() {
    let s = "a<b>&\"c'&amp;";
    let back = escape_html(s)
        .replace("&lt;", "<")
        .replace("&gt;", ">")
        .replace("&quot;", "\"")
        .replace("&#39;", "'")
        .replace("&amp;", "&");
    assert_eq!(back, s);
}
