//! Links in the cells of a sheet: which cells are links, where they lead and how they read.
use vstd::prelude::*;

use crate::html::{escape, escape_html, escaped_text_has_no_markup, is_markup};
use crate::lowercase::{lowercase, to_lowercase};
use crate::text::{
    before_char, contains, lemma_find_char, lemma_trim_keeps_absence, occurs_at, optional_string,
    optional_text, repeated_prefixes_are_stripped, starts_with, str_before_char, str_contains,
    str_contains_char, str_eq, str_starts_with, str_strip_prefix, str_strip_repeated_prefix,
    str_trim, strip_repeated_prefix, stripping_undoes_prefixing,
    text_without_outer_white_space_is_kept, texts_are_cut_at_the_first_separator,
    texts_contain_their_parts, trim, trim_start, trimmed_text_has_no_white_space_at_its_ends,
    trimming_leaves_what_stands_between, trimming_twice_is_trimming_once, white_space,
};

verus! {

/// A column whose lower-case heading is `lower` holds Twitter handles.
pub open spec fn twitter_column(lower: Seq<char>) -> bool {
    contains(lower, "twitter"@) || lower == "x"@ || contains(lower, "x (twitter)"@)
}

/// A column whose lower-case heading is `lower` holds domains.
pub open spec fn domain_column(lower: Seq<char>) -> bool {
    contains(lower, "domain"@)
}

/// Whether the heading, given in lower case, is that of a column of Twitter handles.
pub fn lowered_is_twitter(lower: &str) -> (r: bool)
    ensures
        r == twitter_column(lower@),
{
    str_contains(lower, "twitter") || str_eq(lower, "x") || str_contains(lower, "x (twitter)")
}

/// Whether the heading, given in lower case, is that of a column of domains.
pub fn lowered_is_domain(lower: &str) -> (r: bool)
    ensures
        r == domain_column(lower@),
{
    str_contains(lower, "domain")
}

/// Whether `header` is the heading of a column of Twitter handles.
pub fn is_twitter_header(header: &str) -> (r: bool)
    ensures
        r == twitter_column(lowercase(header@)),
{
    let lower: String = to_lowercase(header);
    lowered_is_twitter(lower.as_str())
}

/// Whether `header` is the heading of a column of domains.
pub fn is_domain_header(header: &str) -> (r: bool)
    ensures
        r == domain_column(lowercase(header@)),
{
    let lower: String = to_lowercase(header);
    lowered_is_domain(lower.as_str())
}

/// The address that `value` spells out: a web address as it stands, or a Twitter address
/// completed to one.
pub open spec fn spelled_url(value: Seq<char>) -> Option<Seq<char>> {
    if starts_with(value, "http://"@) || starts_with(value, "https://"@) {
        Some(value)
    } else if contains(value, "twitter.com/"@) || contains(value, "x.com/"@) {
        if starts_with(value, "@"@) {
            Some("https://x.com/"@ + strip_repeated_prefix(value, "@"@))
        } else {
            Some("https://"@ + strip_repeated_prefix(value, "/"@))
        }
    } else {
        None
    }
}

/// The address that `value` spells out, if it does.
pub fn normalized_url(value: &str) -> (r: Option<String>)
    ensures
        optional_string(r) == spelled_url(value@),
{
    if str_starts_with(value, "http://") || str_starts_with(value, "https://") {
        return Some(value.to_owned());
    }
    if str_contains(value, "twitter.com/") || str_contains(value, "x.com/") {
        if str_starts_with(value, "@") {
            let mut url: String = "https://x.com/".to_owned();
            url.append(str_strip_repeated_prefix(value, "@"));
            return Some(url);
        }
        let mut url: String = "https://".to_owned();
        url.append(str_strip_repeated_prefix(value, "/"));
        return Some(url);
    }
    None
}

/// `s` without the first of the Twitter site prefixes that it begins with.
pub open spec fn without_twitter_site(s: Seq<char>) -> Seq<char> {
    if starts_with(s, "https://x.com/"@) {
        s.skip("https://x.com/"@.len() as int)
    } else if starts_with(s, "https://www.x.com/"@) {
        s.skip("https://www.x.com/"@.len() as int)
    } else if starts_with(s, "https://twitter.com/"@) {
        s.skip("https://twitter.com/"@.len() as int)
    } else if starts_with(s, "https://www.twitter.com/"@) {
        s.skip("https://www.twitter.com/"@.len() as int)
    } else {
        s
    }
}

/// The Twitter handle in `value`: what stands before the first slash, without a leading `@` or
/// site address; none if that is blank.
pub open spec fn handle(value: Seq<char>) -> Option<Seq<char>> {
    let name = trim(
        before_char(without_twitter_site(strip_repeated_prefix(trim(value), "@"@)), '/'),
    );
    if name.len() == 0 {
        None
    } else {
        Some(name)
    }
}

/// The Twitter handle in `value`, if there is one.
pub fn twitter_handle(value: &str) -> (r: Option<&str>)
    ensures
        optional_text(r) == handle(value@),
{
    let trimmed: &str = str_strip_repeated_prefix(str_trim(value), "@");
    let rest: &str = match str_strip_prefix(trimmed, "https://x.com/") {
        Some(rest) => rest,
        None => match str_strip_prefix(trimmed, "https://www.x.com/") {
            Some(rest) => rest,
            None => match str_strip_prefix(trimmed, "https://twitter.com/") {
                Some(rest) => rest,
                None => match str_strip_prefix(trimmed, "https://www.twitter.com/") {
                    Some(rest) => rest,
                    None => trimmed,
                },
            },
        },
    };
    let name: &str = str_trim(str_before_char(rest, '/'));
    if name.is_empty() {
        None
    } else {
        Some(name)
    }
}

/// How a Twitter address reads: as its handle behind an `@`, or as it stands if it has none.
pub open spec fn handle_label(value: Seq<char>) -> Seq<char> {
    match handle(value) {
        Some(name) => "@"@ + name,
        None => value,
    }
}

/// How the Twitter address `value` reads.
pub fn twitter_label(value: &str) -> (r: String)
    ensures
        r@ == handle_label(value@),
{
    match twitter_handle(value) {
        Some(name) => {
            let mut label: String = "@".to_owned();
            label.append(name);
            label
        },
        None => value.to_owned(),
    }
}

/// `s` without the web scheme that it begins with.
pub open spec fn without_web_scheme(s: Seq<char>) -> Seq<char> {
    if starts_with(s, "https://"@) {
        s.skip("https://"@.len() as int)
    } else if starts_with(s, "http://"@) {
        s.skip("http://"@.len() as int)
    } else {
        s
    }
}

/// The domain in `value`: what stands before the first slash, without a scheme and leading
/// `www.`, where there is a dot and no space.
pub open spec fn domain(value: Seq<char>) -> Option<Seq<char>> {
    let host = strip_repeated_prefix(without_web_scheme(trim(value)), "www."@);
    if host.contains('.') && !host.contains(' ') {
        Some(before_char(host, '/'))
    } else {
        None
    }
}

/// The domain in `value`, if there is one.
pub fn bare_domain(value: &str) -> (r: Option<&str>)
    ensures
        optional_text(r) == domain(value@),
{
    let trimmed: &str = str_trim(value);
    let rest: &str = match str_strip_prefix(trimmed, "https://") {
        Some(rest) => rest,
        None => match str_strip_prefix(trimmed, "http://") {
            Some(rest) => rest,
            None => trimmed,
        },
    };
    let host: &str = str_strip_repeated_prefix(rest, "www.");
    if str_contains_char(host, '.') && !str_contains_char(host, ' ') {
        Some(str_before_char(host, '/'))
    } else {
        None
    }
}

/// The link in a cell, as its label and its address. `twitter` says whether the cell stands in
/// a column of Twitter handles.
pub open spec fn cell_link(value: Seq<char>, twitter: bool) -> Option<(Seq<char>, Seq<char>)> {
    let raw = trim(value);
    if raw.len() == 0 {
        None
    } else {
        match spelled_url(raw) {
            Some(url) => Some((if twitter { handle_label(raw) } else { raw }, url)),
            None => if twitter {
                match handle(raw) {
                    Some(name) => Some(("@"@ + name, "https://x.com/"@ + name)),
                    None => None,
                }
            } else {
                match domain(raw) {
                    Some(name) => Some((name, "https://"@ + name)),
                    None => None,
                }
            },
        }
    }
}

/// The two strings of a link by their characters.
pub open spec fn link_view(link: Option<(String, String)>) -> Option<(Seq<char>, Seq<char>)> {
    match link {
        Some((label, href)) => Some((label@, href@)),
        None => None,
    }
}

/// The label and the address for the domain in `raw`, if there is one.
fn domain_link(raw: &str) -> (r: Option<(String, String)>)
    ensures
        match domain(raw@) {
            Some(name) => link_view(r) == Some((name, "https://"@ + name)),
            None => r is None,
        },
{
    match bare_domain(raw) {
        Some(name) => {
            let mut href: String = "https://".to_owned();
            href.append(name);
            Some((name.to_owned(), href))
        },
        None => None,
    }
}

/// The link in a cell; `twitter` says whether it stands in a column of Twitter handles. A domain
/// is found in any other column, whether or not its heading names domains.
pub fn link_in_column(value: &str, twitter: bool) -> (r: Option<(String, String)>)
    ensures
        link_view(r) == cell_link(value@, twitter),
{
    let raw: &str = str_trim(value);
    if raw.is_empty() {
        return None;
    }
    match normalized_url(raw) {
        Some(url) => {
            let label: String = if twitter {
                twitter_label(raw)
            } else {
                raw.to_owned()
            };
            return Some((label, url));
        },
        None => {},
    }
    if twitter {
        return match twitter_handle(raw) {
            Some(name) => {
                let mut label: String = "@".to_owned();
                label.append(name);
                let mut href: String = "https://x.com/".to_owned();
                href.append(name);
                Some((label, href))
            },
            None => None,
        };
    }
    domain_link(raw)
}

/// Whether the column under the heading `header` holds Twitter handles; a column without a
/// heading does not.
pub open spec fn twitter_heading(header: Option<Seq<char>>) -> bool {
    match header {
        Some(h) => twitter_column(lowercase(h)),
        None => false,
    }
}

/// The link in the cell `value` under the heading `header`, as its label and its address.
pub fn detect_link(value: &str, header: Option<&str>) -> (r: Option<(String, String)>)
    ensures
        link_view(r) == cell_link(value@, twitter_heading(optional_text(header))),
{
    match header {
        Some(h) => link_in_column(value, is_twitter_header(h)),
        None => link_in_column(value, false),
    }
}

/// The HTML of a cell: a link where there is one, else its text.
pub open spec fn cell_html(value: Seq<char>, twitter: bool) -> Seq<char> {
    match cell_link(value, twitter) {
        Some((label, href)) => "<a class=\"cell-link\" href=\""@ + escape(href)
            + "\" target=\"_blank\" rel=\"noreferrer\">"@ + escape(label) + "</a>"@,
        None => escape(value),
    }
}

/// The HTML of a cell whose link, if any, is given.
pub fn render_link(value: &str, link: Option<(String, String)>) -> (r: String)
    ensures
        match link_view(link) {
            Some((label, href)) => r@ == "<a class=\"cell-link\" href=\""@ + escape(href)
                + "\" target=\"_blank\" rel=\"noreferrer\">"@ + escape(label) + "</a>"@,
            None => r@ == escape(value@),
        },
{
    match link {
        Some((label, href)) => {
            let mut out: String = "<a class=\"cell-link\" href=\"".to_owned();
            out.append(escape_html(href.as_str()).as_str());
            out.append("\" target=\"_blank\" rel=\"noreferrer\">");
            out.append(escape_html(label.as_str()).as_str());
            out.append("</a>");
            out
        },
        None => escape_html(value),
    }
}

/// The HTML of the cell `value` under the heading `header`.
pub fn render_cell(value: &str, header: Option<&str>) -> (r: String)
    ensures
        r@ == cell_html(value@, twitter_heading(optional_text(header))),
{
    render_link(value, detect_link(value, header))
}

/// `a + b` begins with `a`.
proof fn lemma_starts_with_front(a: Seq<char>, b: Seq<char>)
    ensures
        starts_with(a + b, a),
{
    assert((a + b).subrange(0, a.len() as int) =~= a);
}

/// A text that begins with `a + b` begins with `a`.
proof fn lemma_starts_with_shorter(s: Seq<char>, p: Seq<char>, q: Seq<char>)
    requires
        starts_with(s, p),
        starts_with(p, q),
    ensures
        starts_with(s, q),
{
    assert(s.subrange(0, q.len() as int) =~= p.subrange(0, q.len() as int)) by {
        assert forall|i: int| 0 <= i < q.len() implies s[i] == p[i] by {
            assert(s.subrange(0, p.len() as int)[i] == s[i]);
        }
    }
}

/// Whatever a cell holds, its link leads to an `http` or `https` address.
pub proof fn links_lead_to_the_web(value: Seq<char>, twitter: bool)
    ensures
        cell_link(value, twitter) matches Some((label, href)) ==> starts_with(href, "http://"@)
            || starts_with(href, "https://"@),
{
    if let Some((label, href)) = cell_link(value, twitter) {
        let raw = trim(value);
        assert(starts_with("https://x.com/"@, "https://"@)) by {
            reveal_strlit("https://x.com/");
            reveal_strlit("https://");
            assert("https://x.com/"@.subrange(0, 8) =~= "https://"@);
        }
        if spelled_url(raw) is Some {
            let at = strip_repeated_prefix(raw, "@"@);
            lemma_starts_with_front("https://x.com/"@, at);
            lemma_starts_with_shorter("https://x.com/"@ + at, "https://x.com/"@, "https://"@);
            lemma_starts_with_front("https://"@, strip_repeated_prefix(raw, "/"@));
        } else if twitter {
            let name = handle(raw).unwrap();
            lemma_starts_with_front("https://x.com/"@, name);
            lemma_starts_with_shorter("https://x.com/"@ + name, "https://x.com/"@, "https://"@);
        } else {
            lemma_starts_with_front("https://"@, domain(raw).unwrap());
        }
    }
}

/// A cell that holds a web address is a link to that very address.
pub proof fn web_addresses_link_to_themselves(value: Seq<char>, twitter: bool)
    requires
        starts_with(trim(value), "http://"@) || starts_with(trim(value), "https://"@),
    ensures
        cell_link(value, twitter) matches Some((label, href)) && href == trim(value),
{
    reveal_strlit("http://");
    reveal_strlit("https://");
}

/// A blank cell has no link.
pub proof fn blank_cells_have_no_link(value: Seq<char>, twitter: bool)
    requires
        trim(value).len() == 0,
    ensures
        cell_link(value, twitter) is None,
{
}

/// A Twitter handle is not empty, has no white space at its ends and holds no slash.
pub proof fn handles_are_single_names(value: Seq<char>)
    ensures
        handle(value) matches Some(name) ==> {
            &&& name.len() > 0
            &&& !white_space(name.first())
            &&& !white_space(name.last())
            &&& !name.contains('/')
        },
{
    let rest = without_twitter_site(strip_repeated_prefix(trim(value), "@"@));
    let front = before_char(rest, '/');
    lemma_find_char(rest, '/');
    trimmed_text_has_no_white_space_at_its_ends(front);
    lemma_trim_keeps_absence(front, '/');
}

/// A domain holds no slash and no space.
pub proof fn domains_are_single_names(value: Seq<char>)
    ensures
        domain(value) matches Some(name) ==> !name.contains('/') && !name.contains(' '),
{
    let host = strip_repeated_prefix(without_web_scheme(trim(value)), "www."@);
    let front = before_char(host, '/');
    lemma_find_char(host, '/');
    if front.contains(' ') {
        let i = choose|i: int| 0 <= i < front.len() && front[i] == ' ';
        assert(host[i] == ' ');
    }
}

/// A cell is a link exactly if it spells out an address, or, failing that, holds a handle in a
/// column of Twitter handles or a domain in another.
pub proof fn addresses_handles_and_domains_are_links(value: Seq<char>, twitter: bool)
    ensures
        cell_link(value, twitter) is Some <==> spelled_url(trim(value)) is Some || if twitter {
            handle(trim(value)) is Some
        } else {
            domain(trim(value)) is Some
        },
{
    let raw = trim(value);
    if raw.len() == 0 {
        reveal_strlit("http://");
        reveal_strlit("https://");
        reveal_strlit("twitter.com/");
        reveal_strlit("x.com/");
        reveal_strlit("@");
        reveal_strlit("www.");
        reveal_strlit("https://x.com/");
        reveal_strlit("https://www.x.com/");
        reveal_strlit("https://twitter.com/");
        reveal_strlit("https://www.twitter.com/");
        assert(trim(raw) == raw);
        assert(before_char(raw, '/') =~= raw);
    }
}

/// No character of the text is read as markup.
pub open spec fn without_markup(s: Seq<char>) -> bool {
    forall|i: int| 0 <= i < s.len() ==> !is_markup(#[trigger] s[i])
}

/// A cell cannot add markup to the page: it is text without any, or a link whose address and
/// label are such texts.
pub proof fn cells_add_no_markup_of_their_own(value: Seq<char>, twitter: bool)
    ensures
        without_markup(cell_html(value, twitter)) || exists|href: Seq<char>, label: Seq<char>|
            #![trigger without_markup(href), without_markup(label)]
            without_markup(href) && without_markup(label) && cell_html(value, twitter)
                == "<a class=\"cell-link\" href=\""@ + href
                + "\" target=\"_blank\" rel=\"noreferrer\">"@ + label + "</a>"@,
{
    match cell_link(value, twitter) {
        Some((label, href)) => {
            escaped_text_has_no_markup(label);
            escaped_text_has_no_markup(href);
            assert(without_markup(escape(href)) && without_markup(escape(label)));
        },
        None => {
            escaped_text_has_no_markup(value);
        },
    }
}

/// A column holds Twitter handles exactly if its heading, in lower case, names Twitter or is the
/// letter x; it holds domains exactly if its heading names them.
pub proof fn twitter_columns_are_named_so(lower: Seq<char>)
    ensures
        twitter_column(lower) <==> contains(lower, "twitter"@) || lower == "x"@,
        domain_column(lower) <==> contains(lower, "domain"@),
{
    if contains(lower, "x (twitter)"@) {
        reveal_strlit("x (twitter)");
        reveal_strlit("twitter");
        let i = choose|i: int| occurs_at(lower, "x (twitter)"@, i);
        let whole = lower.subrange(i, i + 11);
        assert(lower.subrange(i + 3, i + 10) =~= whole.subrange(3, 10));
        assert(whole.subrange(3, 10) =~= "twitter"@);
        assert(occurs_at(lower, "twitter"@, i + 3));
    }
}

/// What does not begin with a text that holds a slash, because it holds none itself.
proof fn lemma_no_slash_no_prefix(s: Seq<char>, p: Seq<char>)
    requires
        !s.contains('/'),
        p.contains('/'),
    ensures
        !contains(s, p),
        !starts_with(s, p),
{
    assert forall|i: int| !occurs_at(s, p, i) by {
        if occurs_at(s, p, i) {
            let k = choose|k: int| 0 <= k < p.len() && p[k] == '/';
            assert(s.subrange(i, i + p.len())[k] == s[i + k]);
            assert(s.contains(s[i + k]));
        }
    }
}

/// Texts that begin differently at some place do not begin with one another.
proof fn lemma_differs_at(s: Seq<char>, p: Seq<char>, k: int)
    requires
        0 <= k < p.len(),
        k < s.len() ==> s[k] != p[k],
    ensures
        !starts_with(s, p),
{
    if starts_with(s, p) {
        assert(s.subrange(0, p.len() as int)[k] == s[k]);
    }
}

/// A text that begins with another character than `@` has no `@` to strip.
proof fn lemma_nothing_to_strip(s: Seq<char>, p: Seq<char>)
    requires
        p.len() > 0,
        s.len() > 0 ==> s[0] != p[0],
    ensures
        strip_repeated_prefix(s, p) == s,
{
    lemma_differs_at(s, p, 0);
}

/// A handle, or a domain, in front of a slash and what follows it.
pub open spec fn followed(part: Seq<char>, tail: Option<Seq<char>>) -> Seq<char> {
    match tail {
        Some(t) => part + "/"@ + t,
        None => part,
    }
}

/// What follows, if anything does, does not end with white space.
pub open spec fn ends_firmly(part: Seq<char>, tail: Option<Seq<char>>) -> bool {
    match tail {
        Some(t) => t.len() > 0 ==> !white_space(t[t.len() - 1]),
        None => part.len() > 0 ==> !white_space(part[part.len() - 1]),
    }
}

proof fn lemma_followed(part: Seq<char>, tail: Option<Seq<char>>)
    requires
        !part.contains('/'),
    ensures
        before_char(followed(part, tail), '/') == part,
{
    reveal_strlit("/");
    match tail {
        Some(t) => {
            assert("/"@ =~= seq!['/']);
            assert(part + "/"@ + t =~= part.push('/') + t);
            texts_are_cut_at_the_first_separator(part, '/', t);
        },
        None => {
            texts_are_cut_at_the_first_separator(part, '/', Seq::empty());
        },
    }
}

/// The four addresses of the Twitter site.
pub open spec fn is_twitter_site(site: Seq<char>) -> bool {
    site == "https://x.com/"@ || site == "https://www.x.com/"@ || site == "https://twitter.com/"@
        || site == "https://www.twitter.com/"@
}

/// Behind an address of the site, the handle is all that stands before the next slash, trimmed.
pub proof fn handles_stand_behind_the_site(
    site: Seq<char>,
    part: Seq<char>,
    tail: Option<Seq<char>>,
)
    requires
        is_twitter_site(site),
        !part.contains('/'),
        ends_firmly(part, tail),
    ensures
        trim(part).len() > 0 ==> handle(site + followed(part, tail)) == Some(trim(part)),
        trim(part).len() == 0 ==> handle(site + followed(part, tail)) is None,
{
    reveal_strlit("https://x.com/");
    reveal_strlit("https://www.x.com/");
    reveal_strlit("https://twitter.com/");
    reveal_strlit("https://www.twitter.com/");
    reveal_strlit("@");
    reveal_strlit("/");
    let rest = followed(part, tail);
    let value = site + rest;
    let n = site.len() as int;
    assert(value[0] == 'h');
    assert(!white_space(value[value.len() - 1])) by {
        if rest.len() == 0 {
            assert(value[value.len() - 1] == site[n - 1]);
        } else {
            assert(value[value.len() - 1] == rest[rest.len() - 1]);
        }
    }
    text_without_outer_white_space_is_kept(value);
    lemma_nothing_to_strip(value, "@"@);
    stripping_undoes_prefixing(site, rest, value);
    assert(value.skip(n) =~= rest);
    assert(value[8] == site[8]);
    if n > 14 {
        assert(value[12] == site[12]);
    }
    if site != "https://x.com/"@ {
        lemma_differs_at(value, "https://x.com/"@, 8);
        if site == "https://twitter.com/"@ {
            lemma_differs_at(value, "https://www.x.com/"@, 8);
        } else if site == "https://www.twitter.com/"@ {
            lemma_differs_at(value, "https://www.x.com/"@, 12);
            lemma_differs_at(value, "https://twitter.com/"@, 8);
        }
    }
    assert(without_twitter_site(value) == rest);
    lemma_followed(part, tail);
}

/// The text does not begin with an address of the Twitter site.
pub open spec fn not_on_twitter(value: Seq<char>) -> bool {
    &&& !starts_with(value, "https://x.com/"@)
    &&& !starts_with(value, "https://www.x.com/"@)
    &&& !starts_with(value, "https://twitter.com/"@)
    &&& !starts_with(value, "https://www.twitter.com/"@)
}

/// Without the site, the handle is all that stands before the first slash, trimmed: a handle that
/// is written alone is kept whole. An `@` in front of it is left out, and what follows it is then
/// the handle even if white space stands between.
pub proof fn handles_are_kept_whole(part: Seq<char>, tail: Option<Seq<char>>)
    requires
        part.len() > 0 ==> part[0] != '@',
        !part.contains('/'),
        ends_firmly(part, tail),
        not_on_twitter(followed(part, tail)),
    ensures
        part.len() > 0 && !white_space(part[0]) ==> handle(followed(part, tail)) == Some(
            trim(part),
        ),
        trim(part).len() > 0 ==> handle("@"@ + followed(part, tail)) == Some(trim(part)),
        trim(part).len() == 0 ==> handle("@"@ + followed(part, tail)) is None,
        part.len() == 0 ==> handle(followed(part, tail)) is None,
{
    reveal_strlit("@");
    reveal_strlit("/");
    let value = followed(part, tail);
    let at = "@"@ + value;
    if value.len() > 0 {
        assert(value[0] == if part.len() > 0 {
            part[0]
        } else {
            '/'
        });
        assert(tail is Some && tail->0.len() == 0 ==> value[value.len() - 1] == '/');
    }
    assert(at[0] == '@');
    assert(at[at.len() - 1] == if value.len() > 0 {
        value[value.len() - 1]
    } else {
        '@'
    });
    text_without_outer_white_space_is_kept(at);
    lemma_nothing_to_strip(value, "@"@);
    repeated_prefixes_are_stripped("@"@, value);
    lemma_followed(part, tail);
    if part.len() == 0 || !white_space(part[0]) {
        text_without_outer_white_space_is_kept(value);
    }
    if part.len() > 0 && !white_space(part[0]) {
        lemma_trim_of_text(part);
    }
    if part.len() == 0 {
        text_without_outer_white_space_is_kept(part);
    }
}

/// A text that begins with something is not trimmed to nothing.
proof fn lemma_trim_of_text(s: Seq<char>)
    requires
        s.len() > 0,
        !white_space(s[0]),
    ensures
        trim(s).len() > 0,
    decreases s.len(),
{
    assert(trim_start(s) == s);
    if white_space(s.last()) {
        assert(s.drop_last()[0] == s[0]);
        lemma_trim_of_text(s.drop_last());
        assert(trim_start(s.drop_last()) == s.drop_last());
    }
}

/// A part without slashes, unless it is `https:`, is not the beginning of an address.
proof fn lemma_no_site_in_front(part: Seq<char>, tail: Option<Seq<char>>)
    requires
        !part.contains('/'),
        tail is Some ==> part != "https:"@,
    ensures
        not_on_twitter(followed(part, tail)),
        !starts_with(followed(part, tail), "https://"@),
{
    reveal_strlit("https:");
    reveal_strlit("https://");
    reveal_strlit("https://x.com/");
    reveal_strlit("https://www.x.com/");
    reveal_strlit("https://twitter.com/");
    reveal_strlit("https://www.twitter.com/");
    reveal_strlit("/");
    let value = followed(part, tail);
    if starts_with(value, "https://"@) {
        let front = value.subrange(0, 8);
        assert(front == "https://"@);
        assert(front[6] == '/');
        if tail is None {
            assert(part.contains(part[6]));
        } else {
            if part.len() > 6 {
                assert(front[6] == part[6]);
                assert(part.contains(part[6]));
            }
            if part.len() < 6 {
                assert(value[part.len() as int] == '/');
                assert(front[part.len() as int] == '/');
            }
            assert(part =~= "https:"@) by {
                assert forall|k: int| 0 <= k < 6 implies part[k] == "https:"@[k] by {
                    assert(front[k] == part[k]);
                }
            }
        }
    }
    if starts_with(value, "https://x.com/"@) {
        assert("https://x.com/"@.subrange(0, 8) =~= "https://"@);
        lemma_starts_with_shorter(value, "https://x.com/"@, "https://"@);
    }
    if starts_with(value, "https://www.x.com/"@) {
        assert("https://www.x.com/"@.subrange(0, 8) =~= "https://"@);
        lemma_starts_with_shorter(value, "https://www.x.com/"@, "https://"@);
    }
    if starts_with(value, "https://twitter.com/"@) {
        assert("https://twitter.com/"@.subrange(0, 8) =~= "https://"@);
        lemma_starts_with_shorter(value, "https://twitter.com/"@, "https://"@);
    }
    if starts_with(value, "https://www.twitter.com/"@) {
        assert("https://www.twitter.com/"@.subrange(0, 8) =~= "https://"@);
        lemma_starts_with_shorter(value, "https://www.twitter.com/"@, "https://"@);
    }
}

/// More than one `@` in front, one in front of an address of the site, and white space around it
/// all do not matter to a handle.
pub proof fn at_signs_and_white_space_do_not_matter(
    front: Seq<char>,
    value: Seq<char>,
    back: Seq<char>,
)
    requires
        forall|i: int| 0 <= i < front.len() ==> white_space(#[trigger] front[i]),
        forall|i: int| 0 <= i < back.len() ==> white_space(#[trigger] back[i]),
        value.len() > 0 ==> !white_space(value[value.len() - 1]),
    ensures
        handle("@"@ + ("@"@ + value)) == handle("@"@ + value),
        value.len() > 0 ==> !white_space(value[0]) ==> handle("@"@ + value) == handle(value),
        value.len() > 0 ==> !white_space(value[0]) ==> handle(front + value + back) == handle(
            value,
        ),
        handle(front) is None,
{
    reveal_strlit("@");
    let at = "@"@ + value;
    let more = "@"@ + at;
    let last = if value.len() > 0 {
        value[value.len() - 1]
    } else {
        '@'
    };
    assert(at[0] == '@' && at[at.len() - 1] == last);
    assert(more[0] == '@' && more[more.len() - 1] == last);
    text_without_outer_white_space_is_kept(at);
    text_without_outer_white_space_is_kept(more);
    repeated_prefixes_are_stripped("@"@, value);
    repeated_prefixes_are_stripped("@"@, at);
    if value.len() > 0 && !white_space(value[0]) {
        text_without_outer_white_space_is_kept(value);
        trimming_leaves_what_stands_between(front, value, back);
    }
    let none = Seq::<char>::empty();
    trimming_leaves_what_stands_between(front, none, none);
    assert(front + none + none =~= front);
    reveal_strlit("https://x.com/");
    reveal_strlit("https://www.x.com/");
    reveal_strlit("https://twitter.com/");
    reveal_strlit("https://www.twitter.com/");
    text_without_outer_white_space_is_kept(none);
    lemma_nothing_to_strip(none, "@"@);
    texts_are_cut_at_the_first_separator(none, '/', none);
}

/// A plain handle: not empty, without white space at its ends, an `@` in front or a slash in it.
pub open spec fn plain_handle(name: Seq<char>) -> bool {
    &&& name.len() > 0
    &&& name[0] != '@'
    &&& !white_space(name[0])
    &&& !white_space(name[name.len() - 1])
    &&& !name.contains('/')
}

/// In a column of Twitter handles, a handle with or without an `@` links to the page of exactly
/// that handle; an address of that page links to itself and reads as the handle.
pub proof fn handles_link_to_their_own_page(name: Seq<char>, site: Seq<char>)
    requires
        plain_handle(name),
        is_twitter_site(site),
    ensures
        handle(name) == Some(name),
        handle("@"@ + name) == Some(name),
        handle(site + name) == Some(name),
        cell_link(name, true) == Some(("@"@ + name, "https://x.com/"@ + name)),
        cell_link("@"@ + name, true) == Some(("@"@ + name, "https://x.com/"@ + name)),
        cell_link(site + name, true) == Some(("@"@ + name, site + name)),
{
    reveal_strlit("@");
    reveal_strlit("http://");
    reveal_strlit("https://");
    reveal_strlit("twitter.com/");
    reveal_strlit("x.com/");
    reveal_strlit("https://x.com/");
    reveal_strlit("https://www.x.com/");
    reveal_strlit("https://twitter.com/");
    reveal_strlit("https://www.twitter.com/");
    let none = Seq::<char>::empty();
    let at = "@"@ + name;
    let url = site + name;
    lemma_no_site_in_front(name, None);
    handles_are_kept_whole(name, None);
    text_without_outer_white_space_is_kept(name);
    at_signs_and_white_space_do_not_matter(none, name, none);
    handles_stand_behind_the_site(site, name, None);
    assert(at[0] == '@' && at.last() == name[name.len() - 1]);
    text_without_outer_white_space_is_kept(at);
    assert(url[0] == 'h' && url.last() == name[name.len() - 1]);
    text_without_outer_white_space_is_kept(url);
    assert(!at.contains('/')) by {
        if at.contains('/') {
            let k = choose|k: int| 0 <= k < at.len() && at[k] == '/';
            assert(name[k - 1] == '/');
        }
    }
    assert("http://"@[5] == '/' && "https://"@[6] == '/' && "twitter.com/"@[11] == '/'
        && "x.com/"@[5] == '/');
    lemma_no_slash_no_prefix(name, "http://"@);
    lemma_no_slash_no_prefix(name, "https://"@);
    lemma_no_slash_no_prefix(name, "twitter.com/"@);
    lemma_no_slash_no_prefix(name, "x.com/"@);
    lemma_no_slash_no_prefix(at, "http://"@);
    lemma_no_slash_no_prefix(at, "https://"@);
    lemma_no_slash_no_prefix(at, "twitter.com/"@);
    lemma_no_slash_no_prefix(at, "x.com/"@);
    assert(url.subrange(0, 8) =~= "https://"@);
}

/// White space around a cell does not matter to its link.
pub proof fn white_space_around_links_does_not_matter(
    front: Seq<char>,
    value: Seq<char>,
    back: Seq<char>,
    twitter: bool,
)
    requires
        forall|i: int| 0 <= i < front.len() ==> white_space(#[trigger] front[i]),
        forall|i: int| 0 <= i < back.len() ==> white_space(#[trigger] back[i]),
        value.len() > 0 ==> !white_space(value[0]) && !white_space(value[value.len() - 1]),
    ensures
        cell_link(front + value + back, twitter) == cell_link(value, twitter),
{
    trimming_leaves_what_stands_between(front, value, back);
    text_without_outer_white_space_is_kept(value);
}

/// Behind a scheme, what does not begin with `www.` holds a domain exactly if there is a dot in it
/// and no space, and the domain is all that stands before the first slash.
pub proof fn domains_have_a_dot_and_no_space(part: Seq<char>, tail: Option<Seq<char>>)
    requires
        !part.contains('/'),
        ends_firmly(part, tail),
        !starts_with(followed(part, tail), "www."@),
    ensures
        followed(part, tail).contains('.') && !followed(part, tail).contains(' ') ==> domain(
            "https://"@ + followed(part, tail),
        ) == Some(part),
        !followed(part, tail).contains('.') || followed(part, tail).contains(' ') ==> domain(
            "https://"@ + followed(part, tail),
        ) is None,
{
    reveal_strlit("/");
    reveal_strlit("www.");
    reveal_strlit("https://");
    let value = followed(part, tail);
    let whole = "https://"@ + value;
    if value.len() > 0 {
        assert(tail is Some && tail->0.len() == 0 ==> value[value.len() - 1] == '/');
        assert(whole[whole.len() - 1] == value[value.len() - 1]);
    } else {
        assert(whole[whole.len() - 1] == '/');
    }
    assert(whole[0] == 'h');
    text_without_outer_white_space_is_kept(whole);
    stripping_undoes_prefixing("https://"@, value, whole);
    assert(whole.skip(8) =~= value);
    lemma_followed(part, tail);
}

/// Which scheme stands in front does not matter to a domain, nor whether one does, nor how often
/// `www.` stands behind it, nor white space around it all.
pub proof fn schemes_do_not_matter_to_domains(
    front: Seq<char>,
    value: Seq<char>,
    back: Seq<char>,
)
    requires
        forall|i: int| 0 <= i < front.len() ==> white_space(#[trigger] front[i]),
        forall|i: int| 0 <= i < back.len() ==> white_space(#[trigger] back[i]),
        value.len() > 0 ==> !white_space(value[value.len() - 1]),
    ensures
        domain("http://"@ + value) == domain("https://"@ + value),
        domain("https://"@ + ("www."@ + value)) == domain("https://"@ + value),
        value.len() > 0 && !white_space(value[0]) && !starts_with(value, "https://"@)
            && !starts_with(value, "http://"@) ==> domain(value) == domain("https://"@ + value),
        value.len() > 0 && !white_space(value[0]) ==> domain(front + value + back) == domain(value),
        domain(front) is None,
{
    reveal_strlit("https://");
    reveal_strlit("http://");
    reveal_strlit("www.");
    let a = "https://"@ + value;
    let b = "http://"@ + value;
    let c = "www."@ + value;
    let d = "https://"@ + c;
    let slash = if value.len() > 0 {
        value[value.len() - 1]
    } else {
        '/'
    };
    let dot = if value.len() > 0 {
        value[value.len() - 1]
    } else {
        '.'
    };
    assert(a[0] == 'h' && b[0] == 'h' && d[0] == 'h');
    assert(a[a.len() - 1] == slash && b[b.len() - 1] == slash && d[d.len() - 1] == dot);
    text_without_outer_white_space_is_kept(a);
    text_without_outer_white_space_is_kept(b);
    text_without_outer_white_space_is_kept(d);
    stripping_undoes_prefixing("https://"@, value, a);
    stripping_undoes_prefixing("http://"@, value, b);
    stripping_undoes_prefixing("https://"@, c, d);
    assert(a.skip(8) =~= value);
    assert(b.skip(7) =~= value);
    assert(d.skip(8) =~= c);
    assert(b[4] == ':');
    lemma_differs_at(b, "https://"@, 4);
    repeated_prefixes_are_stripped("www."@, value);
    if value.len() > 0 && !white_space(value[0]) {
        text_without_outer_white_space_is_kept(value);
        trimming_leaves_what_stands_between(front, value, back);
    }
    let none = Seq::<char>::empty();
    trimming_leaves_what_stands_between(front, none, none);
    assert(front + none + none =~= front);
}

/// A plain domain: a dot, no space, no slash, and neither white space at its ends nor `www.` in
/// front.
pub open spec fn plain_domain(name: Seq<char>) -> bool {
    &&& name.contains('.')
    &&& !name.contains(' ')
    &&& !name.contains('/')
    &&& !white_space(name[0])
    &&& !white_space(name[name.len() - 1])
    &&& !starts_with(name, "www."@)
}

/// In any column but those of Twitter handles, a domain links to the site of exactly that domain,
/// and text that is neither an address nor a domain links to nothing.
pub proof fn domains_link_to_their_own_site(name: Seq<char>, text: Seq<char>)
    requires
        plain_domain(name),
        !text.contains('.'),
        !starts_with(trim(text), "http://"@),
        !starts_with(trim(text), "https://"@),
    ensures
        domain(name) == Some(name),
        cell_link(name, false) == Some((name, "https://"@ + name)),
        cell_link(text, false) is None,
{
    reveal_strlit("http://");
    reveal_strlit("https://");
    reveal_strlit("twitter.com/");
    reveal_strlit("x.com/");
    reveal_strlit("www.");
    let k = choose|k: int| 0 <= k < name.len() && name[k] == '.';
    text_without_outer_white_space_is_kept(name);
    domains_have_a_dot_and_no_space(name, None);
    schemes_do_not_matter_to_domains(Seq::empty(), name, Seq::empty());
    assert("http://"@[5] == '/' && "https://"@[6] == '/' && "twitter.com/"@[11] == '/'
        && "x.com/"@[5] == '/');
    lemma_no_slash_no_prefix(name, "http://"@);
    lemma_no_slash_no_prefix(name, "https://"@);
    lemma_no_slash_no_prefix(name, "twitter.com/"@);
    lemma_no_slash_no_prefix(name, "x.com/"@);
    let raw = trim(text);
    lemma_trim_keeps_absence(text, '.');
    assert("twitter.com/"@[7] == '.' && "x.com/"@[1] == '.' && "www."@[3] == '.');
    lemma_absent(raw, "twitter.com/"@, 7);
    lemma_absent(raw, "x.com/"@, 1);
    lemma_absent(raw, "www."@, 3);
    trimming_twice_is_trimming_once(text);
    assert(without_web_scheme(raw) == raw);
    assert(strip_repeated_prefix(raw, "www."@) == raw);
}

/// A text does not hold what holds a character that it lacks.
proof fn lemma_absent(s: Seq<char>, p: Seq<char>, k: int)
    requires
        0 <= k < p.len(),
        !s.contains(p[k]),
    ensures
        !contains(s, p),
        !starts_with(s, p),
{
    assert forall|i: int| !occurs_at(s, p, i) by {
        if occurs_at(s, p, i) {
            assert(s.subrange(i, i + p.len())[k] == s[i + k]);
            assert(s.contains(s[i + k]));
        }
    }
}

/// Which texts spell out an address, and which: web addresses as they stand, and others that name
/// the Twitter site completed to one, with their slashes or `@` in front left out.
pub proof fn addresses_are_completed(rest: Seq<char>, s: Seq<char>)
    ensures
        spelled_url("http://"@ + rest) == Some("http://"@ + rest),
        spelled_url("https://"@ + rest) == Some("https://"@ + rest),
        ({
            let named = contains(s, "twitter.com/"@) || contains(s, "x.com/"@);
            let web = starts_with(s, "http://"@) || starts_with(s, "https://"@);
            &&& spelled_url(s) is Some <==> web || named
            &&& web ==> spelled_url(s) == Some(s)
            &&& named && !web && s[0] != '@' && s[0] != '/' ==> spelled_url(s) == Some(
                "https://"@ + s,
            )
            &&& named && s[0] != '@' ==> spelled_url("@"@ + s) == Some("https://x.com/"@ + s)
            &&& named && s[0] == '@' ==> spelled_url("@"@ + s) == spelled_url(s)
            &&& named && s[0] != '/' ==> spelled_url("/"@ + s) == Some("https://"@ + s)
            &&& named && s[0] == '/' ==> spelled_url("/"@ + s) == spelled_url(s)
        }),
{
    reveal_strlit("http://");
    reveal_strlit("https://");
    reveal_strlit("twitter.com/");
    reveal_strlit("x.com/");
    reveal_strlit("@");
    reveal_strlit("/");
    texts_contain_their_parts(Seq::empty(), "http://"@, rest);
    texts_contain_their_parts(Seq::empty(), "https://"@, rest);
    let named = contains(s, "twitter.com/"@) || contains(s, "x.com/"@);
    if named {
        let at = "@"@ + s;
        let slash = "/"@ + s;
        lemma_still_contains("@"@, s, "twitter.com/"@);
        lemma_still_contains("@"@, s, "x.com/"@);
        lemma_still_contains("/"@, s, "twitter.com/"@);
        lemma_still_contains("/"@, s, "x.com/"@);
        assert(s.len() > 0) by {
            if s.len() == 0 {
                assert(!contains(s, "twitter.com/"@));
                assert(!contains(s, "x.com/"@));
            }
        }
        lemma_differs_at(at, "http://"@, 0);
        lemma_differs_at(at, "https://"@, 0);
        lemma_differs_at(slash, "http://"@, 0);
        lemma_differs_at(slash, "https://"@, 0);
        lemma_differs_at(slash, "@"@, 0);
        texts_contain_their_parts(Seq::empty(), "@"@, s);
        repeated_prefixes_are_stripped("@"@, s);
        repeated_prefixes_are_stripped("/"@, s);
        if s[0] != '@' {
            lemma_nothing_to_strip(s, "@"@);
            lemma_differs_at(s, "@"@, 0);
        } else {
            assert(s.subrange(0, 1) =~= "@"@);
            lemma_differs_at(s, "http://"@, 0);
            lemma_differs_at(s, "https://"@, 0);
        }
        if s[0] != '/' {
            lemma_nothing_to_strip(s, "/"@);
        } else {
            lemma_differs_at(s, "http://"@, 0);
            lemma_differs_at(s, "https://"@, 0);
            lemma_differs_at(s, "@"@, 0);
        }
    }
}

proof fn lemma_still_contains(a: Seq<char>, s: Seq<char>, p: Seq<char>)
    ensures
        contains(s, p) ==> contains(a + s, p),
{
    if contains(s, p) {
        let i = choose|i: int| occurs_at(s, p, i);
        let whole = a + s;
        assert(whole.subrange(a.len() + i, a.len() + i + p.len()) =~= s.subrange(i, i + p.len()));
        assert(occurs_at(whole, p, a.len() + i));
    }
}

/// How a link to an address reads: as the cell stands, or as the handle in a column of those.
pub proof fn addresses_read_as_they_stand(value: Seq<char>, url: Seq<char>)
    requires
        value.len() > 0,
        !white_space(value[0]),
        !white_space(value[value.len() - 1]),
        spelled_url(value) == Some(url),
    ensures
        cell_link(value, false) == Some((value, url)),
        handle(value) matches Some(name) ==> cell_link(value, true) == Some(("@"@ + name, url)),
        handle(value) is None ==> cell_link(value, true) == Some((value, url)),
{
    text_without_outer_white_space_is_kept(value);
}

/// A cell that spells out no address links to its handle in a column of those and to its domain in
/// any other, if it has one.
pub proof fn other_cells_link_to_handles_and_domains(value: Seq<char>)
    requires
        value.len() > 0,
        !white_space(value[0]),
        !white_space(value[value.len() - 1]),
        spelled_url(value) is None,
    ensures
        handle(value) matches Some(name) ==> cell_link(value, true) == Some(
            ("@"@ + name, "https://x.com/"@ + name),
        ),
        handle(value) is None ==> cell_link(value, true) is None,
        domain(value) matches Some(name) ==> cell_link(value, false) == Some(
            (name, "https://"@ + name),
        ),
        domain(value) is None ==> cell_link(value, false) is None,
{
    text_without_outer_white_space_is_kept(value);
}

/// A link is written as an anchor that leads to its address and reads as its label, both escaped;
/// a cell without one as its text, escaped.
pub proof fn links_are_written_as_anchors(
    value: Seq<char>,
    twitter: bool,
    label: Seq<char>,
    href: Seq<char>,
)
    ensures
        cell_link(value, twitter) == Some((label, href)) ==> cell_html(value, twitter)
            == "<a class=\"cell-link\" href=\""@ + escape(href)
            + "\" target=\"_blank\" rel=\"noreferrer\">"@ + escape(label) + "</a>"@,
        cell_link(value, twitter) is None ==> cell_html(value, twitter) == escape(value),
{
}

/// A column without a heading does not hold Twitter handles; one with a heading does exactly if
/// that names Twitter in any case, or is the letter x.
pub proof fn headings_say_what_columns_hold(header: Seq<char>)
    ensures
        !twitter_heading(None),
        twitter_heading(Some(header)) <==> contains(lowercase(header), "twitter"@) || lowercase(
            header,
        ) == "x"@,
{
    twitter_columns_are_named_so(lowercase(header));
}

} // verus!
