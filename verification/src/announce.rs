//! What is announced on Nostr: the note on a snapshot and the repository.
use vstd::prelude::*;

use crate::config::{relay_list, resolve_relays};
use crate::snapshot::{note_text, render_note, Snapshot};
use crate::text::{
    ends_with, optional_string, optional_text, repeated_suffixes_are_stripped, starts_with,
    str_starts_with, str_strip_prefix, str_strip_repeated_suffix, str_trim, strip_prefix,
    strip_repeated_suffix, texts, trim, trimming_leaves_what_stands_between, white_space,
};

verus! {

/// The address that `nostr_sdk::Url::parse` reads from a text, as it writes it out; none if it
/// refuses the text.
pub uninterp spec fn parsed_url(text: Seq<char>) -> Option<Seq<char>>;

/// The address in a text, by `nostr_sdk::Url::parse`, written out again.
///
/// Taken on trust: whether the text is taken, and how the address then reads, depends on the
/// text alone. The grammar of addresses is not spelled out.
#[verifier::external_body]
fn parse_url(text: &str) -> (r: Option<String>)
    ensures
        optional_string(r) == parsed_url(text@),
{
    match nostr_sdk::Url::parse(text) {
        Ok(url) => Some(url.to_string()),
        Err(_) => None,
    }
}

/// The relay address that `nostr_sdk::RelayUrl::parse` reads from a text, as it writes it out;
/// none if it refuses the text.
pub uninterp spec fn parsed_relay_url(text: Seq<char>) -> Option<Seq<char>>;

/// The relay address in a text, by `nostr_sdk::RelayUrl::parse`, written out again.
///
/// Taken on trust: whether the text is taken, and how the address then reads, depends on the
/// text alone. The grammar of relay addresses is not spelled out.
#[verifier::external_body]
fn parse_relay_url(text: &str) -> (r: Option<String>)
    ensures
        optional_string(r) == parsed_relay_url(text@),
{
    match nostr_sdk::RelayUrl::parse(text) {
        Ok(url) => Some(url.to_string()),
        Err(_) => None,
    }
}

/// The text of the error with which `nostr_sdk::Keys::parse` refuses a private key; none if it
/// takes the key.
pub uninterp spec fn key_error(privkey: Seq<char>) -> Option<Seq<char>>;

/// Whether a private key can be used, by `nostr_sdk::Keys::parse`; if not, the text of the
/// error.
///
/// Taken on trust: the answer depends on the text of the key alone. Which keys are valid is not
/// spelled out.
#[verifier::external_body]
fn check_key(privkey: &str) -> (r: Option<String>)
    ensures
        optional_string(r) == key_error(privkey@),
{
    match nostr_sdk::Keys::parse(privkey) {
        Ok(_) => None,
        Err(error) => Some(error.to_string()),
    }
}

/// The list with the address behind it, if there is one.
pub open spec fn with_address(list: Seq<Seq<char>>, address: Option<Seq<char>>) -> Seq<Seq<char>> {
    match address {
        Some(a) => list.push(a),
        None => list,
    }
}

/// Puts the address at the end of the list, if there is one.
pub fn add_address(list: &mut Vec<String>, address: Option<String>)
    ensures
        texts(final(list)@) == with_address(texts(old(list)@), optional_string(address)),
{
    match address {
        Some(a) => {
            list.push(a);
            proof {
                assert(texts(list@) =~= texts(old(list)@).push(a@));
            }
        },
        None => {},
    }
}

/// The web address of the domain in a `CNAME` file; none if there is no file or it is blank.
pub open spec fn web_address(cname: Option<Seq<char>>) -> Option<Seq<char>> {
    match cname {
        Some(text) => if trim(text).len() == 0 {
            None
        } else {
            Some("https://"@ + trim(text))
        },
        None => None,
    }
}

/// The web address of the domain in a `CNAME` file.
pub fn cname_address(cname: Option<&str>) -> (r: Option<String>)
    ensures
        optional_string(r) == web_address(optional_text(cname)),
{
    match cname {
        Some(text) => {
            let domain: &str = str_trim(text);
            if domain.is_empty() {
                None
            } else {
                let mut url: String = "https://".to_owned();
                url.append(domain);
                Some(url)
            }
        },
        None => None,
    }
}

/// The address that a text, if there is one, is read as.
pub open spec fn read_address(text: Option<Seq<char>>) -> Option<Seq<char>> {
    match text {
        Some(t) => parsed_url(t),
        None => None,
    }
}

/// The web addresses of the repository, from the contents of its `CNAME` file.
pub fn resolve_web_urls(cname: Option<&str>) -> (r: Vec<String>)
    ensures
        texts(r@) == with_address(
            Seq::empty(),
            read_address(web_address(optional_text(cname))),
        ),
{
    let mut urls: Vec<String> = Vec::new();
    proof {
        assert(texts(urls@) =~= Seq::empty());
    }
    match cname_address(cname) {
        Some(text) => add_address(&mut urls, parse_url(text.as_str())),
        None => {},
    }
    urls
}

/// The web address under which the repository of a git remote can be cloned; none if the remote
/// is neither a web address nor one of GitHub by SSH.
pub open spec fn clone_address(remote: Seq<char>) -> Option<Seq<char>> {
    if starts_with(remote, "http://"@) || starts_with(remote, "https://"@) {
        Some(strip_repeated_suffix(remote, ".git"@))
    } else {
        match (
            strip_prefix(remote, "git@github.com:"@),
            strip_prefix(remote, "ssh://git@github.com/"@),
        ) {
            (Some(rest), _) => Some("https://github.com/"@ + strip_repeated_suffix(rest, ".git"@)),
            (None, Some(rest)) => Some(
                "https://github.com/"@ + strip_repeated_suffix(rest, ".git"@),
            ),
            (None, None) => None,
        }
    }
}

/// The web address under which the repository of a git remote can be cloned.
pub fn normalize_clone_url(remote: &str) -> (r: Option<String>)
    ensures
        optional_string(r) == clone_address(remote@),
{
    if str_starts_with(remote, "http://") || str_starts_with(remote, "https://") {
        return Some(str_strip_repeated_suffix(remote, ".git").to_owned());
    }
    match str_strip_prefix(remote, "git@github.com:") {
        Some(rest) => {
            let mut url: String = "https://github.com/".to_owned();
            url.append(str_strip_repeated_suffix(rest, ".git"));
            return Some(url);
        },
        None => {},
    }
    match str_strip_prefix(remote, "ssh://git@github.com/") {
        Some(rest) => {
            let mut url: String = "https://github.com/".to_owned();
            url.append(str_strip_repeated_suffix(rest, ".git"));
            Some(url)
        },
        None => None,
    }
}

/// The address to clone from, of the remote `origin` if there is one.
pub open spec fn origin_address(origin: Option<Seq<char>>) -> Option<Seq<char>> {
    match origin {
        Some(remote) => clone_address(remote),
        None => None,
    }
}

/// The addresses to clone from, given the address of the remote `origin`.
pub fn resolve_clone_urls(origin: Option<&str>) -> (r: Vec<String>)
    ensures
        texts(r@) == with_address(
            Seq::empty(),
            read_address(origin_address(optional_text(origin))),
        ),
{
    let mut urls: Vec<String> = Vec::new();
    proof {
        assert(texts(urls@) =~= Seq::empty());
    }
    match origin {
        Some(remote) => match normalize_clone_url(remote) {
            Some(text) => add_address(&mut urls, parse_url(text.as_str())),
            None => {},
        },
        None => {},
    }
    urls
}

/// The relays that can be read as relay addresses, in their order.
pub open spec fn readable_relays(relays: Seq<Seq<char>>) -> Seq<Seq<char>>
    decreases relays.len(),
{
    if relays.len() == 0 {
        Seq::empty()
    } else {
        with_address(readable_relays(relays.drop_last()), parsed_relay_url(relays.last()))
    }
}

/// The relay addresses, from the variable `NOSTR_RELAYS`.
pub fn resolve_relay_urls(env: Option<&str>) -> (r: Vec<String>)
    ensures
        texts(r@) == readable_relays(relay_list(optional_text(env))),
{
    let relays: Vec<String> = resolve_relays(env);
    let mut urls: Vec<String> = Vec::new();
    proof {
        assert(texts(urls@) =~= Seq::empty());
    }
    let mut i: usize = 0;
    while i < relays.len()
        invariant
            i <= relays@.len(),
            texts(urls@) == readable_relays(texts(relays@).take(i as int)),
        decreases relays@.len() - i,
    {
        proof {
            assert(texts(relays@).take(i + 1).drop_last() =~= texts(relays@).take(i as int));
        }
        add_address(&mut urls, parse_relay_url(relays[i].as_str()));
        i = i + 1;
    }
    proof {
        assert(texts(relays@).take(i as int) =~= texts(relays@));
    }
    urls
}

/// The announcement of the repository.
pub struct RepoAnnouncement {
    pub id: String,
    pub name: String,
    pub description: String,
    pub web: Vec<String>,
    pub clone_urls: Vec<String>,
    pub relays: Vec<String>,
}

/// The announcement of the repository by the characters of its texts.
#[verifier::ext_equal]
pub struct AnnouncementModel {
    pub id: Seq<char>,
    pub name: Seq<char>,
    pub description: Seq<char>,
    pub web: Seq<Seq<char>>,
    pub clone_urls: Seq<Seq<char>>,
    pub relays: Seq<Seq<char>>,
}

impl View for RepoAnnouncement {
    type V = AnnouncementModel;

    open spec fn view(&self) -> AnnouncementModel {
        AnnouncementModel {
            id: self.id@,
            name: self.name@,
            description: self.description@,
            web: texts(self.web@),
            clone_urls: texts(self.clone_urls@),
            relays: texts(self.relays@),
        }
    }
}

/// The announcement of a repository with the given addresses.
pub open spec fn announcement_of(
    web: Seq<Seq<char>>,
    clone_urls: Seq<Seq<char>>,
    relays: Seq<Seq<char>>,
) -> AnnouncementModel {
    AnnouncementModel {
        id: "startsmall"@,
        name: "StartSmall"@,
        description: "Google Sheet snapshot viewer and git sync"@,
        web,
        clone_urls,
        relays,
    }
}

/// The announcement of a repository with the given addresses.
pub fn announce_addresses(web: Vec<String>, clone_urls: Vec<String>, relays: Vec<String>) -> (r:
    RepoAnnouncement)
    ensures
        r@ == announcement_of(texts(web@), texts(clone_urls@), texts(relays@)),
{
    RepoAnnouncement {
        id: "startsmall".to_owned(),
        name: "StartSmall".to_owned(),
        description: "Google Sheet snapshot viewer and git sync".to_owned(),
        web,
        clone_urls,
        relays,
    }
}

/// The announcement of the repository whose `CNAME` file and remote `origin` are given, with
/// the relays of the variable `NOSTR_RELAYS`.
pub open spec fn announced(
    cname: Option<Seq<char>>,
    origin: Option<Seq<char>>,
    relays: Option<Seq<char>>,
) -> AnnouncementModel {
    announcement_of(
        with_address(Seq::empty(), read_address(web_address(cname))),
        with_address(Seq::empty(), read_address(origin_address(origin))),
        readable_relays(relay_list(relays)),
    )
}

/// The announcement of the repository, for publication under a private key; or the text of the
/// error if the key cannot be used.
pub fn prepare_announcement(
    privkey: &str,
    cname: Option<&str>,
    origin: Option<&str>,
    relays: Option<&str>,
) -> (r: Result<RepoAnnouncement, String>)
    ensures
        match key_error(privkey@) {
            Some(message) => r matches Err(m) && m@ == message,
            None => r matches Ok(a) && a@ == announced(
                optional_text(cname),
                optional_text(origin),
                optional_text(relays),
            ),
        },
{
    match check_key(privkey) {
        Some(message) => Err(message),
        None => Ok(
            announce_addresses(
                resolve_web_urls(cname),
                resolve_clone_urls(origin),
                resolve_relay_urls(relays),
            ),
        ),
    }
}

/// The note on a snapshot, for publication under a private key; or the text of the error if the
/// key cannot be used.
pub fn prepare_note(privkey: &str, snapshot: &Snapshot, commit_id: &str, source_url: &str) -> (r:
    Result<String, String>)
    ensures
        match key_error(privkey@) {
            Some(message) => r matches Err(m) && m@ == message,
            None => r matches Ok(note) && note@ == note_text(
                commit_id@,
                snapshot.sha256@,
                snapshot.rows as nat,
                source_url@,
            ),
        },
{
    match check_key(privkey) {
        Some(message) => Err(message),
        None => Ok(render_note(snapshot, commit_id, source_url)),
    }
}

/// A text without slashes that a sum ends with is what its second part ends with, where the
/// first part ends with a slash.
proof fn lemma_suffix_behind_slash(front: Seq<char>, rest: Seq<char>, p: Seq<char>)
    requires
        front.len() > 0,
        front.last() == '/',
        !p.contains('/'),
    ensures
        ends_with(front + rest, p) == ends_with(rest, p),
{
    let s = front + rest;
    if ends_with(rest, p) {
        assert(s.subrange(s.len() - p.len(), s.len() as int) =~= p) by {
            assert(rest.subrange(rest.len() - p.len(), rest.len() as int) =~= s.subrange(
                s.len() - p.len(),
                s.len() as int,
            ));
        }
    }
    if ends_with(s, p) {
        let tail = s.subrange(s.len() - p.len(), s.len() as int);
        if p.len() > rest.len() {
            let k = p.len() - rest.len() - 1;
            assert(tail[k] == s[front.len() - 1]);
            assert(p[k] == '/');
        } else {
            assert(rest.subrange(rest.len() - p.len(), rest.len() as int) =~= tail);
        }
    }
}

/// A suffix without slashes is stripped behind the last slash of a fixed front.
proof fn lemma_strip_suffix_behind_slash(front: Seq<char>, rest: Seq<char>, p: Seq<char>)
    requires
        front.len() > 0,
        front.last() == '/',
        !p.contains('/'),
    ensures
        strip_repeated_suffix(front + rest, p) == front + strip_repeated_suffix(rest, p),
    decreases rest.len(),
{
    lemma_suffix_behind_slash(front, rest, p);
    if p.len() > 0 && ends_with(rest, p) {
        let s = front + rest;
        let shorter = rest.take(rest.len() - p.len());
        assert(s.take(s.len() - p.len()) =~= front + shorter);
        lemma_strip_suffix_behind_slash(front, shorter, p);
    }
}

/// What is left when a suffix is stripped as often as it stands there does not end with it.
proof fn lemma_stripped_has_no_suffix(s: Seq<char>, p: Seq<char>)
    requires
        p.len() > 0,
    ensures
        !ends_with(strip_repeated_suffix(s, p), p),
    decreases s.len(),
{
    if ends_with(s, p) {
        lemma_stripped_has_no_suffix(s.take(s.len() - p.len()), p);
    }
}

/// All ways to write a repository of GitHub as a remote lead to one address.
pub proof fn github_remotes_lead_to_one_address(path: Seq<char>)
    ensures
        clone_address("git@github.com:"@ + path) == Some(
            "https://github.com/"@ + strip_repeated_suffix(path, ".git"@),
        ),
        clone_address("ssh://git@github.com/"@ + path) == Some(
            "https://github.com/"@ + strip_repeated_suffix(path, ".git"@),
        ),
        clone_address("https://github.com/"@ + path) == Some(
            "https://github.com/"@ + strip_repeated_suffix(path, ".git"@),
        ),
{
    reveal_strlit("git@github.com:");
    reveal_strlit("ssh://git@github.com/");
    reveal_strlit("https://github.com/");
    reveal_strlit("http://");
    reveal_strlit("https://");
    reveal_strlit(".git");
    let a = "git@github.com:"@ + path;
    let b = "ssh://git@github.com/"@ + path;
    let c = "https://github.com/"@ + path;
    if starts_with(a, "http://"@) {
        assert(a.subrange(0, 7)[0] == a[0]);
    }
    if starts_with(a, "https://"@) {
        assert(a.subrange(0, 8)[0] == a[0]);
    }
    assert(a.subrange(0, 15) =~= "git@github.com:"@);
    assert(a.skip(15) =~= path);
    if starts_with(b, "http://"@) {
        assert(b.subrange(0, 7)[0] == b[0]);
    }
    if starts_with(b, "https://"@) {
        assert(b.subrange(0, 8)[0] == b[0]);
    }
    if starts_with(b, "git@github.com:"@) {
        assert(b.subrange(0, 15)[0] == b[0]);
    }
    assert(b.subrange(0, 21) =~= "ssh://git@github.com/"@);
    assert(b.skip(21) =~= path);
    assert(c.subrange(0, 8) =~= "https://"@);
    lemma_strip_suffix_behind_slash("https://github.com/"@, path, ".git"@);
}

/// The address to clone from is a web address and does not end with `.git`.
pub proof fn clone_addresses_are_web_addresses(remote: Seq<char>)
    ensures
        clone_address(remote) matches Some(url) ==> (starts_with(url, "http://"@) || starts_with(
            url,
            "https://"@,
        )) && !ends_with(url, ".git"@),
{
    reveal_strlit("http://");
    reveal_strlit("https://");
    reveal_strlit("https://github.com/");
    reveal_strlit("git@github.com:");
    reveal_strlit("ssh://git@github.com/");
    reveal_strlit(".git");
    if starts_with(remote, "http://"@) {
        lemma_web_remote(remote, "http://"@);
    } else if starts_with(remote, "https://"@) {
        lemma_web_remote(remote, "https://"@);
    } else if let Some(url) = clone_address(remote) {
        let rest = if starts_with(remote, "git@github.com:"@) {
            remote.skip(15)
        } else {
            remote.skip(21)
        };
        let path = strip_repeated_suffix(rest, ".git"@);
        lemma_stripped_has_no_suffix(rest, ".git"@);
        lemma_suffix_behind_slash("https://github.com/"@, path, ".git"@);
        assert(url == "https://github.com/"@ + path);
        assert(url.subrange(0, 8) =~= "https://"@);
    }
}

/// A web address keeps its scheme when `.git` is stripped from its end.
proof fn lemma_web_remote(remote: Seq<char>, scheme: Seq<char>)
    requires
        starts_with(remote, scheme),
        scheme.len() > 0,
        scheme.last() == '/',
    ensures
        starts_with(strip_repeated_suffix(remote, ".git"@), scheme),
        !ends_with(strip_repeated_suffix(remote, ".git"@), ".git"@),
{
    reveal_strlit(".git");
    let n = scheme.len() as int;
    let rest = remote.skip(n);
    assert(remote =~= scheme + rest) by {
        assert(remote.subrange(0, n) == scheme);
        assert forall|i: int| 0 <= i < n implies remote[i] == scheme[i] by {
            assert(remote.subrange(0, n)[i] == remote[i]);
        }
    }
    lemma_strip_suffix_behind_slash(scheme, rest, ".git"@);
    lemma_stripped_has_no_suffix(remote, ".git"@);
    let url = scheme + strip_repeated_suffix(rest, ".git"@);
    assert(url.subrange(0, n) =~= scheme);
}

/// The announcement takes its web addresses from the `CNAME` file alone, its addresses to clone
/// from from the remote `origin` alone and its relays from the relay list alone: whatever the
/// others are, each of the first two is the one address that can be read there, and empty only
/// if there is none.
pub proof fn each_address_has_its_own_source(
    cname: Option<Seq<char>>,
    origin: Option<Seq<char>>,
    relays: Option<Seq<char>>,
)
    ensures
        announced(cname, origin, relays).web == match cname {
            None => Seq::empty(),
            Some(text) => if trim(text).len() == 0 {
                Seq::empty()
            } else {
                match parsed_url("https://"@ + trim(text)) {
                    Some(url) => seq![url],
                    None => Seq::empty(),
                }
            },
        },
        announced(cname, origin, relays).clone_urls == match origin {
            None => Seq::empty(),
            Some(remote) => match clone_address(remote) {
                Some(address) => match parsed_url(address) {
                    Some(url) => seq![url],
                    None => Seq::empty(),
                },
                None => Seq::empty(),
            },
        },
        announced(cname, origin, relays).relays == readable_relays(relay_list(relays)),
{
    let none = Seq::<Seq<char>>::empty();
    if let Some(url) = read_address(web_address(cname)) {
        assert(none.push(url) =~= seq![url]);
    }
    if let Some(url) = read_address(origin_address(origin)) {
        assert(none.push(url) =~= seq![url]);
    }
}

/// What is announced from one source does not change with the others.
pub proof fn sources_do_not_change_each_other(
    cname: Option<Seq<char>>,
    origin: Option<Seq<char>>,
    relays: Option<Seq<char>>,
    other_cname: Option<Seq<char>>,
    other_origin: Option<Seq<char>>,
    other_relays: Option<Seq<char>>,
)
    ensures
        announced(cname, origin, relays).web == announced(cname, other_origin, other_relays).web,
        announced(cname, origin, relays).clone_urls == announced(
            other_cname,
            origin,
            other_relays,
        ).clone_urls,
        announced(cname, origin, relays).relays == announced(
            other_cname,
            other_origin,
            relays,
        ).relays,
        announced(cname, origin, relays).id == "startsmall"@,
        announced(cname, origin, relays).name == "StartSmall"@,
        announced(cname, origin, relays).description
            == "Google Sheet snapshot viewer and git sync"@,
{
}

/// The web address is that of the domain in the `CNAME` file, whatever white space is around it;
/// without a file, or with white space alone in it, there is none.
pub proof fn cname_files_name_the_domain(front: Seq<char>, name: Seq<char>, back: Seq<char>)
    requires
        forall|i: int| 0 <= i < front.len() ==> white_space(#[trigger] front[i]),
        forall|i: int| 0 <= i < back.len() ==> white_space(#[trigger] back[i]),
        name.len() > 0 ==> !white_space(name[0]) && !white_space(name[name.len() - 1]),
    ensures
        name.len() > 0 ==> web_address(Some(front + name + back)) == Some("https://"@ + name),
        name.len() == 0 ==> web_address(Some(front + name + back)) is None,
        web_address(None) is None,
{
    trimming_leaves_what_stands_between(front, name, back);
}

/// A web address without `.git` at its end is cloned from as it stands; one more `.git` at the
/// end of a remote does not matter; a remote that is neither a web address nor one of GitHub by
/// SSH gives no address.
pub proof fn remotes_lead_to_their_own_address(remote: Seq<char>)
    ensures
        (starts_with(remote, "http://"@) || starts_with(remote, "https://"@)) && !ends_with(
            remote,
            ".git"@,
        ) ==> clone_address(remote) == Some(remote),
        clone_address(remote) is Some ==> clone_address(remote + ".git"@) == clone_address(remote),
        clone_address(remote) is Some <==> starts_with(remote, "http://"@) || starts_with(
            remote,
            "https://"@,
        ) || starts_with(remote, "git@github.com:"@) || starts_with(
            remote,
            "ssh://git@github.com/"@,
        ),
{
    reveal_strlit(".git");
    let more = remote + ".git"@;
    if clone_address(remote) is Some {
        repeated_suffixes_are_stripped(remote, ".git"@);
        if starts_with(remote, "http://"@) {
            lemma_starts_with_longer(remote, ".git"@, "http://"@);
        } else if starts_with(remote, "https://"@) {
            lemma_starts_with_longer(remote, ".git"@, "https://"@);
        } else {
            reveal_strlit("http://");
            reveal_strlit("https://");
            reveal_strlit("git@github.com:");
            reveal_strlit("ssh://git@github.com/");
            let p = if starts_with(remote, "git@github.com:"@) {
                "git@github.com:"@
            } else {
                "ssh://git@github.com/"@
            };
            lemma_starts_with_longer(remote, ".git"@, p);
            assert(remote[0] == p[0]) by {
                assert(remote.subrange(0, p.len() as int)[0] == remote[0]);
            }
            assert(more[0] == remote[0]);
            if starts_with(more, "http://"@) {
                assert(more.subrange(0, 7)[0] == more[0]);
            }
            if starts_with(more, "https://"@) {
                assert(more.subrange(0, 8)[0] == more[0]);
            }
            if starts_with(more, "git@github.com:"@) {
                assert(more.subrange(0, 15)[0] == more[0]);
            }
            let rest = remote.skip(p.len() as int);
            assert(more.skip(p.len() as int) =~= rest + ".git"@);
            repeated_suffixes_are_stripped(rest, ".git"@);
        }
    }
}

proof fn lemma_starts_with_longer(s: Seq<char>, t: Seq<char>, p: Seq<char>)
    requires
        starts_with(s, p),
    ensures
        starts_with(s + t, p),
{
    assert((s + t).subrange(0, p.len() as int) =~= s.subrange(0, p.len() as int));
}

/// The relays announced are those that can be read, each by itself and in their order.
pub proof fn relays_are_read_one_by_one(a: Seq<Seq<char>>, relay: Seq<char>, b: Seq<Seq<char>>)
    ensures
        readable_relays(Seq::empty()) == Seq::<Seq<char>>::empty(),
        parsed_relay_url(relay) matches Some(url) ==> readable_relays(seq![relay]) == seq![url],
        parsed_relay_url(relay) is None ==> readable_relays(seq![relay]).len() == 0,
        readable_relays(a + b) == readable_relays(a) + readable_relays(b),
    decreases b.len(),
{
    let one = seq![relay];
    assert(one.drop_last() =~= Seq::<Seq<char>>::empty());
    assert(readable_relays(one.drop_last()) == Seq::<Seq<char>>::empty());
    if let Some(url) = parsed_relay_url(relay) {
        assert(Seq::<Seq<char>>::empty().push(url) =~= seq![url]);
    }
    if b.len() == 0 {
        assert(a + b =~= a);
        assert(readable_relays(a) + readable_relays(b) =~= readable_relays(a));
    } else {
        relays_are_read_one_by_one(a, relay, b.drop_last());
        assert((a + b).drop_last() =~= a + b.drop_last());
        if let Some(url) = parsed_relay_url(b.last()) {
            assert(readable_relays(a) + readable_relays(b.drop_last()).push(url) =~= (
            readable_relays(a) + readable_relays(b.drop_last())).push(url));
        }
    }
}

/// An announcement is seen as what its fields hold.
pub proof fn announcements_are_seen_by_their_fields(a: RepoAnnouncement)
    ensures
        a@.id == a.id@,
        a@.name == a.name@,
        a@.description == a.description@,
        a@.web == texts(a.web@),
        a@.clone_urls == texts(a.clone_urls@),
        a@.relays == texts(a.relays@),
{
}

} // verus!
