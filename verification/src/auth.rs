//! Who may ask for a sync.
use vstd::prelude::*;
use vstd::utf8::encode_utf8_decode_utf8;

use crate::text::{
    ascii_lower, contains, occurs_at, optional_text, starts_with, str_eq_ignoring_ascii_case,
    str_strip_prefix, str_trim, strip_prefix, trim, trim_end, trim_start,
    trimmed_text_has_no_white_space_at_its_ends, trimmed_text_stands_in_the_text,
};

verus! {

/// Whether the two byte strings are equal, by `ct_eq` of the crate `subtle`, which takes the
/// same time wherever they differ.
///
/// Taken on trust: the answer is yes exactly if both have the same bytes. How long it takes is
/// not spoken of.
#[verifier::external_body]
fn bytes_match(a: &[u8], b: &[u8]) -> (r: bool)
    ensures
        r == (a@ == b@),
{
    bool::from(subtle::ConstantTimeEq::ct_eq(a, b))
}

/// Whether the token that a client presents is the one expected.
pub fn token_matches(candidate: &str, expected: &str) -> (r: bool)
    ensures
        r == (candidate@ == expected@),
{
    proof {
        encode_utf8_decode_utf8(candidate@);
        encode_utf8_decode_utf8(expected@);
    }
    bytes_match(candidate.as_bytes(), expected.as_bytes())
}

/// A header line of a request.
pub struct RequestHeader {
    /// The name of the field.
    pub field: String,
    /// What stands behind the colon.
    pub value: String,
}

/// A header line by its characters.
pub struct HeaderModel {
    pub field: Seq<char>,
    pub value: Seq<char>,
}

impl View for RequestHeader {
    type V = HeaderModel;

    open spec fn view(&self) -> HeaderModel {
        HeaderModel { field: self.field@, value: self.value@ }
    }
}

/// The header lines by their characters.
pub open spec fn headers_view(headers: Seq<RequestHeader>) -> Seq<HeaderModel> {
    headers.map_values(|h: RequestHeader| h@)
}

/// The field has the name `name`, in upper or lower case.
pub open spec fn is_field(header: HeaderModel, name: Seq<char>) -> bool {
    ascii_lower(header.field) == ascii_lower(name)
}

/// The header line presents the token.
pub open spec fn presents(header: HeaderModel, token: Seq<char>) -> bool {
    if is_field(header, "X-Sync-Token"@) {
        trim(header.value) == token
    } else if is_field(header, "Authorization"@) {
        match strip_prefix(trim(header.value), "Bearer "@) {
            Some(rest) => trim(rest) == token,
            None => false,
        }
    } else {
        false
    }
}

/// A request for a sync is authorized: it comes from the machine itself, or a token is set and
/// one of its header lines presents it. A blank token counts as none.
pub open spec fn authorized(
    loopback: bool,
    token: Option<Seq<char>>,
    headers: Seq<HeaderModel>,
) -> bool {
    loopback || match token {
        Some(t) => trim(t).len() > 0 && exists|i: int|
            0 <= i < headers.len() && presents(#[trigger] headers[i], t),
        None => false,
    }
}

/// Whether the header line presents the token.
fn header_presents(header: &RequestHeader, token: &str) -> (r: bool)
    ensures
        r == presents(header@, token@),
{
    if str_eq_ignoring_ascii_case(header.field.as_str(), "X-Sync-Token") {
        return token_matches(str_trim(header.value.as_str()), token);
    }
    if str_eq_ignoring_ascii_case(header.field.as_str(), "Authorization") {
        return match str_strip_prefix(str_trim(header.value.as_str()), "Bearer ") {
            Some(rest) => token_matches(str_trim(rest), token),
            None => false,
        };
    }
    false
}

/// Whether a request for a sync is authorized. `loopback` says whether it comes from the machine
/// itself, `sync_token` is the token that was set, if any.
pub fn sync_request_authorized(
    loopback: bool,
    sync_token: Option<&str>,
    headers: &Vec<RequestHeader>,
) -> (r: bool)
    ensures
        r == authorized(loopback, optional_text(sync_token), headers_view(headers@)),
{
    if loopback {
        return true;
    }
    let token: &str = match sync_token {
        Some(value) => value,
        None => {
            return false;
        },
    };
    if str_trim(token).is_empty() {
        return false;
    }
    let mut i: usize = 0;
    while i < headers.len()
        invariant
            i <= headers@.len(),
            optional_text(sync_token) == Some(token@),
            trim(token@).len() > 0,
            forall|j: int|
                0 <= j < i ==> !presents(#[trigger] headers_view(headers@)[j], token@),
        decreases headers@.len() - i,
    {
        if header_presents(&headers[i], token) {
            proof {
                assert(presents(headers_view(headers@)[i as int], token@));
            }
            return true;
        }
        i = i + 1;
    }
    false
}

/// Without a token, remote requests are refused.
pub proof fn without_a_token_remote_requests_are_refused(headers: Seq<HeaderModel>)
    ensures
        !authorized(false, None, headers),
{
}

/// Requests from the machine itself need no token.
pub proof fn local_requests_are_authorized(token: Option<Seq<char>>, headers: Seq<HeaderModel>)
    ensures
        authorized(true, token, headers),
{
}

/// A remote request that is authorized holds the token in one of its header lines, in a field
/// for it.
pub proof fn remote_requests_must_hold_the_token(
    token: Option<Seq<char>>,
    headers: Seq<HeaderModel>,
)
    requires
        authorized(false, token, headers),
    ensures
        token matches Some(t) && exists|i: int|
            0 <= i < headers.len() && contains((#[trigger] headers[i]).value, t) && (is_field(
                headers[i],
                "X-Sync-Token"@,
            ) || is_field(headers[i], "Authorization"@)),
{
    let t = token.unwrap();
    let i = choose|i: int| 0 <= i < headers.len() && presents(#[trigger] headers[i], t);
    let value = headers[i].value;
    trimmed_text_stands_in_the_text(value);
    if !is_field(headers[i], "X-Sync-Token"@) {
        let rest = strip_prefix(trim(value), "Bearer "@).unwrap();
        trimmed_text_stands_in_the_text(rest);
        let j = choose|j: int| occurs_at(value, trim(value), j);
        let k = choose|k: int| occurs_at(rest, t, k);
        let n = "Bearer "@.len();
        assert(value.subrange(j + n + k, j + n + k + t.len()) =~= t) by {
            assert forall|m: int| 0 <= m < t.len() implies value[j + n + k + m] == t[m] by {
                assert(rest.subrange(k, k + t.len())[m] == rest[k + m]);
                assert(rest[k + m] == trim(value)[n + k + m]);
                assert(value.subrange(j, j + trim(value).len())[n + k + m] == value[j + n + k + m]);
            }
        }
        assert(occurs_at(value, t, j + n + k));
    }
}

/// The field for tokens: a request that sends the token in it is authorized. (A token with
/// white space at its ends cannot be sent.)
pub proof fn token_field_authorizes(
    loopback: bool,
    token: Seq<char>,
    headers: Seq<HeaderModel>,
    i: int,
)
    requires
        token.len() > 0,
        trim(token) == token,
        0 <= i < headers.len(),
        is_field(headers[i], "X-Sync-Token"@),
        headers[i].value == token,
    ensures
        authorized(loopback, Some(token), headers),
{
    assert(presents(headers[i], token));
}

/// The field for credentials: a request that sends the token behind `Bearer` in it is
/// authorized. (A token with white space at its ends cannot be sent.)
pub proof fn bearer_field_authorizes(
    loopback: bool,
    token: Seq<char>,
    headers: Seq<HeaderModel>,
    i: int,
)
    requires
        token.len() > 0,
        trim(token) == token,
        0 <= i < headers.len(),
        is_field(headers[i], "Authorization"@),
        headers[i].value == "Bearer "@ + token,
    ensures
        authorized(loopback, Some(token), headers),
{
    let value = "Bearer "@ + token;
    reveal_strlit("Bearer ");
    reveal_strlit("X-Sync-Token");
    reveal_strlit("Authorization");
    trimmed_text_has_no_white_space_at_its_ends(token);
    assert(value.first() == 'B');
    assert(value.last() == token.last());
    assert(trim_start(value) == value);
    assert(trim_end(value) == value);
    assert(value.subrange(0, 7) =~= "Bearer "@);
    assert(value.skip(7) =~= token);
    assert(ascii_lower("X-Sync-Token"@).len() != ascii_lower("Authorization"@).len());
    assert(presents(headers[i], token));
}

/// A remote request is authorized exactly if the token that is set is not blank and one header
/// line carries exactly that token, with nothing but white space around it: in the field for
/// tokens alone, in the field for credentials behind the word `Bearer` and a space.
pub proof fn remote_requests_are_authorized_by_the_exact_token(
    token: Seq<char>,
    headers: Seq<HeaderModel>,
)
    ensures
        authorized(false, Some(token), headers) <==> trim(token).len() > 0 && exists|i: int|
            0 <= i < headers.len() && {
                ||| ascii_lower((#[trigger] headers[i]).field) == ascii_lower("X-Sync-Token"@)
                    && trim(headers[i].value) == token
                ||| ascii_lower(headers[i].field) == ascii_lower("Authorization"@) && starts_with(
                    trim(headers[i].value),
                    "Bearer "@,
                ) && trim(trim(headers[i].value).skip("Bearer "@.len() as int)) == token
            },
{
    reveal_strlit("X-Sync-Token");
    reveal_strlit("Authorization");
    assert(ascii_lower("X-Sync-Token"@).len() != ascii_lower("Authorization"@).len());
    if authorized(false, Some(token), headers) {
        let i = choose|i: int| 0 <= i < headers.len() && presents(#[trigger] headers[i], token);
        assert(ascii_lower(headers[i].field) == ascii_lower("X-Sync-Token"@) || ascii_lower(
            headers[i].field,
        ) == ascii_lower("Authorization"@));
    }
    assert forall|i: int| 0 <= i < headers.len() && {
        ||| ascii_lower((#[trigger] headers[i]).field) == ascii_lower("X-Sync-Token"@) && trim(
            headers[i].value,
        ) == token
        ||| ascii_lower(headers[i].field) == ascii_lower("Authorization"@) && starts_with(
            trim(headers[i].value),
            "Bearer "@,
        ) && trim(trim(headers[i].value).skip("Bearer "@.len() as int)) == token
    } implies presents(headers[i], token) by {}
}

/// More header lines do not take an authorization away.
pub proof fn more_headers_keep_the_authorization(
    loopback: bool,
    token: Option<Seq<char>>,
    before: Seq<HeaderModel>,
    headers: Seq<HeaderModel>,
    after: Seq<HeaderModel>,
)
    requires
        authorized(loopback, token, headers),
    ensures
        authorized(loopback, token, before + headers + after),
{
    if !loopback {
        let t = token.unwrap();
        let all = before + headers + after;
        let i = choose|i: int| 0 <= i < headers.len() && presents(#[trigger] headers[i], t);
        assert(all[before.len() + i] == headers[i]);
        assert(presents(all[before.len() + i], t));
    }
}

/// Header lines are seen as what their fields hold, in order.
pub proof fn headers_are_seen_by_their_fields(headers: Seq<RequestHeader>)
    ensures
        headers_view(headers).len() == headers.len(),
        forall|i: int|
            0 <= i < headers.len() ==> (#[trigger] headers_view(headers)[i]).field
                == headers[i].field@ && headers_view(headers)[i].value == headers[i].value@,
{
}

} // verus!
