//! Unicode lower-casing of strings.
use vstd::prelude::*;

use crate::text::{ascii_lower, only_ascii_capitals_are_lowered};

verus! {

/// The lower-case form that `str::to_lowercase` gives of a string with characters outside ASCII.
pub uninterp spec fn unicode_lowercase(s: Seq<char>) -> Seq<char>;

/// `s` holds ASCII characters only.
pub open spec fn ascii(s: Seq<char>) -> bool {
    forall|i: int| 0 <= i < s.len() ==> (#[trigger] s[i] as u32) < 128
}

/// The lower-case form of `s`. On ASCII it is the replacement of capitals letter by letter.
pub open spec fn lowercase(s: Seq<char>) -> Seq<char> {
    if ascii(s) {
        ascii_lower(s)
    } else {
        unicode_lowercase(s)
    }
}

/// The lower-case form of `s`, by `str::to_lowercase` of the standard library.
///
/// Taken on trust: the result depends on the characters of `s` alone, and on an ASCII string it
/// is the string with `A` to `Z` replaced by `a` to `z` and nothing else changed. What the
/// Unicode tables make of other strings is not spelled out; it only has the name
/// `unicode_lowercase`.
#[verifier::external_body]
pub(crate) fn to_lowercase(s: &str) -> (r: String)
    ensures
        ascii(s@) ==> r@ == ascii_lower(s@),
        !ascii(s@) ==> r@ == unicode_lowercase(s@),
{
    s.to_lowercase()
}

/// The lower-case form of ASCII text has a character for each of the text: `a` to `z` for `A` to
/// `Z`, and any other as it stands.
pub proof fn ascii_text_is_lowered_letter_by_letter(s: Seq<char>, i: int)
    requires
        forall|j: int| 0 <= j < s.len() ==> (#[trigger] s[j] as u32) < 128,
        0 <= i < s.len(),
    ensures
        lowercase(s).len() == s.len(),
        65 <= s[i] as u32 <= 90 ==> lowercase(s)[i] as u32 == s[i] as u32 + 32,
        !(65 <= s[i] as u32 <= 90) ==> lowercase(s)[i] == s[i],
{
    only_ascii_capitals_are_lowered(s, i);
}

} // verus!
