//! Settings: the address of the sheet, the address to listen on, and the relays.
use vstd::prelude::*;

use crate::text::{
    optional_string, optional_text, split_char, str_split_char, str_trim, texts,
    texts_are_cut_at_the_first_separator, trim, trimming_twice_is_trimming_once,
};

verus! {

/// The sheet that is read unless another is named.
pub const DEFAULT_SHEET_CSV_URL: &'static str =
    "https://docs.google.com/spreadsheets/d/1-eGxq2mMoEGwgSpNVL5j2sa6ToojZUZ-Zun8h2oBAR4/export?format=csv&gid=0";

/// The address that is listened on unless another is named.
pub const DEFAULT_BIND_ADDR: &'static str = "127.0.0.1:0";

/// The value of a setting: that of the flag, else that of the environment, else the default.
pub open spec fn chosen(
    flag: Option<Seq<char>>,
    env: Option<Seq<char>>,
    default: Seq<char>,
) -> Seq<char> {
    match (flag, env) {
        (Some(value), _) => value,
        (None, Some(value)) => value,
        (None, None) => default,
    }
}

/// The address of the sheet, from the flag `--sheet-url` and the variable `SHEET_CSV_URL`.
pub fn resolve_sheet_url(flag: Option<String>, env: Option<String>) -> (r: String)
    ensures
        r@ == chosen(optional_string(flag), optional_string(env), DEFAULT_SHEET_CSV_URL@),
{
    match flag {
        Some(value) => value,
        None => match env {
            Some(value) => value,
            None => DEFAULT_SHEET_CSV_URL.to_owned(),
        },
    }
}

/// The address to listen on, from the flag `--bind-addr` and the variable `BIND_ADDR`.
pub fn resolve_bind_addr(flag: Option<String>, env: Option<String>) -> (r: String)
    ensures
        r@ == chosen(optional_string(flag), optional_string(env), DEFAULT_BIND_ADDR@),
{
    match flag {
        Some(value) => value,
        None => match env {
            Some(value) => value,
            None => DEFAULT_BIND_ADDR.to_owned(),
        },
    }
}

/// The relays that are used unless others are named.
pub open spec fn default_relays() -> Seq<Seq<char>> {
    seq!["wss://relay.damus.io"@, "wss://relay.nostr.band"@, "wss://nostr.wine"@]
}

/// The parts that are not blank, trimmed.
pub open spec fn nonblank_parts(parts: Seq<Seq<char>>) -> Seq<Seq<char>>
    decreases parts.len(),
{
    if parts.len() == 0 {
        Seq::empty()
    } else {
        let front = nonblank_parts(parts.drop_last());
        let part = trim(parts.last());
        if part.len() == 0 {
            front
        } else {
            front.push(part)
        }
    }
}

/// The relays: those of the list, separated by commas, or else the default ones.
pub open spec fn relay_list(env: Option<Seq<char>>) -> Seq<Seq<char>> {
    match env {
        Some(value) => nonblank_parts(split_char(value, ',')),
        None => default_relays(),
    }
}

/// The relays, from the variable `NOSTR_RELAYS`.
pub fn resolve_relays(env: Option<&str>) -> (r: Vec<String>)
    ensures
        texts(r@) == relay_list(optional_text(env)),
{
    let mut relays: Vec<String> = Vec::new();
    match env {
        Some(value) => {
            let parts: Vec<&str> = str_split_char(value, ',');
            let ghost all = split_char(value@, ',');
            let mut i: usize = 0;
            while i < parts.len()
                invariant
                    i <= parts@.len(),
                    parts@.map_values(|t: &str| t@) == all,
                    texts(relays@) == nonblank_parts(all.take(i as int)),
                decreases parts@.len() - i,
            {
                let part: &str = str_trim(parts[i]);
                let ghost before = relays@;
                proof {
                    assert(all.take(i + 1).drop_last() =~= all.take(i as int));
                    assert(all[i as int] == parts@[i as int]@);
                }
                if !part.is_empty() {
                    relays.push(part.to_owned());
                    proof {
                        assert(texts(relays@) =~= texts(before).push(part@));
                    }
                }
                i = i + 1;
            }
            proof {
                assert(all.take(i as int) =~= all);
            }
        },
        None => {
            relays.push("wss://relay.damus.io".to_owned());
            relays.push("wss://relay.nostr.band".to_owned());
            relays.push("wss://nostr.wine".to_owned());
            proof {
                assert(texts(relays@) =~= default_relays());
            }
        },
    }
    relays
}

/// However the list is written, no relay in it is empty or has white space at its ends.
pub proof fn listed_relays_are_trimmed(value: Seq<char>)
    ensures
        forall|i: int|
            0 <= i < relay_list(Some(value)).len() ==> (#[trigger] relay_list(Some(value))[i]).len()
                > 0 && trim(relay_list(Some(value))[i]) == relay_list(Some(value))[i],
{
    lemma_nonblank_parts_are_trimmed(split_char(value, ','));
}

proof fn lemma_nonblank_parts_are_trimmed(parts: Seq<Seq<char>>)
    ensures
        forall|i: int|
            0 <= i < nonblank_parts(parts).len() ==> (#[trigger] nonblank_parts(parts)[i]).len() > 0
                && trim(nonblank_parts(parts)[i]) == nonblank_parts(parts)[i],
    decreases parts.len(),
{
    if parts.len() > 0 {
        let front = nonblank_parts(parts.drop_last());
        let all = nonblank_parts(parts);
        lemma_nonblank_parts_are_trimmed(parts.drop_last());
        trimming_twice_is_trimming_once(parts.last());
        assert forall|i: int| 0 <= i < all.len() implies (#[trigger] all[i]).len() > 0 && trim(
            all[i],
        ) == all[i] by {
            if i < front.len() {
                assert(all[i] == front[i]);
            }
        }
    }
}

/// A flag takes precedence over the environment, and that over the default.
pub proof fn flags_take_precedence(
    flag: Seq<char>,
    env: Option<Seq<char>>,
    value: Seq<char>,
    default: Seq<char>,
)
    ensures
        chosen(Some(flag), env, default) == flag,
        chosen(None, Some(value), default) == value,
        chosen(None, None, default) == default,
{
}

proof fn lemma_nonblank_parts_of_sum(a: Seq<Seq<char>>, b: Seq<Seq<char>>)
    ensures
        nonblank_parts(a + b) == nonblank_parts(a) + nonblank_parts(b),
    decreases b.len(),
{
    if b.len() == 0 {
        assert(a + b =~= a);
        assert(nonblank_parts(a) + nonblank_parts(b) =~= nonblank_parts(a));
    } else {
        lemma_nonblank_parts_of_sum(a, b.drop_last());
        assert((a + b).drop_last() =~= a + b.drop_last());
        let part = trim(b.last());
        assert(nonblank_parts(a) + nonblank_parts(b.drop_last()).push(part) =~= (nonblank_parts(a)
            + nonblank_parts(b.drop_last())).push(part));
    }
}

/// The relays are those that were named, in their order: what stands before a comma is one,
/// trimmed, unless it is blank, and the rest is a list of the same kind. If none were named there
/// are three.
pub proof fn relays_are_those_that_were_named(first: Seq<char>, rest: Seq<char>)
    requires
        !first.contains(','),
    ensures
        trim(first).len() > 0 ==> relay_list(Some(first)) == seq![trim(first)],
        trim(first).len() == 0 ==> relay_list(Some(first)).len() == 0,
        relay_list(Some(first.push(',') + rest)) == relay_list(Some(first)) + relay_list(
            Some(rest),
        ),
        relay_list(None) == seq![
            "wss://relay.damus.io"@,
            "wss://relay.nostr.band"@,
            "wss://nostr.wine"@,
        ],
{
    texts_are_cut_at_the_first_separator(first, ',', rest);
    let one = seq![first];
    assert(one.drop_last() =~= Seq::<Seq<char>>::empty());
    assert(nonblank_parts(one.drop_last()) == Seq::<Seq<char>>::empty());
    assert(nonblank_parts(one) =~= if trim(first).len() == 0 {
        Seq::<Seq<char>>::empty()
    } else {
        seq![trim(first)]
    });
    lemma_nonblank_parts_of_sum(one, split_char(rest, ','));
}

/// Without a flag and without the environment, the bundled sheet is read and a free port of the
/// machine itself is listened on.
pub proof fn the_defaults_are_these()
    ensures
        chosen(None, None, DEFAULT_SHEET_CSV_URL@)
            == "https://docs.google.com/spreadsheets/d/1-eGxq2mMoEGwgSpNVL5j2sa6ToojZUZ-Zun8h2oBAR4/export?format=csv&gid=0"@,
        chosen(None, None, DEFAULT_BIND_ADDR@) == "127.0.0.1:0"@,
{
}

} // verus!
