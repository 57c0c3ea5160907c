//! Text primitives over the characters of a string.
//!
//! A string is modelled by the sequence of its characters. The spec functions say what each
//! operation means on such sequences; the executable functions of the same name, with the
//! prefix `str_` where they take string slices, compute it.
use vstd::prelude::*;

verus! {

/// Appends one character: `String::push` of the standard library puts the given character at
/// the end and leaves what was there before.
pub assume_specification[ String::push ](s: &mut String, c: char)
    ensures
        final(s)@ == old(s)@.push(c),
;

/// The strings of a list by their characters.
pub open spec fn texts(list: Seq<String>) -> Seq<Seq<char>> {
    list.map_values(|s: String| s@)
}

/// An optional string slice by its characters.
pub open spec fn optional_text(s: Option<&str>) -> Option<Seq<char>> {
    match s {
        Some(t) => Some(t@),
        None => None,
    }
}

/// An optional string by its characters.
pub open spec fn optional_string(s: Option<String>) -> Option<Seq<char>> {
    match s {
        Some(t) => Some(t@),
        None => None,
    }
}

/// The characters with the Unicode property `White_Space`.
pub open spec fn white_space(c: char) -> bool {
    let n = c as u32;
    ||| 0x9 <= n <= 0xd
    ||| n == 0x20
    ||| n == 0x85
    ||| n == 0xa0
    ||| n == 0x1680
    ||| 0x2000 <= n <= 0x200a
    ||| n == 0x2028
    ||| n == 0x2029
    ||| n == 0x202f
    ||| n == 0x205f
    ||| n == 0x3000
}

/// Whether `c` has the property `White_Space`.
pub fn is_white_space(c: char) -> (r: bool)
    ensures
        r == white_space(c),
{
    let n: u32 = c as u32;
    (0x9 <= n && n <= 0xd) || n == 0x20 || n == 0x85 || n == 0xa0 || n == 0x1680 || (0x2000 <= n
        && n <= 0x200a) || n == 0x2028 || n == 0x2029 || n == 0x202f || n == 0x205f || n == 0x3000
}

/// `s` without its leading white space.
pub open spec fn trim_start(s: Seq<char>) -> Seq<char>
    decreases s.len(),
{
    if s.len() > 0 && white_space(s.first()) {
        trim_start(s.drop_first())
    } else {
        s
    }
}

/// `s` without its trailing white space.
pub open spec fn trim_end(s: Seq<char>) -> Seq<char>
    decreases s.len(),
{
    if s.len() > 0 && white_space(s.last()) {
        trim_end(s.drop_last())
    } else {
        s
    }
}

/// `s` without its leading and trailing white space.
pub open spec fn trim(s: Seq<char>) -> Seq<char> {
    trim_end(trim_start(s))
}

/// `p` stands in `s` at position `i`.
pub open spec fn occurs_at(s: Seq<char>, p: Seq<char>, i: int) -> bool {
    &&& 0 <= i
    &&& i + p.len() <= s.len()
    &&& s.subrange(i, i + p.len()) == p
}

/// `p` stands somewhere in `s`.
pub open spec fn contains(s: Seq<char>, p: Seq<char>) -> bool {
    exists|i: int| occurs_at(s, p, i)
}

/// `s` begins with `p`.
pub open spec fn starts_with(s: Seq<char>, p: Seq<char>) -> bool {
    occurs_at(s, p, 0)
}

/// `s` ends with `p`.
pub open spec fn ends_with(s: Seq<char>, p: Seq<char>) -> bool {
    occurs_at(s, p, s.len() - p.len())
}

/// What follows the prefix `p` of `s`, if `s` begins with it.
pub open spec fn strip_prefix(s: Seq<char>, p: Seq<char>) -> Option<Seq<char>> {
    if starts_with(s, p) {
        Some(s.skip(p.len() as int))
    } else {
        None
    }
}

/// `s` without as many copies of `p` as it begins with.
pub open spec fn strip_repeated_prefix(s: Seq<char>, p: Seq<char>) -> Seq<char>
    decreases s.len(),
{
    if p.len() > 0 && starts_with(s, p) {
        strip_repeated_prefix(s.skip(p.len() as int), p)
    } else {
        s
    }
}

/// `s` without as many copies of `p` as it ends with.
pub open spec fn strip_repeated_suffix(s: Seq<char>, p: Seq<char>) -> Seq<char>
    decreases s.len(),
{
    if p.len() > 0 && ends_with(s, p) {
        strip_repeated_suffix(s.take(s.len() - p.len()), p)
    } else {
        s
    }
}

/// The position of the first `c` in `s`, or the length of `s` if there is none.
pub open spec fn find_char(s: Seq<char>, c: char) -> nat
    decreases s.len(),
{
    if s.len() == 0 || s.first() == c {
        0
    } else {
        1 + find_char(s.drop_first(), c)
    }
}

/// What stands in `s` before the first `c`; all of `s` if there is none.
pub open spec fn before_char(s: Seq<char>, c: char) -> Seq<char> {
    s.take(find_char(s, c) as int)
}

/// The parts of `s` between the occurrences of `c`.
pub open spec fn split_char(s: Seq<char>, c: char) -> Seq<Seq<char>>
    decreases s.len(),
{
    let i = find_char(s, c) as int;
    if i >= s.len() {
        seq![s]
    } else {
        seq![s.take(i)] + split_char(s.skip(i + 1), c)
    }
}

/// `s` in which the ASCII letters `A` to `Z` are replaced by `a` to `z`.
pub open spec fn ascii_lower(s: Seq<char>) -> Seq<char> {
    s.map_values(|c: char| ascii_lower_char(c))
}

/// The lower-case form of an ASCII capital; any other character itself.
pub open spec fn ascii_lower_char(c: char) -> char {
    if 'A' <= c && c <= 'Z' {
        (c as u32 + 32) as char
    } else {
        c
    }
}

/// The first `c` of `s` is found where the sequence holds it and nowhere before.
pub proof fn lemma_find_char(s: Seq<char>, c: char)
    ensures
        find_char(s, c) <= s.len(),
        find_char(s, c) < s.len() ==> s[find_char(s, c) as int] == c,
        forall|i: int| 0 <= i < find_char(s, c) ==> s[i] != c,
    decreases s.len(),
{
    if s.len() > 0 && s.first() != c {
        let t = s.drop_first();
        lemma_find_char(t, c);
        assert forall|i: int| 0 <= i < find_char(s, c) implies s[i] != c by {
            if i > 0 {
                assert(s[i] == t[i - 1]);
            }
        }
    }
}

/// Trimming takes the middle of a text.
proof fn lemma_trim_is_middle(s: Seq<char>)
    ensures
        exists|i: int, j: int| 0 <= i <= j <= s.len() && trim(s) == #[trigger] s.subrange(i, j),
{
    lemma_trim_start_is_rear(s);
    let t = trim_start(s);
    lemma_trim_end_is_front(t);
    let i = s.len() - t.len();
    let j = i + trim_end(t).len();
    assert(trim(s) =~= s.subrange(i, j));
}

/// Trimming at the start takes the rear of a text.
proof fn lemma_trim_start_is_rear(s: Seq<char>)
    ensures
        trim_start(s).len() <= s.len(),
        trim_start(s) == s.skip(s.len() - trim_start(s).len()),
        trim_start(s).len() > 0 ==> !white_space(trim_start(s).first()),
    decreases s.len(),
{
    if s.len() > 0 && white_space(s.first()) {
        let t = s.drop_first();
        lemma_trim_start_is_rear(t);
        assert(t.skip(t.len() - trim_start(t).len()) =~= s.skip(s.len() - trim_start(s).len()));
    } else {
        assert(s.skip(0) =~= s);
    }
}

/// Trimming at the end takes the front of a text.
proof fn lemma_trim_end_is_front(s: Seq<char>)
    ensures
        trim_end(s).len() <= s.len(),
        trim_end(s) == s.take(trim_end(s).len() as int),
        trim_end(s).len() > 0 ==> !white_space(trim_end(s).last()),
    decreases s.len(),
{
    if s.len() > 0 && white_space(s.last()) {
        let t = s.drop_last();
        lemma_trim_end_is_front(t);
        assert(t.take(trim_end(t).len() as int) =~= s.take(trim_end(s).len() as int));
    } else {
        assert(s.take(s.len() as int) =~= s);
    }
}

/// Trimmed text neither begins nor ends with white space.
pub proof fn trimmed_text_has_no_white_space_at_its_ends(s: Seq<char>)
    ensures
        trim(s).len() > 0 ==> !white_space(trim(s).first()) && !white_space(trim(s).last()),
{
    let t = trim_start(s);
    lemma_trim_start_is_rear(s);
    lemma_trim_end_is_front(t);
    if trim(s).len() > 0 {
        assert(trim(s).first() == t.first());
    }
}

/// Trimming a second time changes nothing.
pub proof fn trimming_twice_is_trimming_once(s: Seq<char>)
    ensures
        trim(trim(s)) == trim(s),
{
    trimmed_text_has_no_white_space_at_its_ends(s);
}

/// A text holds what it is trimmed to.
pub proof fn trimmed_text_stands_in_the_text(s: Seq<char>)
    ensures
        contains(s, trim(s)),
{
    lemma_trim_is_middle(s);
    let (i, j) = choose|i: int, j: int|
        0 <= i <= j <= s.len() && trim(s) == #[trigger] s.subrange(i, j);
    assert(occurs_at(s, trim(s), i));
}

/// What does not stand in a text does not stand in it trimmed.
pub proof fn lemma_trim_keeps_absence(s: Seq<char>, c: char)
    requires
        !s.contains(c),
    ensures
        !trim(s).contains(c),
{
    lemma_trim_is_middle(s);
    let (i, j) = choose|i: int, j: int|
        0 <= i <= j <= s.len() && trim(s) == #[trigger] s.subrange(i, j);
    if trim(s).contains(c) {
        let k = choose|k: int| 0 <= k < trim(s).len() && trim(s)[k] == c;
        assert(s[i + k] == c);
    }
}

/// The characters of `s`.
pub fn to_chars(s: &str) -> (v: Vec<char>)
    ensures
        v@ == s@,
{
    let mut v: Vec<char> = Vec::new();
    for c in it: s.chars()
        invariant
            v@ == it.seq().take(it.index() as int),
            it.seq() == s@,
    {
        proof {
            assert(it.seq().take(it.index() + 1) =~= it.seq().take(it.index() as int).push(c));
        }
        v.push(c);
    }
    proof {
        assert(s@.take(s@.len() as int) =~= s@);
    }
    v
}

/// Whether `p` stands in `s` at position `i`.
fn chars_at(s: &Vec<char>, p: &Vec<char>, i: usize) -> (r: bool)
    ensures
        r == occurs_at(s@, p@, i as int),
{
    let len: usize = s.len();
    if i > len || p.len() > len - i {
        return false;
    }
    let mut k: usize = 0;
    while k < p.len()
        invariant
            k <= p@.len(),
            i + p@.len() <= len == s@.len(),
            forall|j: int| 0 <= j < k ==> s@[i + j] == p@[j],
        decreases p@.len() - k,
    {
        if s[i + k] != p[k] {
            proof {
                assert(s@.subrange(i as int, i + p@.len())[k as int] != p@[k as int]);
            }
            return false;
        }
        k = k + 1;
    }
    proof {
        assert(s@.subrange(i as int, i + p@.len()) =~= p@);
    }
    true
}

/// Whether the two strings hold the same characters.
pub fn str_eq(a: &str, b: &str) -> (r: bool)
    ensures
        r == (a@ == b@),
{
    let x: Vec<char> = to_chars(a);
    let y: Vec<char> = to_chars(b);
    let at: bool = chars_at(&x, &y, 0);
    proof {
        assert(a@.subrange(0, a@.len() as int) =~= a@);
    }
    x.len() == y.len() && at
}

/// Whether `s` begins with `p`.
pub fn str_starts_with(s: &str, p: &str) -> (r: bool)
    ensures
        r == starts_with(s@, p@),
{
    chars_at(&to_chars(s), &to_chars(p), 0)
}

/// Whether `p` stands somewhere in `s`.
pub fn str_contains(s: &str, p: &str) -> (r: bool)
    ensures
        r == contains(s@, p@),
{
    let x: Vec<char> = to_chars(s);
    let y: Vec<char> = to_chars(p);
    if y.len() > x.len() {
        return false;
    }
    let mut i: usize = 0;
    let last: usize = x.len() - y.len();
    while i <= last
        invariant
            x@ == s@,
            y@ == p@,
            last == s@.len() - p@.len(),
            i <= last + 1,
            forall|j: int| 0 <= j < i ==> !occurs_at(s@, p@, j),
        decreases last + 1 - i,
    {
        if chars_at(&x, &y, i) {
            return true;
        }
        if i == last {
            return false;
        }
        i = i + 1;
    }
    false
}

/// Whether the character `c` stands in `s`.
pub fn str_contains_char(s: &str, c: char) -> (r: bool)
    ensures
        r == s@.contains(c),
{
    let x: Vec<char> = to_chars(s);
    let mut i: usize = 0;
    while i < x.len()
        invariant
            x@ == s@,
            i <= s@.len(),
            forall|j: int| 0 <= j < i ==> s@[j] != c,
        decreases s@.len() - i,
    {
        if x[i] == c {
            proof {
                assert(s@[i as int] == c);
            }
            return true;
        }
        i = i + 1;
    }
    false
}

/// `s` without its leading and trailing white space.
pub fn str_trim(s: &str) -> (r: &str)
    ensures
        r@ == trim(s@),
{
    let x: Vec<char> = to_chars(s);
    let mut from: usize = 0;
    proof {
        assert(s@.skip(0) =~= s@);
    }
    while from < x.len() && is_white_space(x[from])
        invariant
            x@ == s@,
            from <= s@.len(),
            trim_start(s@) == trim_start(s@.skip(from as int)),
        decreases s@.len() - from,
    {
        proof {
            assert(s@.skip(from as int).drop_first() =~= s@.skip(from + 1));
        }
        from = from + 1;
    }
    let mut to: usize = x.len();
    proof {
        assert(trim_start(s@) == s@.skip(from as int));
        assert(s@.skip(from as int) =~= s@.subrange(from as int, to as int));
    }
    while to > from && is_white_space(x[to - 1])
        invariant
            x@ == s@,
            from <= to <= s@.len(),
            trim(s@) == trim_end(s@.subrange(from as int, to as int)),
        decreases to - from,
    {
        proof {
            assert(s@.subrange(from as int, to as int).drop_last() =~= s@.subrange(
                from as int,
                to - 1,
            ));
        }
        to = to - 1;
    }
    s.substring_char(from, to)
}

/// What follows the prefix `p` of `s`, if `s` begins with it.
pub fn str_strip_prefix<'a>(s: &'a str, p: &str) -> (r: Option<&'a str>)
    ensures
        optional_text(r) == strip_prefix(s@, p@),
{
    let x: Vec<char> = to_chars(s);
    let y: Vec<char> = to_chars(p);
    if chars_at(&x, &y, 0) {
        Some(s.substring_char(y.len(), x.len()))
    } else {
        None
    }
}

/// `s` without as many copies of `p` as it begins with.
pub fn str_strip_repeated_prefix<'a>(s: &'a str, p: &str) -> (r: &'a str)
    ensures
        r@ == strip_repeated_prefix(s@, p@),
{
    let x: Vec<char> = to_chars(s);
    let y: Vec<char> = to_chars(p);
    let len: usize = x.len();
    let mut from: usize = 0;
    proof {
        assert(s@.skip(0) =~= s@);
    }
    while y.len() > 0 && chars_at(&x, &y, from)
        invariant
            x@ == s@,
            y@ == p@,
            from <= len == s@.len(),
            strip_repeated_prefix(s@, p@) == strip_repeated_prefix(s@.skip(from as int), p@),
        decreases s@.len() - from,
    {
        proof {
            let rest = s@.skip(from as int);
            assert(rest.subrange(0, p@.len() as int) =~= s@.subrange(from as int, from + p@.len()));
            assert(rest.skip(p@.len() as int) =~= s@.skip(from + p@.len()));
        }
        from = from + y.len();
    }
    proof {
        let rest = s@.skip(from as int);
        if p@.len() > 0 && starts_with(rest, p@) {
            assert(rest.subrange(0, p@.len() as int) =~= s@.subrange(from as int, from + p@.len()));
            assert(occurs_at(s@, p@, from as int));
        }
    }
    s.substring_char(from, len)
}

/// `s` without as many copies of `p` as it ends with.
pub fn str_strip_repeated_suffix<'a>(s: &'a str, p: &str) -> (r: &'a str)
    ensures
        r@ == strip_repeated_suffix(s@, p@),
{
    let x: Vec<char> = to_chars(s);
    let y: Vec<char> = to_chars(p);
    let mut to: usize = x.len();
    proof {
        assert(s@.take(to as int) =~= s@);
    }
    while y.len() > 0 && to >= y.len() && chars_at(&x, &y, to - y.len())
        invariant
            x@ == s@,
            y@ == p@,
            to <= s@.len(),
            strip_repeated_suffix(s@, p@) == strip_repeated_suffix(s@.take(to as int), p@),
        decreases to,
    {
        proof {
            let front = s@.take(to as int);
            let cut = to - p@.len();
            assert(front.subrange(cut, cut + p@.len()) =~= s@.subrange(cut, cut + p@.len()));
            assert(front.take(cut) =~= s@.take(cut));
        }
        to = to - y.len();
    }
    proof {
        let front = s@.take(to as int);
        if p@.len() > 0 && ends_with(front, p@) {
            let cut = to - p@.len();
            assert(front.subrange(cut, cut + p@.len()) =~= s@.subrange(cut, cut + p@.len()));
            assert(occurs_at(s@, p@, cut));
        }
        assert(s@.subrange(0, to as int) =~= front);
    }
    s.substring_char(0, to)
}

/// The position of the first `c` at or after `from`, or the length of `x`.
fn find_from(x: &Vec<char>, c: char, from: usize) -> (r: usize)
    requires
        from <= x@.len(),
    ensures
        from <= r <= x@.len(),
        r - from == find_char(x@.skip(from as int), c),
{
    let mut i: usize = from;
    while i < x.len() && x[i] != c
        invariant
            from <= i <= x@.len(),
            find_char(x@.skip(from as int), c) == (i - from) + find_char(x@.skip(i as int), c),
        decreases x@.len() - i,
    {
        proof {
            assert(x@.skip(i as int).drop_first() =~= x@.skip(i + 1));
        }
        i = i + 1;
    }
    i
}

/// What stands in `s` before the first `c`; all of `s` if there is none.
pub fn str_before_char(s: &str, c: char) -> (r: &str)
    ensures
        r@ == before_char(s@, c),
{
    let x: Vec<char> = to_chars(s);
    let end: usize = find_from(&x, c, 0);
    proof {
        assert(s@.skip(0) =~= s@);
        assert(s@.subrange(0, end as int) =~= s@.take(end as int));
    }
    s.substring_char(0, end)
}

/// The parts of `s` between the occurrences of `c`.
pub fn str_split_char(s: &str, c: char) -> (r: Vec<&str>)
    ensures
        r@.map_values(|t: &str| t@) == split_char(s@, c),
{
    let x: Vec<char> = to_chars(s);
    let mut parts: Vec<&str> = Vec::new();
    let mut from: usize = 0;
    proof {
        assert(s@.skip(0) =~= s@);
    }
    loop
        invariant
            x@ == s@,
            from <= s@.len(),
            split_char(s@, c) == parts@.map_values(|t: &str| t@) + split_char(
                s@.skip(from as int),
                c,
            ),
        decreases s@.len() - from,
    {
        let end: usize = find_from(&x, c, from);
        let ghost before = parts@;
        let ghost rest = s@.skip(from as int);
        parts.push(s.substring_char(from, end));
        proof {
            assert(rest.take(end - from) =~= s@.subrange(from as int, end as int));
            assert(parts@.map_values(|t: &str| t@) =~= before.map_values(|t: &str| t@).push(
                s@.subrange(from as int, end as int),
            ));
        }
        if end == x.len() {
            proof {
                assert(rest =~= s@.subrange(from as int, end as int));
            }
            return parts;
        }
        proof {
            assert(rest.skip(end - from + 1) =~= s@.skip(end + 1));
        }
        from = end + 1;
    }
}

/// The lower-case form of an ASCII capital; any other character itself.
fn to_ascii_lower_char(c: char) -> (r: char)
    ensures
        r == ascii_lower_char(c),
{
    if 'A' <= c && c <= 'Z' {
        (c as u8 + 32) as char
    } else {
        c
    }
}

/// Whether the two strings are the same but for the case of ASCII letters.
pub fn str_eq_ignoring_ascii_case(a: &str, b: &str) -> (r: bool)
    ensures
        r == (ascii_lower(a@) == ascii_lower(b@)),
{
    let x: Vec<char> = to_chars(a);
    let y: Vec<char> = to_chars(b);
    if x.len() != y.len() {
        proof {
            assert(ascii_lower(a@).len() != ascii_lower(b@).len());
        }
        return false;
    }
    let mut i: usize = 0;
    while i < x.len()
        invariant
            x@ == a@,
            y@ == b@,
            i <= x@.len() == y@.len(),
            forall|j: int|
                0 <= j < i ==> ascii_lower_char(#[trigger] a@[j]) == ascii_lower_char(b@[j]),
        decreases x@.len() - i,
    {
        if to_ascii_lower_char(x[i]) != to_ascii_lower_char(y[i]) {
            proof {
                assert(ascii_lower(a@)[i as int] != ascii_lower(b@)[i as int]);
            }
            return false;
        }
        i = i + 1;
    }
    proof {
        assert(ascii_lower(a@) =~= ascii_lower(b@));
    }
    true
}

/// White space in front of a text does not matter to trimming at the start.
proof fn lemma_trim_start_behind_white_space(front: Seq<char>, rest: Seq<char>)
    requires
        forall|i: int| 0 <= i < front.len() ==> white_space(#[trigger] front[i]),
    ensures
        trim_start(front + rest) == trim_start(rest),
    decreases front.len(),
{
    if front.len() == 0 {
        assert(front + rest =~= rest);
    } else {
        assert(white_space(front[0]));
        assert((front + rest).drop_first() =~= front.drop_first() + rest);
        lemma_trim_start_behind_white_space(front.drop_first(), rest);
    }
}

/// White space behind a text does not matter to trimming at the end.
proof fn lemma_trim_end_before_white_space(rest: Seq<char>, back: Seq<char>)
    requires
        forall|i: int| 0 <= i < back.len() ==> white_space(#[trigger] back[i]),
    ensures
        trim_end(rest + back) == trim_end(rest),
    decreases back.len(),
{
    if back.len() == 0 {
        assert(rest + back =~= rest);
    } else {
        assert(white_space(back[back.len() - 1]));
        assert((rest + back).drop_last() =~= rest + back.drop_last());
        lemma_trim_end_before_white_space(rest, back.drop_last());
    }
}

/// Trimming takes away the white space around a text and nothing else: whatever stands between,
/// if it neither begins nor ends with white space, is left as it is.
pub proof fn trimming_leaves_what_stands_between(front: Seq<char>, core: Seq<char>, back: Seq<char>)
    requires
        forall|i: int| 0 <= i < front.len() ==> white_space(#[trigger] front[i]),
        forall|i: int| 0 <= i < back.len() ==> white_space(#[trigger] back[i]),
        core.len() > 0 ==> !white_space(core[0]) && !white_space(core[core.len() - 1]),
    ensures
        trim(front + core + back) == core,
{
    assert(front + core + back =~= front + (core + back));
    lemma_trim_start_behind_white_space(front, core + back);
    if core.len() == 0 {
        assert(core + back =~= back + core);
        lemma_trim_start_behind_white_space(back, core);
        assert(trim_start(core) == core);
        assert(trim_end(core) == core);
    } else {
        assert(trim_start(core + back) == core + back);
        lemma_trim_end_before_white_space(core, back);
        assert(trim_end(core) == core);
    }
}

/// A text that neither begins nor ends with white space is left as it is by trimming.
pub proof fn text_without_outer_white_space_is_kept(s: Seq<char>)
    requires
        s.len() > 0 ==> !white_space(s[0]) && !white_space(s[s.len() - 1]),
    ensures
        trim(s) == s,
{
    let none = Seq::<char>::empty();
    trimming_leaves_what_stands_between(none, s, none);
    assert(none + s + none =~= s);
}

/// A text contains each of its parts, begins with its front and ends with its rear.
pub proof fn texts_contain_their_parts(a: Seq<char>, p: Seq<char>, b: Seq<char>)
    ensures
        contains(a + p + b, p),
        starts_with(p + b, p),
        ends_with(a + p, p),
{
    assert((a + p + b).subrange(a.len() as int, a.len() as int + p.len()) =~= p);
    assert(occurs_at(a + p + b, p, a.len() as int));
    assert((p + b).subrange(0, p.len() as int) =~= p);
    assert((a + p).subrange(a.len() as int, a.len() as int + p.len()) =~= p);
}

/// What a text contains is a part of it, what it begins with its front and what it ends with its
/// rear.
pub proof fn contained_texts_are_parts(s: Seq<char>, p: Seq<char>)
    ensures
        contains(s, p) ==> exists|i: int|
            0 <= i && i + p.len() <= s.len() && s == #[trigger] s.take(i) + p + s.skip(i + p.len()),
        starts_with(s, p) ==> p.len() <= s.len() && s == p + s.skip(p.len() as int),
        ends_with(s, p) ==> p.len() <= s.len() && s == s.take(s.len() - p.len()) + p,
{
    if contains(s, p) {
        let i = choose|i: int| occurs_at(s, p, i);
        lemma_parts_at(s, p, i);
        assert(s == s.take(i) + p + s.skip(i + p.len()));
    }
    if starts_with(s, p) {
        lemma_parts_at(s, p, 0);
        assert(s.take(0) + p + s.skip(p.len() as int) =~= p + s.skip(p.len() as int));
    }
    if ends_with(s, p) {
        let i = s.len() - p.len();
        lemma_parts_at(s, p, i);
        assert(s.take(i) + p + s.skip(s.len() as int) =~= s.take(i) + p);
    }
}

proof fn lemma_parts_at(s: Seq<char>, p: Seq<char>, i: int)
    requires
        occurs_at(s, p, i),
    ensures
        s == s.take(i) + p + s.skip(i + p.len()),
{
    assert(s =~= s.take(i) + s.subrange(i, i + p.len()) + s.skip(i + p.len()));
}

/// Stripping a prefix gives back what it was put in front of, and refuses a text that is not made
/// in that way.
pub proof fn stripping_undoes_prefixing(p: Seq<char>, rest: Seq<char>, s: Seq<char>)
    ensures
        strip_prefix(p + rest, p) == Some(rest),
        strip_prefix(s, p) matches Some(r) ==> s == p + r,
{
    texts_contain_their_parts(Seq::empty(), p, rest);
    assert((p + rest).skip(p.len() as int) =~= rest);
    contained_texts_are_parts(s, p);
}

/// Another copy of the prefix does not matter where it is stripped as often as it stands there;
/// a text that does not begin with it is left as it is.
pub proof fn repeated_prefixes_are_stripped(p: Seq<char>, s: Seq<char>)
    requires
        p.len() > 0,
    ensures
        strip_repeated_prefix(p + s, p) == strip_repeated_prefix(s, p),
        (forall|t: Seq<char>| s != #[trigger] (p + t)) ==> strip_repeated_prefix(s, p) == s,
{
    texts_contain_their_parts(Seq::empty(), p, s);
    assert((p + s).skip(p.len() as int) =~= s);
    contained_texts_are_parts(s, p);
}

/// Another copy of the suffix does not matter where it is stripped as often as it stands there;
/// a text that does not end with it is left as it is.
pub proof fn repeated_suffixes_are_stripped(s: Seq<char>, p: Seq<char>)
    requires
        p.len() > 0,
    ensures
        strip_repeated_suffix(s + p, p) == strip_repeated_suffix(s, p),
        (forall|t: Seq<char>| s != #[trigger] (t + p)) ==> strip_repeated_suffix(s, p) == s,
{
    texts_contain_their_parts(s, p, Seq::empty());
    assert((s + p).take((s + p).len() - p.len()) =~= s);
    contained_texts_are_parts(s, p);
}

/// A text is cut at the first separator, and split there; without one it is left whole.
pub proof fn texts_are_cut_at_the_first_separator(a: Seq<char>, c: char, b: Seq<char>)
    requires
        !a.contains(c),
    ensures
        before_char(a, c) == a,
        before_char(a.push(c) + b, c) == a,
        split_char(a, c) == seq![a],
        split_char(a.push(c) + b, c) == seq![a] + split_char(b, c),
{
    let s = a.push(c) + b;
    lemma_find_char(a, c);
    lemma_find_char(s, c);
    let i = find_char(a, c) as int;
    if i < a.len() {
        assert(a.contains(a[i]));
    }
    assert(a.take(a.len() as int) =~= a);
    let j = find_char(s, c) as int;
    assert(s[a.len() as int] == c);
    if j < a.len() {
        assert(s[j] == a[j]);
        assert(a.contains(a[j]));
    }
    assert(j == a.len());
    assert(s.take(j) =~= a);
    assert(s.skip(j + 1) =~= b);
}

/// Lowering ASCII letters changes the capitals `A` to `Z`, each to the letter 32 places on, and
/// nothing else.
pub proof fn only_ascii_capitals_are_lowered(s: Seq<char>, i: int)
    requires
        0 <= i < s.len(),
    ensures
        ascii_lower(s).len() == s.len(),
        65 <= s[i] as u32 <= 90 ==> ascii_lower(s)[i] as u32 == s[i] as u32 + 32,
        !(65 <= s[i] as u32 <= 90) ==> ascii_lower(s)[i] == s[i],
{
}

/// A list of strings is seen as the characters of each, in order.
pub proof fn texts_are_those_of_the_strings(list: Seq<String>)
    ensures
        texts(list).len() == list.len(),
        forall|i: int| 0 <= i < list.len() ==> #[trigger] texts(list)[i] == list[i]@,
{
}

} // verus!
