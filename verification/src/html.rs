//! Escaping of text for HTML.
use vstd::prelude::*;

use crate::text::starts_with;

verus! {

/// How the character `c` is written in HTML text and in quoted attributes.
pub open spec fn entity(c: char) -> Seq<char> {
    if c == '&' {
        "&amp;"@
    } else if c == '<' {
        "&lt;"@
    } else if c == '>' {
        "&gt;"@
    } else if c == '"' {
        "&quot;"@
    } else if c == '\'' {
        "&#39;"@
    } else {
        seq![c]
    }
}

/// `s` with each character written as HTML has it.
pub open spec fn escape(s: Seq<char>) -> Seq<char>
    decreases s.len(),
{
    if s.len() == 0 {
        Seq::empty()
    } else {
        entity(s.first()) + escape(s.drop_first())
    }
}

/// The text that an escaped string stands for: each of the five entities is read as its
/// character, any other character as itself.
pub open spec fn unescape(s: Seq<char>) -> Seq<char>
    decreases s.len(),
{
    if s.len() == 0 {
        Seq::empty()
    } else if starts_with(s, "&amp;"@) && s.len() >= 5 {
        seq!['&'] + unescape(s.skip(5))
    } else if starts_with(s, "&lt;"@) && s.len() >= 4 {
        seq!['<'] + unescape(s.skip(4))
    } else if starts_with(s, "&gt;"@) && s.len() >= 4 {
        seq!['>'] + unescape(s.skip(4))
    } else if starts_with(s, "&quot;"@) && s.len() >= 6 {
        seq!['"'] + unescape(s.skip(6))
    } else if starts_with(s, "&#39;"@) && s.len() >= 5 {
        seq!['\''] + unescape(s.skip(5))
    } else {
        seq![s.first()] + unescape(s.drop_first())
    }
}

/// A character that HTML reads as markup, in text or in a quoted attribute.
pub open spec fn is_markup(c: char) -> bool {
    c == '<' || c == '>' || c == '"' || c == '\''
}

/// The entities hold what their names say.
proof fn lemma_entities()
    ensures
        "&amp;"@ == seq!['&', 'a', 'm', 'p', ';'],
        "&lt;"@ == seq!['&', 'l', 't', ';'],
        "&gt;"@ == seq!['&', 'g', 't', ';'],
        "&quot;"@ == seq!['&', 'q', 'u', 'o', 't', ';'],
        "&#39;"@ == seq!['&', '#', '3', '9', ';'],
{
    reveal_strlit("&amp;");
    reveal_strlit("&lt;");
    reveal_strlit("&gt;");
    reveal_strlit("&quot;");
    reveal_strlit("&#39;");
    assert("&amp;"@ =~= seq!['&', 'a', 'm', 'p', ';']);
    assert("&lt;"@ =~= seq!['&', 'l', 't', ';']);
    assert("&gt;"@ =~= seq!['&', 'g', 't', ';']);
    assert("&quot;"@ =~= seq!['&', 'q', 'u', 'o', 't', ';']);
    assert("&#39;"@ =~= seq!['&', '#', '3', '9', ';']);
}

/// Escaped text holds no character that HTML reads as markup.
pub proof fn escaped_text_has_no_markup(s: Seq<char>)
    ensures
        forall|i: int| 0 <= i < escape(s).len() ==> !is_markup(#[trigger] escape(s)[i]),
    decreases s.len(),
{
    if s.len() > 0 {
        lemma_entities();
        escaped_text_has_no_markup(s.drop_first());
        let e = entity(s.first());
        let rest = escape(s.drop_first());
        assert forall|i: int| 0 <= i < escape(s).len() implies !is_markup(
            #[trigger] escape(s)[i],
        ) by {
            if i < e.len() {
                assert(escape(s)[i] == e[i]);
            } else {
                assert(escape(s)[i] == rest[i - e.len()]);
            }
        }
    }
}

/// Escaping loses nothing: the escaped text stands for the text that it was made of.
pub proof fn escaped_text_is_read_back(s: Seq<char>)
    ensures
        unescape(escape(s)) == s,
    decreases s.len(),
{
    if s.len() > 0 {
        lemma_entities();
        let c = s.first();
        let e = entity(c);
        let rest = escape(s.drop_first());
        let full = e + rest;
        escaped_text_is_read_back(s.drop_first());
        assert(seq![c] + s.drop_first() =~= s);
        assert(full.skip(e.len() as int) =~= rest);
        assert(full.subrange(0, e.len() as int) =~= e);
        assert(full[0] == e[0]);
        if c == '<' || c == '>' || c == '"' || c == '\'' || c == '&' {
            assert(full[1] == e[1]);
            if starts_with(full, "&amp;"@) {
                assert(full.subrange(0, 5)[1] == 'a');
            }
            if starts_with(full, "&lt;"@) {
                assert(full.subrange(0, 4)[1] == 'l');
            }
            if starts_with(full, "&gt;"@) {
                assert(full.subrange(0, 4)[1] == 'g');
            }
            if starts_with(full, "&quot;"@) {
                assert(full.subrange(0, 6)[1] == 'q');
            }
        } else {
            if starts_with(full, "&amp;"@) {
                assert(full.subrange(0, 5)[0] == '&');
            }
            if starts_with(full, "&lt;"@) {
                assert(full.subrange(0, 4)[0] == '&');
            }
            if starts_with(full, "&gt;"@) {
                assert(full.subrange(0, 4)[0] == '&');
            }
            if starts_with(full, "&quot;"@) {
                assert(full.subrange(0, 6)[0] == '&');
            }
            if starts_with(full, "&#39;"@) {
                assert(full.subrange(0, 5)[0] == '&');
            }
            assert(full.drop_first() =~= rest);
        }
    }
}

/// Text without markup and without `&` is written as it stands.
pub proof fn plain_text_is_kept(s: Seq<char>)
    requires
        forall|i: int| 0 <= i < s.len() ==> !is_markup(#[trigger] s[i]) && s[i] != '&',
    ensures
        escape(s) == s,
    decreases s.len(),
{
    if s.len() > 0 {
        let t = s.drop_first();
        assert forall|i: int| 0 <= i < t.len() implies !is_markup(#[trigger] t[i]) && t[i]
            != '&' by {
            assert(t[i] == s[i + 1]);
        }
        plain_text_is_kept(t);
        assert(entity(s[0]) + t =~= s);
    }
}

/// `input` with each character written as HTML has it.
pub fn escape_html(input: &str) -> (r: String)
    ensures
        r@ == escape(input@),
{
    let mut out: String = String::new();
    proof {
        assert(input@.skip(0) =~= input@);
        assert(out@ + escape(input@) =~= escape(input@));
    }
    for c in it: input.chars()
        invariant
            it.seq() == input@,
            escape(input@) == out@ + escape(input@.skip(it.index() as int)),
    {
        let ghost before = out@;
        let ghost rest = input@.skip(it.index() as int);
        if c == '&' {
            out.append("&amp;");
        } else if c == '<' {
            out.append("&lt;");
        } else if c == '>' {
            out.append("&gt;");
        } else if c == '"' {
            out.append("&quot;");
        } else if c == '\'' {
            out.append("&#39;");
        } else {
            out.push(c);
        }
        proof {
            assert(out@ =~= before + entity(c));
            assert(rest.first() == c);
            assert(rest.drop_first() =~= input@.skip(it.index() + 1));
            assert(before + (entity(c) + escape(rest.drop_first())) =~= out@ + escape(
                rest.drop_first(),
            ));
        }
    }
    proof {
        assert(out@ + escape(input@.skip(input@.len() as int)) =~= out@);
    }
    out
}

/// Text is escaped part by part: no part changes how another is written.
pub proof fn texts_are_escaped_part_by_part(a: Seq<char>, b: Seq<char>)
    ensures
        escape(a + b) == escape(a) + escape(b),
    decreases a.len(),
{
    if a.len() == 0 {
        assert(a + b =~= b);
        assert(escape(a) + escape(b) =~= escape(b));
    } else {
        texts_are_escaped_part_by_part(a.drop_first(), b);
        assert((a + b).drop_first() =~= a.drop_first() + b);
        assert(entity(a.first()) + (escape(a.drop_first()) + escape(b)) =~= (entity(a.first())
            + escape(a.drop_first())) + escape(b));
    }
}

/// The five characters that mean something to HTML are written as their entities, any other as
/// itself.
pub proof fn five_characters_are_written_as_entities(c: char)
    ensures
        escape(seq!['&']) == seq!['&', 'a', 'm', 'p', ';'],
        escape(seq!['<']) == seq!['&', 'l', 't', ';'],
        escape(seq!['>']) == seq!['&', 'g', 't', ';'],
        escape(seq!['"']) == seq!['&', 'q', 'u', 'o', 't', ';'],
        escape(seq!['\'']) == seq!['&', '#', '3', '9', ';'],
        c != '&' && c != '<' && c != '>' && c != '"' && c != '\'' ==> escape(seq![c]) == seq![c],
{
    lemma_entities();
    lemma_escape_one('&');
    lemma_escape_one('<');
    lemma_escape_one('>');
    lemma_escape_one('"');
    lemma_escape_one('\'');
    lemma_escape_one(c);
}

proof fn lemma_escape_one(c: char)
    ensures
        escape(seq![c]) == entity(c),
{
    let s = seq![c];
    assert(s.drop_first() =~= Seq::<char>::empty());
    assert(escape(s.drop_first()) == Seq::<char>::empty());
    assert(entity(c) + Seq::<char>::empty() =~= entity(c));
}

} // verus!
