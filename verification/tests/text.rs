use startsmall::text::{
    is_white_space, str_before_char, str_contains, str_contains_char, str_eq,
    str_eq_ignoring_ascii_case, str_split_char, str_starts_with, str_strip_prefix,
    str_strip_repeated_prefix, str_strip_repeated_suffix, str_trim, to_chars,
};

#[test]
fn white_space_is_that_of_the_standard_library() {
    for n in 0u32..=0x10ffff {
        if let Some(c) = char::from_u32(n) {
            assert_eq!(is_white_space(c), c.is_whitespace(), "{:x}", n);
        }
    }
}

#[test]
fn trimming_is_that_of_the_standard_library() {
    for s in [
        "", " ", "\t\n", "a", " a", "a ", "  a b  ", "\u{a0}x\u{3000}", "\u{200b}x", "é \u{2028}",
    ] {
        assert_eq!(str_trim(s), s.trim());
        assert_eq!(str_trim(str_trim(s)), str_trim(s));
    }
}

#[test]
fn characters_come_in_order() {
    assert_eq!(to_chars("aé✓"), vec!['a', 'é', '✓']);
    assert_eq!(to_chars(""), Vec::<char>::new());
}

#[test]
fn searching_is_that_of_the_standard_library() {
    for s in ["", "x", "abcabd", "aaab", "ünï", "x.com/"] {
        for p in ["", "x", "abd", "aab", "ï", "x.com/", "abcabde"] {
            assert_eq!(str_contains(s, p), s.contains(p), "{s} {p}");
            assert_eq!(str_starts_with(s, p), s.starts_with(p), "{s} {p}");
            assert_eq!(str_strip_prefix(s, p), s.strip_prefix(p), "{s} {p}");
            assert_eq!(str_eq(s, p), s == p, "{s} {p}");
        }
        for c in ['x', 'b', 'ï', '.'] {
            assert_eq!(str_contains_char(s, c), s.contains(c));
            assert_eq!(str_before_char(s, c), s.split(c).next().unwrap());
            assert_eq!(str_split_char(s, c), s.split(c).collect::<Vec<_>>());
        }
    }
}

#[test]
fn repeated_affixes_are_stripped() {
    for s in ["", "@", "@@a@", "a", "www.www.a", "ww.a", "r.git", "r.git.git", ".git", "git"] {
        assert_eq!(str_strip_repeated_prefix(s, "@"), s.trim_start_matches('@'));
        assert_eq!(str_strip_repeated_prefix(s, "www."), s.trim_start_matches("www."));
        assert_eq!(str_strip_repeated_suffix(s, ".git"), s.trim_end_matches(".git"));
    }
}

#[test]
fn case_of_ascii_letters_is_ignored() {
    for a in ["X-Sync-Token", "x-sync-token", "X-SYNC-TOKEN", "é", "É", "[", "{", ""] {
        for b in ["X-Sync-Token", "x-sync-token", "é", "É", "[", "{", ""] {
            assert_eq!(str_eq_ignoring_ascii_case(a, b), a.eq_ignore_ascii_case(b), "{a} {b}");
        }
    }
}
