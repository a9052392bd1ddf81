use lynxrdp_client::text::{
    begins, bytes_in, char_width, chars_of, copy, cut_front, decimal_of, find_chars, finishes, has,
    is_control, is_white_space, joined, lines_of, parse_unsigned, same, signed_decimal_of,
    string_of, to_ascii_lower, trimmed,
};
use lynxrdp_client::time::{after, elapsed, min_span};

#[test]
fn characters_are_classed_as_the_standard_library_does() {
    for c in '\0'..=char::MAX {
        assert_eq!(is_white_space(c), c.is_whitespace(), "{c:?}");
        assert_eq!(is_control(c), c.is_control(), "{c:?}");
        assert_eq!(to_ascii_lower(c), c.to_ascii_lowercase(), "{c:?}");
        assert_eq!(char_width(c), c.len_utf8(), "{c:?}");
    }
}

#[test]
fn texts_are_taken_apart_as_the_standard_library_does() {
    for s in [
        "",
        " ",
        "plain",
        " \t\u{3000}two words\u{a0}\r\n",
        "a\nb\r\nc",
        "a\n\nb\n",
        "\n",
        "\r",
        "a\r",
        "h\u{e9}llo \u{1f511}",
    ] {
        assert_eq!(trimmed(s), s.trim(), "{s:?}");
        let lines: Vec<String> = lines_of(&chars_of(s)).iter().map(string_of).collect();
        let want: Vec<&str> = s.lines().collect();
        assert_eq!(lines, want, "{s:?}");
        assert_eq!(bytes_in(s), s.len(), "{s:?}");
        assert_eq!(copy(s), s);
        assert!(same(s, s));
        for p in ["", "a", "\n", "llo", "two words"] {
            assert_eq!(has(s, p), s.contains(p), "{s:?} {p:?}");
            assert_eq!(begins(s, p), s.starts_with(p), "{s:?} {p:?}");
            assert_eq!(finishes(s, p), s.ends_with(p), "{s:?} {p:?}");
        }
    }
    assert_eq!(find_chars(&chars_of("abab"), &chars_of("ba")), Some(1));
    assert!(!same("a", "b"));
}

#[test]
fn numbers_are_read_as_they_are_written() {
    for n in [0u64, 7, 10, 65535, 65536, u64::MAX] {
        assert_eq!(decimal_of(n), n.to_string());
        assert_eq!(parse_unsigned(&chars_of(&n.to_string()), u64::MAX), Some(n));
    }
    for n in [0, -1, i32::MIN, i32::MAX] {
        assert_eq!(signed_decimal_of(n), n.to_string());
    }
    for s in ["", "+", "-1", "+7", "007", "1x", " 1", "65535", "65536"] {
        assert_eq!(
            parse_unsigned(&chars_of(s), 65535),
            s.parse::<u16>().ok().map(u64::from),
            "{s:?}"
        );
    }
}

#[test]
fn texts_are_joined_and_cut() {
    assert_eq!(joined(&vec![], "; "), "");
    assert_eq!(joined(&vec!["a".into(), "b".into()], "; "), "a; b");
    // The end is kept, at a character.
    assert_eq!(cut_front("abc\u{e9}", 3), "c\u{e9}");
    assert_eq!(cut_front("abc\u{e9}", 1), "");
    assert_eq!(cut_front("abc", 10), "abc");
}

#[test]
fn time_does_not_run_backwards_or_over() {
    assert_eq!(elapsed(10, 4), 6);
    assert_eq!(elapsed(4, 10), 0);
    assert_eq!(after(1, 2), 3);
    assert_eq!(after(u64::MAX, 2), u64::MAX);
    assert_eq!(min_span(3, 2), 2);
}
