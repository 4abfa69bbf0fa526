use luvus_jira::text::{
    contains, eq_ignore_ascii_case, is_white_space, join, less, lines, split_first, starts_with,
    str_eq, trim, trim_end_matches,
};

const SAMPLES: [&str; 14] = [
    "",
    " ",
    "a",
    "A",
    "ab",
    "b a",
    "  spaced\t\n",
    "\u{a0}no-break\u{3000}",
    "line\r\nline\n\nlast\r",
    "ends\n",
    "\r\n",
    "Größe",
    "z\u{10ffff}",
    "/slash//",
];

#[test]
fn white_space_is_that_of_unicode() {
    let mut code: u32 = 0;
    while code <= 0x10ffff {
        if let Some(c) = char::from_u32(code) {
            assert_eq!(is_white_space(c), c.is_whitespace(), "{:x}", code);
        }
        code += 1;
    }
}

#[test]
fn trimming_takes_white_space_off_both_ends() {
    assert_eq!(trim("  a b\n"), "a b");
    assert_eq!(trim("\u{a0}x\u{3000}"), "x");
    assert_eq!(trim(" \t\n"), "");
    for s in SAMPLES {
        assert_eq!(trim(s), s.trim());
        assert_eq!(trim(&trim(s)), trim(s));
    }
}

#[test]
fn trailing_characters_are_taken_off() {
    assert_eq!(trim_end_matches("https://a.b//", '/'), "https://a.b");
    assert_eq!(trim_end_matches("///", '/'), "");
    for s in SAMPLES {
        assert_eq!(trim_end_matches(s, '/'), s.trim_end_matches('/'));
    }
}

#[test]
fn the_part_before_a_character() {
    assert_eq!(split_first("ABC-12-3", '-'), "ABC");
    assert_eq!(split_first("ABC", '-'), "ABC");
    assert_eq!(split_first("-1", '-'), "");
    assert_eq!(split_first("", '-'), "");
}

#[test]
fn strings_are_compared_as_std_does() {
    for a in SAMPLES {
        for b in SAMPLES {
            assert_eq!(str_eq(a, b), a == b);
            assert_eq!(less(a, b), a < b);
            assert_eq!(contains(a, b), a.contains(b));
            assert_eq!(starts_with(a, b), a.starts_with(b));
            assert_eq!(eq_ignore_ascii_case(a, b), a.eq_ignore_ascii_case(b));
        }
    }
    assert!(eq_ignore_ascii_case("AbC", "aBc"));
    assert!(!eq_ignore_ascii_case("GRÖSSE", "grösse"));
}

#[test]
fn lines_are_those_of_std() {
    for s in SAMPLES {
        let expected: Vec<String> = s.lines().map(|line| line.to_owned()).collect();
        assert_eq!(lines(s), expected);
    }
    assert_eq!(lines("a\r\nb\r\r\n\nc\r"), vec!["a", "b\r", "", "c\r"]);
}

#[test]
fn joined_lines_are_read_back() {
    let list: Vec<String> = vec!["- a: 1".to_owned(), "".to_owned(), "- b: 2".to_owned()];
    let text = join(&list, "\n");
    assert_eq!(text, "- a: 1\n\n- b: 2");
    assert_eq!(lines(&text), list);
    assert_eq!(join(&vec![], ", "), "");
    assert_eq!(join(&vec!["a".to_owned()], ", "), "a");
}
