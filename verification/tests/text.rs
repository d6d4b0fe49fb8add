use ccc_jj::text::{
    append_chars, append_decimal, char_is_digit, char_is_lower, char_is_whitespace, chars_of,
    copy_range,
    copy_strings, decimal_digits, digit, holds_at, join_lines, lines, replace, replace_in, split,
    string_of, trim_bounds, trimmed,
};

fn chars(s: &str) -> Vec<char> {
    s.chars().collect()
}

fn strings(parts: &[Vec<char>]) -> Vec<String> {
    parts.iter().map(|p| p.iter().collect()).collect()
}

#[test]
fn chars_and_back() {
    assert_eq!(chars_of(""), Vec::<char>::new());
    assert_eq!(chars_of("a\u{e9}\u{4e16}\n"), vec!['a', '\u{e9}', '\u{4e16}', '\n']);
    assert_eq!(string_of(&['h', 'i', '\u{1f600}']), "hi\u{1f600}");
    assert_eq!(string_of(&[]), "");
    let mut out = String::from("ab");
    append_chars(&mut out, &['c', 'd']);
    assert_eq!(out, "abcd");
    assert_eq!(copy_range(&chars("hello"), 1, 3), vec!['e', 'l']);
    assert_eq!(copy_range(&chars("hello"), 2, 2), Vec::<char>::new());
    assert_eq!(copy_strings(&[String::from("a"), String::new()]), vec!["a", ""]);
}

#[test]
fn split_keeps_empty_pieces() {
    assert_eq!(strings(&split(&chars(""), '-')), vec![""]);
    assert_eq!(strings(&split(&chars("a"), '-')), vec!["a"]);
    assert_eq!(strings(&split(&chars("a-b"), '-')), vec!["a", "b"]);
    assert_eq!(strings(&split(&chars("-a--b-"), '-')), vec!["", "a", "", "b", ""]);
    for input in ["", "-", "a-b-c", "--", "x-", "-x", "no hyphen"] {
        let expected: Vec<String> = input.split('-').map(String::from).collect();
        assert_eq!(strings(&split(&chars(input), '-')), expected, "{input:?}");
    }
}

#[test]
fn lines_are_the_lines_of_std() {
    let inputs = [
        "", "a", "a\n", "a\nb", "a\n\nb\n", "\n", "\n\n", "a\r\n", "a\r", "a\r\nb\r\n", "\r\n",
        "a\r\r\n", "\r", "a\n\r", "a\rb\nc", " \n ", "x\n\n\n",
    ];
    for input in inputs {
        let expected: Vec<String> = input.lines().map(String::from).collect();
        assert_eq!(strings(&lines(&chars(input))), expected, "{input:?}");
    }
    assert_eq!(strings(&lines(&chars("a\r\nb\r"))), vec!["a", "b\r"]);
    assert_eq!(lines(&chars("")).len(), 0);
}

#[test]
fn joining_puts_line_feeds_between() {
    assert_eq!(join_lines(&[]), "");
    assert_eq!(join_lines(&[String::from("a")]), "a");
    assert_eq!(join_lines(&[String::from("a"), String::new(), String::from("b")]), "a\n\nb");
    assert_eq!(join_lines(&[String::new(), String::new()]), "\n");
}

#[test]
fn decimal_numbers() {
    assert_eq!(digit(0), '0');
    assert_eq!(digit(7), '7');
    assert_eq!(digit(9), '9');
    for n in [0usize, 1, 9, 10, 11, 99, 100, 101, 1000, 65535, 1234567890, usize::MAX] {
        let digits: String = decimal_digits(n).into_iter().collect();
        assert_eq!(digits, n.to_string());
    }
    let mut out = String::from("n=");
    append_decimal(&mut out, 4050);
    assert_eq!(out, "n=4050");
}

#[test]
fn trimming_is_the_trimming_of_std() {
    let inputs = [
        "", " ", "a", " a", "a ", "  a b  ", "\t\na\r\n", "\u{a0}a\u{2003}", "\u{3000}", " \u{e9} ",
        "a\u{200b} ", "\u{85}x\u{1680}",
    ];
    for input in inputs {
        let trimmed_chars: String = trimmed(&chars(input)).into_iter().collect();
        assert_eq!(trimmed_chars, input.trim(), "{input:?}");
        let (start, end) = trim_bounds(&chars(input));
        let leading = input.chars().count() - input.trim_start().chars().count();
        assert_eq!(start, leading, "{input:?}");
        assert_eq!(end - start, input.trim().chars().count(), "{input:?}");
    }
    assert_eq!(trim_bounds(&chars("  ab ")), (2, 4));
    assert_eq!(trim_bounds(&chars("   ")), (3, 3));
}

#[test]
fn replacing_is_the_replacing_of_std() {
    let cases = [
        ("", "ab", "X"),
        ("ab", "ab", "X"),
        ("abab", "ab", "X"),
        ("aaa", "aa", "b"),
        ("aaaa", "aa", "b"),
        ("xaby", "ab", ""),
        ("a{p}b{p}", "{p}", "{p}{p}"),
        ("{p", "{p}", "X"),
        ("abc", "abcd", "X"),
        ("ab\u{e9}ab", "\u{e9}", "e"),
        ("no match here", "zz", "X"),
        ("aXbXc", "X", "with X inside"),
    ];
    for (text, pat, with) in cases {
        assert_eq!(replace_in(text, pat, with), text.replace(pat, with), "{text:?} {pat:?}");
        let replaced: String = replace(&chars(text), &chars(pat), &chars(with)).into_iter().collect();
        assert_eq!(replaced, text.replace(pat, with));
    }
    assert_eq!(replace_in("a{x}b{x}", "{x}", "1"), "a1b1");
}

#[test]
fn empty_pattern_occurs_nowhere() {
    assert_eq!(replace_in("abc", "", "X"), "abc");
    assert_eq!(replace_in("", "", "X"), "");
    assert_eq!(replace(&chars("ab"), &[], &chars("X")), chars("ab"));
}

#[test]
fn patterns_are_found_in_place() {
    let text = chars("hello");
    assert!(holds_at(&text, &chars("he"), 0));
    assert!(holds_at(&text, &chars("llo"), 2));
    assert!(holds_at(&text, &chars(""), 5));
    assert!(!holds_at(&text, &chars("he"), 1));
    assert!(!holds_at(&text, &chars("lo!"), 3));
    assert!(!holds_at(&text, &chars("o"), 5));
    assert!(!holds_at(&text, &chars(""), 6));
    assert!(!holds_at(&text, &chars("h"), usize::MAX));
}

#[test]
fn white_space_is_the_white_space_of_std() {
    let mut count = 0;
    for code in 0..=0x10ffffu32 {
        if let Some(c) = char::from_u32(code) {
            assert_eq!(char_is_whitespace(c), c.is_whitespace(), "{code:#x}");
            if char_is_whitespace(c) {
                count += 1;
            }
        }
    }
    assert_eq!(count, 25);
}

#[test]
fn letters_and_digits() {
    for c in ['a', 'm', 'z'] {
        assert!(char_is_lower(c));
        assert!(!char_is_digit(c));
    }
    for c in ['0', '5', '9'] {
        assert!(char_is_digit(c));
        assert!(!char_is_lower(c));
    }
    for c in ['A', 'Z', '`', '{', '/', ':', ' ', '\u{e9}', '\u{0661}', '\u{ff41}'] {
        assert!(!char_is_lower(c), "{c:?}");
        assert!(!char_is_digit(c), "{c:?}");
    }
}
