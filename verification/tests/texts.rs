use rlib::compose;
use rlib::order;
use rlib::search;
use rlib::text;

fn chars(s: &str) -> Vec<char> {
    s.chars().collect()
}

fn strings(v: Vec<&[char]>) -> Vec<String> {
    v.iter().map(|s| s.iter().collect()).collect()
}

#[test]
fn a_text_is_taken_apart_and_put_together() {
    for s in ["", "a", "αβγ — ok", "line\nfeed\r\n"] {
        assert_eq!(text::chars_of(s), chars(s));
        assert_eq!(text::string_of(&chars(s)), s);
    }
}

#[test]
fn texts_are_compared_whole() {
    assert!(text::same(&chars("llvm"), "llvm"));
    assert!(!text::same(&chars("llvm"), "llvm2"));
    assert!(!text::same(&chars("llv"), "llvm"));
    assert!(text::same_str("", ""));
    assert!(!text::same_str("a", "b"));
    assert_eq!(text::copy_strings(&vec!["a".to_string(), "".to_string()]), vec!["a", ""]);
}

#[test]
fn white_space_is_that_of_unicode() {
    for n in 0..=0x10FFFFu32 {
        if let Some(c) = char::from_u32(n) {
            assert_eq!(text::is_white(c), c.is_whitespace(), "{:x}", n);
        }
    }
}

#[test]
fn trimming_takes_white_space_off_both_ends() {
    for s in ["", "  ", " a b ", "\u{a0}x\u{3000}", "x", "\t\r\nfoo\u{b}", "\u{85}", "a\u{2028}"] {
        let c = chars(s);
        assert_eq!(text::string_of(text::trim(&c)), s.trim());
        assert_eq!(text::string_of(text::trim_start(&c)), s.trim_start());
        assert_eq!(text::string_of(text::trim_end(&c)), s.trim_end());
    }
}

#[test]
fn lines_end_with_a_feed_or_a_return_and_a_feed() {
    for s in ["", "\n", "a", "a\n", "a\nb", "a\r\nb\r\n", "\n\n", "a\r", "a\r\r\n\nb", "\r\n"] {
        let expected: Vec<&str> = s.lines().collect();
        assert_eq!(strings(text::split_lines(&chars(s))), expected, "{:?}", s);
    }
}

#[test]
fn pieces_stand_between_separators() {
    for s in ["", ",", "a", "a,b", ",a,,b,"] {
        let expected: Vec<&str> = s.split(',').collect();
        assert_eq!(strings(text::split_on(&chars(s), ',')), expected, "{:?}", s);
    }
}

#[test]
fn words_stand_between_white_space() {
    for s in ["", "  ", "a", " a  b\tc\n", "-C debuginfo=0", "x\u{a0}y"] {
        let expected: Vec<&str> = s.split_whitespace().collect();
        assert_eq!(strings(text::split_words(&chars(s))), expected, "{:?}", s);
    }
}

#[test]
fn prefixes_and_suffixes_are_taken_off() {
    let c = chars("libfoo.rlib");
    assert_eq!(text::strip_prefix(&c, "lib").map(text::string_of), Some("foo.rlib".to_string()));
    assert_eq!(text::strip_prefix(&c, "foo"), None);
    assert_eq!(text::strip_suffix(&c, ".rlib").map(text::string_of), Some("libfoo".to_string()));
    assert_eq!(text::strip_suffix(&c, ".so"), None);
    assert_eq!(text::strip_suffix(&chars("b"), "ab"), None);
    assert!(text::starts_with(&c, "") && text::ends_with(&c, ""));
    assert!(text::ends_with(&chars("my.list"), ".list"));
    assert!(!text::ends_with(&chars("list"), ".list"));
}

#[test]
fn characters_are_found() {
    let c = chars("a=b=c");
    assert_eq!(text::find_char_from(&c, '=', 0), 1);
    assert_eq!(text::find_char_from(&c, '=', 2), 3);
    assert_eq!(text::find_char_from(&c, '#', 0), 5);
}

#[test]
fn texts_are_found_first_and_last() {
    for (s, p) in [("a=>b=>c", "=>"), ("aaa", "aa"), ("", ""), ("abc", ""), ("ab", "abc"), ("x", "y")] {
        assert_eq!(search::find(&chars(s), p), s.find(p), "{:?} {:?}", s, p);
        assert_eq!(search::rfind(&chars(s), p), s.rfind(p), "{:?} {:?}", s, p);
        assert_eq!(search::contains(&chars(s), p), s.contains(p));
        assert_eq!(search::contains_str(s, p), s.contains(p));
    }
    assert_eq!(text::string_of(search::skip_text(&chars("k: v"), 1, ": ")), "v");
}

#[test]
fn characters_are_replaced_and_backslashes_halved() {
    assert_eq!(search::replace_char("a-b--c", '-', '_'), "a_b__c");
    assert_eq!(search::replace_char("1.38.0", '.', '_'), "1_38_0");
    for s in ["", r"a\\b", r"\\\", r"\\\\", r"C:\\x\\y.exe", r"\a"] {
        assert_eq!(search::unescape(&chars(s)), s.replace("\\\\", "\\"));
    }
}

#[test]
fn repeated_prefixes_and_quotes_are_taken_off() {
    for s in ["name = \"x\"", "name = name = \"x\"", "", "name = ", "nam"] {
        assert_eq!(
            text::string_of(search::strip_prefixes(&chars(s), "name = ")),
            s.trim_start_matches("name = ")
        );
    }
    for s in ["\"x\"", "\"\"x", "x", "\"", "\"\"\"", ""] {
        assert_eq!(text::string_of(search::strip_char(&chars(s), '"')), s.trim_matches('"'));
    }
}

#[test]
fn texts_are_put_together() {
    assert_eq!(compose::cat2("a", "b"), "ab");
    assert_eq!(compose::cat3("a", "", "c"), "ac");
    assert_eq!(compose::cat4("a", "b", "c", "d"), "abcd");
    assert_eq!(compose::cat5("a", "b", "c", "d", "e"), "abcde");
    let none: Vec<String> = Vec::new();
    assert_eq!(compose::join(&none, ", "), "");
    assert_eq!(compose::join(&vec!["a".to_string()], ", "), "a");
    assert_eq!(compose::join(&vec!["a".to_string(), "".to_string(), "c".to_string()], ", "), "a, , c");
}

#[test]
fn numbers_are_written_in_decimal() {
    for n in [0u128, 7, 10, 99, 100, 1_700_000_000, u64::MAX as u128, u128::MAX] {
        assert_eq!(compose::to_decimal(n), n.to_string());
    }
}

#[test]
fn numbers_are_read_as_the_standard_library_reads_them() {
    for s in [
        "", "0", "7", "007", "+5", "+", "-1", "1 ", "1a", "18446744073709551615",
        "18446744073709551616", "99999999999999999999999", "٣", "++1", "0x10",
    ] {
        assert_eq!(compose::parse_number(&chars(s)), s.parse::<u64>().ok(), "{:?}", s);
    }
}

#[test]
fn a_number_in_decimal_is_read_back() {
    for n in [0u64, 9, 10, 1_731_752_000, u64::MAX] {
        assert_eq!(compose::parse_number(&chars(&compose::to_decimal(n as u128))), Some(n));
    }
}

#[test]
fn texts_are_sorted_as_the_standard_library_sorts_them() {
    let v: Vec<String> =
        ["b", "a", "", "ab", "B", "é", "z", "a", "\u{10000}", "\u{ffff}"].iter().map(|s| s.to_string()).collect();
    let mut expected = v.clone();
    expected.sort();
    assert_eq!(order::sort(v), expected);
    assert!(order::in_order("a", "ab") && !order::in_order("ab", "a"));
    assert!(order::in_order("a", "a"));
    assert!(order::in_order("\u{ffff}", "\u{10000}"));
}
