use why_no_sound::text::{
    begins_with, chars_of, first_chars, holds, joined, keep_lines_with, lower, position,
    push_decimal, same, same_ignoring_case, slice, space, split_lines, str_contains,
    string_of, to_u32, trimmed, unquoted,
};

fn cs(s: &str) -> Vec<char> {
    s.chars().collect()
}

fn st(v: &[char]) -> String {
    v.iter().collect()
}

#[test]
fn chars_and_strings_convert_both_ways() {
    assert_eq!(chars_of("héllo ✅"), cs("héllo ✅"));
    assert_eq!(string_of(&cs("héllo ✅")), "héllo ✅");
    assert_eq!(string_of(&Vec::new()), "");
    assert_eq!(chars_of(""), Vec::<char>::new());
}

#[test]
fn trimming_removes_white_space_at_both_ends() {
    assert_eq!(st(&trimmed(&cs("  \t Name: x \r\n"))), "Name: x");
    assert_eq!(st(&trimmed(&cs("a b"))), "a b");
    assert_eq!(st(&trimmed(&cs(" \t\n"))), "");
    assert_eq!(st(&trimmed(&cs(""))), "");
    assert_eq!(st(&trimmed(&cs("\u{a0}x\u{3000}"))), "x");
    assert_eq!(st(&trimmed(&cs("\u{200b}x"))), "\u{200b}x");
}

#[test]
fn trimming_agrees_with_std() {
    for text in ["", " ", "a", " a", "a ", "\t a b \n", "\u{85}x\u{2028}", "\u{1680} y \u{205f}"] {
        assert_eq!(st(&trimmed(&cs(text))), text.trim());
    }
}

#[test]
fn white_space_agrees_with_std() {
    for code in 0u32..0x3100 {
        if let Some(c) = char::from_u32(code) {
            assert_eq!(space(c), c.is_whitespace(), "{:x}", code);
        }
    }
}

#[test]
fn lines_end_at_line_feeds() {
    let lines: Vec<String> = split_lines(&cs("a\nb\r\n\nc")).iter().map(|l| st(l)).collect();
    assert_eq!(lines, vec!["a", "b", "", "c"]);
    assert_eq!(split_lines(&cs("")).len(), 0);
    assert_eq!(split_lines(&cs("\n")).len(), 1);
    let last: Vec<String> = split_lines(&cs("x\ny\n")).iter().map(|l| st(l)).collect();
    assert_eq!(last, vec!["x", "y"]);
}

#[test]
fn lines_agree_with_std() {
    for text in ["", "\n", "a", "a\n", "a\r\n", "a\r", "\r\n\r\n", "a\n\nb", "a\rb\nc\r\r\n", "x\r\n\ny\r"] {
        let ours: Vec<String> = split_lines(&cs(text)).iter().map(|l| st(l)).collect();
        let theirs: Vec<String> = text.lines().map(|l| l.to_string()).collect();
        assert_eq!(ours, theirs, "{:?}", text);
    }
}

#[test]
fn searching_finds_the_first_occurrence() {
    assert_eq!(position(&cs("a = b = c"), &cs(" = ")), Some(1));
    assert_eq!(position(&cs("abc"), &cs("")), Some(0));
    assert_eq!(position(&cs(""), &cs("")), Some(0));
    assert_eq!(position(&cs("abc"), &cs("abcd")), None);
    assert_eq!(position(&cs("abc"), &cs("c")), Some(2));
    assert_eq!(position(&cs("abc"), &cs("x")), None);
    assert!(holds(&cs("alsa_output.hdmi-stereo"), &cs("hdmi")));
    assert!(!holds(&cs("alsa_output.analog"), &cs("hdmi")));
    assert!(str_contains("bluez_card.AA", "bluez"));
    assert!(str_contains("anything", ""));
    assert!(!str_contains("", "x"));
}

#[test]
fn prefixes_are_told() {
    assert!(begins_with(&cs("Name: x"), &cs("Name:")));
    assert!(!begins_with(&cs("Nam"), &cs("Name:")));
    assert!(begins_with(&cs("x"), &cs("")));
    assert!(begins_with(&cs("card 0: PCH"), &cs("card ")));
    assert!(!begins_with(&cs(" card 0"), &cs("card ")));
}

#[test]
fn equality_compares_all_characters() {
    assert!(same(&cs("abc"), &cs("abc")));
    assert!(!same(&cs("abc"), &cs("abd")));
    assert!(!same(&cs("abc"), &cs("ab")));
    assert!(same(&cs(""), &cs("")));
}

#[test]
fn slices_and_first_characters() {
    assert_eq!(st(&slice(&cs("hello"), 1, 3)), "el");
    assert_eq!(st(&slice(&cs("hello"), 2, 2)), "");
    assert_eq!(st(&first_chars(&cs("hello"), 2)), "he");
    assert_eq!(st(&first_chars(&cs("hello"), 9)), "hello");
    assert_eq!(st(&first_chars(&cs("héllo"), 2)), "hé");
}

#[test]
fn quotes_are_stripped_at_both_ends() {
    assert_eq!(st(&unquoted(&cs("\"Firefox\""))), "Firefox");
    assert_eq!(st(&unquoted(&cs("\"\"a\"b\"\""))), "a\"b");
    assert_eq!(st(&unquoted(&cs("plain"))), "plain");
    assert_eq!(st(&unquoted(&cs("\"\""))), "");
    for text in ["\"x\"", "\"\"", "x\"", "\"x", "a\"b", ""] {
        assert_eq!(st(&unquoted(&cs(text))), text.trim_matches('"'));
    }
}

#[test]
fn numbers_are_read_as_std_reads_them() {
    assert_eq!(to_u32(&cs("0")), Some(0));
    assert_eq!(to_u32(&cs("42")), Some(42));
    assert_eq!(to_u32(&cs("+7")), Some(7));
    assert_eq!(to_u32(&cs("007")), Some(7));
    assert_eq!(to_u32(&cs("4294967295")), Some(4294967295));
    assert_eq!(to_u32(&cs("4294967296")), None);
    assert_eq!(to_u32(&cs("99999999999999999999999")), None);
    assert_eq!(to_u32(&cs("")), None);
    assert_eq!(to_u32(&cs("+")), None);
    assert_eq!(to_u32(&cs("-1")), None);
    assert_eq!(to_u32(&cs("1 ")), None);
    assert_eq!(to_u32(&cs("1a")), None);
    assert_eq!(to_u32(&cs("++1")), None);
    for text in ["", "+", "-", "-0", "+0", "12", "1_000", " 1", "٣", "4294967295", "4294967296"] {
        assert_eq!(to_u32(&cs(text)), text.parse::<u32>().ok(), "{:?}", text);
    }
}

#[test]
fn numbers_are_written_in_decimal() {
    for n in [0u64, 1, 9, 10, 11, 99, 100, 101, 4294967295, u64::MAX] {
        let mut out = cs("n=");
        push_decimal(&mut out, n);
        assert_eq!(st(&out), format!("n={}", n));
    }
}

#[test]
fn joining_puts_the_separator_between() {
    assert_eq!(st(&joined(&vec![cs("a"), cs("b"), cs("c")], ", ")), "a, b, c");
    assert_eq!(st(&joined(&vec![cs("a")], ", ")), "a");
    assert_eq!(st(&joined(&Vec::new(), ", ")), "");
    assert_eq!(st(&joined(&vec![cs(""), cs("")], ";")), ";");
}

#[test]
fn case_of_ascii_letters_is_ignored() {
    assert!(same_ignoring_case(&cs("YES"), &cs("yes")));
    assert!(same_ignoring_case(&cs("Yes"), &cs("yEs")));
    assert!(!same_ignoring_case(&cs("yes "), &cs("yes")));
    assert!(!same_ignoring_case(&cs("no"), &cs("yes")));
    assert!(!same_ignoring_case(&cs("ÿes"), &cs("Ÿes")));
    assert_eq!(lower('A'), 'a');
    assert_eq!(lower('Z'), 'z');
    assert_eq!(lower('a'), 'a');
    assert_eq!(lower('['), '[');
    assert_eq!(lower('@'), '@');
    assert_eq!(lower('É'), 'É');
    for code in 0u32..0x250 {
        if let Some(c) = char::from_u32(code) {
            assert_eq!(lower(c), c.to_ascii_lowercase());
        }
    }
}

#[test]
fn lines_are_kept_by_their_words() {
    let lines = vec![cs("Name: a"), cs("Driver: x"), cs("\tMute: no"), cs("")];
    let words = vec![cs("Name:"), cs("Mute:")];
    let kept: Vec<String> = keep_lines_with(&lines, &words).iter().map(|l| st(l)).collect();
    assert_eq!(kept, vec!["Name: a", "\tMute: no"]);
    assert_eq!(keep_lines_with(&lines, &Vec::new()).len(), 0);
}
