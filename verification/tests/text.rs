use kakimail::imap_op::append;
use kakimail::scan;
use kakimail::text;

fn c(s: &str) -> Vec<char> {
    s.chars().collect()
}

fn strings(v: Vec<Vec<char>>) -> Vec<String> {
    v.into_iter().map(|w| w.into_iter().collect()).collect()
}

#[test]
fn numbers_as_text() {
    let show = |n: i64| {
        let mut out = Vec::new();
        text::push_i64(&mut out, n);
        out.into_iter().collect::<String>()
    };
    assert_eq!(show(0), "0");
    assert_eq!(show(7), "7");
    assert_eq!(show(10), "10");
    assert_eq!(show(-1), "-1");
    assert_eq!(show(i64::MAX), "9223372036854775807");
    assert_eq!(show(i64::MIN), "-9223372036854775808");
    let mut out = Vec::new();
    text::push_u64(&mut out, u64::MAX);
    assert_eq!(out.into_iter().collect::<String>(), "18446744073709551615");
}

#[test]
fn text_as_numbers() {
    assert_eq!(text::parse_u32(&c("0")), Some(0));
    assert_eq!(text::parse_u32(&c("+12")), Some(12));
    assert_eq!(text::parse_u32(&c("4294967295")), Some(u32::MAX));
    assert_eq!(text::parse_u32(&c("4294967296")), None);
    assert_eq!(text::parse_u32(&c("00000000000000000000042")), Some(42));
    assert_eq!(text::parse_u32(&c("")), None);
    assert_eq!(text::parse_u32(&c("+")), None);
    assert_eq!(text::parse_u32(&c("-1")), None);
    assert_eq!(text::parse_u32(&c("1 ")), None);
    assert_eq!(text::parse_u32(&c("١")), None);
    assert_eq!(text::parse_i32(&c("-2147483648")), Some(i32::MIN));
    assert_eq!(text::parse_i32(&c("-2147483649")), None);
    assert_eq!(text::parse_i32(&c("2147483647")), Some(i32::MAX));
    assert_eq!(text::parse_i32(&c("2147483648")), None);
    assert_eq!(text::parse_i32(&c("-")), None);
    assert_eq!(text::parse_i32(&c("-+1")), None);
    assert_eq!(text::parse_i64(&c("-9223372036854775808")), Some(i64::MIN));
    assert_eq!(text::parse_i64(&c("9223372036854775807")), Some(i64::MAX));
    assert_eq!(text::parse_i64(&c("9223372036854775808")), None);
    assert_eq!(text::parse_i64(&c("99999999999999999999999")), None);
    assert_eq!(text::parse_i64(&c("+5")), Some(5));
}

#[test]
fn characters() {
    assert!(text::is_whitespace(' '));
    assert!(text::is_whitespace('\t'));
    assert!(text::is_whitespace('\r'));
    assert!(text::is_whitespace('\u{a0}'));
    assert!(text::is_whitespace('\u{3000}'));
    assert!(!text::is_whitespace('a'));
    assert!(!text::is_whitespace('\u{200b}'));
    for ch in ['\u{9}', '\u{d}', '\u{20}', '\u{85}', '\u{1680}', '\u{2000}', '\u{200a}',
               '\u{2028}', '\u{2029}', '\u{202f}', '\u{205f}', 'x', '\u{8}', '\u{e}', '\u{200b}'] {
        assert_eq!(text::is_whitespace(ch), ch.is_whitespace(), "{:?}", ch);
    }
    assert_eq!(text::to_lower('A'), 'a');
    assert_eq!(text::to_lower('Z'), 'z');
    assert_eq!(text::to_lower('a'), 'a');
    assert_eq!(text::to_lower('É'), 'É');
    assert_eq!(text::to_upper('a'), 'A');
    assert_eq!(text::to_upper('['), '[');
    assert!(text::eq_lower(&c("InBoX"), "inbox"));
    assert!(!text::eq_lower(&c("InBoX"), "INBOX"));
    assert!(text::eq_str(&c("abc"), "abc"));
    assert!(!text::eq_str(&c("abc"), "abd"));
    assert!(!text::eq_str(&c("abc"), "ab"));
    assert_eq!(text::strip_char(&c("\"a\"b\""), '"'), c("ab"));
    assert_eq!(text::only_letters(&c("(UID-NEXT)1")), c("UIDNEXT"));
    assert_eq!(text::str_to_chars("héy"), c("héy"));
    assert_eq!(text::chars_to_string(&c("héy")), "héy");
}

#[test]
fn splitting() {
    assert_eq!(strings(scan::split_words(&c("  a bc \r\n d  "))), vec!["a", "bc", "d"]);
    assert_eq!(strings(scan::split_words(&c(""))), Vec::<String>::new());
    assert_eq!(strings(scan::split_words(&c(" \t "))), Vec::<String>::new());
    assert_eq!(strings(scan::split_char(&c("a,,b,"), ',')), vec!["a", "", "b", ""]);
    assert_eq!(strings(scan::split_char(&c(""), ',')), vec![""]);
    assert_eq!(
        scan::split_once_char(&c("a:b:c"), ':'),
        Some((c("a"), c("b:c")))
    );
    assert_eq!(scan::split_once_char(&c("abc"), ':'), None);
    assert_eq!(
        scan::split_once_str(&c("Key: v: w"), ": "),
        Some((c("Key"), c("v: w")))
    );
    assert_eq!(scan::split_once_str(&c("Key:v"), ": "), None);
    assert_eq!(scan::find_sub(&c("abcabc"), &c("ca")), Some(2));
    assert_eq!(scan::find_sub(&c("abc"), &c("")), Some(0));
    assert_eq!(scan::find_sub(&c(""), &c("")), Some(0));
    assert_eq!(scan::find_sub(&c("abc"), &c("abcd")), None);
    assert_eq!(scan::find_sub(&c("abc"), &c("c")), Some(2));
    assert!(scan::has_prefix(&c("FROM:x"), "FROM:"));
    assert!(!scan::has_prefix(&c("FRO"), "FROM:"));
    assert!(scan::has_suffix(&c("a\r\n.\r\n"), "\r\n.\r\n"));
    assert!(!scan::has_suffix(&c(".\r\n"), "\r\n.\r\n"));
    assert!(scan::has_sub(&c("xadminx"), "admin"));
    assert_eq!(
        scan::join_chars(&vec![c("a"), c(""), c("b")], ", "),
        c("a, , b")
    );
    assert_eq!(scan::join_chars(&vec![], ", "), c(""));
    assert_eq!(scan::trim(&c(" \t a b \r\n")), c("a b"));
    assert_eq!(scan::trim(&c("   ")), c(""));
    assert_eq!(scan::trim_end(&c(" a \r\n")), c(" a"));
    assert_eq!(scan::trim_char(&c("\"\"a\"b\"\""), '"'), c("a\"b"));
    assert_eq!(scan::trim_char(&c("\"\""), '"'), c(""));
    assert_eq!(scan::count_chars(&c("a\nb\n\n"), '\n'), 3);
}

#[test]
fn message_texts() {
    assert_eq!(
        strings(append::text_lines(&c("a\r\nb\nc\r"))),
        vec!["a", "b", "c\r"]
    );
    assert_eq!(strings(append::text_lines(&c("a\n"))), vec!["a"]);
    assert_eq!(strings(append::text_lines(&c("a\n\n"))), vec!["a", ""]);
    assert_eq!(strings(append::text_lines(&c(""))), Vec::<String>::new());
    for s in ["a\r\nb\nc\r", "a\n", "a\n\n", "", "\n", "\r\n\r\n", "x\r\n\r"] {
        assert_eq!(
            strings(append::text_lines(&c(s))),
            s.lines().map(|l| l.to_string()).collect::<Vec<_>>(),
            "{:?}",
            s
        );
    }
    assert_eq!(append::unwrap_address(&c("Ann <ann@x.org>")), c("ann@x.org"));
    assert_eq!(append::unwrap_address(&c("ann@x.org")), c("ann@x.org"));
    assert_eq!(append::unwrap_address(&c("a > b < c")), c("a > b < c"));
    assert_eq!(append::unwrap_address(&c("<>")), c(""));
    let m = append::read_mail(&c(
        "From: One <one@x>\r\nTo: a@y\r\nFrom: two@x\r\nTo: B <b@y>\r\nSubject: To: no\r\n\r\nTo: body@y\r\n",
    ));
    assert_eq!(m.from, "two@x");
    assert_eq!(m.to, vec!["a@y", "B <b@y>", "body@y"]);
    assert_eq!(kakimail::parsing::imap::take_octets(&c("héllo"), 0, 3), Some(2));
    assert_eq!(kakimail::parsing::imap::take_octets(&c("héllo"), 0, 2), None);
    assert_eq!(kakimail::parsing::imap::take_octets(&c("héllo"), 1, 0), Some(1));
    assert_eq!(kakimail::parsing::imap::take_octets(&c("hé"), 0, 4), None);
    assert_eq!(kakimail::parsing::imap::take_octets(&c("€😀"), 0, 7), Some(2));
    for ch in ['a', '\u{7f}', '\u{80}', 'é', '\u{7ff}', '\u{800}', '€', '\u{ffff}', '\u{10000}', '😀'] {
        assert_eq!(kakimail::parsing::imap::width_of(ch), ch.len_utf8(), "{:?}", ch);
    }
}
