use kakimail::matching::{safe_pattern, search_pattern};
use kakimail::database::{regex_capture, rfc2822_to_date};
use kakimail::dates::{Date, Timestamp};
use kakimail::imap_op;
use kakimail::parsing;

#[test]
fn test_date_regex() {
    let test_string = "To: test@example.com
Date: 01 Jan 2023 23:59:59 +0000
Subject: test";

    let matches = regex_capture(imap_op::search::DATE_HEADER_REGEX, test_string, 1).unwrap();
    let parsed_date = rfc2822_to_date(&matches).unwrap();
    let naivedate = chrono::NaiveDate::from_ymd_opt(2024, 1, 1)
        .unwrap()
        .format(parsing::DB_DATE_FMT)
        .to_string();
    let conn = rusqlite::Connection::open_in_memory().unwrap();
    let mut stmt = conn.prepare("SELECT 1 WHERE ? < ?").unwrap();
    let rows = stmt
        .query_map([parsed_date.clone(), naivedate.clone()], |i| {
            Ok(i.get::<_, i32>(0).unwrap())
        })
        .unwrap();
    let rows = rows.flatten().collect::<Vec<_>>();
    assert_eq!(rows[0], 1);
}

#[test]
fn regex_capture_groups() {
    assert_eq!(regex_capture("a(b+)c", "xabbbc", 1), Some("bbb".to_string()));
    assert_eq!(regex_capture("a(b+)c", "xabbbc", 0), Some("abbbc".to_string()));
    assert_eq!(regex_capture("a(b+)c", "xabbbc", 2), None);
    assert_eq!(regex_capture("a(b+)c", "xabbbc", -1), None);
    assert_eq!(regex_capture("a(b+)c", "nothing", 1), None);
    assert_eq!(regex_capture("a(b", "xab", 0), None);
    assert_eq!(regex_capture("(x)?y", "y", 1), None);
    assert_eq!(
        regex_capture(
            imap_op::search::DATE_HEADER_REGEX,
            "Subject: s\r\nDate: Mon, 02 Oct 2020 10:00:00 +0200\r\n\r\nbody",
            1
        ),
        Some("02 Oct 2020".to_string())
    );
}

#[test]
fn header_dates_become_canonical() {
    assert_eq!(rfc2822_to_date("01 Jan 2023"), Some("2023-01-01".to_string()));
    assert_eq!(rfc2822_to_date("31 Dec 1999"), Some("1999-12-31".to_string()));
    assert_eq!(rfc2822_to_date("31 Feb 2023"), None);
    assert_eq!(rfc2822_to_date("yesterday"), None);
}

#[test]
fn dates_parse_and_compute() {
    let d = Date::parse("02-Oct-2020", parsing::SEARCH_DATE_FMT).unwrap();
    assert_eq!((d.year, d.month, d.day), (2020, 10, 2));
    assert_eq!(d.unix_seconds, 1601596800);
    assert_eq!(d.canonical, "2020-10-02");
    assert_eq!(Date::from_ymd(1970, 1, 1).unwrap().unix_seconds, 0);
    assert_eq!(Date::from_ymd(1969, 12, 31).unwrap().unix_seconds, -86400);
    assert!(Date::from_ymd(2023, 2, 29).is_none());
    assert!(Date::from_ymd(2024, 2, 29).is_some());
    assert!(Date::parse("2020-10-02", parsing::SEARCH_DATE_FMT).is_none());
    assert!(Date::parse("02-Oct-2020", "%Q").is_none());
    assert_eq!(
        Date::from_parts(1, 2, 3, Some(4), Some("x".to_string())).unwrap().unix_seconds,
        4
    );
    assert!(Date::from_parts(1, 2, 3, None, Some("x".to_string())).is_none());
    assert!(Date::from_parts(1, 2, 3, Some(4), None).is_none());
}

#[test]
fn instants_parse_and_format() {
    let t = Timestamp::parse("01-Jan-2024 00:00:00 +0000", parsing::IMAP_DATETIME_FMT).unwrap();
    assert_eq!(t.unix_seconds, 1704067200);
    assert_eq!(t.offset_seconds, 0);
    assert_eq!(t.to_imap_string().unwrap(), "01-Jan-2024 00:00:00 +0000");
    let t = Timestamp::parse("01-Jan-2024 02:00:00 +0200", parsing::IMAP_DATETIME_FMT).unwrap();
    assert_eq!(t.unix_seconds, 1704067200);
    assert_eq!(t.offset_seconds, 7200);
    assert_eq!(t.to_imap_string().unwrap(), "01-Jan-2024 02:00:00 +0200");
    assert!(Timestamp::parse("01-Jan-2024", parsing::IMAP_DATETIME_FMT).is_none());
    assert!(Timestamp {
        unix_seconds: 0,
        offset_seconds: 100000
    }
    .to_imap_string()
    .is_none());
    assert!(Timestamp {
        unix_seconds: i64::MAX,
        offset_seconds: 0
    }
    .to_imap_string()
    .is_none());
}

#[test]
fn a_pattern_with_huge_counts_is_not_tried() {
    let chars = |s: &str| s.chars().collect::<Vec<char>>();
    assert_eq!(regex_capture("(aa){9999999999999999999}", "aa", 0), None);
    assert_eq!(regex_capture("(a{99999}){99999}", "aa", 0), None);
    assert_eq!(search_pattern("(aa){9999999999999999999}", "aa"), None);
    assert_eq!(search_pattern(".*(a{70000}){70000}.*", "aa"), None);
    assert!(!safe_pattern(&chars("(aa){9999999999999999999}")));
    assert!(!safe_pattern(&chars("x{ 2147483647 }")));
    assert!(!safe_pattern(&chars("a{(?#})2147483647}")));
    assert!(!safe_pattern(&chars("a{2}b 1234567890")));
    // a number before the first brace is no count
    assert!(safe_pattern(&chars("(?#c)2147483647")));
    assert!(safe_pattern(&chars(".*Subject: .*order 1234567890123456789012345.*")));
    assert!(safe_pattern(&chars("99999999999 a{3}")));
    assert!(!safe_pattern(&chars("((a{2000}){2000}){2000}")));
    // 13 characters and one more, times 1000 times 1000
    assert!(safe_pattern(&chars("a{1000}{1000}")));
    assert!(safe_pattern(&chars("")));
    assert!(safe_pattern(&chars("a{0}b{00}")));
    assert!(safe_pattern(&chars("^Date: \\d{2} \\w{3} \\d{4}")));
    // 10 characters and one more, times the number: 2147483646 and 2147483657
    assert!(safe_pattern(&chars("{195225786")));
    assert!(!safe_pattern(&chars("{195225787")));
    assert_eq!(regex_capture("(a{2})(b{3})", "xaabbby", 2), Some("bbb".to_string()));
    assert_eq!(search_pattern("a{2,3}b", "xaaab"), Some(true));
    assert_eq!(search_pattern("a{4}b", "xaaab"), Some(false));
    assert_eq!(search_pattern("(", "x"), None);
}

#[test]
fn instants_are_written_under_a_format() {
    let t = Timestamp {
        unix_seconds: 1_704_067_200,
        offset_seconds: 3600,
    };
    assert_eq!(
        t.format(parsing::DB_DATETIME_FMT),
        Some("2024-01-01 01:00:00.000+01:00".to_string())
    );
    assert_eq!(
        t.format(parsing::IMAP_DATETIME_FMT),
        Some("01-Jan-2024 01:00:00 +0100".to_string())
    );
    assert_eq!(t.to_imap_string(), t.format(parsing::IMAP_DATETIME_FMT));
    assert_eq!(
        Timestamp::parse("2024-01-01 01:00:00.000+01:00", parsing::DB_DATETIME_FMT),
        Some(t)
    );
    assert_eq!(t.format("%Q"), None);
    let far = Timestamp {
        unix_seconds: i64::MAX,
        offset_seconds: 0,
    };
    assert_eq!(far.format(parsing::IMAP_DATETIME_FMT), None);
    let day = Date::from_ymd(2024, 2, 29).unwrap();
    assert_eq!(day.canonical, "2024-02-29");
    assert_eq!(day.unix_seconds, 1_709_164_800);
    assert_eq!(Date::from_ymd(2023, 2, 29), None);
}
