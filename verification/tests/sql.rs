use kakimail::database::{DBClient, IMAPFlags, SqlValue};
use kakimail::dates::Date;
use kakimail::imap_op::search::{
    format_search_result, ReturnOptions, SearchKeys, Sequence, SequenceSet, DATE_HEADER_REGEX,
};
use kakimail::parsing::imap::search;
use kakimail::utils::sequence_set_to_sql;

fn text(s: &str) -> SqlValue {
    SqlValue::Text(s.to_string())
}

#[test]
fn flag_keys_bind_patterns() {
    assert_eq!(
        SearchKeys::Seen.to_sql_arg(false),
        ("flags LIKE ?".to_string(), vec![text("_1___")])
    );
    assert_eq!(
        SearchKeys::Unseen.to_sql_arg(false),
        ("flags LIKE ?".to_string(), vec![text("_0___")])
    );
    assert_eq!(
        SearchKeys::Draft.to_sql_arg(false),
        ("flags LIKE ?".to_string(), vec![text("1____")])
    );
    assert_eq!(
        SearchKeys::Deleted.to_sql_arg(false),
        ("flags LIKE ?".to_string(), vec![text("__1__")])
    );
    assert_eq!(
        SearchKeys::Flagged.to_sql_arg(false),
        ("flags LIKE ?".to_string(), vec![text("___1_")])
    );
    assert_eq!(
        SearchKeys::Answered.to_sql_arg(true),
        ("flags LIKE ?".to_string(), vec![text("____1")])
    );
    assert_eq!(
        SearchKeys::Unanswered.to_sql_arg(true),
        ("flags LIKE ?".to_string(), vec![text("____0")])
    );
    assert_eq!(
        SearchKeys::Undraft.to_sql_arg(true),
        ("flags LIKE ?".to_string(), vec![text("0____")])
    );
    assert_eq!(
        SearchKeys::Undeleted.to_sql_arg(true),
        ("flags LIKE ?".to_string(), vec![text("__0__")])
    );
    assert_eq!(
        SearchKeys::Unflagged.to_sql_arg(true),
        ("flags LIKE ?".to_string(), vec![text("___0_")])
    );
    assert_eq!(
        SearchKeys::Keyword(IMAPFlags::Seen).to_sql_arg(false),
        ("flags LIKE ?".to_string(), vec![text("_1___")])
    );
    assert_eq!(
        SearchKeys::Unkeyword(IMAPFlags::Seen).to_sql_arg(false),
        ("flags NOT LIKE ?".to_string(), vec![text("_1___")])
    );
}

#[test]
fn text_keys_bind_patterns() {
    assert_eq!(
        SearchKeys::All.to_sql_arg(false),
        ("data LIKE '%'".to_string(), vec![])
    );
    assert_eq!(
        SearchKeys::Text("hi".to_string()).to_sql_arg(false),
        ("data LIKE ?".to_string(), vec![text("%hi%")])
    );
    assert_eq!(
        SearchKeys::Body("hi".to_string()).to_sql_arg(false),
        ("data REGEXP ?".to_string(), vec![text("^(?!.*:).*hi.*")])
    );
    assert_eq!(
        SearchKeys::Header("X-A".to_string(), "v".to_string()).to_sql_arg(false),
        ("data REGEXP ?".to_string(), vec![text(".*X-A: .*v.*")])
    );
    assert_eq!(
        SearchKeys::To("bob".to_string()).to_sql_arg(false),
        ("data REGEXP ?".to_string(), vec![text(".*To: .*bob.*")])
    );
    assert_eq!(
        SearchKeys::From("bob".to_string()).to_sql_arg(false),
        ("data REGEXP ?".to_string(), vec![text(".*From: .*bob.*")])
    );
    assert_eq!(
        SearchKeys::Cc("bob".to_string()).to_sql_arg(false),
        ("data REGEXP ?".to_string(), vec![text(".*Cc: .*bob.*")])
    );
    assert_eq!(
        SearchKeys::Bcc("bob".to_string()).to_sql_arg(false),
        ("data REGEXP ?".to_string(), vec![text(".*Bcc: .*bob.*")])
    );
    assert_eq!(
        SearchKeys::Subject("x".to_string()).to_sql_arg(false),
        ("data REGEXP ?".to_string(), vec![text(".*Subject: .*x.*")])
    );
}

#[test]
fn size_and_date_keys_bind_numbers() {
    assert_eq!(
        SearchKeys::Larger(1024).to_sql_arg(false),
        ("length(data) > ?".to_string(), vec![SqlValue::Integer(1024)])
    );
    assert_eq!(
        SearchKeys::Smaller(-1).to_sql_arg(false),
        ("length(data) < ?".to_string(), vec![SqlValue::Integer(-1)])
    );
    let day = Date::from_ymd(2020, 10, 2).unwrap();
    assert_eq!(day.unix_seconds, 1601596800);
    assert_eq!(day.canonical, "2020-10-02");
    assert_eq!(
        SearchKeys::Before(day.clone()).to_sql_arg(false),
        (
            "unixepoch(date) < ?".to_string(),
            vec![SqlValue::Integer(1601596800)]
        )
    );
    assert_eq!(
        SearchKeys::On(day.clone()).to_sql_arg(false),
        (
            "unixepoch(date) = ?".to_string(),
            vec![SqlValue::Integer(1601596800)]
        )
    );
    assert_eq!(
        SearchKeys::Since(day.clone()).to_sql_arg(false),
        (
            "unixepoch(date) > ?".to_string(),
            vec![SqlValue::Integer(1601596800)]
        )
    );
    let sent = format!(
        "rfc2822_to_date(regex_capture('{}', data, 1)) < ?",
        DATE_HEADER_REGEX
    );
    assert_eq!(
        SearchKeys::SentBefore(day.clone()).to_sql_arg(false),
        (sent, vec![text("2020-10-02")])
    );
    assert!(SearchKeys::SentOn(day.clone())
        .to_sql_arg(false)
        .0
        .ends_with(", data, 1)) = ?"));
    assert!(SearchKeys::SentSince(day)
        .to_sql_arg(false)
        .0
        .ends_with(", data, 1)) > ?"));
}

#[test]
fn combinators_nest() {
    let key = SearchKeys::Or(
        Box::new(SearchKeys::Seen),
        Box::new(SearchKeys::Not(Box::new(SearchKeys::Larger(5)))),
    );
    assert_eq!(
        key.to_sql_arg(false),
        (
            "( flags LIKE ? OR NOT ( length(data) > ? ) )".to_string(),
            vec![text("_1___"), SqlValue::Integer(5)]
        )
    );
}

#[test]
fn sequence_sets_in_sql() {
    let set = SequenceSet::from_str("2,10:7,15:*,*:4,*").unwrap();
    let largest = "(SELECT MAX(m.seqnum) FROM mail m WHERE m.mailbox_id = mail.mailbox_id)";
    let star_range = format!("seqnum BETWEEN min(?, {largest}) AND max(?, {largest})");
    assert_eq!(
        sequence_set_to_sql(set.clone(), "seqnum"),
        (
            format!(
                "( seqnum = ? OR seqnum BETWEEN ? AND ? OR {star_range} OR {star_range} OR seqnum = {largest} )"
            ),
            vec![
                SqlValue::Integer(2),
                SqlValue::Integer(7),
                SqlValue::Integer(10),
                SqlValue::Integer(15),
                SqlValue::Integer(15),
                SqlValue::Integer(4),
                SqlValue::Integer(4)
            ]
        )
    );
    assert_eq!(
        SearchKeys::Uid(SequenceSet {
            sequences: vec![Sequence::Int(3)]
        })
        .to_sql_arg(false),
        ("( uid = ? )".to_string(), vec![SqlValue::Integer(3)])
    );
    assert_eq!(
        SearchKeys::SequenceSet(SequenceSet {
            sequences: vec![Sequence::Int(3)]
        })
        .to_sql_arg(true),
        ("( seqnum = ? )".to_string(), vec![SqlValue::Integer(3)])
    );
    assert_eq!(
        sequence_set_to_sql(SequenceSet { sequences: vec![] }, "uid"),
        ("( 1 = 0 )".to_string(), vec![])
    );
}

#[test]
fn search_query_joins_keys() {
    let args = search("UNSEEN LARGER 10").unwrap();
    assert_eq!(
        DBClient::get_search_query(&args, 7, false).unwrap(),
        (
            "SELECT seqnum FROM mail WHERE mailbox_id = ? AND flags LIKE ? AND length(data) > ?"
                .to_string(),
            vec![SqlValue::Integer(7), text("_0___"), SqlValue::Integer(10)]
        )
    );
    assert_eq!(
        DBClient::get_search_query(&args, 7, true).unwrap().0,
        "SELECT uid FROM mail WHERE mailbox_id = ? AND flags LIKE ? AND length(data) > ?"
    );
    let none = search("").unwrap();
    assert!(DBClient::get_search_query(&none, 7, false).is_none());
}

#[test]
fn search_results_are_written_as_asked() {
    let ids = vec![1, 2, 3, 5, 9];
    assert_eq!(
        format_search_result(
            &vec![
                ReturnOptions::Min,
                ReturnOptions::Max,
                ReturnOptions::All,
                ReturnOptions::Count,
                ReturnOptions::Save
            ],
            &ids
        ),
        "MIN 1 MAX 9 ALL 1:3,5,9 COUNT 5"
    );
    assert_eq!(
        format_search_result(
            &vec![ReturnOptions::Min, ReturnOptions::Count, ReturnOptions::Max],
            &vec![]
        ),
        "COUNT 0"
    );
    assert_eq!(format_search_result(&vec![ReturnOptions::All], &vec![]), "ALL ");
    assert_eq!(format_search_result(&vec![], &ids), "");
    assert_eq!(
        format_search_result(&vec![ReturnOptions::Max, ReturnOptions::Min], &vec![4, -2, 7]),
        "MAX 7 MIN -2"
    );
}

#[test]
fn flags_by_name_and_pattern() {
    assert_eq!(IMAPFlags::from_str("\\Seen"), Some(IMAPFlags::Seen));
    assert_eq!(IMAPFlags::from_str("\\Answered"), Some(IMAPFlags::Answered));
    assert_eq!(IMAPFlags::from_str("\\Flagged"), Some(IMAPFlags::Flagged));
    assert_eq!(IMAPFlags::from_str("\\Deleted"), Some(IMAPFlags::Deleted));
    assert_eq!(IMAPFlags::from_str("\\Draft"), Some(IMAPFlags::Draft));
    assert_eq!(IMAPFlags::from_str("Seen"), None);
    assert_eq!(IMAPFlags::Answered.to_string(), "____1");
    assert_eq!(IMAPFlags::Draft.to_string(), "1____");
    assert_eq!(IMAPFlags::Deleted.position(), 2);
    assert_eq!(
        kakimail::database::db_flag_to_readable_flag("11111"),
        "\\Draft \\Seen \\Deleted \\Flagged \\Answered"
    );
    assert_eq!(kakimail::database::db_flag_to_readable_flag("00000"), "");
    assert_eq!(kakimail::database::db_flag_to_readable_flag("01010"), "\\Seen \\Flagged");
    assert_eq!(kakimail::database::db_flag_to_readable_flag("0"), "");
    assert_eq!(
        kakimail::database::make_bitmap(&vec![IMAPFlags::Seen, IMAPFlags::Answered]),
        "01001"
    );
}
