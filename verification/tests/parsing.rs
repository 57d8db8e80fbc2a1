use kakimail::imap_op::search::{ReturnOptions, SearchKeys, Sequence, SequenceSet};
use kakimail::parsing::imap::{
    fetch, fetch_args, literal, mailbox, number, parse_list, quoted, search, search_pending, string,
    FetchArgs, Mailbox, SectionMsgText, SectionSpec, SectionText,
};

#[test]
fn test_literal() {
    assert_eq!(literal("{2}ok"), Some(("ok".to_string(), 2)));
    assert_eq!(literal("{2+}ok"), Some(("ok".to_string(), 2)))
}

#[test]
fn literal_rejects_what_is_no_announcement() {
    assert_eq!(literal("2}ok"), None);
    assert_eq!(literal("{}ok"), None);
    assert_eq!(literal("{2ok"), None);
    assert_eq!(literal("{4294967296}"), None);
    assert_eq!(literal("{4294967295}"), Some(("".to_string(), 4294967295)));
}

#[test]
fn test_number() {
    assert_eq!(number("23nme"), Some(("nme".to_string(), 23)))
}

#[test]
fn number_needs_digits_that_fit() {
    assert_eq!(number("nme"), None);
    assert_eq!(number(""), None);
    assert_eq!(number("23"), Some(("".to_string(), 23)));
    assert_eq!(number("99999999999"), None);
    assert_eq!(number("007x"), Some(("x".to_string(), 7)));
}

#[test]
fn test_quoted() {
    assert_eq!(
        quoted("\"test, 这不是ASCII\""),
        Some(("".to_string(), "test, 这不是ASCII".to_string()))
    )
}

#[test]
fn quoted_escapes_and_rest() {
    assert_eq!(
        quoted("\"a \\\"b\\\" \\\\c\" rest"),
        Some((" rest".to_string(), "a \"b\" \\c".to_string()))
    );
    assert_eq!(quoted("\"open"), None);
    assert_eq!(quoted("no quote"), None);
    assert_eq!(quoted("\"bad \\x escape\""), None);
    assert_eq!(quoted("\"\""), Some(("".to_string(), "".to_string())));
}

#[test]
fn string_is_quoted_or_itself() {
    assert_eq!(string("\"in quotes\""), "in quotes");
    assert_eq!(string("bare"), "bare");
    assert_eq!(string("\"open"), "\"open");
}

#[test]
fn test_mailbox() {
    assert_eq!(mailbox("\"iNbOx\""), Some(("".to_string(), Mailbox::Inbox)));
    assert_eq!(
        mailbox("\"not\""),
        Some(("".to_string(), Mailbox::Custom("not".to_string())))
    )
}

#[test]
fn mailbox_from_name() {
    assert_eq!(Mailbox::from("INBOX"), Mailbox::Inbox);
    assert_eq!(Mailbox::from("inbox"), Mailbox::Inbox);
    assert_eq!(Mailbox::from("Inbox2"), Mailbox::Custom("Inbox2".to_string()));
}

#[test]
fn test_list() {
    let result: Vec<String> = vec!["HELLO", "WORLD", "QUOTED ELEMENT"]
        .iter()
        .map(|e| e.to_string())
        .collect();
    assert_eq!(
        result,
        parse_list("HELLO WORLD \"QUOTED ELEMENT\"").unwrap()
    )
}

#[test]
fn list_edge_cases() {
    assert_eq!(parse_list("").unwrap(), Vec::<String>::new());
    assert_eq!(parse_list("  \r\n").unwrap(), Vec::<String>::new());
    assert_eq!(parse_list("\"a b c\" d\r\n").unwrap(), vec!["a b c", "d"]);
    assert_eq!(parse_list("\"single\"").unwrap(), vec!["single"]);
    assert_eq!(parse_list("a \"unterminated"), None);
}

#[test]
fn test_search() {
    let s = search(
        "RETURN (MIN MAX) UNSEEN BCC test TEXT \"some text\" SENTON 02-Oct-2020 2,3,7:10,15:*",
    )
    .unwrap();
    assert_eq!(s.return_opts, vec![ReturnOptions::Min, ReturnOptions::Max]);
    assert_eq!(s.search_keys.len(), 5);
    let (_string, _values) =
        kakimail::database::DBClient::get_search_query(&s, 0, false).unwrap();
}

#[test]
fn search_keys_are_read_with_their_arguments() {
    let s = search("OR SEEN LARGER 1024 NOT DELETED\r\n").unwrap();
    assert!(s.return_opts.is_empty());
    assert_eq!(s.search_keys.len(), 2);
    match &s.search_keys[0] {
        SearchKeys::Or(a, b) => {
            assert!(matches!(**a, SearchKeys::Seen));
            assert!(matches!(**b, SearchKeys::Larger(1024)));
        }
        other => panic!("{:?}", other),
    }
    match &s.search_keys[1] {
        SearchKeys::Not(k) => assert!(matches!(**k, SearchKeys::Deleted)),
        other => panic!("{:?}", other),
    }
}

#[test]
fn search_return_list_may_be_empty() {
    let s = search("RETURN () ALL").unwrap();
    assert!(s.return_opts.is_empty());
    assert_eq!(s.search_keys.len(), 1);
    let s = search("return (count save) uid 4:7").unwrap();
    assert_eq!(s.return_opts, vec![ReturnOptions::Count, ReturnOptions::Save]);
    match &s.search_keys[0] {
        SearchKeys::Uid(set) => assert_eq!(
            *set,
            SequenceSet {
                sequences: vec![Sequence::Range(4, 7)]
            }
        ),
        other => panic!("{:?}", other),
    }
}

#[test]
fn search_rejects_malformed_keys() {
    assert!(search("LARGER").is_none());
    assert!(search("LARGER abc").is_none());
    assert!(search("BEFORE yesterday").is_none());
    assert!(search("OR SEEN").is_none());
    assert!(search("HEADER Subject").is_none());
    assert!(search("RETURN (BOGUS) ALL").is_none());
    assert!(search("RETURN (MIN ALL").is_none());
    assert!(search("KEYWORD \\Nope").is_none());
    assert!(search("1,x").is_none());
}

#[test]
fn search_key_from_str() {
    assert!(matches!(SearchKeys::from_str("unseen"), Some(SearchKeys::Unseen)));
    assert!(matches!(
        SearchKeys::from_str("HEADER Subject hello"),
        Some(SearchKeys::Header(_, _))
    ));
    assert!(matches!(
        SearchKeys::from_str("KEYWORD \\Flagged"),
        Some(SearchKeys::Keyword(kakimail::database::IMAPFlags::Flagged))
    ));
    assert!(SearchKeys::from_str("SEEN DELETED").is_none());
    assert!(SearchKeys::from_str("").is_none());
    match SearchKeys::from_str("SENTON 02-Oct-2020") {
        Some(SearchKeys::SentOn(d)) => {
            assert_eq!((d.year, d.month, d.day), (2020, 10, 2));
            assert_eq!(d.unix_seconds, 1601596800);
            assert_eq!(d.canonical, "2020-10-02");
        }
        other => panic!("{:?}", other),
    }
}

#[test]
fn return_options_from_str() {
    assert_eq!(ReturnOptions::from_str("MIN"), Some(ReturnOptions::Min));
    assert_eq!(ReturnOptions::from_str("max"), Some(ReturnOptions::Max));
    assert_eq!(ReturnOptions::from_str("All"), Some(ReturnOptions::All));
    assert_eq!(ReturnOptions::from_str("COUNT"), Some(ReturnOptions::Count));
    assert_eq!(ReturnOptions::from_str("save"), Some(ReturnOptions::Save));
    assert_eq!(ReturnOptions::from_str("other"), None);
}

#[test]
fn sequence_from_str() {
    assert_eq!(Sequence::from_str("7"), Some(Sequence::Int(7)));
    assert_eq!(Sequence::from_str("7:9"), Some(Sequence::Range(7, 9)));
    assert_eq!(Sequence::from_str("7:*"), Some(Sequence::RangeFrom(7)));
    assert_eq!(Sequence::from_str("*:7"), Some(Sequence::RangeTo(7)));
    assert_eq!(Sequence::from_str("*:*"), Some(Sequence::RangeFull));
    assert_eq!(Sequence::from_str("*"), Some(Sequence::RangeFull));
    assert_eq!(Sequence::from_str("+7"), Some(Sequence::Int(7)));
    assert_eq!(Sequence::from_str("-7"), None);
    assert_eq!(Sequence::from_str(""), None);
    assert_eq!(Sequence::from_str("4294967296"), None);
    assert_eq!(Sequence::from_str("4294967295"), Some(Sequence::Int(4294967295)));
}

#[test]
fn test_fetch() {
    let res = fetch("1:10,15:* (BODY[HEADER] BODY[TEXT])").unwrap();
    println!("{:?}", res);
    assert_eq!(
        res.0,
        SequenceSet {
            sequences: vec![Sequence::Range(1, 10), Sequence::RangeFrom(15)]
        }
    );
    assert_eq!(
        res.1,
        vec![
            FetchArgs::Body(SectionSpec::MsgText(SectionMsgText::Header), None),
            FetchArgs::Body(SectionSpec::MsgText(SectionMsgText::Text), None),
        ]
    );
    let res = fetch("0:5,8:10 (BODY[2.HEADER] BODYSTRUCTURE)").unwrap();
    println!("{:?}", res);
    assert_eq!(
        res.1,
        vec![
            FetchArgs::Body(
                SectionSpec::Other(
                    vec![2],
                    Some(SectionText::MsgText(SectionMsgText::Header))
                ),
                None
            ),
            FetchArgs::BodyStructure,
        ]
    );
}

#[test]
fn fetch_macros_expand() {
    assert_eq!(
        fetch_args("ALL").unwrap(),
        vec![
            FetchArgs::Flags,
            FetchArgs::InternalDate,
            FetchArgs::RFC822Size,
            FetchArgs::Envelope
        ]
    );
    assert_eq!(
        fetch_args("FAST").unwrap(),
        vec![FetchArgs::Flags, FetchArgs::InternalDate, FetchArgs::RFC822Size]
    );
    assert_eq!(
        fetch_args("FULL\r\n").unwrap(),
        vec![
            FetchArgs::Flags,
            FetchArgs::InternalDate,
            FetchArgs::RFC822Size,
            FetchArgs::Envelope,
            FetchArgs::BodyNoArgs
        ]
    );
}

#[test]
fn fetch_items_with_sections() {
    assert_eq!(
        fetch_args("(uid BODY.PEEK[]<0.10> BINARY[1.2] BINARY.SIZE[3] BINARY.PEEK[4]<1.2>)")
            .unwrap(),
        vec![
            FetchArgs::Uid,
            FetchArgs::BodyPeek(SectionSpec::Other(vec![], None), Some((0, 10))),
            FetchArgs::Binary(vec![1, 2], None),
            FetchArgs::BinarySize(vec![3]),
            FetchArgs::BinaryPeek(vec![4], Some((1, 2))),
        ]
    );
    assert_eq!(
        fetch_args("BODY[HEADER.FIELDS (From To)]").unwrap(),
        vec![FetchArgs::Body(
            SectionSpec::MsgText(SectionMsgText::HeaderFields(vec![
                "From".to_string(),
                "To".to_string()
            ])),
            None
        )]
    );
    assert_eq!(
        fetch_args("BODY[1.HEADER.FIELDS.NOT (Message-ID)]").unwrap(),
        vec![FetchArgs::Body(
            SectionSpec::Other(
                vec![1],
                Some(SectionText::MsgText(SectionMsgText::HeaderFieldsNot(vec![
                    "Message-ID".to_string()
                ])))
            ),
            None
        )]
    );
    assert_eq!(
        fetch_args("BODY[2.MIME]").unwrap(),
        vec![FetchArgs::Body(
            SectionSpec::Other(vec![2], Some(SectionText::Mime)),
            None
        )]
    );
    assert_eq!(fetch_args("ENVELOPE").unwrap(), vec![FetchArgs::Envelope]);
}

#[test]
fn fetch_rejects_malformed_arguments() {
    assert!(fetch_args("(NOPE)").is_none());
    assert!(fetch_args("BODY[HEADER").is_none());
    assert!(fetch_args("BINARY").is_none());
    assert!(fetch_args("UIDx").is_none());
    assert!(fetch("1:3").is_none());
    assert!(fetch("x FLAGS").is_none());
}

#[test]
fn section_parsers_give_the_length_read() {
    assert_eq!(SectionMsgText::from_str("TEXT]"), Some((SectionMsgText::Text, 4)));
    assert_eq!(SectionMsgText::from_str("HEADER]"), Some((SectionMsgText::Header, 6)));
    assert_eq!(SectionMsgText::from_str("MIME"), None);
    assert_eq!(SectionText::from_str("MIME]"), Some((SectionText::Mime, 4)));
    assert_eq!(
        SectionSpec::from_str("1.2.TEXT]"),
        (
            SectionSpec::Other(vec![1, 2], Some(SectionText::MsgText(SectionMsgText::Text))),
            8
        )
    );
    assert_eq!(SectionSpec::from_str("]"), (SectionSpec::Other(vec![], None), 0));
    assert_eq!(
        FetchArgs::from_str("rfc822.size rest"),
        Some((FetchArgs::RFC822Size, 11))
    );
    assert_eq!(FetchArgs::from_str("body rest"), Some((FetchArgs::BodyNoArgs, 4)));
}

#[test]
fn a_literal_is_an_element_of_a_list() {
    assert_eq!(parse_list("a {3} x y b").unwrap(), vec!["a", "x y", "b"]);
    assert_eq!(
        parse_list("SUBJECT {5+}\r\nhello\r\n").unwrap(),
        vec!["SUBJECT", "hello"]
    );
    assert_eq!(
        parse_list("{6}\r\n\"a\" \r\n {1} z").unwrap(),
        vec!["\"a\" \r\n", "z"]
    );
    assert_eq!(parse_list("{2} \u{e9} x").unwrap(), vec!["\u{e9}", "x"]);
    assert_eq!(parse_list("{0} x").unwrap(), vec!["", "x"]);
    // no literal: too short, cut inside a character, or no separator
    assert_eq!(parse_list("{5} ab").unwrap(), vec!["{5}", "ab"]);
    assert_eq!(parse_list("{1} \u{e9}").unwrap(), vec!["{1}", "\u{e9}"]);
    assert_eq!(parse_list("{2}ab").unwrap(), vec!["{2}ab"]);
    assert_eq!(parse_list("{x} ab").unwrap(), vec!["{x}", "ab"]);
}

#[test]
fn search_waits_for_an_announced_literal() {
    assert_eq!(search_pending("SUBJECT {5}\r\n"), Some(false));
    assert_eq!(search_pending("SUBJECT {5+}"), Some(true));
    assert_eq!(search_pending("RETURN (MIN) SEEN TEXT {12}  \r\n"), Some(false));
    assert_eq!(search_pending("SUBJECT {5} hello\r\n"), None);
    assert_eq!(search_pending("SUBJECT {5+}\r\nhello\r\n"), None);
    assert_eq!(search_pending("SUBJECT {7+}\r\nabc {5}\r\n"), None);
    assert_eq!(search_pending("SUBJECT \"{5}\"\r\n"), None);
    assert_eq!(search_pending("SUBJECT \"a {5}\r\n"), None);
    assert_eq!(search_pending("SUBJECT {5}x\r\n"), None);
    assert_eq!(search_pending("SEEN\r\n"), None);
    assert_eq!(search_pending(""), None);
    assert_eq!(search_pending("RETURN (MIN {5}\r\n"), None);
    assert_eq!(search_pending("{3} abc {4}\r\n"), Some(false));
    // an empty literal is there already
    assert_eq!(search_pending("SUBJECT {0}\r\n"), None);
}

#[test]
fn search_reads_a_literal_as_text() {
    let s = search("SUBJECT {11+}\r\nhello world SEEN\r\n").unwrap();
    assert_eq!(
        format!("{:?}", s.search_keys),
        "[Subject(\"hello world\"), Seen]"
    );
}
