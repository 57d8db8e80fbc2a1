use kakimail::database::DBClient;
use kakimail::dates::Timestamp;
use kakimail::imap::{IMAPState, SelectedState, SessionAction, Waiting, IMAP};

const NOW: Timestamp = Timestamp {
    unix_seconds: 1_700_000_000,
    offset_seconds: 0,
};

fn store_with_alice() -> DBClient {
    let mut db = DBClient::new();
    let hash = bcrypt::hash("pw", 4).unwrap();
    assert_eq!(db.add_user("alice", &hash), Ok(1));
    db
}

fn lines(resp: Vec<Vec<u8>>) -> Vec<String> {
    resp.into_iter()
        .map(|l| String::from_utf8(l).unwrap())
        .collect()
}

fn say(s: &mut IMAP, db: &mut DBClient, line: &str) -> Vec<String> {
    lines(s.handle_imap(db, line, NOW).0)
}

fn logged_in() -> (IMAP, DBClient) {
    let mut db = store_with_alice();
    let mut s = IMAP::new(false);
    assert_eq!(
        say(&mut s, &mut db, "a1 LOGIN \"alice\" \"pw\"\r\n"),
        vec!["a1 OK LOGIN COMPLETED\r\n"]
    );
    (s, db)
}

#[test]
fn greeting() {
    let s = IMAP::new(false);
    assert_eq!(s.greet(), b"* OK IMAP4rev2 Service Ready\r\n".to_vec());
    assert_eq!(s.state, IMAPState::NotAuthed);
}

#[test]
fn scenario_login_and_select_empty_inbox() {
    let (mut s, mut db) = logged_in();
    assert_eq!(s.state, IMAPState::Authed(1));
    assert_eq!(
        say(&mut s, &mut db, "a2 SELECT INBOX\r\n"),
        vec![
            "* 0 EXISTS\r\n",
            "* OK [UIDVALIDITY 1700000000]\r\n",
            "* OK [UIDNEXT 1]\r\n",
            "* FLAGS (\\Answered \\Flagged \\Deleted \\Seen \\Draft)\r\n",
            "* LIST () \"/\" INBOX\r\n",
            "* OK [PERMANENTFLAGS (\\Deleted \\Seen \\*)]\r\n",
            "a2 OK [READ-WRITE] SELECT completed\r\n",
        ]
    );
    assert_eq!(
        s.state,
        IMAPState::Selected(SelectedState {
            read_only: false,
            user_id: 1,
            mailbox_id: 1
        })
    );
}

#[test]
fn scenario_append_then_fetch() {
    let (mut s, mut db) = logged_in();
    say(&mut s, &mut db, "a2 SELECT INBOX\r\n");
    assert_eq!(
        say(
            &mut s,
            &mut db,
            "a3 APPEND INBOX (\\Seen) \"01-Jan-2024 00:00:00 +0000\" {12}\r\n"
        ),
        vec!["+ Ready for literal data\r\n"]
    );
    assert!(matches!(s.waiting, Waiting::Continuation(_)));
    assert_eq!(
        say(&mut s, &mut db, "Hello world!\r\n"),
        vec!["a3 OK [APPENDUID 1700000000 1] APPEND completed\r\n"]
    );
    assert_eq!(s.waiting, Waiting::Command);
    assert_eq!(
        say(&mut s, &mut db, "a4 FETCH 1 (UID FLAGS RFC822.SIZE)\r\n"),
        vec![
            "* 1 FETCH (UID 1 FLAGS (\\Seen) RFC822.SIZE 12)\r\n",
            "a4 OK FETCH completed\r\n"
        ]
    );
    assert_eq!(
        say(&mut s, &mut db, "a5 FETCH 1 (INTERNALDATE BODY[])\r\n"),
        vec![
            "* 1 FETCH (INTERNALDATE \"01-Jan-2024 00:00:00 +0000\" BODY[] {12}\r\nHello world!)\r\n",
            "a5 OK FETCH completed\r\n"
        ]
    );
    assert_eq!(db.take_changes(), vec!["* 1 EXISTS\r\n"]);
}

#[test]
fn append_with_literal_plus_in_one_piece() {
    let (mut s, mut db) = logged_in();
    assert_eq!(
        say(&mut s, &mut db, "a3 APPEND INBOX {5+}\r\nhéy!\r\n"),
        vec!["a3 OK [APPENDUID 1700000000 1] APPEND completed\r\n"]
    );
    say(&mut s, &mut db, "a4 SELECT INBOX\r\n");
    assert_eq!(
        say(&mut s, &mut db, "a5 FETCH 1 (FLAGS RFC822.SIZE BODY[TEXT])\r\n"),
        vec![
            "* 1 FETCH (FLAGS () RFC822.SIZE 5 BODY[TEXT] {0}\r\n)\r\n",
            "a5 OK FETCH completed\r\n"
        ]
    );
}

#[test]
fn append_literal_plus_waits_without_prompt() {
    let (mut s, mut db) = logged_in();
    assert_eq!(
        say(&mut s, &mut db, "a3 APPEND INBOX {3+}\r\n"),
        Vec::<String>::new()
    );
    assert_eq!(
        say(&mut s, &mut db, "abc\r\n"),
        vec!["a3 OK [APPENDUID 1700000000 1] APPEND completed\r\n"]
    );
}

#[test]
fn append_refuses_bad_arguments() {
    let (mut s, mut db) = logged_in();
    assert_eq!(
        say(&mut s, &mut db, "a3 APPEND INBOX\r\n"),
        vec!["a3 BAD missing arguments\r\n"]
    );
    assert_eq!(
        say(&mut s, &mut db, "a4 APPEND\r\n"),
        vec!["a4 BAD missing arguments\r\n"]
    );
    assert_eq!(
        say(&mut s, &mut db, "a5 APPEND INBOX (\\Seen {3}\r\n"),
        vec!["a5 BAD malformed arguments\r\n"]
    );
    assert_eq!(
        say(&mut s, &mut db, "a6 APPEND INBOX {9} short\r\n"),
        vec!["a6 BAD malformed arguments\r\n"]
    );
    assert_eq!(
        say(&mut s, &mut db, "a7 APPEND Nowhere {1} x\r\n"),
        vec!["a7 NO APPEND failed: no such mailbox\r\n"]
    );
    assert_eq!(
        say(&mut s, &mut db, "a8 APPEND INBOX {2} é\r\n"),
        vec!["a8 OK [APPENDUID 1700000000 1] APPEND completed\r\n"]
    );
    assert_eq!(
        say(&mut s, &mut db, "a9 APPEND INBOX {1} é\r\n"),
        vec!["a9 BAD malformed arguments\r\n"]
    );
    let mut fresh = IMAP::new(false);
    assert_eq!(
        say(&mut fresh, &mut db, "b1 APPEND INBOX {1} x\r\n"),
        vec!["b1 BAD bad state\r\n"]
    );
}

#[test]
fn second_continuation_is_refused() {
    let (mut s, mut db) = logged_in();
    assert_eq!(
        say(&mut s, &mut db, "a3 APPEND INBOX {3}\r\n"),
        vec!["+ Ready for literal data\r\n"]
    );
    assert_eq!(
        say(&mut s, &mut db, " \r\n"),
        vec!["a3 BAD second continuation\r\n"]
    );
    assert_eq!(s.waiting, Waiting::Command);
    assert_eq!(s.state, IMAPState::Authed(1));
}

fn append(s: &mut IMAP, db: &mut DBClient, mailbox: &str, flags: &str, body: &str) {
    let line = format!("x APPEND {} {}{{{}+}}\r\n{}\r\n", mailbox, flags, body.len(), body);
    let got = say(s, db, &line);
    assert_eq!(got.len(), 1, "{:?}", got);
    assert!(got[0].starts_with("x OK [APPENDUID"), "{:?}", got);
}

#[test]
fn scenario_expunge_compacts_seqnums() {
    let (mut s, mut db) = logged_in();
    assert_eq!(
        say(&mut s, &mut db, "c0 CREATE Other\r\n"),
        vec!["c0 OK CREATE completed\r\n"]
    );
    for _ in 0..9 {
        append(&mut s, &mut db, "Other", "", "filler");
    }
    append(&mut s, &mut db, "INBOX", "", "one");
    append(&mut s, &mut db, "INBOX", "(\\Deleted) ", "two");
    append(&mut s, &mut db, "INBOX", "", "three");
    say(&mut s, &mut db, "b0 SELECT INBOX\r\n");
    assert_eq!(
        say(&mut s, &mut db, "b0 FETCH 1:* UID\r\n"),
        vec![
            "* 1 FETCH (UID 10)\r\n",
            "* 2 FETCH (UID 11)\r\n",
            "* 3 FETCH (UID 12)\r\n",
            "b0 OK FETCH completed\r\n"
        ]
    );
    db.take_changes();
    assert_eq!(
        say(&mut s, &mut db, "b1 EXPUNGE\r\n"),
        vec!["* 2 EXPUNGE\r\n", "b1 OK EXPUNGE completed\r\n"]
    );
    assert_eq!(db.take_changes(), vec!["* 2 EXPUNGE\r\n"]);
    assert_eq!(
        say(&mut s, &mut db, "b2 FETCH 1:* UID\r\n"),
        vec![
            "* 1 FETCH (UID 10)\r\n",
            "* 2 FETCH (UID 12)\r\n",
            "b2 OK FETCH completed\r\n"
        ]
    );
    assert_eq!(
        say(&mut s, &mut db, "b3 UID FETCH 12 (UID)\r\n"),
        vec!["* 2 FETCH (UID 12)\r\n", "b3 OK FETCH completed\r\n"]
    );
    assert_eq!(
        say(&mut s, &mut db, "b4 STATUS Other (MESSAGES UIDNEXT UNSEEN DELETED)\r\n"),
        vec![
            "* STATUS Other (MESSAGES 9 UIDNEXT 13 UNSEEN 9 DELETED 0)\r\n",
            "b4 OK STATUS completed\r\n"
        ]
    );
}

#[test]
fn expunge_reports_adjusted_numbers() {
    let (mut s, mut db) = logged_in();
    append(&mut s, &mut db, "INBOX", "", "1");
    append(&mut s, &mut db, "INBOX", "(\\Deleted) ", "2");
    append(&mut s, &mut db, "INBOX", "(\\Deleted) ", "3");
    append(&mut s, &mut db, "INBOX", "", "4");
    append(&mut s, &mut db, "INBOX", "(\\Deleted \\Seen) ", "5");
    say(&mut s, &mut db, "b0 SELECT INBOX\r\n");
    assert_eq!(
        say(&mut s, &mut db, "b1 UID EXPUNGE 3:2\r\n"),
        vec![
            "* 2 EXPUNGE\r\n",
            "* 2 EXPUNGE\r\n",
            "b1 OK EXPUNGE completed\r\n"
        ]
    );
    assert_eq!(
        say(&mut s, &mut db, "b2 FETCH 1:* (UID FLAGS)\r\n"),
        vec![
            "* 1 FETCH (UID 1 FLAGS ())\r\n",
            "* 2 FETCH (UID 4 FLAGS ())\r\n",
            "* 3 FETCH (UID 5 FLAGS (\\Seen \\Deleted))\r\n",
            "b2 OK FETCH completed\r\n"
        ]
    );
    assert_eq!(
        say(&mut s, &mut db, "b3 UID EXPUNGE\r\n"),
        vec!["b3 BAD missing arguments\r\n"]
    );
    assert_eq!(
        say(&mut s, &mut db, "b4 UID EXPUNGE x:y\r\n"),
        vec!["b4 BAD malformed arguments\r\n"]
    );
    assert_eq!(
        say(&mut s, &mut db, "b5 UID EXPUNGE 5\r\n"),
        vec!["* 3 EXPUNGE\r\n", "b5 OK EXPUNGE completed\r\n"]
    );
}

#[test]
fn scenario_search_or() {
    let (mut s, mut db) = logged_in();
    let big = "x".repeat(2000);
    append(&mut s, &mut db, "INBOX", "", "small unseen");
    append(&mut s, &mut db, "INBOX", "(\\Seen) ", "small seen");
    append(&mut s, &mut db, "INBOX", "", &big);
    append(&mut s, &mut db, "INBOX", "", "another small");
    append(&mut s, &mut db, "INBOX", "(\\Seen) ", &big);
    say(&mut s, &mut db, "c0 SELECT INBOX\r\n");
    assert_eq!(
        say(&mut s, &mut db, "c1 SEARCH RETURN (ALL) OR SEEN LARGER 1024\r\n"),
        vec![
            "* ESEARCH (TAG \"c1\") ALL 2:3,5\r\n",
            "c1 OK SEARCH completed\r\n"
        ]
    );
    assert_eq!(
        say(&mut s, &mut db, "c2 SEARCH SEEN\r\n"),
        vec!["* ESEARCH (TAG \"c2\") ALL 2,5\r\n", "c2 OK SEARCH completed\r\n"]
    );
    assert_eq!(
        say(&mut s, &mut db, "c3 SEARCH LARGER 1024\r\n"),
        vec!["* ESEARCH (TAG \"c3\") ALL 3,5\r\n", "c3 OK SEARCH completed\r\n"]
    );
    assert_eq!(
        say(&mut s, &mut db, "c4 SEARCH NOT SEEN\r\n"),
        vec![
            "* ESEARCH (TAG \"c4\") ALL 1,3:4\r\n",
            "c4 OK SEARCH completed\r\n"
        ]
    );
    assert_eq!(
        say(&mut s, &mut db, "c5 SEARCH RETURN (MIN MAX COUNT) UNSEEN SMALLER 100\r\n"),
        vec![
            "* ESEARCH (TAG \"c5\") MIN 1 MAX 4 COUNT 2\r\n",
            "c5 OK SEARCH completed\r\n"
        ]
    );
    assert_eq!(
        say(&mut s, &mut db, "c6 UID SEARCH TEXT SEEN 2:*\r\n"),
        vec!["* ESEARCH (TAG \"c6\") ALL 2\r\n", "c6 OK SEARCH completed\r\n"]
    );
    assert_eq!(
        say(&mut s, &mut db, "c7 SEARCH\r\n"),
        vec!["c7 BAD missing arguments\r\n"]
    );
    assert_eq!(
        say(&mut s, &mut db, "c8 SEARCH LARGER many\r\n"),
        vec!["c8 BAD malformed arguments\r\n"]
    );
}

#[test]
fn scenario_idle_wakeup_on_delivery() {
    let (mut s, mut db) = logged_in();
    assert!(s.on_change("* 1 EXISTS\r\n").is_none());
    assert_eq!(say(&mut s, &mut db, "d1 IDLE\r\n"), vec!["+ idling\r\n"]);
    assert_eq!(s.waiting, Waiting::Idle("d1".to_string()));
    assert_eq!(
        s.on_change("* 1 EXISTS\r\n"),
        Some(b"* 1 EXISTS\r\n".to_vec())
    );
    assert_eq!(
        s.on_change("* 2 EXPUNGE\r\n"),
        Some(b"* 2 EXPUNGE\r\n".to_vec())
    );
    assert_eq!(say(&mut s, &mut db, "noise\r\n"), Vec::<String>::new());
    assert_eq!(
        say(&mut s, &mut db, "DONE\r\n"),
        vec!["d1 OK IDLE terminated\r\n"]
    );
    assert_eq!(s.waiting, Waiting::Command);
    assert!(s.on_change("* 1 EXISTS\r\n").is_none());
}

#[test]
fn idle_times_out() {
    let (mut s, mut db) = logged_in();
    let (resp, action) = s.on_idle_timeout();
    assert!(resp.is_empty());
    assert_eq!(action, SessionAction::Nothing);
    say(&mut s, &mut db, "d1 IDLE\r\n");
    let (resp, action) = s.on_idle_timeout();
    assert_eq!(lines(resp), vec!["* BYE IDLE timed out\r\n"]);
    assert_eq!(action, SessionAction::Close);
    assert_eq!(s.state, IMAPState::Logout);
    assert_eq!(kakimail::imap::IDLE_TIMEOUT_SECS, 30 * 60);
}

#[test]
fn scenario_starttls_then_login() {
    let mut db = store_with_alice();
    let mut s = IMAP::new(false);
    let (resp, action) = s.handle_imap(&mut db, "e1 STARTTLS\r\n", NOW);
    assert_eq!(lines(resp), vec!["e1 OK Begin TLS negotiation now\r\n"]);
    assert_eq!(action, SessionAction::UpgradeTls);
    assert!(s.tls);
    assert_eq!(
        say(&mut s, &mut db, "e2 LOGIN \"alice\" \"pw\"\r\n"),
        vec!["e2 OK LOGIN COMPLETED\r\n"]
    );
}

#[test]
fn starttls_twice_upgrades_once() {
    let mut db = DBClient::new();
    let mut s = IMAP::new(true);
    let (resp, action) = s.handle_imap(&mut db, "e1 STARTTLS\r\n", NOW);
    assert_eq!(lines(resp), vec!["e1 OK Begin TLS negotiation now\r\n"]);
    assert_eq!(action, SessionAction::Nothing);
    assert!(s.tls);
    let mut s = IMAP::new(false);
    assert_eq!(
        s.handle_imap(&mut db, "e1 STARTTLS\r\n", NOW).1,
        SessionAction::UpgradeTls
    );
    assert_eq!(
        s.handle_imap(&mut db, "e2 starttls\r\n", NOW).1,
        SessionAction::Nothing
    );
}

#[test]
fn login_failures() {
    let mut db = store_with_alice();
    let mut s = IMAP::new(false);
    assert_eq!(
        say(&mut s, &mut db, "a1 LOGIN alice wrong\r\n"),
        vec!["a1 NO LOGIN INVALID\r\n"]
    );
    assert_eq!(
        say(&mut s, &mut db, "a2 LOGIN bob pw\r\n"),
        vec!["a2 NO LOGIN INVALID\r\n"]
    );
    assert_eq!(
        say(&mut s, &mut db, "a3 LOGIN alice\r\n"),
        vec!["a3 BAD missing arguments\r\n"]
    );
    assert_eq!(
        say(&mut s, &mut db, "a4 LOGIN \"alice pw\r\n"),
        vec!["a4 BAD malformed arguments\r\n"]
    );
    assert_eq!(s.state, IMAPState::NotAuthed);
    assert_eq!(
        say(&mut s, &mut db, "a5 login alice pw\r\n"),
        vec!["a5 OK LOGIN COMPLETED\r\n"]
    );
    assert_eq!(
        say(&mut s, &mut db, "a6 LOGIN alice pw\r\n"),
        vec!["a6 BAD bad state\r\n"]
    );
}

#[test]
fn authenticate_plain() {
    let mut db = store_with_alice();
    let mut s = IMAP::new(false);
    assert_eq!(
        say(&mut s, &mut db, "a1 AUTHENTICATE LOGIN\r\n"),
        vec!["a1 BAD Unsupported Authentication Mechanism\r\n"]
    );
    assert_eq!(
        say(&mut s, &mut db, "a2 AUTHENTICATE PLAIN !!!\r\n"),
        vec!["a2 BAD INVALID BASE64\r\n"]
    );
    // "\0alice\0nope"
    assert_eq!(
        say(&mut s, &mut db, "a3 AUTHENTICATE PLAIN AGFsaWNlAG5vcGU=\r\n"),
        vec!["a3 NO Invalid Credentials\r\n"]
    );
    // "alice"
    assert_eq!(
        say(&mut s, &mut db, "a4 AUTHENTICATE PLAIN YWxpY2U=\r\n"),
        vec!["a4 BAD malformed arguments\r\n"]
    );
    assert_eq!(say(&mut s, &mut db, "a5 AUTHENTICATE PLAIN\r\n"), vec!["+\r\n"]);
    // "\0alice\0pw"
    assert_eq!(
        say(&mut s, &mut db, "AGFsaWNlAHB3\r\n"),
        vec!["a5 OK Success\r\n"]
    );
    assert_eq!(s.state, IMAPState::Authed(1));
    assert_eq!(
        say(&mut s, &mut db, "a6 AUTHENTICATE PLAIN AGFsaWNlAHB3\r\n"),
        vec!["a6 BAD bad state\r\n"]
    );
    let mut s = IMAP::new(false);
    assert_eq!(
        say(&mut s, &mut db, "a7 AUTHENTICATE\r\n"),
        vec!["a7 BAD missing arguments\r\n"]
    );
}

#[test]
fn commands_in_any_state() {
    let mut db = DBClient::new();
    let mut s = IMAP::new(false);
    assert_eq!(
        say(&mut s, &mut db, "t1 CAPABILITY\r\n"),
        vec![
            "* CAPABILITY IMAP4rev2 STARTTLS IMAP4rev1 AUTH=PLAIN\r\n",
            "t1 OK CAPABILITY completed\r\n"
        ]
    );
    assert_eq!(
        say(&mut s, &mut db, "t2 NOOP\r\n"),
        vec!["t2 OK NOOP completed\r\n"]
    );
    assert_eq!(
        say(&mut s, &mut db, "t3 ENABLE X\r\n"),
        vec!["t3 BAD NO EXTENSIONS SUPPORTED\r\n"]
    );
    assert_eq!(say(&mut s, &mut db, "\r\n"), Vec::<String>::new());
    assert_eq!(
        say(&mut s, &mut db, "t4 BOGUS\r\n"),
        vec!["t4 BAD invalid command\r\n"]
    );
    assert_eq!(
        say(&mut s, &mut db, "nospace\r\n"),
        vec!["* BAD didn't provide command\r\n"]
    );
    assert_eq!(
        say(&mut s, &mut db, "t5 NOOP"),
        vec!["t5 BAD didn't provide command\r\n"]
    );
    let (resp, action) = s.handle_imap(&mut db, "t6 LOGOUT\r\n", NOW);
    assert_eq!(
        lines(resp),
        vec![
            "* BYE IMAP4rev2 Server logging out\r\n",
            "t6 OK LOGOUT completed\r\n"
        ]
    );
    assert_eq!(action, SessionAction::Close);
    assert_eq!(s.state, IMAPState::Logout);
}

#[test]
fn commands_need_their_state() {
    let mut db = store_with_alice();
    let mut s = IMAP::new(false);
    for verb in [
        "SELECT INBOX",
        "EXAMINE INBOX",
        "CREATE x",
        "DELETE x",
        "RENAME x y",
        "SUBSCRIBE x",
        "UNSUBSCRIBE x",
        "LIST \"\" \"*\"",
        "NAMESPACE",
        "STATUS INBOX (MESSAGES)",
        "IDLE",
        "CLOSE",
        "UNSELECT",
        "EXPUNGE",
        "SEARCH ALL",
        "FETCH 1 UID",
        "UID SEARCH ALL",
        "UID FETCH 1 UID",
        "UID EXPUNGE 1",
    ] {
        assert_eq!(
            say(&mut s, &mut db, &format!("t {}\r\n", verb)),
            vec!["t BAD bad state\r\n"],
            "{}",
            verb
        );
    }
    assert_eq!(s.state, IMAPState::NotAuthed);
    say(&mut s, &mut db, "a1 LOGIN alice pw\r\n");
    for verb in ["CLOSE", "UNSELECT", "EXPUNGE", "SEARCH ALL", "FETCH 1 UID"] {
        assert_eq!(
            say(&mut s, &mut db, &format!("t {}\r\n", verb)),
            vec!["t BAD bad state\r\n"],
            "{}",
            verb
        );
    }
    assert_eq!(
        say(&mut s, &mut db, "t UID\r\n"),
        vec!["t BAD missing arguments\r\n"]
    );
    assert_eq!(
        say(&mut s, &mut db, "t UID SELECT INBOX\r\n"),
        vec!["t BAD invalid command\r\n"]
    );
    assert_eq!(
        say(&mut s, &mut db, "t NAMESPACE\r\n"),
        vec![
            "* NAMESPACE ((\"\" \"/\")) NIL NIL\r\n",
            "t OK NAMESPACE completed\r\n"
        ]
    );
    assert_eq!(
        say(&mut s, &mut db, "t IDLE now\r\n"),
        vec!["t OK IDLE terminated\r\n"]
    );
}

#[test]
fn mailboxes_are_made_listed_renamed_and_deleted() {
    let (mut s, mut db) = logged_in();
    assert_eq!(
        say(&mut s, &mut db, "m1 LIST \"\" \"*\"\r\n"),
        vec!["* LIST () \"/\" INBOX\r\n", "m1 OK LIST completed\r\n"]
    );
    assert_eq!(
        say(&mut s, &mut db, "m2 CREATE \"My Box\"\r\n"),
        vec!["m2 OK CREATE completed\r\n"]
    );
    assert_eq!(
        say(&mut s, &mut db, "m3 CREATE \"My Box\"\r\n"),
        vec!["m3 NO CREATE failed: name already in use\r\n"]
    );
    assert_eq!(
        say(&mut s, &mut db, "m4 CREATE\r\n"),
        vec!["m4 BAD missing arguments\r\n"]
    );
    assert_eq!(
        say(&mut s, &mut db, "m5 LIST \"\" \"*\"\r\n"),
        vec![
            "* LIST () \"/\" INBOX\r\n",
            "* LIST () \"/\" My Box\r\n",
            "m5 OK LIST completed\r\n"
        ]
    );
    assert_eq!(
        say(&mut s, &mut db, "m6 RENAME \"My Box\" Work\r\n"),
        vec!["m6 OK RENAME completed\r\n"]
    );
    assert_eq!(
        say(&mut s, &mut db, "m7 RENAME Work INBOX\r\n"),
        vec!["m7 NO RENAME failed: name already in use\r\n"]
    );
    assert_eq!(
        say(&mut s, &mut db, "m8 RENAME Gone Work\r\n"),
        vec!["m8 NO RENAME failed: no such mailbox\r\n"]
    );
    assert_eq!(
        say(&mut s, &mut db, "m9 RENAME Work\r\n"),
        vec!["m9 BAD missing arguments\r\n"]
    );
    assert_eq!(
        say(&mut s, &mut db, "n1 SUBSCRIBE Work\r\n"),
        vec!["n1 OK SUBSCRIBE completed\r\n"]
    );
    assert_eq!(
        say(&mut s, &mut db, "n2 UNSUBSCRIBE Work\r\n"),
        vec!["n2 OK UNSUBSCRIBE completed\r\n"]
    );
    assert_eq!(
        say(&mut s, &mut db, "n3 SUBSCRIBE Gone\r\n"),
        vec!["n3 NO SUBSCRIBE failed: no such mailbox\r\n"]
    );
    append(&mut s, &mut db, "Work", "", "to be removed");
    append(&mut s, &mut db, "INBOX", "", "stays");
    assert_eq!(
        say(&mut s, &mut db, "n4 DELETE Work\r\n"),
        vec!["n4 OK DELETE completed\r\n"]
    );
    assert_eq!(
        say(&mut s, &mut db, "n5 DELETE Work\r\n"),
        vec!["n5 NO DELETE failed: no such mailbox\r\n"]
    );
    assert_eq!(
        say(&mut s, &mut db, "n6 LIST \"\" \"*\"\r\n"),
        vec!["* LIST () \"/\" INBOX\r\n", "n6 OK LIST completed\r\n"]
    );
    assert_eq!(db.mail_count(None), 1);
    assert_eq!(
        say(&mut s, &mut db, "n7 RENAME INBOX Old\r\n"),
        vec!["n7 OK RENAME completed\r\n"]
    );
    assert_eq!(
        say(&mut s, &mut db, "n8 LIST \"\" \"*\"\r\n"),
        vec![
            "* LIST () \"/\" Old\r\n",
            "* LIST () \"/\" INBOX\r\n",
            "n8 OK LIST completed\r\n"
        ]
    );
    assert_eq!(
        say(&mut s, &mut db, "n9 STATUS Old (MESSAGES UIDNEXT UNSEEN DELETED SIZE)\r\n"),
        vec![
            "* STATUS Old (MESSAGES 1 UIDNEXT 3 UNSEEN 1 DELETED 0)\r\n",
            "n9 OK STATUS completed\r\n"
        ]
    );
    assert_eq!(
        say(&mut s, &mut db, "o1 STATUS Gone (MESSAGES)\r\n"),
        vec!["o1 NO STATUS failed: no such mailbox\r\n"]
    );
    assert_eq!(
        say(&mut s, &mut db, "o2 STATUS\r\n"),
        vec!["o2 BAD missing arguments\r\n"]
    );
}

#[test]
fn close_expunges_unless_read_only() {
    let (mut s, mut db) = logged_in();
    append(&mut s, &mut db, "INBOX", "(\\Deleted) ", "a");
    append(&mut s, &mut db, "INBOX", "", "b");
    assert_eq!(
        say(&mut s, &mut db, "x1 EXAMINE INBOX\r\n").last().unwrap(),
        "x1 OK [READ-ONLY] EXAMINE completed\r\n"
    );
    assert_eq!(
        say(&mut s, &mut db, "x2 EXPUNGE\r\n"),
        vec!["x2 NO EXPUNGE failed: mailbox is read-only\r\n"]
    );
    assert_eq!(
        say(&mut s, &mut db, "x3 CLOSE\r\n"),
        vec!["x3 OK CLOSE completed\r\n"]
    );
    assert_eq!(s.state, IMAPState::Authed(1));
    assert_eq!(db.mail_count(Some(1)), 2);
    say(&mut s, &mut db, "x4 SELECT INBOX\r\n");
    assert_eq!(
        say(&mut s, &mut db, "x5 UNSELECT\r\n"),
        vec!["x5 OK UNSELECT completed\r\n"]
    );
    assert_eq!(db.mail_count(Some(1)), 2);
    say(&mut s, &mut db, "x6 SELECT \"INBOX\"\r\n");
    assert_eq!(
        say(&mut s, &mut db, "x7 CLOSE\r\n"),
        vec!["x7 OK CLOSE completed\r\n"]
    );
    assert_eq!(db.mail_count(Some(1)), 1);
    assert_eq!(
        say(&mut s, &mut db, "x8 SELECT Gone\r\n"),
        vec!["x8 NO SELECT failed: no such mailbox\r\n"]
    );
    assert_eq!(
        say(&mut s, &mut db, "x9 SELECT\r\n"),
        vec!["x9 BAD missing arguments\r\n"]
    );
    let late = Timestamp {
        unix_seconds: 5_000_000_000,
        offset_seconds: 0,
    };
    assert_eq!(
        lines(s.handle_imap(&mut db, "y1 SELECT INBOX\r\n", late).0),
        vec!["y1 BAD clock out of range\r\n"]
    );
}

#[test]
fn eof_logs_out() {
    let (mut s, _db) = logged_in();
    assert_eq!(s.on_eof(), SessionAction::Close);
    assert_eq!(s.state, IMAPState::Logout);
}

#[test]
fn search_takes_a_literal_after_a_prompt() {
    let (mut s, mut db) = logged_in();
    append(&mut s, &mut db, "INBOX", "", "Subject: hello world\r\n\r\none");
    append(&mut s, &mut db, "INBOX", "", "Subject: other\r\n\r\ntwo");
    append(&mut s, &mut db, "INBOX", "(\\Seen) ", "Subject: hello world again\r\n\r\nthree");
    say(&mut s, &mut db, "a2 SELECT INBOX\r\n");
    assert_eq!(
        say(&mut s, &mut db, "s1 SEARCH SUBJECT {11}\r\n"),
        vec!["+ Ready for literal data\r\n"]
    );
    assert!(matches!(s.waiting, Waiting::Continuation(_)));
    assert_eq!(
        say(&mut s, &mut db, "hello world\r\n"),
        vec!["* ESEARCH (TAG \"s1\") ALL 1,3\r\n", "s1 OK SEARCH completed\r\n"]
    );
    assert_eq!(s.waiting, Waiting::Command);
    assert_eq!(
        say(&mut s, &mut db, "s2 SEARCH SUBJECT {11}\r\n"),
        vec!["+ Ready for literal data\r\n"]
    );
    assert_eq!(
        say(&mut s, &mut db, "hello world UNSEEN\r\n"),
        vec!["* ESEARCH (TAG \"s2\") ALL 1\r\n", "s2 OK SEARCH completed\r\n"]
    );
    assert_eq!(
        say(&mut s, &mut db, "s3 UID SEARCH RETURN (COUNT) SUBJECT {11+}\r\nhello world\r\n"),
        vec!["* ESEARCH (TAG \"s3\") COUNT 2\r\n", "s3 OK SEARCH completed\r\n"]
    );
    assert_eq!(say(&mut s, &mut db, "s4 UID SEARCH SUBJECT {5+}\r\n"), Vec::<String>::new());
    assert_eq!(
        say(&mut s, &mut db, "other\r\n"),
        vec!["* ESEARCH (TAG \"s4\") ALL 2\r\n", "s4 OK SEARCH completed\r\n"]
    );
    assert_eq!(
        say(&mut s, &mut db, "s5 SEARCH SUBJECT {5}\r\n"),
        vec!["+ Ready for literal data\r\n"]
    );
    assert_eq!(
        say(&mut s, &mut db, "hello TEXT {3}\r\n"),
        vec!["s5 BAD second continuation\r\n"]
    );
    assert_eq!(s.waiting, Waiting::Command);
}

#[test]
fn search_with_a_needle_of_huge_counts_finds_nothing() {
    let (mut s, mut db) = logged_in();
    append(&mut s, &mut db, "INBOX", "", "Subject: aa\r\n\r\naa");
    say(&mut s, &mut db, "a2 SELECT INBOX\r\n");
    assert_eq!(
        say(&mut s, &mut db, "h1 SEARCH RETURN (COUNT) BODY (aa){9999999999999999999}\r\n"),
        vec!["* ESEARCH (TAG \"h1\") COUNT 0\r\n", "h1 OK SEARCH completed\r\n"]
    );
    assert_eq!(
        say(&mut s, &mut db, "h2 SEARCH RETURN (COUNT) SUBJECT (a{99999}){99999}\r\n"),
        vec!["* ESEARCH (TAG \"h2\") COUNT 0\r\n", "h2 OK SEARCH completed\r\n"]
    );
    append(&mut s, &mut db, "INBOX", "", "Subject: order 1234567890123\r\n\r\nx");
    assert_eq!(
        say(&mut s, &mut db, "h4 SEARCH SUBJECT \"order 1234567890123\"\r\n"),
        vec!["* ESEARCH (TAG \"h4\") ALL 2\r\n", "h4 OK SEARCH completed\r\n"]
    );
    assert_eq!(
        say(&mut s, &mut db, "h3 SEARCH RETURN (COUNT) SUBJECT a{2}\r\n"),
        vec!["* ESEARCH (TAG \"h3\") COUNT 1\r\n", "h3 OK SEARCH completed\r\n"]
    );
}

#[test]
fn fetch_shows_header_fields_and_partial_ranges() {
    let (mut s, mut db) = logged_in();
    let text = "Subject: hi\r\nFrom: a@x.org\r\nX-Long: one\r\n two\r\nTo: b@y.org\r\n\r\nHello b\u{f6}dy\r\nTo: not a header\r\n";
    append(&mut s, &mut db, "INBOX", "", text);
    say(&mut s, &mut db, "a2 SELECT INBOX\r\n");
    assert_eq!(
        say(&mut s, &mut db, "f1 FETCH 1 BODY[HEADER.FIELDS (subject TO)]\r\n"),
        vec![
            "* 1 FETCH (BODY[HEADER.FIELDS (subject TO)] {28}\r\nSubject: hi\r\nTo: b@y.org\r\n\r\n)\r\n",
            "f1 OK FETCH completed\r\n"
        ]
    );
    assert_eq!(
        say(&mut s, &mut db, "f2 FETCH 1 BODY.PEEK[HEADER.FIELDS.NOT (subject to)]\r\n"),
        vec![
            "* 1 FETCH (BODY[HEADER.FIELDS.NOT (subject to)] {36}\r\nFrom: a@x.org\r\nX-Long: one\r\n two\r\n\r\n)\r\n",
            "f2 OK FETCH completed\r\n"
        ]
    );
    assert_eq!(
        say(&mut s, &mut db, "f3 FETCH 1 BODY[HEADER.FIELDS (x-long nothing)]\r\n"),
        vec![
            "* 1 FETCH (BODY[HEADER.FIELDS (x-long nothing)] {21}\r\nX-Long: one\r\n two\r\n\r\n)\r\n",
            "f3 OK FETCH completed\r\n"
        ]
    );
    assert_eq!(
        say(&mut s, &mut db, "f4 FETCH 1 BODY[]<0.5>\r\n"),
        vec!["* 1 FETCH (BODY[]<0> {5}\r\nSubje)\r\n", "f4 OK FETCH completed\r\n"]
    );
    // the text is `Hello b`, a character of two octets, and `dy`
    assert_eq!(
        say(&mut s, &mut db, "f5 FETCH 1 BODY[TEXT]<6.3>\r\n"),
        vec!["* 1 FETCH (BODY[TEXT]<6> {3}\r\nb\u{f6})\r\n", "f5 OK FETCH completed\r\n"]
    );
    assert_eq!(
        say(&mut s, &mut db, "f6 FETCH 1 BODY[TEXT]<6.2>\r\n"),
        vec!["* 1 FETCH (BODY[TEXT]<6> {1}\r\nb)\r\n", "f6 OK FETCH completed\r\n"]
    );
    assert_eq!(
        say(&mut s, &mut db, "f7 FETCH 1 BODY[HEADER]<1000.5>\r\n"),
        vec!["* 1 FETCH (BODY[HEADER]<1000> {0}\r\n)\r\n", "f7 OK FETCH completed\r\n"]
    );
    assert_eq!(
        say(&mut s, &mut db, "f8 FETCH 1 BODY[TEXT]<8.1000>\r\n"),
        vec![
            "* 1 FETCH (BODY[TEXT]<8> {24}\r\n\u{f6}dy\r\nTo: not a header\r\n)\r\n",
            "f8 OK FETCH completed\r\n"
        ]
    );
}

#[test]
fn fetch_shows_parts_of_a_message() {
    let (mut s, mut db) = logged_in();
    let text = [
        "Subject: parts\r\n",
        "Content-Type: multipart/mixed; boundary=b\r\n",
        "\r\n",
        "--b\r\n",
        "Content-Type: text/plain\r\n",
        "\r\n",
        "first\r\n",
        "--b\r\n",
        "Content-Type: application/octet-stream\r\n",
        "Content-Transfer-Encoding: base64\r\n",
        "\r\n",
        "aGVsbG8=\r\n",
        "--b--\r\n",
    ]
    .concat();
    append(&mut s, &mut db, "INBOX", "", &text);
    say(&mut s, &mut db, "a2 SELECT INBOX\r\n");
    let got: Vec<Vec<String>> = [
        "FETCH 1 BODY[1]",
        "FETCH 1 BODY[2]",
        "FETCH 1 BODY[2.MIME]",
        "FETCH 1 BODY.PEEK[1]<1.3>",
        "FETCH 1 BINARY[2]",
        "FETCH 1 BINARY.PEEK[2]<1.3>",
        "FETCH 1 BINARY.SIZE[2]",
        "FETCH 1 (BINARY.SIZE[1] BODY[3] BODY[1.1] BODY[1.2] BODY[0])",
    ]
    .iter()
    .map(|c| say(&mut s, &mut db, &format!("p {}\r\n", c)))
    .collect();
    let done = "p OK FETCH completed\r\n";
    assert_eq!(
        got,
        vec![
            vec!["* 1 FETCH (BODY[1] {7}\r\nfirst\r\n)\r\n", done],
            vec!["* 1 FETCH (BODY[2] {10}\r\naGVsbG8=\r\n)\r\n", done],
            vec![
                "* 1 FETCH (BODY[2.MIME] {77}\r\nContent-Type: application/octet-stream\r\nContent-Transfer-Encoding: base64\r\n\r\n)\r\n",
                done
            ],
            vec!["* 1 FETCH (BODY[1]<1> {3}\r\nirs)\r\n", done],
            vec!["* 1 FETCH (BINARY[2] {5}\r\nhello)\r\n", done],
            vec!["* 1 FETCH (BINARY[2]<1> {3}\r\nell)\r\n", done],
            vec!["* 1 FETCH (BINARY.SIZE[2] 5)\r\n", done],
            // there is no third part, and no part below the first but itself
            vec!["* 1 FETCH (BINARY.SIZE[1] 7 BODY[1.1] {7}\r\nfirst\r\n)\r\n", done],
        ]
    );
}
