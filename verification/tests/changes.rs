use kakimail::database::{change_bitmap, DBClient, FlagChange, IMAPFlags, StoreError};
use kakimail::dates::Timestamp;
use kakimail::imap::IMAP;
use kakimail::imap_op::search::SequenceSet;
use kakimail::smtp_common::Mail;

const NOW: Timestamp = Timestamp {
    unix_seconds: 1_700_000_000,
    offset_seconds: 0,
};

fn mail(data: &str) -> Mail {
    Mail {
        from: "a@x".to_string(),
        to: vec!["b@y".to_string()],
        data: data.to_string(),
    }
}

fn store() -> (DBClient, i32, i32) {
    let mut db = DBClient::new();
    let hash = bcrypt::hash("pw", 4).unwrap();
    let user = db.add_user("alice", &hash).unwrap();
    let inbox = db.get_mailbox_id(user, "INBOX").unwrap();
    db.create_mailbox(user, "Other").unwrap();
    let other = db.get_mailbox_id(user, "Other").unwrap();
    (db, inbox, other)
}

fn set(s: &str) -> SequenceSet {
    SequenceSet::from_str(s).unwrap()
}

fn shape(db: &DBClient) -> Vec<(i32, i32, i32, String, String)> {
    db.mail()
        .iter()
        .map(|r| (r.uid, r.mailbox_id, r.seqnum, r.flags.clone(), r.data.clone()))
        .collect()
}

fn row(uid: i32, mailbox: i32, seqnum: i32, flags: &str, data: &str) -> (i32, i32, i32, String, String) {
    (uid, mailbox, seqnum, flags.to_string(), data.to_string())
}

fn say(s: &mut IMAP, db: &mut DBClient, line: &str) -> Vec<String> {
    s.handle_imap(db, line, NOW)
        .0
        .into_iter()
        .map(|l| String::from_utf8(l).unwrap())
        .collect()
}

fn selected(db: &mut DBClient, verb: &str) -> IMAP {
    let mut s = IMAP::new(false);
    assert_eq!(
        say(&mut s, db, "a1 LOGIN \"alice\" \"pw\"\r\n"),
        vec!["a1 OK LOGIN COMPLETED\r\n"]
    );
    let got = say(&mut s, db, &format!("a2 {} INBOX\r\n", verb));
    assert!(got.last().unwrap().starts_with("a2 OK"), "{:?}", got);
    s
}

#[test]
fn bitmaps_change_place_by_place() {
    assert_eq!(change_bitmap("01100", "00101", FlagChange::Replace), "00101");
    assert_eq!(change_bitmap("01100", "00101", FlagChange::Add), "01101");
    assert_eq!(change_bitmap("01100", "00101", FlagChange::Remove), "01000");
    assert_eq!(change_bitmap("00000", "00000", FlagChange::Add), "00000");
    assert_eq!(change_bitmap("11111", "11111", FlagChange::Remove), "00000");
}

#[test]
fn flags_are_stored_on_the_picked_messages() {
    let (mut db, inbox, other) = store();
    db.replicate(mail("1"), other, None, NOW, &vec![IMAPFlags::Seen]).unwrap();
    db.replicate(mail("2"), inbox, None, NOW, &vec![IMAPFlags::Seen]).unwrap();
    db.replicate(mail("3"), inbox, None, NOW, &vec![]).unwrap();
    db.replicate(mail("4"), inbox, None, NOW, &vec![IMAPFlags::Draft]).unwrap();
    db.take_changes();

    let changed = db.store_flags(
        inbox,
        &set("1,3"),
        false,
        FlagChange::Add,
        &vec![IMAPFlags::Deleted, IMAPFlags::Answered],
    );
    assert_eq!(
        changed.iter().map(|r| (r.uid, r.flags.clone())).collect::<Vec<_>>(),
        vec![(2, "01101".to_string()), (4, "10101".to_string())]
    );
    assert_eq!(
        shape(&db),
        vec![
            row(1, other, 1, "01000", "1"),
            row(2, inbox, 1, "01101", "2"),
            row(3, inbox, 2, "00000", "3"),
            row(4, inbox, 3, "10101", "4"),
        ]
    );

    let changed = db.store_flags(inbox, &set("3:4"), true, FlagChange::Replace, &vec![IMAPFlags::Flagged]);
    assert_eq!(changed.len(), 2);
    assert_eq!(
        shape(&db),
        vec![
            row(1, other, 1, "01000", "1"),
            row(2, inbox, 1, "01101", "2"),
            row(3, inbox, 2, "00010", "3"),
            row(4, inbox, 3, "00010", "4"),
        ]
    );

    let changed = db.store_flags(
        inbox,
        &set("1:*"),
        false,
        FlagChange::Remove,
        &vec![IMAPFlags::Flagged, IMAPFlags::Seen],
    );
    assert_eq!(changed.len(), 3);
    assert_eq!(
        shape(&db),
        vec![
            row(1, other, 1, "01000", "1"),
            row(2, inbox, 1, "00101", "2"),
            row(3, inbox, 2, "00000", "3"),
            row(4, inbox, 3, "00000", "4"),
        ]
    );
    assert!(db.take_changes().is_empty());

    assert!(db.store_flags(77, &set("1:*"), false, FlagChange::Add, &vec![IMAPFlags::Seen]).is_empty());
    assert!(db.store_flags(inbox, &set("9"), false, FlagChange::Add, &vec![IMAPFlags::Seen]).is_empty());
    assert_eq!(shape(&db).len(), 4);
}

#[test]
fn messages_are_copied_behind_the_others() {
    let (mut db, inbox, other) = store();
    db.replicate(mail("1"), other, None, NOW, &vec![]).unwrap();
    db.replicate(mail("2"), inbox, None, NOW, &vec![IMAPFlags::Seen]).unwrap();
    db.replicate(mail("3"), inbox, None, NOW, &vec![]).unwrap();
    db.replicate(mail("4"), inbox, None, NOW, &vec![IMAPFlags::Deleted]).unwrap();
    db.take_changes();

    assert_eq!(db.copy_messages(inbox, &set("1,3"), false, other), Ok(2));
    assert_eq!(
        shape(&db),
        vec![
            row(1, other, 1, "00000", "1"),
            row(2, inbox, 1, "01000", "2"),
            row(3, inbox, 2, "00000", "3"),
            row(4, inbox, 3, "00100", "4"),
            row(5, other, 2, "01000", "2"),
            row(6, other, 3, "00100", "4"),
        ]
    );
    assert_eq!(db.take_changes(), vec!["* 1 EXISTS\r\n", "* 1 EXISTS\r\n"]);
    let dates: Vec<_> = db.mail().iter().map(|r| r.date).collect();
    assert_eq!(dates[4], dates[1]);
    assert_eq!(dates[5], dates[3]);

    assert_eq!(db.copy_messages(inbox, &set("3"), true, inbox), Ok(1));
    assert_eq!(shape(&db)[6], row(7, inbox, 4, "00000", "3"));
    assert_eq!(db.copy_messages(inbox, &set("50"), false, other), Ok(0));
    assert_eq!(
        db.copy_messages(inbox, &set("1"), false, 77),
        Err(StoreError::NoSuchMailbox)
    );
    assert_eq!(shape(&db).len(), 7);
}

#[test]
fn messages_are_moved_and_the_rest_renumbered() {
    let (mut db, inbox, other) = store();
    db.replicate(mail("1"), other, None, NOW, &vec![]).unwrap();
    db.replicate(mail("2"), inbox, None, NOW, &vec![IMAPFlags::Seen]).unwrap();
    db.replicate(mail("3"), inbox, None, NOW, &vec![]).unwrap();
    db.replicate(mail("4"), inbox, None, NOW, &vec![IMAPFlags::Deleted]).unwrap();
    db.replicate(mail("5"), inbox, None, NOW, &vec![]).unwrap();
    db.take_changes();

    assert_eq!(db.move_messages(inbox, &set("1,3"), false, other), Ok(vec![1, 2]));
    assert_eq!(
        shape(&db),
        vec![
            row(1, other, 1, "00000", "1"),
            row(3, inbox, 1, "00000", "3"),
            row(5, inbox, 2, "00000", "5"),
            row(6, other, 2, "01000", "2"),
            row(7, other, 3, "00100", "4"),
        ]
    );
    assert_eq!(
        db.take_changes(),
        vec![
            "* 1 EXISTS\r\n",
            "* 1 EXISTS\r\n",
            "* 1 EXPUNGE\r\n",
            "* 2 EXPUNGE\r\n"
        ]
    );

    assert_eq!(db.move_messages(inbox, &set("5"), true, inbox), Ok(vec![2]));
    assert_eq!(
        shape(&db),
        vec![
            row(1, other, 1, "00000", "1"),
            row(3, inbox, 1, "00000", "3"),
            row(6, other, 2, "01000", "2"),
            row(7, other, 3, "00100", "4"),
            row(8, inbox, 2, "00000", "5"),
        ]
    );
    assert_eq!(
        db.move_messages(inbox, &set("1"), false, 77),
        Err(StoreError::NoSuchMailbox)
    );
    assert_eq!(db.move_messages(inbox, &set("9"), false, other), Ok(vec![]));
    assert_eq!(shape(&db).len(), 5);
}

#[test]
fn store_command() {
    let (mut db, inbox, _) = store();
    db.replicate(mail("1"), inbox, None, NOW, &vec![]).unwrap();
    db.replicate(mail("2"), inbox, None, NOW, &vec![IMAPFlags::Seen]).unwrap();
    db.replicate(mail("3"), inbox, None, NOW, &vec![]).unwrap();
    let mut s = selected(&mut db, "SELECT");

    assert_eq!(
        say(&mut s, &mut db, "b1 STORE 2:3 +FLAGS (\\Deleted \\Flagged)\r\n"),
        vec![
            "* 2 FETCH (FLAGS (\\Seen \\Deleted \\Flagged))\r\n",
            "* 3 FETCH (FLAGS (\\Deleted \\Flagged))\r\n",
            "b1 OK STORE completed\r\n"
        ]
    );
    assert_eq!(
        say(&mut s, &mut db, "b2 store 2 -flags \\Deleted\r\n"),
        vec![
            "* 2 FETCH (FLAGS (\\Seen \\Flagged))\r\n",
            "b2 OK STORE completed\r\n"
        ]
    );
    assert_eq!(
        say(&mut s, &mut db, "b3 STORE 1 FLAGS.SILENT (\\Answered)\r\n"),
        vec!["b3 OK STORE completed\r\n"]
    );
    assert_eq!(
        say(&mut s, &mut db, "b4 UID STORE 3 FLAGS (\\Draft)\r\n"),
        vec![
            "* 3 FETCH (UID 3 FLAGS (\\Draft))\r\n",
            "b4 OK STORE completed\r\n"
        ]
    );
    assert_eq!(
        say(&mut s, &mut db, "b5 FETCH 1:* FLAGS\r\n"),
        vec![
            "* 1 FETCH (FLAGS (\\Answered))\r\n",
            "* 2 FETCH (FLAGS (\\Seen \\Flagged))\r\n",
            "* 3 FETCH (FLAGS (\\Draft))\r\n",
            "b5 OK FETCH completed\r\n"
        ]
    );
    assert_eq!(
        say(&mut s, &mut db, "b6 STORE 1 FLAGS ()\r\n"),
        vec!["* 1 FETCH (FLAGS ())\r\n", "b6 OK STORE completed\r\n"]
    );
    assert_eq!(
        say(&mut s, &mut db, "b7 STORE 1\r\n"),
        vec!["b7 BAD missing arguments\r\n"]
    );
    assert_eq!(
        say(&mut s, &mut db, "b8 STORE 1 COLOURS (\\Seen)\r\n"),
        vec!["b8 BAD malformed arguments\r\n"]
    );
    assert_eq!(
        say(&mut s, &mut db, "b9 STORE x +FLAGS (\\Seen)\r\n"),
        vec!["b9 BAD malformed arguments\r\n"]
    );
}

#[test]
fn store_and_move_are_refused_read_only() {
    let (mut db, inbox, _) = store();
    db.replicate(mail("1"), inbox, None, NOW, &vec![]).unwrap();
    let mut s = selected(&mut db, "EXAMINE");
    assert_eq!(
        say(&mut s, &mut db, "b1 STORE 1 +FLAGS (\\Deleted)\r\n"),
        vec!["b1 NO STORE failed: mailbox is read-only\r\n"]
    );
    assert_eq!(
        say(&mut s, &mut db, "b2 MOVE 1 Other\r\n"),
        vec!["b2 NO MOVE failed: mailbox is read-only\r\n"]
    );
    assert_eq!(
        say(&mut s, &mut db, "b3 COPY 1 Other\r\n"),
        vec!["b3 OK COPY completed\r\n"]
    );
    assert_eq!(shape(&db).len(), 2);
    assert_eq!(shape(&db)[0].3, "00000");
}

#[test]
fn copy_and_move_commands() {
    let (mut db, inbox, other) = store();
    db.replicate(mail("1"), inbox, None, NOW, &vec![]).unwrap();
    db.replicate(mail("2"), inbox, None, NOW, &vec![IMAPFlags::Seen]).unwrap();
    db.replicate(mail("3"), inbox, None, NOW, &vec![]).unwrap();
    let mut s = selected(&mut db, "SELECT");

    assert_eq!(
        say(&mut s, &mut db, "c1 COPY 2 Other\r\n"),
        vec!["c1 OK COPY completed\r\n"]
    );
    assert_eq!(shape(&db)[3], row(4, other, 1, "01000", "2"));
    assert_eq!(
        say(&mut s, &mut db, "c2 UID COPY 3 \"Other\"\r\n"),
        vec!["c2 OK COPY completed\r\n"]
    );
    assert_eq!(shape(&db)[4], row(5, other, 2, "00000", "3"));
    let no_such = say(&mut s, &mut db, "c3 COPY 1 Nowhere\r\n");
    assert_eq!(no_such.len(), 1);
    assert!(no_such[0].starts_with("c3 NO COPY failed: "), "{:?}", no_such);
    assert_eq!(
        say(&mut s, &mut db, "c4 COPY 1\r\n"),
        vec!["c4 BAD missing arguments\r\n"]
    );
    assert_eq!(
        say(&mut s, &mut db, "c5 COPY x Other\r\n"),
        vec!["c5 BAD malformed arguments\r\n"]
    );

    assert_eq!(
        say(&mut s, &mut db, "m1 MOVE 1:2 Other\r\n"),
        vec![
            "* 1 EXPUNGE\r\n",
            "* 1 EXPUNGE\r\n",
            "m1 OK MOVE completed\r\n"
        ]
    );
    assert_eq!(
        shape(&db),
        vec![
            row(3, inbox, 1, "00000", "3"),
            row(4, other, 1, "01000", "2"),
            row(5, other, 2, "00000", "3"),
            row(6, other, 3, "00000", "1"),
            row(7, other, 4, "01000", "2"),
        ]
    );
    assert_eq!(
        say(&mut s, &mut db, "m2 UID MOVE 3 Other\r\n"),
        vec!["* 1 EXPUNGE\r\n", "m2 OK MOVE completed\r\n"]
    );
    assert_eq!(db.mail_count(Some(inbox)), 0);
    assert_eq!(db.mail_count(Some(other)), 5);
    let no_such = say(&mut s, &mut db, "m3 MOVE 1 Nowhere\r\n");
    assert!(no_such[0].starts_with("m3 NO MOVE failed: "), "{:?}", no_such);
    assert_eq!(
        say(&mut s, &mut db, "m4 MOVE 1\r\n"),
        vec!["m4 BAD missing arguments\r\n"]
    );
}

#[test]
fn copy_and_store_need_a_selected_mailbox() {
    let (mut db, _, _) = store();
    let mut s = IMAP::new(false);
    say(&mut s, &mut db, "a1 LOGIN \"alice\" \"pw\"\r\n");
    for verb in ["STORE 1 +FLAGS (\\Seen)", "COPY 1 Other", "MOVE 1 Other", "UID COPY 1 Other"] {
        let got = say(&mut s, &mut db, &format!("x {}\r\n", verb));
        assert_eq!(got.len(), 1);
        assert!(got[0].starts_with("x BAD "), "{:?}", got);
    }
}
