use kakimail::database::{bitmap_ok, mail_ok, mailboxes_ok, users_ok, DBClient};
use kakimail::dates::Timestamp;
use kakimail::imap_op::search::SequenceSet;
use kakimail::smtp_common::Mail;
use kakimail::smtp_incoming::{copy_mail, find_local_user, store_mail};
use kakimail::store::{MailRow, MailboxRow, User};

const NOW: Timestamp = Timestamp {
    unix_seconds: 1_700_000_000,
    offset_seconds: 0,
};

fn user(id: i32, name: &str) -> User {
    User {
        id,
        name: name.to_string(),
        password: "hash".to_string(),
    }
}

fn mailbox(id: i32, name: &str, user_id: i32) -> MailboxRow {
    MailboxRow {
        id,
        name: name.to_string(),
        user_id,
        flags: 0,
    }
}

fn row(uid: i32, seqnum: i32, mailbox_id: i32) -> MailRow {
    MailRow {
        uid,
        seqnum,
        date: NOW,
        sender: String::new(),
        recipients: String::new(),
        data: "d".to_string(),
        mailbox_id,
        flags: "00100".to_string(),
    }
}

#[test]
fn mail_goes_to_local_inboxes() {
    let mut db = DBClient::new();
    db.add_user("ann", "h").unwrap();
    db.add_user("bob", "h").unwrap();
    let mail = Mail {
        from: "<x@far.org>".to_string(),
        to: vec![
            "<ann@kaki.foo>".to_string(),
            "<ann@other.org>".to_string(),
            "<carl@kaki.foo>".to_string(),
            "<bob@kaki.foo>".to_string(),
            "<>".to_string(),
            "x".to_string(),
            "<noat>".to_string(),
            "<ann@kaki.foo>".to_string(),
        ],
        data: "Subject: hi\r\n\r\nhello\r\n".to_string(),
    };
    assert_eq!(find_local_user("<ann@kaki.foo>", "kaki.foo", &db), Some(1));
    assert_eq!(find_local_user("<bob@kaki.foo@x>", "kaki.foo", &db), Some(2));
    assert_eq!(find_local_user("<ann@KAKI.foo>", "kaki.foo", &db), None);
    assert_eq!(find_local_user("ann@kaki.foo", "kaki.foo", &db), None);
    assert_eq!(find_local_user("", "kaki.foo", &db), None);
    assert_eq!(copy_mail(&mail), mail);
    assert_eq!(store_mail(&mut db, &mail, "kaki.foo", NOW), 3);
    let ann = db.lookup_mailbox_id(1, "INBOX").unwrap();
    let bob = db.lookup_mailbox_id(2, "INBOX").unwrap();
    assert_eq!((ann, bob), (1, 2));
    let all = SequenceSet::from_str("1:*").unwrap();
    assert_eq!(
        db.fetch(&all, false, ann)
            .iter()
            .map(|r| (r.uid, r.seqnum, r.sender.as_str(), r.flags.as_str()))
            .collect::<Vec<_>>(),
        vec![(1, 1, "<x@far.org>", "00000"), (3, 2, "<x@far.org>", "00000")]
    );
    assert_eq!(
        db.fetch(&all, false, bob)
            .iter()
            .map(|r| (r.uid, r.seqnum, r.data.as_str()))
            .collect::<Vec<_>>(),
        vec![(2, 1, "Subject: hi\r\n\r\nhello\r\n")]
    );
    assert_eq!(db.take_changes().len(), 3);
}

#[test]
fn a_store_is_made_of_rows_that_fit() {
    let users = vec![user(1, "ann"), user(4, "bob")];
    let mailboxes = vec![mailbox(1, "INBOX", 1), mailbox(2, "INBOX", 4), mailbox(5, "Work", 1)];
    let mail = vec![row(2, 1, 1), row(3, 1, 5), row(7, 2, 1), row(8, 1, 2), row(9, 3, 1)];
    let db = DBClient::from_rows(users.clone(), mailboxes.clone(), mail.clone()).unwrap();
    assert_eq!(db.users(), &users);
    assert_eq!(db.mailboxes(), &mailboxes);
    assert_eq!(db.mail(), &mail);
    assert_eq!(db.next_uid(), 10);
    assert_eq!(db.next_seqnum(1), 4);
    assert_eq!(db.get_user_id("bob"), Some(4));
    let mut db = db;
    assert_eq!(db.expunge(1, None), vec![1, 1, 1]);
    assert_eq!(db.mail_count(None), 2);
    assert!(DBClient::from_rows(vec![], vec![], vec![]).is_some());
}

#[test]
fn rows_that_do_not_fit_are_refused() {
    let users = vec![user(1, "ann"), user(4, "bob")];
    let mailboxes = vec![mailbox(1, "INBOX", 1), mailbox(2, "INBOX", 4)];
    let ok = |m: Vec<MailRow>| DBClient::from_rows(users.clone(), mailboxes.clone(), m).is_some();
    assert!(ok(vec![row(1, 1, 1), row(2, 2, 1)]));
    assert!(!ok(vec![row(1, 1, 1), row(2, 1, 1)]));
    assert!(!ok(vec![row(1, 2, 1)]));
    assert!(!ok(vec![row(1, 0, 1)]));
    assert!(!ok(vec![row(0, 1, 1)]));
    assert!(!ok(vec![row(2, 1, 1), row(2, 2, 1)]));
    assert!(!ok(vec![row(3, 1, 1), row(2, 2, 1)]));
    assert!(!ok(vec![row(1, 1, 3)]));
    assert!(!ok(vec![row(1, -1, 1)]));
    let mut bad_flags = row(1, 1, 1);
    bad_flags.flags = "0010".to_string();
    assert!(!ok(vec![bad_flags]));
    assert!(users_ok(&users));
    assert!(!users_ok(&vec![user(1, "ann"), user(2, "ann")]));
    assert!(!users_ok(&vec![user(2, "ann"), user(1, "bob")]));
    assert!(!users_ok(&vec![user(1, "ann"), user(1, "bob")]));
    assert!(!users_ok(&vec![user(0, "ann")]));
    assert!(mailboxes_ok(&mailboxes));
    assert!(!mailboxes_ok(&vec![mailbox(1, "A", 1), mailbox(2, "A", 1)]));
    assert!(mailboxes_ok(&vec![mailbox(1, "A", 1), mailbox(2, "A", 2)]));
    assert!(!mailboxes_ok(&vec![mailbox(2, "A", 1), mailbox(2, "B", 1)]));
    assert!(!mailboxes_ok(&vec![mailbox(-1, "A", 1)]));
    assert!(mail_ok(&vec![row(5, 1, 9), row(6, 1, 8), row(7, 2, 9)]));
    assert!(bitmap_ok("01010"));
    assert!(!bitmap_ok("0101"));
    assert!(!bitmap_ok("0101_"));
    assert!(!bitmap_ok("010100"));
    assert!(!DBClient::from_rows(
        vec![user(1, "ann"), user(2, "ann")],
        vec![],
        vec![]
    )
    .is_some());
    assert!(!DBClient::from_rows(
        vec![],
        vec![mailbox(1, "A", 1), mailbox(2, "A", 1)],
        vec![]
    )
    .is_some());
}
