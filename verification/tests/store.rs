use kakimail::database::{DBClient, IMAPFlags, StoreError};
use kakimail::dates::Timestamp;
use kakimail::imap_op::search::SequenceSet;
use kakimail::parsing::imap::search;
use kakimail::smtp_common::Mail;

const NOW: Timestamp = Timestamp {
    unix_seconds: 1_700_000_000,
    offset_seconds: 0,
};

fn mail(data: &str) -> Mail {
    Mail {
        from: "a@x".to_string(),
        to: vec!["b@y".to_string(), "c@z".to_string()],
        data: data.to_string(),
    }
}

fn store() -> (DBClient, i32, i32) {
    let mut db = DBClient::new();
    let hash = bcrypt::hash("pw", 4).unwrap();
    let user = db.add_user("alice", &hash).unwrap();
    let inbox = db.get_mailbox_id(user, "INBOX").unwrap();
    db.create_mailbox(user, "Other").unwrap();
    let other = db.get_mailbox_id(user, "Other").unwrap();
    (db, inbox, other)
}

fn all() -> SequenceSet {
    SequenceSet::from_str("1:*").unwrap()
}

#[test]
fn users() {
    let mut db = DBClient::new();
    let hash = bcrypt::hash("pw", 4).unwrap();
    assert_eq!(db.add_user("alice", &hash), Ok(1));
    assert_eq!(db.add_user("bob", &hash), Ok(2));
    assert_eq!(db.add_user("alice", &hash), Err(StoreError::Conflict));
    assert_eq!(db.get_user_id("alice"), Some(1));
    assert_eq!(db.get_user_id("bob"), Some(2));
    assert_eq!(db.get_user_id("carol"), None);
    assert_eq!(db.check_user("alice", "pw"), Some(1));
    assert_eq!(db.check_user("bob", "pw"), Some(2));
    assert_eq!(db.check_user("alice", "PW"), None);
    assert_eq!(db.check_user("carol", "pw"), None);
    assert_eq!(db.add_user("dave", "no hash"), Ok(3));
    assert_eq!(db.check_user("dave", "no hash"), None);
    assert_eq!(kakimail::database::grant(7, Some(true)), Some(7));
    assert_eq!(kakimail::database::grant(7, Some(false)), None);
    assert_eq!(kakimail::database::grant(7, None), None);
}

#[test]
fn uids_rise_and_seqnums_count_per_mailbox() {
    let (mut db, inbox, other) = store();
    assert_eq!(db.next_uid(), 1);
    assert_eq!(db.next_seqnum(inbox), 1);
    assert_eq!(db.replicate(mail("m1"), inbox, None, NOW, &vec![]), Ok(1));
    assert_eq!(db.replicate(mail("m2"), other, None, NOW, &vec![]), Ok(2));
    assert_eq!(db.replicate(mail("m3"), inbox, None, NOW, &vec![]), Ok(3));
    assert_eq!(db.next_uid(), 4);
    assert_eq!(db.next_seqnum(inbox), 3);
    assert_eq!(db.next_seqnum(other), 2);
    assert_eq!(db.next_seqnum(99), 1);
    assert_eq!(db.mail_count(None), 3);
    assert_eq!(db.mail_count(Some(inbox)), 2);
    assert_eq!(db.mail_count(Some(other)), 1);
    assert_eq!(db.mail_count(Some(99)), 0);
    let rows = db.fetch(&all(), false, inbox);
    assert_eq!(
        rows.iter().map(|r| (r.uid, r.seqnum)).collect::<Vec<_>>(),
        vec![(1, 1), (3, 2)]
    );
    assert_eq!(rows[0].sender, "a@x");
    assert_eq!(rows[0].recipients, "b@y, c@z");
    assert_eq!(rows[0].data, "m1");
    assert_eq!(rows[0].flags, "00000");
    assert_eq!(rows[0].date, NOW);
    assert_eq!(rows[0].mailbox_id, inbox);
    assert_eq!(
        db.replicate(mail("m"), 99, None, NOW, &vec![]),
        Err(StoreError::NoSuchMailbox)
    );
    assert_eq!(db.mail_count(None), 3);
    assert_eq!(
        db.take_changes(),
        vec!["* 1 EXISTS\r\n", "* 1 EXISTS\r\n", "* 1 EXISTS\r\n"]
    );
    assert!(db.take_changes().is_empty());
}

#[test]
fn replicate_takes_date_and_flags() {
    let (mut db, inbox, _) = store();
    let when = Timestamp {
        unix_seconds: 5,
        offset_seconds: 3600,
    };
    db.replicate(
        mail("m"),
        inbox,
        Some(when),
        NOW,
        &vec![IMAPFlags::Seen, IMAPFlags::Draft, IMAPFlags::Seen],
    )
    .unwrap();
    let rows = db.fetch(&all(), true, inbox);
    assert_eq!(rows[0].date, when);
    assert_eq!(rows[0].flags, "11000");
}

#[test]
fn expunge_removes_deleted_and_renumbers() {
    let (mut db, inbox, other) = store();
    let deleted = vec![IMAPFlags::Deleted];
    db.replicate(mail("1"), inbox, None, NOW, &vec![]).unwrap();
    db.replicate(mail("2"), inbox, None, NOW, &deleted).unwrap();
    db.replicate(mail("3"), other, None, NOW, &deleted).unwrap();
    db.replicate(mail("4"), inbox, None, NOW, &deleted).unwrap();
    db.replicate(mail("5"), inbox, None, NOW, &vec![]).unwrap();
    db.replicate(mail("6"), inbox, None, NOW, &deleted).unwrap();
    db.take_changes();
    assert_eq!(db.expunge(inbox, Some((4, 4))), vec![3]);
    assert_eq!(
        db.fetch(&all(), false, inbox)
            .iter()
            .map(|r| (r.uid, r.seqnum))
            .collect::<Vec<_>>(),
        vec![(1, 1), (2, 2), (5, 3), (6, 4)]
    );
    assert_eq!(db.expunge(inbox, None), vec![2, 3]);
    assert_eq!(
        db.fetch(&all(), false, inbox)
            .iter()
            .map(|r| (r.uid, r.seqnum))
            .collect::<Vec<_>>(),
        vec![(1, 1), (5, 2)]
    );
    assert_eq!(db.mail_count(Some(other)), 1);
    assert_eq!(db.expunge(inbox, None), Vec::<i32>::new());
    assert_eq!(
        db.take_changes(),
        vec!["* 3 EXPUNGE\r\n", "* 2 EXPUNGE\r\n", "* 3 EXPUNGE\r\n"]
    );
    assert_eq!(db.next_uid(), 6);
    assert_eq!(db.replicate(mail("7"), inbox, None, NOW, &vec![]), Ok(6));
    assert_eq!(db.next_seqnum(inbox), 4);
}

#[test]
fn an_expunged_top_uid_comes_again() {
    let (mut db, inbox, _) = store();
    db.replicate(mail("1"), inbox, None, NOW, &vec![]).unwrap();
    assert_eq!(
        db.replicate(mail("2"), inbox, None, NOW, &vec![IMAPFlags::Deleted]),
        Ok(2)
    );
    db.expunge(inbox, None);
    assert_eq!(db.next_uid(), 2);
}

#[test]
fn old_mail_is_deleted_and_the_rest_renumbered() {
    let (mut db, inbox, _) = store();
    for t in [10, 50, 20, 60] {
        let when = Timestamp {
            unix_seconds: t,
            offset_seconds: 0,
        };
        db.replicate(mail("m"), inbox, Some(when), NOW, &vec![]).unwrap();
    }
    db.delete_old_mail(30);
    assert_eq!(
        db.fetch(&all(), false, inbox)
            .iter()
            .map(|r| (r.uid, r.seqnum))
            .collect::<Vec<_>>(),
        vec![(2, 1), (4, 2)]
    );
}

#[test]
fn mailboxes() {
    let mut db = DBClient::new();
    assert_eq!(db.get_mailbox_id(1, "Work"), Err(StoreError::NoSuchMailbox));
    assert_eq!(db.lookup_mailbox_id(1, "INBOX"), None);
    assert_eq!(db.get_mailbox_id(1, "INBOX"), Ok(1));
    assert_eq!(db.get_mailbox_id(1, "INBOX"), Ok(1));
    assert_eq!(db.get_mailbox_id(2, "INBOX"), Ok(2));
    assert_eq!(db.get_mailbox_id(1, "inbox"), Err(StoreError::NoSuchMailbox));
    assert_eq!(db.create_mailbox(1, "Work"), Ok(()));
    assert_eq!(db.create_mailbox(1, "Work"), Err(StoreError::Conflict));
    assert_eq!(db.create_mailbox(2, "Work"), Ok(()));
    assert_eq!(db.lookup_mailbox_id(1, "Work"), Some(3));
    assert_eq!(db.lookup_mailbox_id(2, "Work"), Some(4));
    assert!(db.mailbox_exists(4));
    assert!(!db.mailbox_exists(5));
    assert_eq!(
        db.get_mailbox_names_for_user(1),
        Some(vec!["INBOX".to_string(), "Work".to_string()])
    );
    assert_eq!(db.get_mailbox_names_for_user(3), Some(vec!["INBOX".to_string()]));
    assert_eq!(db.lookup_mailbox_id(3, "INBOX"), Some(5));
    assert_eq!(db.rename_mailbox("Job", 3), Ok(()));
    assert_eq!(db.lookup_mailbox_id(1, "Job"), Some(3));
    assert_eq!(db.lookup_mailbox_id(1, "Work"), None);
    assert_eq!(db.rename_mailbox("INBOX", 3), Err(StoreError::Conflict));
    assert_eq!(db.rename_mailbox("Job", 3), Ok(()));
    assert_eq!(db.rename_mailbox("Job", 99), Ok(()));
    db.change_mailbox_subscribed(3, true);
    db.change_mailbox_subscribed(99, true);
    db.delete_mailbox(3);
    db.delete_mailbox(3);
    assert_eq!(db.lookup_mailbox_id(1, "Job"), None);
    assert_eq!(db.create_mailbox(1, "Job"), Ok(()));
    assert_eq!(db.lookup_mailbox_id(1, "Job"), Some(6));
}

#[test]
fn deleting_a_mailbox_takes_its_mail() {
    let (mut db, inbox, other) = store();
    db.replicate(mail("1"), other, None, NOW, &vec![]).unwrap();
    db.replicate(mail("2"), inbox, None, NOW, &vec![]).unwrap();
    db.replicate(mail("3"), other, None, NOW, &vec![]).unwrap();
    db.delete_mailbox(other);
    assert_eq!(db.mail_count(None), 1);
    assert_eq!(
        db.fetch(&all(), false, inbox)
            .iter()
            .map(|r| (r.uid, r.seqnum))
            .collect::<Vec<_>>(),
        vec![(2, 1)]
    );
    assert!(!db.mailbox_exists(other));
}

#[test]
fn counting_by_flags() {
    let (mut db, inbox, other) = store();
    db.replicate(mail("1"), inbox, None, NOW, &vec![IMAPFlags::Seen]).unwrap();
    db.replicate(mail("2"), inbox, None, NOW, &vec![]).unwrap();
    db.replicate(
        mail("3"),
        inbox,
        None,
        NOW,
        &vec![IMAPFlags::Seen, IMAPFlags::Deleted],
    )
    .unwrap();
    db.replicate(mail("4"), other, None, NOW, &vec![IMAPFlags::Seen]).unwrap();
    assert_eq!(db.mail_count_with_flags(inbox, vec![(IMAPFlags::Seen, true)]), 2);
    assert_eq!(db.mail_count_with_flags(inbox, vec![(IMAPFlags::Seen, false)]), 1);
    assert_eq!(
        db.mail_count_with_flags(
            inbox,
            vec![(IMAPFlags::Seen, true), (IMAPFlags::Deleted, false)]
        ),
        1
    );
    assert_eq!(
        db.mail_count_with_flags(
            inbox,
            vec![(IMAPFlags::Seen, true), (IMAPFlags::Seen, false)]
        ),
        1
    );
    assert_eq!(db.mail_count_with_flags(inbox, vec![]), 3);
    assert_eq!(db.mail_count_with_flags(other, vec![(IMAPFlags::Answered, true)]), 0);
    assert!(kakimail::database::fits_pattern(
        &['0', '1', '0', '0', '0'],
        &['_', '1', '_', '_', '0']
    ));
    assert!(!kakimail::database::fits_pattern(
        &['0', '1', '0', '0', '1'],
        &['_', '1', '_', '_', '0']
    ));
    assert!(!kakimail::database::fits_pattern(&['0'], &['_', '1']));
}

#[test]
fn fetch_picks_by_seqnum_or_uid() {
    let (mut db, inbox, other) = store();
    db.replicate(mail("1"), other, None, NOW, &vec![]).unwrap();
    db.replicate(mail("2"), inbox, None, NOW, &vec![]).unwrap();
    db.replicate(mail("3"), inbox, None, NOW, &vec![]).unwrap();
    db.replicate(mail("4"), inbox, None, NOW, &vec![]).unwrap();
    let set = SequenceSet::from_str("1,3").unwrap();
    assert_eq!(
        db.fetch(&set, false, inbox).iter().map(|r| r.uid).collect::<Vec<_>>(),
        vec![2, 4]
    );
    assert_eq!(
        db.fetch(&set, true, inbox).iter().map(|r| r.uid).collect::<Vec<_>>(),
        vec![3]
    );
    assert_eq!(
        db.fetch(&set, true, other).iter().map(|r| r.uid).collect::<Vec<_>>(),
        vec![1]
    );
}

fn found(db: &DBClient, keys: &str, mailbox: i32, uid: bool) -> Vec<i32> {
    db.search_ids(&search(keys).unwrap().search_keys, mailbox, uid)
}

#[test]
fn searching() {
    let (mut db, inbox, other) = store();
    let m = |data: &str| Mail {
        from: String::new(),
        to: vec![],
        data: data.to_string(),
    };
    let at = |t: i64| {
        Some(Timestamp {
            unix_seconds: t,
            offset_seconds: 0,
        })
    };
    // 02-Oct-2020 00:00:00 UTC is 1601596800
    db.replicate(
        m("From: Ann <ann@x.org>\r\nTo: bob@y.org\r\nSubject: Hello there\r\nDate: Thu, 01 Oct 2020 10:00:00 +0000\r\n\r\nfirst body\r\n"),
        inbox,
        at(1601596799),
        NOW,
        &vec![IMAPFlags::Seen],
    )
    .unwrap();
    db.replicate(m("noise"), other, at(0), NOW, &vec![]).unwrap();
    db.replicate(
        m("From: carl@z.org\r\nCc: ann@x.org\r\nSubject: 100% sure\r\nDate: 02 Oct 2020 10:00:00 +0000\r\nX-Tag: blue\r\n\r\nsecond BODY\r\n"),
        inbox,
        at(1601596800),
        NOW,
        &vec![IMAPFlags::Flagged, IMAPFlags::Answered],
    )
    .unwrap();
    db.replicate(
        m("Bcc: hidden@q.org\r\nDate: Sat, 03 Oct 2020 10:00:00 +0000\r\n\r\nthird\r\n"),
        inbox,
        at(1601596801),
        NOW,
        &vec![IMAPFlags::Deleted, IMAPFlags::Draft],
    )
    .unwrap();
    assert_eq!(found(&db, "ALL", inbox, false), vec![1, 2, 3]);
    assert_eq!(found(&db, "ALL", inbox, true), vec![1, 3, 4]);
    assert_eq!(found(&db, "ALL", other, true), vec![2]);
    assert_eq!(found(&db, "SEEN", inbox, false), vec![1]);
    assert_eq!(found(&db, "UNSEEN", inbox, false), vec![2, 3]);
    assert_eq!(found(&db, "FLAGGED", inbox, false), vec![2]);
    assert_eq!(found(&db, "UNFLAGGED", inbox, false), vec![1, 3]);
    assert_eq!(found(&db, "ANSWERED", inbox, false), vec![2]);
    assert_eq!(found(&db, "UNANSWERED", inbox, false), vec![1, 3]);
    assert_eq!(found(&db, "DELETED", inbox, false), vec![3]);
    assert_eq!(found(&db, "UNDELETED", inbox, false), vec![1, 2]);
    assert_eq!(found(&db, "DRAFT", inbox, false), vec![3]);
    assert_eq!(found(&db, "UNDRAFT", inbox, false), vec![1, 2]);
    assert_eq!(found(&db, "KEYWORD \\Seen", inbox, false), vec![1]);
    assert_eq!(found(&db, "UNKEYWORD \\Seen", inbox, false), vec![2, 3]);
    assert_eq!(found(&db, "TEXT body", inbox, false), vec![1, 2]);
    assert_eq!(found(&db, "TEXT 100%", inbox, false), vec![2]);
    assert_eq!(found(&db, "TEXT s_cond", inbox, false), vec![2]);
    assert_eq!(found(&db, "TEXT absent", inbox, false), Vec::<i32>::new());
    assert_eq!(found(&db, "FROM ann", inbox, false), vec![1]);
    assert_eq!(found(&db, "TO bob", inbox, false), vec![1]);
    assert_eq!(found(&db, "CC ann", inbox, false), vec![2]);
    assert_eq!(found(&db, "BCC hidden", inbox, false), vec![3]);
    assert_eq!(found(&db, "SUBJECT Hello", inbox, false), vec![1]);
    assert_eq!(found(&db, "HEADER X-Tag blue", inbox, false), vec![2]);
    assert_eq!(found(&db, "BODY third", inbox, false), Vec::<i32>::new());
    assert_eq!(found(&db, "BODY ois", other, true), vec![2]);
    assert_eq!(found(&db, "BODY org", inbox, false), Vec::<i32>::new());
    assert_eq!(found(&db, "SUBJECT (", inbox, false), Vec::<i32>::new());
    assert_eq!(found(&db, "LARGER 113", inbox, false), vec![2]);
    assert_eq!(found(&db, "SMALLER 113", inbox, false), vec![3]);
    assert_eq!(found(&db, "SMALLER 115", inbox, false), vec![1, 3]);
    assert_eq!(found(&db, "LARGER -5", inbox, false), vec![1, 2, 3]);
    assert_eq!(found(&db, "SMALLER -5", inbox, false), Vec::<i32>::new());
    assert_eq!(found(&db, "BEFORE 02-Oct-2020", inbox, false), vec![1]);
    assert_eq!(found(&db, "ON 02-Oct-2020", inbox, false), vec![2]);
    assert_eq!(found(&db, "SINCE 02-Oct-2020", inbox, false), vec![3]);
    assert_eq!(found(&db, "SENTBEFORE 02-Oct-2020", inbox, false), vec![1]);
    assert_eq!(found(&db, "SENTON 02-Oct-2020", inbox, false), vec![2]);
    assert_eq!(found(&db, "SENTSINCE 02-Oct-2020", inbox, false), vec![3]);
    assert_eq!(found(&db, "2:*", inbox, false), vec![2, 3]);
    assert_eq!(found(&db, "UID 2:3", inbox, false), vec![2]);
    assert_eq!(found(&db, "UID 2:3", inbox, true), vec![3]);
    assert_eq!(found(&db, "NOT SEEN FLAGGED", inbox, false), vec![2]);
    assert_eq!(found(&db, "OR SEEN DELETED", inbox, false), vec![1, 3]);
    assert_eq!(found(&db, "NOT OR SEEN DELETED", inbox, false), vec![2]);
    assert_eq!(found(&db, "ALL", 99, false), Vec::<i32>::new());
    let args = search("RETURN (COUNT MAX) UNSEEN").unwrap();
    assert_eq!(db.exec_search_query(&args, inbox, true), Ok("COUNT 2 MAX 4".to_string()));
    let none = search("RETURN (COUNT)").unwrap();
    assert_eq!(
        db.exec_search_query(&none, inbox, true),
        Err(StoreError::NoSearchKeys)
    );
}

#[test]
fn like_and_order() {
    let c = |s: &str| s.chars().collect::<Vec<char>>();
    let like = |p: &str, t: &str| kakimail::matching::is_like(&c(p), &c(t));
    assert!(like("", ""));
    assert!(!like("", "a"));
    assert!(like("%", ""));
    assert!(like("%", "anything"));
    assert!(like("a%", "abc"));
    assert!(like("%c", "abc"));
    assert!(like("a_c", "abc"));
    assert!(!like("a_c", "ac"));
    assert!(like("%B%", "abc"));
    assert!(like("ABC", "abc"));
    assert!(!like("abd", "abc"));
    assert!(like("%a%b%", "xxaxxbxx"));
    assert!(!like("%a%b%", "xxbxxaxx"));
    assert!(!like("é", "É"));
    assert!(like("_", "é"));
    let less = |a: &str, b: &str| kakimail::matching::is_text_less(&c(a), &c(b));
    assert!(less("", "a"));
    assert!(!less("a", ""));
    assert!(!less("", ""));
    assert!(less("2020-10-01", "2020-10-02"));
    assert!(!less("2020-10-02", "2020-10-02"));
    assert!(less("2020-10", "2020-10-02"));
    assert!(less("B", "a"));
    assert_eq!(
        kakimail::matching::sent_date_of("Date: Thu, 01 Oct 2020 10:00:00 +0000\r\n\r\n"),
        "2020-10-01"
    );
    assert_eq!(kakimail::matching::sent_date_of("no date"), "");
}

#[test]
fn the_star_is_the_largest_number_in_use() {
    let (mut db, inbox, other) = store();
    db.replicate(mail("1"), inbox, None, NOW, &vec![]).unwrap();
    db.replicate(mail("2"), other, None, NOW, &vec![]).unwrap();
    db.replicate(mail("3"), inbox, None, NOW, &vec![]).unwrap();
    db.replicate(mail("4"), inbox, None, NOW, &vec![]).unwrap();
    db.replicate(mail("5"), other, None, NOW, &vec![]).unwrap();
    assert_eq!(db.largest_number(inbox, false), 3);
    assert_eq!(db.largest_number(inbox, true), 4);
    assert_eq!(db.largest_number(other, true), 5);
    assert_eq!(db.largest_number(77, true), 0);
    let uids = |db: &DBClient, set: &str, uid: bool| -> Vec<i32> {
        db.fetch(&SequenceSet::from_str(set).unwrap(), uid, inbox)
            .iter()
            .map(|r| r.uid)
            .collect()
    };
    assert_eq!(uids(&db, "*", false), vec![4]);
    assert_eq!(uids(&db, "*", true), vec![4]);
    assert_eq!(uids(&db, "2:*", false), vec![3, 4]);
    assert_eq!(uids(&db, "*:2", false), vec![3, 4]);
    assert_eq!(uids(&db, "3:*", true), vec![3, 4]);
    // a number beyond the largest: the range runs from the largest to it
    assert_eq!(uids(&db, "9:*", false), vec![4]);
    assert_eq!(uids(&db, "9:*", true), vec![4]);
    assert_eq!(uids(&db, "*:1", true), vec![1, 3, 4]);
    // the ends of a range in either order
    assert_eq!(uids(&db, "3:1", true), vec![1, 3]);
    assert_eq!(uids(&db, "1,*", false), vec![1, 4]);
    assert_eq!(found(&db, "*", inbox, false), vec![3]);
    assert_eq!(found(&db, "UID *", inbox, false), vec![3]);
    assert_eq!(found(&db, "UID *", inbox, true), vec![4]);
    assert_eq!(found(&db, "2:*", inbox, true), vec![3, 4]);
    assert_eq!(found(&db, "NOT *", inbox, false), vec![1, 2]);
    assert_eq!(found(&db, "OR 1 UID 9:*", inbox, false), vec![1, 3]);
    assert_eq!(found(&db, "*", 77, false), Vec::<i32>::new());
}
