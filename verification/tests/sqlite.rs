use kakimail::database::{regex_capture, rfc2822_to_date, DBClient, IMAPFlags, SqlValue};
use kakimail::dates::Timestamp;
use kakimail::matching::search_pattern;
use kakimail::parsing::imap::search;
use kakimail::parsing::DB_DATETIME_FMT;
use kakimail::smtp_common::Mail;
use rusqlite::functions::FunctionFlags;
use rusqlite::{Connection, ToSql};

fn value_to_param(value: &SqlValue) -> &dyn ToSql {
    match value {
        SqlValue::Text(x) => x,
        SqlValue::Integer(x) => x,
    }
}

fn at(unix_seconds: i64) -> Timestamp {
    Timestamp {
        unix_seconds,
        offset_seconds: 3600,
    }
}

fn mail(data: &str) -> Mail {
    Mail {
        from: "a@x".to_string(),
        to: vec!["b@y".to_string()],
        data: data.to_string(),
    }
}

/// A store with two mailboxes, and the same rows in an SQLite database
/// that has the three functions which the conditions call.
fn both() -> (DBClient, Connection, i32) {
    let mut db = DBClient::new();
    let user = db.add_user("alice", "hash").unwrap();
    let inbox = db.get_mailbox_id(user, "INBOX").unwrap();
    db.create_mailbox(user, "Other").unwrap();
    let other = db.get_mailbox_id(user, "Other").unwrap();
    let day = 86400;
    let start = 1_704_067_200; // 2024-01-01 00:00:00 UTC
    db.replicate(mail("Subject: elsewhere\r\n\r\nx"), other, None, at(start), &vec![])
        .unwrap();
    db.replicate(
        mail("Date: Mon, 01 Jan 2024 10:00:00 +0000\r\nSubject: Hello World\r\nFrom: ann@x.org\r\n\r\nfirst body"),
        inbox,
        Some(at(start + 3600)),
        at(start),
        &vec![IMAPFlags::Seen],
    )
    .unwrap();
    db.replicate(
        mail("Date: Tue, 02 Jan 2024 10:00:00 +0000\r\nSubject: other\r\nTo: bob@y.org\r\n\r\nsecond"),
        inbox,
        Some(at(start + day + 7200)),
        at(start),
        &vec![IMAPFlags::Deleted, IMAPFlags::Flagged],
    )
    .unwrap();
    db.replicate(
        mail(&format!("Subject: big\r\n\r\n{}", "y".repeat(3000))),
        inbox,
        Some(at(start + 2 * day)),
        at(start),
        &vec![IMAPFlags::Seen, IMAPFlags::Answered, IMAPFlags::Draft],
    )
    .unwrap();
    db.replicate(mail("no headers at all, 100% body_"), inbox, Some(at(start + 5 * day)), at(start), &vec![])
        .unwrap();

    let conn = Connection::open_in_memory().unwrap();
    conn.create_scalar_function("regex_capture", 3, FunctionFlags::SQLITE_UTF8, |ctx| {
        let pattern = ctx.get::<String>(0)?;
        let text = ctx.get::<String>(1)?;
        let group = ctx.get::<i32>(2)?;
        Ok(regex_capture(&pattern, &text, group).unwrap_or_default())
    })
    .unwrap();
    conn.create_scalar_function("rfc2822_to_date", 1, FunctionFlags::SQLITE_UTF8, |ctx| {
        let text = ctx.get::<String>(0)?;
        Ok(rfc2822_to_date(&text).unwrap_or_default())
    })
    .unwrap();
    conn.create_scalar_function("regexp", 2, FunctionFlags::SQLITE_UTF8, |ctx| {
        let pattern = ctx.get::<String>(0)?;
        let text = ctx.get::<String>(1)?;
        Ok(search_pattern(&pattern, &text).unwrap_or(false))
    })
    .unwrap();
    conn.execute_batch(
        "CREATE TABLE mail (uid integer unique not null, seqnum integer not null, date text, sender text, recipients text, data text, mailbox_id integer not null, flags varchar(5), PRIMARY KEY(uid));",
    )
    .unwrap();
    for row in db.mail() {
        conn.execute(
            "INSERT INTO mail VALUES (?1, ?2, ?3, ?4, ?5, ?6, ?7, ?8)",
            (
                row.uid,
                row.seqnum,
                row.date.format(DB_DATETIME_FMT).unwrap(),
                &row.sender,
                &row.recipients,
                &row.data,
                row.mailbox_id,
                &row.flags,
            ),
        )
        .unwrap();
    }
    (db, conn, inbox)
}

fn by_sql(conn: &Connection, keys: &str, mailbox: i32, uid: bool) -> Vec<i32> {
    let args = search(keys).unwrap();
    let (statement, values) = DBClient::get_search_query(&args, mailbox, uid).unwrap();
    let bound = values.iter().map(value_to_param).collect::<Vec<_>>();
    let mut prepared = conn.prepare(&statement).unwrap();
    let mut found = prepared
        .query_map(bound.as_slice(), |row| row.get::<_, i32>(0))
        .unwrap()
        .map(|r| r.unwrap())
        .collect::<Vec<_>>();
    found.sort();
    found
}

fn by_store(db: &DBClient, keys: &str, mailbox: i32, uid: bool) -> Vec<i32> {
    let args = search(keys).unwrap();
    let mut found = db.search_ids(&args.search_keys, mailbox, uid);
    found.sort();
    found
}

#[test]
fn the_statements_find_in_sqlite_what_the_store_finds() {
    let (db, conn, inbox) = both();
    let keys = [
        "ALL",
        "SEEN",
        "UNSEEN",
        "DELETED FLAGGED",
        "UNDELETED UNDRAFT",
        "ANSWERED",
        "KEYWORD \\Seen",
        "UNKEYWORD \\Seen",
        "TEXT hello",
        "TEXT 100%",
        "TEXT body_",
        "SUBJECT Hello",
        "SUBJECT hello",
        "FROM ann",
        "TO bob",
        "HEADER Subject other",
        "BODY headers",
        "BODY second",
        "LARGER 1024",
        "SMALLER 1024",
        "LARGER 29",
        "SMALLER 29",
        "BEFORE 02-Jan-2024",
        "ON 02-Jan-2024",
        "SINCE 02-Jan-2024",
        "ON 01-Jan-2024",
        "SENTBEFORE 02-Jan-2024",
        "SENTON 02-Jan-2024",
        "SENTSINCE 02-Jan-2024",
        "SENTSINCE 01-Jan-2024",
        "NOT SEEN",
        "OR SEEN LARGER 1024",
        "OR DELETED NOT SEEN",
        "NOT OR SEEN DELETED",
        "1",
        "2:3",
        "1,4",
        "3:*",
        "9:*",
        "*",
        "*:2",
        "3:2",
        "NOT *",
        "UID *",
        "UID 9:*",
        "UID *:3",
        "OR * UID 2",
        "UID 2:3",
        "UID 4:*",
        "SEEN 1:2",
        "SUBJECT (a{99999}){99999}",
    ];
    for k in keys {
        for uid in [false, true] {
            assert_eq!(
                by_sql(&conn, k, inbox, uid),
                by_store(&db, k, inbox, uid),
                "{} (uid: {})",
                k,
                uid
            );
        }
    }
    assert_eq!(by_store(&db, "OR SEEN LARGER 1024", inbox, false), vec![1, 3]);
    assert_eq!(by_store(&db, "ALL", inbox, true), vec![2, 3, 4, 5]);
}
