//! Delivery of received mail into the inboxes of its recipients.

use vstd::prelude::*;
use crate::database::{
    delivered, got_mailbox_id, mailboxes_after_get, user_named, DBClient, IMAPFlags,
};
use crate::dates::Timestamp;
use crate::scan::{split, split_char};
use crate::smtp_common::{Mail, ReceivedMail};
use crate::store::{mailbox_count, max_uid, StoreView};
use crate::text::{chars_to_string, copy_range, eq_chars, str_to_chars, string_views, views};

verus! {

/// The local user that a recipient names: the recipient stands in angle
/// brackets, its domain is the server's, and its local part is the name
/// of a user.
pub open spec fn local_user(recipient: Seq<char>, domain: Seq<char>, db: StoreView) -> Option<i32> {
    if recipient.len() < 2 {
        None
    } else {
        let pieces = split(recipient.subrange(1, recipient.len() - 1), '@');
        if pieces.len() >= 2 && pieces[1] == domain {
            match user_named(db.users, pieces[0]) {
                Some(u) => Some(u.id),
                None => None,
            }
        } else {
            None
        }
    }
}

/// The store after a message was put into the inbox of a user, which is
/// made where the user has none. The store stays as it is where no
/// identifier is left for the inbox or for the message.
pub open spec fn delivered_to(db: StoreView, mail: ReceivedMail, user: i32, now: Timestamp) -> StoreView {
    match got_mailbox_id(db.mailboxes, user, "INBOX"@) {
        Err(_) => db,
        Ok(id) => {
            let mailboxes = mailboxes_after_get(db.mailboxes, user, "INBOX"@);
            if max_uid(db.mail) < i32::MAX {
                StoreView {
                    users: db.users,
                    mailboxes,
                    mail: db.mail.push(
                        delivered(
                            mail,
                            (max_uid(db.mail) + 1) as i32,
                            (mailbox_count(db.mail, id) + 1) as i32,
                            id,
                            now,
                            crate::database::bitmap_of(seq![]),
                        ),
                    ),
                    changes: db.changes.push("* 1 EXISTS\r\n"@),
                }
            } else {
                StoreView { mailboxes, ..db }
            }
        },
    }
}

/// The store after a message was delivered to the first `n` of its
/// recipients, those that name no local user passed over.
pub open spec fn stored(db: StoreView, mail: ReceivedMail, domain: Seq<char>, now: Timestamp, n: int) -> StoreView
    decreases n,
{
    if n <= 0 || n > mail.to.len() {
        db
    } else {
        let before = stored(db, mail, domain, now, n - 1);
        match local_user(mail.to[n - 1], domain, before) {
            Some(user) => delivered_to(before, mail, user, now),
            None => before,
        }
    }
}

/// A copy of a message.
pub fn copy_mail(mail: &Mail) -> (r: Mail)
    ensures
        r@ == mail@,
{
    let mut to: Vec<String> = Vec::new();
    let mut i: usize = 0;
    while i < mail.to.len()
        invariant
            i <= mail.to.len(),
            to@.len() == i,
            forall|j: int| 0 <= j < i ==> to@[j]@ == mail.to@[j]@,
        decreases mail.to.len() - i,
    {
        to.push(mail.to[i].clone());
        i += 1;
    }
    assert(string_views(to@) =~= string_views(mail.to@));
    Mail { from: mail.from.clone(), to, data: mail.data.clone() }
}

/// The user that a recipient names, where it names a local one.
pub fn find_local_user(recipient: &str, domain: &str, db: &DBClient) -> (r: Option<i32>)
    ensures
        r == local_user(recipient@, domain@, db@),
{
    let chars = str_to_chars(recipient);
    if chars.len() < 2 {
        return None;
    }
    let inner = copy_range(chars.as_slice(), 1, chars.len() - 1);
    let pieces = split_char(inner.as_slice(), '@');
    let d = str_to_chars(domain);
    if pieces.len() >= 2 && eq_chars(pieces[1].as_slice(), d.as_slice()) {
        assert(views(pieces@)[1] == pieces@[1]@);
        assert(views(pieces@)[0] == pieces@[0]@);
        let name = chars_to_string(pieces[0].as_slice());
        db.get_user_id(name.as_str())
    } else {
        None
    }
}

/// Puts a message into the inbox of a user.
pub fn deliver(db: &mut DBClient, mail: &Mail, user: i32, now: Timestamp)
    requires
        old(db).wf(),
    ensures
        final(db).wf(),
        final(db)@ == delivered_to(old(db)@, mail@, user, now),
{
    match db.get_mailbox_id(user, "INBOX") {
        Ok(id) => {
            let none: Vec<IMAPFlags> = Vec::new();
            let _ = db.replicate(copy_mail(mail), id, None, now, &none);
        },
        Err(_) => {},
    }
}

/// How many of the first `n` recipients of a message name a local user.
pub open spec fn local_count(db: StoreView, mail: ReceivedMail, domain: Seq<char>, n: int) -> nat
    decreases n,
{
    if n <= 0 || n > mail.to.len() {
        0
    } else {
        local_count(db, mail, domain, n - 1) + if local_user(mail.to[n - 1], domain, db) is Some {
            1nat
        } else {
            0nat
        }
    }
}

/// Delivery leaves the users as they are, so a recipient names the same
/// user before and after.
pub proof fn lemma_stored_users(
    db: StoreView,
    mail: ReceivedMail,
    domain: Seq<char>,
    now: Timestamp,
    n: int,
)
    ensures
        stored(db, mail, domain, now, n).users == db.users,
    decreases n,
{
    if n <= 0 || n > mail.to.len() {
    } else {
        lemma_stored_users(db, mail, domain, now, n - 1);
    }
}

/// Saves a received message in the inboxes of its local recipients, and
/// says how many of its recipients are local.
pub fn store_mail(db: &mut DBClient, mail: &Mail, domain: &str, now: Timestamp) -> (r: usize)
    requires
        old(db).wf(),
    ensures
        final(db).wf(),
        final(db)@ == stored(old(db)@, mail@, domain@, now, mail@.to.len() as int),
        r == local_count(old(db)@, mail@, domain@, mail@.to.len() as int),
{
    let mut count: usize = 0;
    let mut i: usize = 0;
    while i < mail.to.len()
        invariant
            i <= mail.to.len(),
            count <= i,
            count == local_count(old(db)@, mail@, domain@, i as int),
            db.wf(),
            db@ == stored(old(db)@, mail@, domain@, now, i as int),
        decreases mail.to.len() - i,
    {
        assert(mail@.to[i as int] == mail.to@[i as int]@);
        proof {
            lemma_stored_users(old(db)@, mail@, domain@, now, i as int);
        }
        match find_local_user(mail.to[i].as_str(), domain, db) {
            Some(user) => {
                deliver(db, mail, user, now);
                count += 1;
            },
            None => {},
        }
        i += 1;
    }
    count
}

} // verus!
