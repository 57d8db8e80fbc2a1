//! STATUS.

use vstd::prelude::*;
use crate::database::DBClient;
use crate::dates::Timestamp;
use crate::imap::{
    answer_line, answer_lines, handled_is, refused_with, tagged, Handled, IMAPOp, IMAPState,
    ImapError, ResponseInfo,
};
use crate::database::{
    count_fitting, demand_pattern, got_mailbox_id, mailboxes_after_get, IMAPFlags,
};
use crate::imap_op::create::refusal;
use crate::scan::{join, split_words, words};
use crate::store::{mailbox_count, max_uid, StoreView};
use crate::text::{
    decimal, eq_str, letters_of, only_letters, push_chars, push_i64, push_str, str_to_chars, views,
};

verus! {

pub struct Status;

/// What one attribute of STATUS shows of a mailbox; nothing for a word
/// that names no attribute.
pub open spec fn status_item(attr: Seq<char>, db: StoreView, mailbox_id: i32) -> Option<Seq<char>> {
    if attr == "MESSAGES"@ {
        Some("MESSAGES "@ + decimal(mailbox_count(db.mail, mailbox_id)))
    } else if attr == "UIDNEXT"@ {
        Some("UIDNEXT "@ + decimal(max_uid(db.mail) + 1))
    } else if attr == "UNSEEN"@ {
        Some(
            "UNSEEN "@ + decimal(
                count_fitting(
                    db.mail,
                    mailbox_id,
                    demand_pattern(seq![(IMAPFlags::Seen, false)], 1),
                    db.mail.len() as int,
                ),
            ),
        )
    } else if attr == "DELETED"@ {
        Some(
            "DELETED "@ + decimal(
                count_fitting(
                    db.mail,
                    mailbox_id,
                    demand_pattern(seq![(IMAPFlags::Deleted, true)], 1),
                    db.mail.len() as int,
                ),
            ),
        )
    } else {
        None
    }
}

/// What the words from position 1 up to `n` show, each taken by its
/// letters.
pub open spec fn status_items(w: Seq<Seq<char>>, db: StoreView, mailbox_id: i32, n: int) -> Seq<
    Seq<char>,
>
    decreases n,
{
    if n <= 1 || n > w.len() {
        seq![]
    } else {
        let before = status_items(w, db, mailbox_id, n - 1);
        match status_item(letters_of(w[n - 1], w[n - 1].len() as int), db, mailbox_id) {
            Some(t) => before.push(t),
            None => before,
        }
    }
}

/// The untagged line of a STATUS response.
pub open spec fn status_line(name: Seq<char>, items: Seq<Seq<char>>) -> Seq<char> {
    "* STATUS "@ + name + " ("@ + join(items, " "@) + ")\r\n"@
}

/// What STATUS does: the response, the state, and the store after it.
pub open spec fn status_outcome(
    tag: Seq<char>,
    args: Seq<char>,
    state: IMAPState,
    before: StoreView,
    after: StoreView,
    r: Handled,
) -> bool {
    match state.user() {
        None => refused_with(r, ImapError::BadState) && after == before,
        Some(user) => {
            let w = words(args);
            if w.len() == 0 {
                refused_with(r, ImapError::MissingArgument) && after == before
            } else {
                match got_mailbox_id(before.mailboxes, user, w[0]) {
                    Err(e) => after == before && handled_is(
                        r,
                        seq![tag + " NO STATUS failed: "@ + e.reason_text() + "\r\n"@],
                        state,
                        ResponseInfo::Regular,
                    ),
                    Ok(id) => after.mailboxes == mailboxes_after_get(before.mailboxes, user, w[0])
                        && handled_is(
                        r,
                        seq![
                            status_line(w[0], status_items(w, before, id, w.len() as int)),
                            tag + " OK STATUS completed\r\n"@,
                        ],
                        state,
                        ResponseInfo::Regular,
                    ),
                }
            }
        },
    }
}

impl IMAPOp for Status {
    /// Shows the asked attributes of the user's mailbox of the given
    /// name: `MESSAGES`, `UIDNEXT`, `UNSEEN` and `DELETED`.
    fn process(tag: &str, args: &str, state: IMAPState, db: &mut DBClient, now: Timestamp) -> (r:
        Handled)
        ensures
            final(db)@.users == old(db)@.users,
            final(db)@.mail == old(db)@.mail,
            final(db)@.changes == old(db)@.changes,
            status_outcome(tag@, args@, state, old(db)@, final(db)@, r),
    {
        let user = match state.user_id() {
            Some(u) => u,
            None => {
                return Err(ImapError::BadState);
            },
        };
        let chars = str_to_chars(args);
        let w = split_words(chars.as_slice());
        if w.len() == 0 {
            return Err(ImapError::MissingArgument);
        }
        let name = crate::text::chars_to_string(w[0].as_slice());
        let id = match db.get_mailbox_id(user, name.as_str()) {
            Ok(id) => id,
            Err(e) => {
                return answer_line(
                    refusal(tag, " NO STATUS failed: ", e),
                    state,
                    ResponseInfo::Regular,
                );
            },
        };
        let ghost before = old(db)@;
        let mut items: Vec<Vec<char>> = Vec::new();
        let mut i: usize = 1;
        while i < w.len()
            invariant
                1 <= i <= w.len(),
                db.wf(),
                db@.mail == before.mail,
                views(items@) == status_items(views(w@), before, id, i as int),
            decreases w.len() - i,
        {
            let attr = only_letters(w[i].as_slice());
            let ghost prev = views(items@);
            let mut item: Vec<char> = Vec::new();
            if eq_str(attr.as_slice(), "MESSAGES") {
                push_str(&mut item, "MESSAGES ");
                push_i64(&mut item, db.mail_count(Some(id)));
                items.push(item);
                assert(views(items@) =~= prev.push(item@));
            } else if eq_str(attr.as_slice(), "UIDNEXT") {
                push_str(&mut item, "UIDNEXT ");
                push_i64(&mut item, db.next_uid());
                items.push(item);
                assert(views(items@) =~= prev.push(item@));
            } else if eq_str(attr.as_slice(), "UNSEEN") {
                let mut demands: Vec<(IMAPFlags, bool)> = Vec::new();
                demands.push((IMAPFlags::Seen, false));
                assert(demands@ =~= seq![(IMAPFlags::Seen, false)]);
                push_str(&mut item, "UNSEEN ");
                push_i64(&mut item, db.mail_count_with_flags(id, demands) as i64);
                items.push(item);
                assert(views(items@) =~= prev.push(item@));
            } else if eq_str(attr.as_slice(), "DELETED") {
                let mut demands: Vec<(IMAPFlags, bool)> = Vec::new();
                demands.push((IMAPFlags::Deleted, true));
                assert(demands@ =~= seq![(IMAPFlags::Deleted, true)]);
                push_str(&mut item, "DELETED ");
                push_i64(&mut item, db.mail_count_with_flags(id, demands) as i64);
                items.push(item);
                assert(views(items@) =~= prev.push(item@));
            }
            i += 1;
        }
        let joined = crate::scan::join_chars(&items, " ");
        let mut line: Vec<char> = Vec::new();
        push_str(&mut line, "* STATUS ");
        push_chars(&mut line, w[0].as_slice());
        push_str(&mut line, " (");
        push_chars(&mut line, joined.as_slice());
        push_str(&mut line, ")\r\n");
        assert(line@ =~= status_line(views(w@)[0], views(items@)));
        answer_lines(line, tagged(tag, " OK STATUS completed\r\n"), state, ResponseInfo::Regular)
    }
}

} // verus!
