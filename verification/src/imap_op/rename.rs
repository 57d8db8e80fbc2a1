//! RENAME.

use vstd::prelude::*;
use crate::database::DBClient;
use crate::dates::Timestamp;
use crate::imap::{
    answer_line, arguments, handled_is, refused_with, tagged, Handled, IMAPOp, IMAPState,
    ImapError, ResponseInfo,
};
use crate::database::{mailbox_id_of, mailbox_index, new_mailbox, renamed, StoreError};
use crate::imap_op::create::refusal;
use crate::parsing::imap::list_of;
use crate::store::{max_mailbox_id, MailboxView, StoreView};
use crate::text::chars_to_string;

verus! {

pub struct Rename;

/// The mailboxes after the user's mailbox `id` got the name `to`; where
/// it was `INBOX`, the user gets a new, empty `INBOX` as far as an id is
/// left for it.
pub open spec fn mailboxes_after_rename(
    mailboxes: Seq<MailboxView>,
    user: i32,
    id: i32,
    from: Seq<char>,
    to: Seq<char>,
) -> Seq<MailboxView> {
    let k = mailbox_index(mailboxes, id);
    let moved = mailboxes.update(k, renamed(mailboxes[k], to));
    if from == "INBOX"@ && mailbox_id_of(moved, user, "INBOX"@) is None && max_mailbox_id(moved)
        < i32::MAX {
        moved.push(new_mailbox((max_mailbox_id(moved) + 1) as i32, user, "INBOX"@))
    } else {
        moved
    }
}

/// What RENAME does: the response, the state, and the store after it.
pub open spec fn rename_outcome(
    tag: Seq<char>,
    args: Seq<char>,
    state: IMAPState,
    before: StoreView,
    after: StoreView,
    r: Handled,
) -> bool {
    match (state.user(), list_of(args)) {
        (None, _) => refused_with(r, ImapError::BadState) && after == before,
        (Some(_), None) => refused_with(r, ImapError::BadArgument) && after == before,
        (Some(user), Some(t)) => if t.len() < 2 {
            refused_with(r, ImapError::MissingArgument) && after == before
        } else {
            match mailbox_id_of(before.mailboxes, user, t[0]) {
                None => after == before && handled_is(
                    r,
                    seq![
                        tag + " NO RENAME failed: "@ + StoreError::NoSuchMailbox.reason_text()
                            + "\r\n"@,
                    ],
                    state,
                    ResponseInfo::Regular,
                ),
                Some(id) => {
                    let taken = mailbox_id_of(before.mailboxes, user, t[1]);
                    if taken is Some && taken != Some(id) {
                        after == before && handled_is(
                            r,
                            seq![
                                tag + " NO RENAME failed: "@ + StoreError::Conflict.reason_text()
                                    + "\r\n"@,
                            ],
                            state,
                            ResponseInfo::Regular,
                        )
                    } else {
                        after.mailboxes == mailboxes_after_rename(
                            before.mailboxes,
                            user,
                            id,
                            t[0],
                            t[1],
                        ) && handled_is(
                            r,
                            seq![tag + " OK RENAME completed\r\n"@],
                            state,
                            ResponseInfo::Regular,
                        )
                    }
                },
            }
        },
    }
}

impl IMAPOp for Rename {
    /// Gives the user's mailbox of the first name the second name.
    fn process(tag: &str, args: &str, state: IMAPState, db: &mut DBClient, now: Timestamp) -> (r:
        Handled)
        ensures
            final(db)@.users == old(db)@.users,
            final(db)@.mail == old(db)@.mail,
            final(db)@.changes == old(db)@.changes,
            rename_outcome(tag@, args@, state, old(db)@, final(db)@, r),
    {
        let user = match state.user_id() {
            Some(u) => u,
            None => {
                return Err(ImapError::BadState);
            },
        };
        let t = match arguments(args) {
            Some(t) => t,
            None => {
                return Err(ImapError::BadArgument);
            },
        };
        if t.len() < 2 {
            return Err(ImapError::MissingArgument);
        }
        let from = chars_to_string(t[0].as_slice());
        let to = chars_to_string(t[1].as_slice());
        let id = match db.lookup_mailbox_id(user, from.as_str()) {
            Some(id) => id,
            None => {
                return answer_line(
                    refusal(tag, " NO RENAME failed: ", StoreError::NoSuchMailbox),
                    state,
                    ResponseInfo::Regular,
                );
            },
        };
        proof {
            crate::database::lemma_mailbox_from(old(db)@.mailboxes, user, from@, 0);
            crate::database::lemma_mailbox_index_from(old(db)@.mailboxes, id, 0);
            let k = crate::database::mailbox_from(old(db)@.mailboxes, user, from@, 0);
            let k2 = mailbox_index(old(db)@.mailboxes, id);
            if k < k2 {
                assert(old(db)@.mailboxes[k].id != id);
            }
            if k2 < k {
                assert(old(db)@.mailboxes[k2].id < old(db)@.mailboxes[k].id);
            }
        }
        match db.rename_mailbox(to.as_str(), id) {
            Ok(()) => {
                if crate::database::str_eq(from.as_str(), "INBOX") {
                    let _ = db.create_mailbox(user, "INBOX");
                }
                answer_line(tagged(tag, " OK RENAME completed\r\n"), state, ResponseInfo::Regular)
            },
            Err(e) => answer_line(
                refusal(tag, " NO RENAME failed: ", e),
                state,
                ResponseInfo::Regular,
            ),
        }
    }
}

} // verus!
