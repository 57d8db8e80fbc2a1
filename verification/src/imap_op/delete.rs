//! DELETE.

use vstd::prelude::*;
use crate::database::DBClient;
use crate::dates::Timestamp;
use crate::imap::{
    answer_line, arguments, handled_is, refused_with, tagged, Handled, IMAPOp, IMAPState,
    ImapError, ResponseInfo,
};
use crate::database::{mailbox_id_of, mailbox_index, StoreError};
use crate::imap_op::create::refusal;
use crate::parsing::imap::list_of;
use crate::store::without;
use crate::text::chars_to_string;

verus! {

pub struct Delete;

/// What DELETE does: the response, the state, and the store after it.
pub open spec fn delete_outcome(
    tag: Seq<char>,
    args: Seq<char>,
    state: IMAPState,
    before: crate::store::StoreView,
    after: crate::store::StoreView,
    r: Handled,
) -> bool {
    match (state.user(), list_of(args)) {
        (None, _) => refused_with(r, ImapError::BadState) && after == before,
        (Some(_), None) => refused_with(r, ImapError::BadArgument) && after == before,
        (Some(user), Some(t)) => if t.len() == 0 {
            refused_with(r, ImapError::MissingArgument) && after == before
        } else {
            match mailbox_id_of(before.mailboxes, user, t[0]) {
                None => after == before && handled_is(
                    r,
                    seq![
                        tag + " NO DELETE failed: "@
                            + StoreError::NoSuchMailbox.reason_text() + "\r\n"@,
                    ],
                    state,
                    ResponseInfo::Regular,
                ),
                Some(id) => {
                    &&& after.mail == without(
                        before.mail,
                        Seq::new(
                            before.mail.len(),
                            |i: int| before.mail[i].mailbox_id == id,
                        ),
                        before.mail.len() as int,
                    )
                    &&& after.mailboxes == before.mailboxes.remove(
                        mailbox_index(before.mailboxes, id),
                    )
                    &&& handled_is(
                        r,
                        seq![tag + " OK DELETE completed\r\n"@],
                        state,
                        ResponseInfo::Regular,
                    )
                },
            }
        },
    }
}

impl IMAPOp for Delete {
    /// Removes the user's mailbox of the given name with all its
    /// messages.
    fn process(tag: &str, args: &str, state: IMAPState, db: &mut DBClient, now: Timestamp) -> (r:
        Handled)
        ensures
            final(db)@.users == old(db)@.users,
            final(db)@.changes == old(db)@.changes,
            delete_outcome(tag@, args@, state, old(db)@, final(db)@, r),
    {
        let user = match state.user_id() {
            Some(u) => u,
            None => {
                return Err(ImapError::BadState);
            },
        };
        let t = match arguments(args) {
            Some(t) => t,
            None => {
                return Err(ImapError::BadArgument);
            },
        };
        if t.len() == 0 {
            return Err(ImapError::MissingArgument);
        }
        let name = chars_to_string(t[0].as_slice());
        match db.lookup_mailbox_id(user, name.as_str()) {
            Some(id) => {
                db.delete_mailbox(id);
                answer_line(tagged(tag, " OK DELETE completed\r\n"), state, ResponseInfo::Regular)
            },
            None => answer_line(
                refusal(tag, " NO DELETE failed: ", StoreError::NoSuchMailbox),
                state,
                ResponseInfo::Regular,
            ),
        }
    }
}

} // verus!
