//! CLOSE and UNSELECT.

use vstd::prelude::*;
use crate::database::DBClient;
use crate::dates::Timestamp;
use crate::imap::{
    answer_line, handled_is, refused_with, tagged, Handled, IMAPOp, IMAPState, ImapError,
    ResponseInfo,
};
use crate::database::expunge_marks;
use crate::store::{without, StoreView};

verus! {

pub struct Close;

/// What CLOSE (`close`) or UNSELECT does: the response, the state, and
/// the messages after it. CLOSE of a mailbox selected for writing removes
/// the messages with the Deleted flag set; nothing else removes any.
pub open spec fn close_outcome(
    tag: Seq<char>,
    state: IMAPState,
    before: StoreView,
    after: StoreView,
    r: Handled,
    close: bool,
) -> bool {
    match state {
        IMAPState::Selected(s) => {
            &&& handled_is(
                r,
                seq![
                    tag + if close {
                        " OK CLOSE completed\r\n"@
                    } else {
                        " OK UNSELECT completed\r\n"@
                    },
                ],
                IMAPState::Authed(s.user_id),
                ResponseInfo::Regular,
            )
            &&& after.mail == if close && !s.read_only {
                without(
                    before.mail,
                    expunge_marks(before.mail, s.mailbox_id, None),
                    before.mail.len() as int,
                )
            } else {
                before.mail
            }
            &&& !(close && !s.read_only) ==> after == before
        },
        _ => refused_with(r, ImapError::BadState) && after == before,
    }
}

/// Leaves the selected mailbox; CLOSE of a mailbox selected for writing
/// expunges it first.
pub fn close_or_unselect(tag: &str, args: &str, state: IMAPState, db: &mut DBClient, close: bool) -> (r:
    Handled)
    requires
        old(db).wf(),
    ensures
        final(db).wf(),
        final(db)@.users == old(db)@.users,
        final(db)@.mailboxes == old(db)@.mailboxes,
        close_outcome(tag@, state, old(db)@, final(db)@, r, close),
{
    let selected = match state {
        IMAPState::Selected(s) => s,
        _ => {
            return Err(ImapError::BadState);
        },
    };
    if close && !selected.read_only {
        let _ = db.expunge(selected.mailbox_id, None);
    }
    answer_line(
        tagged(
            tag,
            if close {
                " OK CLOSE completed\r\n"
            } else {
                " OK UNSELECT completed\r\n"
            },
        ),
        IMAPState::Authed(selected.user_id),
        ResponseInfo::Regular,
    )
}

impl IMAPOp for Close {
    /// Leaves the selected mailbox and removes its deleted messages,
    /// unless it was selected read-only.
    fn process(tag: &str, args: &str, state: IMAPState, db: &mut DBClient, now: Timestamp) -> (r:
        Handled)
        ensures
            final(db)@.users == old(db)@.users,
            final(db)@.mailboxes == old(db)@.mailboxes,
            close_outcome(tag@, state, old(db)@, final(db)@, r, true),
    {
        close_or_unselect(tag, args, state, db, true)
    }
}

} // verus!
