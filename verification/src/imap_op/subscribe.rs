//! SUBSCRIBE and UNSUBSCRIBE.

use vstd::prelude::*;
use crate::database::DBClient;
use crate::dates::Timestamp;
use crate::imap::{
    answer_line, arguments, handled_is, refused_with, tagged, Handled, IMAPOp, IMAPState,
    ImapError, ResponseInfo,
};
use crate::database::{got_mailbox_id, mailbox_index, mailboxes_after_get, subscribed};
use crate::imap_op::create::refusal;
use crate::parsing::imap::list_of;
use crate::text::chars_to_string;

verus! {

pub struct Subscribe;

/// The mailboxes after the subscription bit of one was set or cleared.
pub open spec fn mailboxes_after_subscribe(
    mailboxes: Seq<crate::store::MailboxView>,
    id: i32,
    on: bool,
) -> Seq<crate::store::MailboxView> {
    let k = mailbox_index(mailboxes, id);
    if k >= mailboxes.len() {
        mailboxes
    } else {
        mailboxes.update(k, subscribed(mailboxes[k], on))
    }
}

/// What SUBSCRIBE or UNSUBSCRIBE does: the response, the state, and the
/// store after it.
pub open spec fn subscribe_outcome(
    tag: Seq<char>,
    args: Seq<char>,
    state: IMAPState,
    before: crate::store::StoreView,
    after: crate::store::StoreView,
    r: Handled,
    subscribe: bool,
) -> bool {
        match (state.user(), list_of(args)) {
            (None, _) => refused_with(r, ImapError::BadState) && after == before,
            (Some(_), None) => refused_with(r, ImapError::BadArgument) && after == before,
            (Some(user), Some(t)) => if t.len() == 0 {
                refused_with(r, ImapError::MissingArgument) && after == before
            } else {
                match got_mailbox_id(before.mailboxes, user, t[0]) {
                    Ok(id) => after.mailboxes == mailboxes_after_subscribe(
                        mailboxes_after_get(before.mailboxes, user, t[0]),
                        id,
                        subscribe,
                    ) && handled_is(
                        r,
                        seq![
                            tag + if subscribe {
                                " OK SUBSCRIBE completed\r\n"@
                            } else {
                                " OK UNSUBSCRIBE completed\r\n"@
                            },
                        ],
                        state,
                        ResponseInfo::Regular,
                    ),
                    Err(e) => after == before && handled_is(
                        r,
                        seq![
                            tag + if subscribe {
                                " NO SUBSCRIBE failed: "@
                            } else {
                                " NO UNSUBSCRIBE failed: "@
                            } + e.reason_text() + "\r\n"@,
                        ],
                        state,
                        ResponseInfo::Regular,
                    ),
                }
            },
        }
}

/// Sets (`subscribe`) or clears the subscription bit of the user's mailbox
/// of the given name.
pub fn subscribe_or_unsubsribe(
    tag: &str,
    args: &str,
    state: IMAPState,
    db: &mut DBClient,
    subscribe: bool,
) -> (r: Handled)
    requires
        old(db).wf(),
    ensures
        final(db).wf(),
        final(db)@.users == old(db)@.users,
        final(db)@.mail == old(db)@.mail,
        final(db)@.changes == old(db)@.changes,
        subscribe_outcome(tag@, args@, state, old(db)@, final(db)@, r, subscribe),
{
    let user = match state.user_id() {
        Some(u) => u,
        None => {
            return Err(ImapError::BadState);
        },
    };
    let t = match arguments(args) {
        Some(t) => t,
        None => {
            return Err(ImapError::BadArgument);
        },
    };
    if t.len() == 0 {
        return Err(ImapError::MissingArgument);
    }
    let name = chars_to_string(t[0].as_slice());
    match db.get_mailbox_id(user, name.as_str()) {
        Ok(id) => {
            db.change_mailbox_subscribed(id, subscribe);
            answer_line(
                tagged(
                    tag,
                    if subscribe {
                        " OK SUBSCRIBE completed\r\n"
                    } else {
                        " OK UNSUBSCRIBE completed\r\n"
                    },
                ),
                state,
                ResponseInfo::Regular,
            )
        },
        Err(e) => answer_line(
            refusal(
                tag,
                if subscribe {
                    " NO SUBSCRIBE failed: "
                } else {
                    " NO UNSUBSCRIBE failed: "
                },
                e,
            ),
            state,
            ResponseInfo::Regular,
        ),
    }
}

impl IMAPOp for Subscribe {
    /// Subscribes the user to the mailbox.
    fn process(tag: &str, args: &str, state: IMAPState, db: &mut DBClient, now: Timestamp) -> (r:
        Handled)
        ensures
            final(db)@.users == old(db)@.users,
            final(db)@.mail == old(db)@.mail,
            final(db)@.changes == old(db)@.changes,
            subscribe_outcome(tag@, args@, state, old(db)@, final(db)@, r, true),
    {
        subscribe_or_unsubsribe(tag, args, state, db, true)
    }
}

} // verus!
