//! CREATE.

use vstd::prelude::*;
use crate::database::DBClient;
use crate::dates::Timestamp;
use crate::imap::{
    answer_line, arguments, handled_is, refused_with, tagged, Handled, IMAPOp, IMAPState,
    ImapError, ResponseInfo,
};
use crate::database::{mailbox_id_of, new_mailbox, StoreError};
use crate::parsing::imap::list_of;
use crate::store::max_mailbox_id;
use crate::text::{chars_to_string, push_str};

verus! {

pub struct Create;

/// The `NO` line that tells why the store refused.
pub fn refusal(tag: &str, what: &str, e: StoreError) -> (r: Vec<char>)
    ensures
        r@ == tag@ + what@ + e.reason_text() + "\r\n"@,
{
    let mut out: Vec<char> = Vec::new();
    push_str(&mut out, tag);
    push_str(&mut out, what);
    push_str(&mut out, e.reason());
    push_str(&mut out, "\r\n");
    out
}

/// What CREATE does: the response, the state, and the store after it.
pub open spec fn create_outcome(
    tag: Seq<char>,
    args: Seq<char>,
    state: IMAPState,
    before: crate::store::StoreView,
    after: crate::store::StoreView,
    r: Handled,
) -> bool {
    match (state.user(), list_of(args)) {
        (None, _) => refused_with(r, ImapError::BadState) && after == before,
        (Some(_), None) => refused_with(r, ImapError::BadArgument) && after == before,
        (Some(user), Some(t)) => if t.len() == 0 {
            refused_with(r, ImapError::MissingArgument) && after == before
        } else if mailbox_id_of(before.mailboxes, user, t[0]) is Some {
            after == before && handled_is(
                r,
                seq![
                    tag + " NO CREATE failed: "@ + StoreError::Conflict.reason_text()
                        + "\r\n"@,
                ],
                state,
                ResponseInfo::Regular,
            )
        } else if max_mailbox_id(before.mailboxes) >= i32::MAX {
            after == before && handled_is(
                r,
                seq![
                    tag + " NO CREATE failed: "@ + StoreError::Full.reason_text() + "\r\n"@,
                ],
                state,
                ResponseInfo::Regular,
            )
        } else {
            after.mailboxes == before.mailboxes.push(
                new_mailbox((max_mailbox_id(before.mailboxes) + 1) as i32, user, t[0]),
            ) && handled_is(
                r,
                seq![tag + " OK CREATE completed\r\n"@],
                state,
                ResponseInfo::Regular,
            )
        },
    }
}

impl IMAPOp for Create {
    /// Makes a mailbox of the given name for the user. The store refuses
    /// a name that the user has already.
    fn process(tag: &str, args: &str, state: IMAPState, db: &mut DBClient, now: Timestamp) -> (r:
        Handled)
        ensures
            final(db)@.users == old(db)@.users,
            final(db)@.mail == old(db)@.mail,
            final(db)@.changes == old(db)@.changes,
            create_outcome(tag@, args@, state, old(db)@, final(db)@, r),
    {
        let user = match state.user_id() {
            Some(u) => u,
            None => {
                return Err(ImapError::BadState);
            },
        };
        let t = match arguments(args) {
            Some(t) => t,
            None => {
                return Err(ImapError::BadArgument);
            },
        };
        if t.len() == 0 {
            return Err(ImapError::MissingArgument);
        }
        let name = chars_to_string(t[0].as_slice());
        match db.create_mailbox(user, name.as_str()) {
            Ok(()) => answer_line(tagged(tag, " OK CREATE completed\r\n"), state, ResponseInfo::Regular),
            Err(e) => answer_line(refusal(tag, " NO CREATE failed: ", e), state, ResponseInfo::Regular),
        }
    }
}

} // verus!
