//! LOGIN.

use vstd::prelude::*;
use crate::database::{login_of, DBClient};
use crate::dates::Timestamp;
use crate::imap::{
    answer_line, arguments, handled_is, refused_with, tagged, Handled, IMAPOp, IMAPState,
    ImapError, ResponseInfo,
};
use crate::parsing::imap::list_of;
use crate::store::StoreView;
use crate::text::chars_to_string;

verus! {

pub struct Login;

/// What LOGIN does: the response and the state; the store stays as it
/// is.
pub open spec fn login_outcome(
    tag: Seq<char>,
    args: Seq<char>,
    state: IMAPState,
    db: StoreView,
    r: Handled,
) -> bool {
    if state != IMAPState::NotAuthed {
        refused_with(r, ImapError::BadState)
    } else {
        match list_of(args) {
            Some(t) => if t.len() < 2 {
                refused_with(r, ImapError::MissingArgument)
            } else {
                match login_of(db.users, t[0], t[1]) {
                    Some(id) => handled_is(
                        r,
                        seq![tag + " OK LOGIN COMPLETED\r\n"@],
                        IMAPState::Authed(id),
                        ResponseInfo::Regular,
                    ),
                    None => handled_is(
                        r,
                        seq![tag + " NO LOGIN INVALID\r\n"@],
                        state,
                        ResponseInfo::Regular,
                    ),
                }
            },
            None => refused_with(r, ImapError::BadArgument),
        }
    }
}

impl IMAPOp for Login {
    /// Logs in with a user name and a password, each quoted or bare. The
    /// session must not be logged in yet.
    fn process(tag: &str, args: &str, state: IMAPState, db: &mut DBClient, now: Timestamp) -> (r:
        Handled)
        ensures
            final(db)@ == old(db)@,
            login_outcome(tag@, args@, state, old(db)@, r),
    {
        match state {
            IMAPState::NotAuthed => {},
            _ => {
                return Err(ImapError::BadState);
            },
        }
        let t = match arguments(args) {
            Some(t) => t,
            None => {
                return Err(ImapError::BadArgument);
            },
        };
        if t.len() < 2 {
            return Err(ImapError::MissingArgument);
        }
        let username = chars_to_string(t[0].as_slice());
        let password = chars_to_string(t[1].as_slice());
        match db.check_user(username.as_str(), password.as_str()) {
            Some(id) => answer_line(
                tagged(tag, " OK LOGIN COMPLETED\r\n"),
                IMAPState::Authed(id),
                ResponseInfo::Regular,
            ),
            None => answer_line(tagged(tag, " NO LOGIN INVALID\r\n"), state, ResponseInfo::Regular),
        }
    }
}

} // verus!
