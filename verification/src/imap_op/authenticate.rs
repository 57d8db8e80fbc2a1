//! AUTHENTICATE.

use vstd::prelude::*;
use crate::database::DBClient;
use crate::dates::Timestamp;
use crate::imap::{
    answer_line, fixed, handled_is, refused_with, tagged, Handled, IMAPOp, IMAPState, ImapError,
    ResponseInfo,
};
use crate::database::login_of;
use crate::scan::{split_words, words};
use crate::store::StoreView;
use crate::text::{chars_to_string, eq_lower, lower_seq, str_to_chars};
use crate::utils::{base64_decode, base64_decoded, login_in, seperate_login};

verus! {

pub struct Authenticate;

/// The empty continuation that asks for the credentials.
pub const CHALLENGE: &'static str = "+\r\n";

/// What AUTHENTICATE answers once the payload was decoded, or could not
/// be: the response and the state.
pub open spec fn authenticated(
    tag: Seq<char>,
    decoded: Option<Seq<u8>>,
    db: StoreView,
    r: Handled,
) -> bool {
    match decoded {
        None => handled_is(
            r,
            seq![tag + " BAD INVALID BASE64\r\n"@],
            IMAPState::NotAuthed,
            ResponseInfo::Regular,
        ),
        Some(bytes) => match login_in(bytes) {
            None => refused_with(r, ImapError::BadArgument),
            Some((user, password)) => match login_of(db.users, user, password) {
                Some(id) => handled_is(
                    r,
                    seq![tag + " OK Success\r\n"@],
                    IMAPState::Authed(id),
                    ResponseInfo::Regular,
                ),
                None => handled_is(
                    r,
                    seq![tag + " NO Invalid Credentials\r\n"@],
                    IMAPState::NotAuthed,
                    ResponseInfo::Regular,
                ),
            },
        },
    }
}

/// What AUTHENTICATE does; the store stays as it is.
pub open spec fn authenticate_outcome(
    tag: Seq<char>,
    args: Seq<char>,
    state: IMAPState,
    db: StoreView,
    r: Handled,
) -> bool {
    if state != IMAPState::NotAuthed {
        refused_with(r, ImapError::BadState)
    } else {
        let w = words(args);
        if w.len() == 0 {
            refused_with(r, ImapError::MissingArgument)
        } else if lower_seq(w[0]) != "plain"@ {
            handled_is(
                r,
                seq![tag + " BAD Unsupported Authentication Mechanism\r\n"@],
                state,
                ResponseInfo::Regular,
            )
        } else if w.len() == 1 {
            handled_is(r, seq![CHALLENGE@], state, ResponseInfo::RedoForNextMsg)
        } else {
            authenticated(tag, base64_decoded(w[1]), db, r)
        }
    }
}

/// Answers an AUTHENTICATE PLAIN whose payload was decoded, or could not
/// be.
pub fn finish_authenticate(tag: &str, decoded: Option<Vec<u8>>, db: &DBClient) -> (r: Handled)
    ensures
        authenticated(
            tag@,
            match decoded {
                Some(b) => Some(b@),
                None => None,
            },
            db@,
            r,
        ),
{
    match decoded {
        None => answer_line(
            tagged(tag, " BAD INVALID BASE64\r\n"),
            IMAPState::NotAuthed,
            ResponseInfo::Regular,
        ),
        Some(bytes) => match seperate_login(bytes) {
            None => Err(ImapError::BadArgument),
            Some((user, password)) => match db.check_user(user.as_str(), password.as_str()) {
                Some(id) => answer_line(
                    tagged(tag, " OK Success\r\n"),
                    IMAPState::Authed(id),
                    ResponseInfo::Regular,
                ),
                None => answer_line(
                    tagged(tag, " NO Invalid Credentials\r\n"),
                    IMAPState::NotAuthed,
                    ResponseInfo::Regular,
                ),
            },
        },
    }
}

impl IMAPOp for Authenticate {
    /// Logs in by the PLAIN mechanism: the payload is base64 of a zero
    /// byte, the user name, a zero byte and the password. Without a
    /// payload the handler asks for it and is run again with it.
    fn process(tag: &str, args: &str, state: IMAPState, db: &mut DBClient, now: Timestamp) -> (r:
        Handled)
        ensures
            final(db)@ == old(db)@,
            authenticate_outcome(tag@, args@, state, old(db)@, r),
    {
        match state {
            IMAPState::NotAuthed => {},
            _ => {
                return Err(ImapError::BadState);
            },
        }
        let chars = str_to_chars(args);
        let w = split_words(chars.as_slice());
        if w.len() == 0 {
            return Err(ImapError::MissingArgument);
        }
        if !eq_lower(w[0].as_slice(), "plain") {
            return answer_line(
                tagged(tag, " BAD Unsupported Authentication Mechanism\r\n"),
                state,
                ResponseInfo::Regular,
            );
        }
        if w.len() == 1 {
            return answer_line(fixed(CHALLENGE), state, ResponseInfo::RedoForNextMsg);
        }
        let payload = chars_to_string(w[1].as_slice());
        finish_authenticate(tag, base64_decode(payload.as_str()), db)
    }
}

} // verus!
