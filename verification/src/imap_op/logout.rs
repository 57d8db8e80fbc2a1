//! LOGOUT.

use vstd::prelude::*;
use crate::database::DBClient;
use crate::dates::Timestamp;
use crate::imap::{
    answer_lines, fixed, handled_is, tagged, Handled, IMAPOp, IMAPState, ResponseInfo,
};

verus! {

pub struct Logout;

/// The farewell.
pub const BYE: &'static str = "* BYE IMAP4rev2 Server logging out\r\n";

impl IMAPOp for Logout {
    /// Ends the session, in any state.
    fn process(tag: &str, args: &str, state: IMAPState, db: &mut DBClient, now: Timestamp) -> (r:
        Handled)
        ensures
            final(db)@ == old(db)@,
            handled_is(
                r,
                seq![BYE@, tag@ + " OK LOGOUT completed\r\n"@],
                IMAPState::Logout,
                ResponseInfo::Regular,
            ),
    {
        answer_lines(
            fixed(BYE),
            tagged(tag, " OK LOGOUT completed\r\n"),
            IMAPState::Logout,
            ResponseInfo::Regular,
        )
    }
}

} // verus!
