//! IDLE.

use vstd::prelude::*;
use crate::database::DBClient;
use crate::dates::Timestamp;
use crate::imap::{
    answer_line, arguments, fixed, handled_is, refused_with, tagged, Handled, IMAPOp, IMAPState,
    ImapError, ResponseInfo,
};

verus! {

pub struct Idle;

/// The continuation that starts the wait.
pub const IDLING: &'static str = "+ idling\r\n";

impl IMAPOp for Idle {
    /// Starts the wait for notifications, once logged in. With arguments
    /// the wait is over at once.
    fn process(tag: &str, args: &str, state: IMAPState, db: &mut DBClient, now: Timestamp) -> (r:
        Handled)
        ensures
            final(db)@ == old(db)@,
            if state.user() is None {
                refused_with(r, ImapError::BadState)
            } else if args@.len() == 0 {
                handled_is(r, seq![IDLING@], state, ResponseInfo::Idle)
            } else {
                handled_is(
                    r,
                    seq![tag@ + " OK IDLE terminated\r\n"@],
                    state,
                    ResponseInfo::Regular,
                )
            },
    {
        if state.user_id().is_none() {
            return Err(ImapError::BadState);
        }
        if args.is_empty() {
            answer_line(fixed(IDLING), state, ResponseInfo::Idle)
        } else {
            answer_line(tagged(tag, " OK IDLE terminated\r\n"), state, ResponseInfo::Regular)
        }
    }
}

} // verus!
