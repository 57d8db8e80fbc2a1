//! STARTTLS.

use vstd::prelude::*;
use crate::database::DBClient;
use crate::dates::Timestamp;
use crate::imap::{answer_line, handled_is, tagged, Handled, IMAPOp, IMAPState, ResponseInfo};

verus! {

pub struct StartTls;

impl IMAPOp for StartTls {
    /// Agrees to the upgrade, in any state; the session upgrades the
    /// transport after it has written the response.
    fn process(tag: &str, args: &str, state: IMAPState, db: &mut DBClient, now: Timestamp) -> (r:
        Handled)
        ensures
            final(db)@ == old(db)@,
            handled_is(
                r,
                seq![tag@ + " OK Begin TLS negotiation now\r\n"@],
                state,
                ResponseInfo::PromoteToTls,
            ),
    {
        answer_line(
            tagged(tag, " OK Begin TLS negotiation now\r\n"),
            state,
            ResponseInfo::PromoteToTls,
        )
    }
}

} // verus!
