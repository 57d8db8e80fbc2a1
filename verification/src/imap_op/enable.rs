//! ENABLE.

use vstd::prelude::*;
use crate::database::DBClient;
use crate::dates::Timestamp;
use crate::imap::{answer_line, handled_is, tagged, Handled, IMAPOp, IMAPState, ResponseInfo};

verus! {

pub struct Enable;

impl IMAPOp for Enable {
    /// Refuses: no extension can be enabled.
    fn process(tag: &str, args: &str, state: IMAPState, db: &mut DBClient, now: Timestamp) -> (r:
        Handled)
        ensures
            final(db)@ == old(db)@,
            handled_is(
                r,
                seq![tag@ + " BAD NO EXTENSIONS SUPPORTED\r\n"@],
                state,
                ResponseInfo::Regular,
            ),
    {
        answer_line(tagged(tag, " BAD NO EXTENSIONS SUPPORTED\r\n"), state, ResponseInfo::Regular)
    }
}

} // verus!
