//! CAPABILITY.

use vstd::prelude::*;
use crate::database::DBClient;
use crate::dates::Timestamp;
use crate::imap::{answer, fixed, handled_is, tagged, Handled, IMAPOp, IMAPState, ResponseInfo};

verus! {

pub struct Capability;

/// What the server can do.
pub const CAPABILITY: &'static str = "* CAPABILITY IMAP4rev2 STARTTLS IMAP4rev1 AUTH=PLAIN\r\n";

impl IMAPOp for Capability {
    /// Lists the capabilities, in any state.
    fn process(tag: &str, args: &str, state: IMAPState, db: &mut DBClient, now: Timestamp) -> (r:
        Handled)
        ensures
            final(db)@ == old(db)@,
            handled_is(
                r,
                seq![CAPABILITY@, tag@ + " OK CAPABILITY completed\r\n"@],
                state,
                ResponseInfo::Regular,
            ),
    {
        let mut texts: Vec<Vec<char>> = Vec::new();
        texts.push(fixed(CAPABILITY));
        texts.push(tagged(tag, " OK CAPABILITY completed\r\n"));
        assert(crate::text::views(texts@) =~= seq![
            CAPABILITY@,
            tag@ + " OK CAPABILITY completed\r\n"@,
        ]);
        answer(texts, state, ResponseInfo::Regular)
    }
}

} // verus!
