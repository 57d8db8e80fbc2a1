//! UNSELECT.

use vstd::prelude::*;
use crate::database::DBClient;
use crate::dates::Timestamp;
use crate::imap::{Handled, IMAPOp, IMAPState};
use crate::imap_op::close::{close_or_unselect, close_outcome};

verus! {

pub struct Unselect;

impl IMAPOp for Unselect {
    /// Leaves the selected mailbox and removes nothing.
    fn process(tag: &str, args: &str, state: IMAPState, db: &mut DBClient, now: Timestamp) -> (r:
        Handled)
        ensures
            final(db)@ == old(db)@,
            close_outcome(tag@, state, old(db)@, final(db)@, r, false),
    {
        close_or_unselect(tag, args, state, db, false)
    }
}

} // verus!
