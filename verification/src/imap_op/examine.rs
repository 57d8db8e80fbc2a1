//! EXAMINE.

use vstd::prelude::*;
use crate::database::DBClient;
use crate::dates::Timestamp;
use crate::imap::{Handled, IMAPOp, IMAPState};
use crate::imap_op::select::{select_or_examine, select_outcome};

verus! {

pub struct Examine;

impl IMAPOp for Examine {
    /// Opens a mailbox read-only.
    fn process(tag: &str, args: &str, state: IMAPState, db: &mut DBClient, now: Timestamp) -> (r:
        Handled)
        ensures
            final(db)@.users == old(db)@.users,
            final(db)@.mail == old(db)@.mail,
            final(db)@.changes == old(db)@.changes,
            select_outcome(tag@, args@, state, old(db)@, final(db)@, now, r, false),
    {
        select_or_examine(tag, args, state, db, now, false)
    }
}

} // verus!
