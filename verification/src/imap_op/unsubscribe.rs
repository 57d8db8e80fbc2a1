//! UNSUBSCRIBE.

use vstd::prelude::*;
use crate::database::DBClient;
use crate::dates::Timestamp;
use crate::imap::{Handled, IMAPOp, IMAPState};
use crate::imap_op::subscribe::{subscribe_or_unsubsribe, subscribe_outcome};

verus! {

pub struct Unsubscribe;

impl IMAPOp for Unsubscribe {
    /// Ends the user's subscription to the mailbox.
    fn process(tag: &str, args: &str, state: IMAPState, db: &mut DBClient, now: Timestamp) -> (r:
        Handled)
        ensures
            final(db)@.users == old(db)@.users,
            final(db)@.mail == old(db)@.mail,
            final(db)@.changes == old(db)@.changes,
            subscribe_outcome(tag@, args@, state, old(db)@, final(db)@, r, false),
    {
        subscribe_or_unsubsribe(tag, args, state, db, false)
    }
}

} // verus!
