//! NAMESPACE.

use vstd::prelude::*;
use crate::database::DBClient;
use crate::dates::Timestamp;
use crate::imap::{
    answer_lines, fixed, handled_is, refused_with, tagged, Handled, IMAPOp, IMAPState, ImapError,
    ResponseInfo,
};

verus! {

pub struct Namespace;

/// The one personal namespace, with `/` between the levels of a name.
pub const NAMESPACE: &'static str = "* NAMESPACE ((\"\" \"/\")) NIL NIL\r\n";

impl IMAPOp for Namespace {
    /// Names the namespaces, once logged in.
    fn process(tag: &str, args: &str, state: IMAPState, db: &mut DBClient, now: Timestamp) -> (r:
        Handled)
        ensures
            final(db)@ == old(db)@,
            if state.user() is Some {
                handled_is(
                    r,
                    seq![NAMESPACE@, tag@ + " OK NAMESPACE completed\r\n"@],
                    state,
                    ResponseInfo::Regular,
                )
            } else {
                refused_with(r, ImapError::BadState)
            },
    {
        if state.user_id().is_none() {
            return Err(ImapError::BadState);
        }
        answer_lines(
            fixed(NAMESPACE),
            tagged(tag, " OK NAMESPACE completed\r\n"),
            state,
            ResponseInfo::Regular,
        )
    }
}

} // verus!
