//! LIST.

use vstd::prelude::*;
use crate::database::DBClient;
use crate::dates::Timestamp;
use crate::imap::{
    answer, arguments, handled_is, refused_with, tagged, Handled, IMAPOp, IMAPState, ImapError,
    ResponseInfo,
};
use crate::database::{names_of, new_mailbox};
use crate::store::max_mailbox_id;
use crate::text::{push_str, views};

verus! {

pub struct List;

/// The line that lists one mailbox.
pub open spec fn list_line(name: Seq<char>) -> Seq<char> {
    "* LIST () \"/\" "@ + name + "\r\n"@
}

/// The lines of a LIST response for the given names.
pub open spec fn list_lines(tag: Seq<char>, names: Seq<Seq<char>>) -> Seq<Seq<char>> {
    Seq::new(names.len(), |i: int| list_line(names[i])).push(tag + " OK LIST completed\r\n"@)
}

/// What LIST does: the response, the state, and the store after it.
pub open spec fn list_outcome(
    tag: Seq<char>,
    args: Seq<char>,
    state: IMAPState,
    before: crate::store::StoreView,
    after: crate::store::StoreView,
    r: Handled,
) -> bool {
    match state.user() {
        None => refused_with(r, ImapError::BadState) && after == before,
        Some(user) => {
            let names = names_of(
                before.mailboxes,
                user,
                before.mailboxes.len() as int,
            );
            if names.len() > 0 {
                after == before && handled_is(
                    r,
                    list_lines(tag, names),
                    state,
                    ResponseInfo::Regular,
                )
            } else if max_mailbox_id(before.mailboxes) < i32::MAX {
                after.mailboxes == before.mailboxes.push(
                    new_mailbox(
                        (max_mailbox_id(before.mailboxes) + 1) as i32,
                        user,
                        "INBOX"@,
                    ),
                ) && handled_is(
                    r,
                    list_lines(tag, seq!["INBOX"@]),
                    state,
                    ResponseInfo::Regular,
                )
            } else {
                after == before && refused_with(r, ImapError::StoreFailure)
            }
        },
    }
}

impl IMAPOp for List {
    /// Lists every mailbox of the user, whatever the arguments. A user
    /// without mailboxes gets `INBOX`, which is made.
    fn process(tag: &str, args: &str, state: IMAPState, db: &mut DBClient, now: Timestamp) -> (r:
        Handled)
        ensures
            final(db)@.users == old(db)@.users,
            final(db)@.mail == old(db)@.mail,
            final(db)@.changes == old(db)@.changes,
            list_outcome(tag@, args@, state, old(db)@, final(db)@, r),
    {
        let user = match state.user_id() {
            Some(u) => u,
            None => {
                return Err(ImapError::BadState);
            },
        };
        let names = match db.get_mailbox_names_for_user(user) {
            Some(n) => n,
            None => {
                return Err(ImapError::StoreFailure);
            },
        };
        let mut texts: Vec<Vec<char>> = Vec::new();
        let mut i: usize = 0;
        while i < names.len()
            invariant
                i <= names.len(),
                texts@.len() == i,
                forall|j: int| 0 <= j < i ==> texts@[j]@ == list_line(names@[j]@),
            decreases names.len() - i,
        {
            let mut line: Vec<char> = Vec::new();
            push_str(&mut line, "* LIST () \"/\" ");
            push_str(&mut line, names[i].as_str());
            push_str(&mut line, "\r\n");
            texts.push(line);
            i += 1;
        }
        texts.push(tagged(tag, " OK LIST completed\r\n"));
        assert(views(texts@) =~= list_lines(tag@, crate::text::string_views(names@)));
        answer(texts, state, ResponseInfo::Regular)
    }
}

} // verus!
