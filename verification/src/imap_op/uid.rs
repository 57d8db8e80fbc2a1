//! UID.

use vstd::prelude::*;
use crate::database::DBClient;
use crate::dates::Timestamp;
use crate::imap::{refused_with, Handled, IMAPOp, IMAPState, ImapError};
use crate::imap_op::copy::{copy_or_uid, copy_outcome, move_or_uid, move_outcome};
use crate::imap_op::expunge::{expunge_or_uid, expunge_outcome};
use crate::imap_op::fetch::{fetch_or_uid, fetch_outcome};
use crate::imap_op::search::{search_or_uid, search_outcome};
use crate::imap_op::store::{store_or_uid, store_outcome};
use crate::scan::{split_once, split_once_char};
use crate::store::StoreView;
use crate::text::{chars_to_string, eq_lower, lower_seq, str_to_chars};

verus! {

pub struct Uid;

/// What UID does: what the command behind it does in UID mode.
pub open spec fn uid_outcome(
    tag: Seq<char>,
    args: Seq<char>,
    state: IMAPState,
    before: StoreView,
    after: StoreView,
    r: Handled,
) -> bool {
    match split_once(args, ' ') {
        None => after == before && refused_with(r, ImapError::MissingArgument),
        Some((command, rest)) => {
            let c = lower_seq(command);
            if c == "expunge"@ {
                expunge_outcome(tag, rest, state, before, after, r, true)
            } else if c == "search"@ {
                after == before && search_outcome(tag, rest, state, before, r, true)
            } else if c == "fetch"@ {
                after == before && fetch_outcome(tag, rest, state, before, r, true)
            } else if c == "store"@ {
                store_outcome(tag, rest, state, before, after, r, true)
            } else if c == "copy"@ {
                copy_outcome(tag, rest, state, before, after, r, true)
            } else if c == "move"@ {
                move_outcome(tag, rest, state, before, after, r, true)
            } else {
                after == before && refused_with(r, ImapError::UnknownCommand)
            }
        },
    }
}

impl IMAPOp for Uid {
    /// Runs `EXPUNGE`, `SEARCH`, `FETCH`, `STORE`, `COPY` or `MOVE` in UID
    /// mode.
    fn process(tag: &str, args: &str, state: IMAPState, db: &mut DBClient, now: Timestamp) -> (r:
        Handled)
        ensures
            final(db)@.users == old(db)@.users,
            final(db)@.mailboxes == old(db)@.mailboxes,
            uid_outcome(tag@, args@, state, old(db)@, final(db)@, r),
    {
        let chars = str_to_chars(args);
        let (command, rest) = match split_once_char(chars.as_slice(), ' ') {
            Some(p) => p,
            None => {
                return Err(ImapError::MissingArgument);
            },
        };
        let rest_text = chars_to_string(rest.as_slice());
        if eq_lower(command.as_slice(), "expunge") {
            expunge_or_uid(tag, rest_text.as_str(), state, db, true)
        } else if eq_lower(command.as_slice(), "search") {
            search_or_uid(tag, rest_text.as_str(), state, db, true)
        } else if eq_lower(command.as_slice(), "fetch") {
            fetch_or_uid(tag, rest_text.as_str(), state, db, true)
        } else if eq_lower(command.as_slice(), "store") {
            store_or_uid(tag, rest_text.as_str(), state, db, true)
        } else if eq_lower(command.as_slice(), "copy") {
            copy_or_uid(tag, rest_text.as_str(), state, db, true)
        } else if eq_lower(command.as_slice(), "move") {
            move_or_uid(tag, rest_text.as_str(), state, db, true)
        } else {
            Err(ImapError::UnknownCommand)
        }
    }
}

} // verus!
