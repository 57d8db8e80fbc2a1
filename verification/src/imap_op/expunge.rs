//! EXPUNGE and UID EXPUNGE.

use vstd::prelude::*;
use crate::database::DBClient;
use crate::dates::Timestamp;
use crate::imap::{
    answer, answer_line, handled_is, refused_with, tagged, Handled, IMAPOp, IMAPState, ImapError,
    ResponseInfo,
};
use crate::database::{expunge_marks, expunge_notices, expunge_reports};
use crate::scan::{split_once, split_once_char, words};
use crate::store::{without, StoreView};
use crate::text::{decimal, i32_of, parse_i32, push_i64, push_str, views};

verus! {

pub struct Expunge;

/// The UID range that the argument of UID EXPUNGE writes: `a:b` in either
/// order, or a single UID.
pub open spec fn uid_range_of(arg: Seq<char>) -> Option<(i32, i32)> {
    match split_once(arg, ':') {
        Some((a, b)) => match (i32_of(a), i32_of(b)) {
            (Some(x), Some(y)) => if x <= y {
                Some((x, y))
            } else {
                Some((y, x))
            },
            _ => None,
        },
        None => match i32_of(arg) {
            Some(x) => Some((x, x)),
            None => None,
        },
    }
}

pub fn parse_uid_range(arg: &[char]) -> (r: Option<(i32, i32)>)
    ensures
        r == uid_range_of(arg@),
{
    match split_once_char(arg, ':') {
        Some((a, b)) => match (parse_i32(a.as_slice()), parse_i32(b.as_slice())) {
            (Some(x), Some(y)) => if x <= y {
                Some((x, y))
            } else {
                Some((y, x))
            },
            _ => None,
        },
        None => match parse_i32(arg) {
            Some(x) => Some((x, x)),
            None => None,
        },
    }
}

/// The line that reports one expunged message.
pub open spec fn expunge_line(seqnum: i32) -> Seq<char> {
    "* "@ + decimal(seqnum as int) + " EXPUNGE\r\n"@
}

/// The lines of an EXPUNGE response for the reported sequence numbers.
pub open spec fn expunge_lines(tag: Seq<char>, reports: Seq<i32>) -> Seq<Seq<char>> {
    Seq::new(reports.len(), |i: int| expunge_line(reports[i])).push(
        tag + " OK EXPUNGE completed\r\n"@,
    )
}

/// The line that refuses an EXPUNGE of a mailbox selected read-only.
pub open spec fn read_only_line(tag: Seq<char>) -> Seq<char> {
    tag + " NO EXPUNGE failed: mailbox is read-only\r\n"@
}

/// What EXPUNGE, or UID EXPUNGE (`uid`), does: the response, the state,
/// and the store after it.
pub open spec fn expunge_outcome(
    tag: Seq<char>,
    args: Seq<char>,
    state: IMAPState,
    before: StoreView,
    after: StoreView,
    r: Handled,
    uid: bool,
) -> bool {
    match state {
        IMAPState::Selected(s) => if s.read_only {
            after == before && handled_is(
                r,
                seq![read_only_line(tag)],
                state,
                ResponseInfo::Regular,
            )
        } else {
            let first = if words(args).len() > 0 {
                uid_range_of(words(args)[0])
            } else {
                None
            };
            if uid && words(args).len() == 0 {
                after == before && refused_with(r, ImapError::MissingArgument)
            } else if uid && first is None {
                after == before && refused_with(r, ImapError::BadArgument)
            } else {
                let range = if uid {
                    first
                } else {
                    None
                };
                let marks = expunge_marks(before.mail, s.mailbox_id, range);
                let reports = expunge_reports(before.mail, marks, before.mail.len() as int);
                &&& after.mail == without(before.mail, marks, before.mail.len() as int)
                &&& after.changes == before.changes + expunge_notices(reports)
                &&& handled_is(r, expunge_lines(tag, reports), state, ResponseInfo::Regular)
            }
        },
        _ => after == before && refused_with(r, ImapError::BadState),
    }
}

/// Removes the deleted messages of the selected mailbox, within the given
/// UID range in UID mode, and reports each.
pub fn expunge_or_uid(tag: &str, args: &str, state: IMAPState, db: &mut DBClient, uid: bool) -> (r:
    Handled)
    requires
        old(db).wf(),
    ensures
        final(db).wf(),
        final(db)@.users == old(db)@.users,
        final(db)@.mailboxes == old(db)@.mailboxes,
        expunge_outcome(tag@, args@, state, old(db)@, final(db)@, r, uid),
{
    let selected = match state {
        IMAPState::Selected(s) => s,
        _ => {
            return Err(ImapError::BadState);
        },
    };
    if selected.read_only {
        return answer_line(
            tagged(tag, " NO EXPUNGE failed: mailbox is read-only\r\n"),
            state,
            ResponseInfo::Regular,
        );
    }
    let range = if uid {
        let chars = crate::text::str_to_chars(args);
        let w = crate::scan::split_words(chars.as_slice());
        if w.len() == 0 {
            return Err(ImapError::MissingArgument);
        }
        match parse_uid_range(w[0].as_slice()) {
            Some(p) => Some(p),
            None => {
                return Err(ImapError::BadArgument);
            },
        }
    } else {
        None
    };
    let reports = db.expunge(selected.mailbox_id, range);
    let mut texts: Vec<Vec<char>> = Vec::new();
    let mut i: usize = 0;
    while i < reports.len()
        invariant
            i <= reports.len(),
            texts@.len() == i,
            forall|j: int| 0 <= j < i ==> texts@[j]@ == expunge_line(reports@[j]),
        decreases reports.len() - i,
    {
        let mut line: Vec<char> = Vec::new();
        push_str(&mut line, "* ");
        push_i64(&mut line, reports[i] as i64);
        push_str(&mut line, " EXPUNGE\r\n");
        assert(line@ =~= expunge_line(reports@[i as int]));
        texts.push(line);
        i += 1;
    }
    texts.push(tagged(tag, " OK EXPUNGE completed\r\n"));
    assert(views(texts@) =~= expunge_lines(tag@, reports@));
    answer(texts, state, ResponseInfo::Regular)
}

impl IMAPOp for Expunge {
    /// Removes the deleted messages of the selected mailbox.
    fn process(tag: &str, args: &str, state: IMAPState, db: &mut DBClient, now: Timestamp) -> (r:
        Handled)
        ensures
            final(db)@.users == old(db)@.users,
            final(db)@.mailboxes == old(db)@.mailboxes,
            expunge_outcome(tag@, args@, state, old(db)@, final(db)@, r, false),
    {
        expunge_or_uid(tag, args, state, db, false)
    }
}

} // verus!
