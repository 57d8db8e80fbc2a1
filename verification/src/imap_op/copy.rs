//! COPY and MOVE, and their UID forms.

use vstd::prelude::*;
use crate::database::{
    exists_notices, expunge_notices, expunge_reports, fetched, mailbox_id_of, meant, move_marks,
    with_copies, DBClient, StoreError,
};
use crate::dates::Timestamp;
use crate::imap::{
    answer, answer_line, arguments, handled_is, refused_with, tagged, Handled, IMAPOp, IMAPState,
    ImapError, ResponseInfo,
};
use crate::imap_op::create::refusal;
use crate::imap_op::expunge::expunge_line;
use crate::imap_op::search::{sequence_set_of, SequenceSet};
use crate::parsing::imap::list_of;
use crate::store::{max_uid, without, StoreView};
use crate::text::{chars_to_string, push_i64, push_str, views};

verus! {

pub struct CopyMail;

pub struct MoveMail;

/// What COPY, or UID COPY (`uid`), does: the response, the state, and the
/// store after it. The arguments are a sequence set and the name of the
/// mailbox that takes the copies.
pub open spec fn copy_outcome(
    tag: Seq<char>,
    args: Seq<char>,
    state: IMAPState,
    before: StoreView,
    after: StoreView,
    r: Handled,
    uid: bool,
) -> bool {
    match state {
        IMAPState::Selected(s) => match list_of(args) {
            None => after == before && refused_with(r, ImapError::BadArgument),
            Some(t) => if t.len() < 2 {
                after == before && refused_with(r, ImapError::MissingArgument)
            } else {
                match (sequence_set_of(t[0]), mailbox_id_of(before.mailboxes, s.user_id, t[1])) {
                    (None, _) => after == before && refused_with(r, ImapError::BadArgument),
                    (Some(_), None) => after == before && handled_is(
                        r,
                        seq![
                            tag + " NO COPY failed: "@ + StoreError::NoSuchMailbox.reason_text()
                                + "\r\n"@,
                        ],
                        state,
                        ResponseInfo::Regular,
                    ),
                    (Some(written), Some(target)) => {
                        let set = meant(written, before.mail, s.mailbox_id, uid);
                        let rows = fetched(
                            before.mail,
                            set,
                            uid,
                            s.mailbox_id,
                            before.mail.len() as int,
                        );
                        if max_uid(before.mail) + rows.len() > i32::MAX {
                            after == before && handled_is(
                                r,
                                seq![
                                    tag + " NO COPY failed: "@ + StoreError::Full.reason_text()
                                        + "\r\n"@,
                                ],
                                state,
                                ResponseInfo::Regular,
                            )
                        } else {
                            &&& after.mail == with_copies(
                                before.mail,
                                rows,
                                target,
                                rows.len() as int,
                            )
                            &&& after.changes == before.changes + exists_notices(rows.len() as int)
                            &&& handled_is(
                                r,
                                seq![tag + " OK COPY completed\r\n"@],
                                state,
                                ResponseInfo::Regular,
                            )
                        }
                    },
                }
            },
        },
        _ => after == before && refused_with(r, ImapError::BadState),
    }
}

/// The lines of a MOVE response for the reported sequence numbers.
pub open spec fn move_lines(tag: Seq<char>, reports: Seq<i32>) -> Seq<Seq<char>> {
    Seq::new(reports.len(), |i: int| expunge_line(reports[i])).push(tag + " OK MOVE completed\r\n"@)
}

/// What MOVE, or UID MOVE (`uid`), does: the response, the state, and the
/// store after it. The messages are copied and then taken out of the
/// selected mailbox, which must not be read-only.
pub open spec fn move_outcome(
    tag: Seq<char>,
    args: Seq<char>,
    state: IMAPState,
    before: StoreView,
    after: StoreView,
    r: Handled,
    uid: bool,
) -> bool {
    match state {
        IMAPState::Selected(s) => if s.read_only {
            after == before && handled_is(
                r,
                seq![tag + " NO MOVE failed: mailbox is read-only\r\n"@],
                state,
                ResponseInfo::Regular,
            )
        } else {
            match list_of(args) {
                None => after == before && refused_with(r, ImapError::BadArgument),
                Some(t) => if t.len() < 2 {
                    after == before && refused_with(r, ImapError::MissingArgument)
                } else {
                    match (
                        sequence_set_of(t[0]),
                        mailbox_id_of(before.mailboxes, s.user_id, t[1]),
                    ) {
                        (None, _) => after == before && refused_with(r, ImapError::BadArgument),
                        (Some(_), None) => after == before && handled_is(
                            r,
                            seq![
                                tag + " NO MOVE failed: "@
                                    + StoreError::NoSuchMailbox.reason_text() + "\r\n"@,
                            ],
                            state,
                            ResponseInfo::Regular,
                        ),
                        (Some(written), Some(target)) => {
                            let n = before.mail.len() as int;
                            let set = meant(written, before.mail, s.mailbox_id, uid);
                            let rows = fetched(before.mail, set, uid, s.mailbox_id, n);
                            if max_uid(before.mail) + rows.len() > i32::MAX {
                                after == before && handled_is(
                                    r,
                                    seq![
                                        tag + " NO MOVE failed: "@ + StoreError::Full.reason_text()
                                            + "\r\n"@,
                                    ],
                                    state,
                                    ResponseInfo::Regular,
                                )
                            } else {
                                let copied = with_copies(
                                    before.mail,
                                    rows,
                                    target,
                                    rows.len() as int,
                                );
                                let marks = move_marks(copied, n, set, uid, s.mailbox_id);
                                let reports = expunge_reports(copied, marks, copied.len() as int);
                                &&& after.mail == without(copied, marks, copied.len() as int)
                                &&& after.changes == before.changes + exists_notices(
                                    rows.len() as int,
                                ) + expunge_notices(reports)
                                &&& handled_is(
                                    r,
                                    move_lines(tag, reports),
                                    state,
                                    ResponseInfo::Regular,
                                )
                            }
                        },
                    }
                }
            }
        },
        _ => after == before && refused_with(r, ImapError::BadState),
    }
}

/// Copies the messages that the sequence set picks in the selected
/// mailbox, by UID in UID mode, into another mailbox of the user.
pub fn copy_or_uid(tag: &str, args: &str, state: IMAPState, db: &mut DBClient, uid: bool) -> (r:
    Handled)
    requires
        old(db).wf(),
    ensures
        final(db).wf(),
        final(db)@.users == old(db)@.users,
        final(db)@.mailboxes == old(db)@.mailboxes,
        copy_outcome(tag@, args@, state, old(db)@, final(db)@, r, uid),
{
    let selected = match state {
        IMAPState::Selected(s) => s,
        _ => {
            return Err(ImapError::BadState);
        },
    };
    let t = match arguments(args) {
        Some(t) => t,
        None => {
            return Err(ImapError::BadArgument);
        },
    };
    if t.len() < 2 {
        return Err(ImapError::MissingArgument);
    }
    let set = match SequenceSet::from_chars(t[0].as_slice()) {
        Some(set) => set,
        None => {
            return Err(ImapError::BadArgument);
        },
    };
    let name = chars_to_string(t[1].as_slice());
    let target = match db.lookup_mailbox_id(selected.user_id, name.as_str()) {
        Some(id) => id,
        None => {
            return answer_line(
                refusal(tag, " NO COPY failed: ", StoreError::NoSuchMailbox),
                state,
                ResponseInfo::Regular,
            );
        },
    };
    match db.copy_messages(selected.mailbox_id, &set, uid, target) {
        Ok(_) => answer_line(tagged(tag, " OK COPY completed\r\n"), state, ResponseInfo::Regular),
        Err(e) => answer_line(refusal(tag, " NO COPY failed: ", e), state, ResponseInfo::Regular),
    }
}

/// Moves the messages that the sequence set picks in the selected
/// mailbox, by UID in UID mode, into another mailbox of the user, and
/// reports each as expunged.
pub fn move_or_uid(tag: &str, args: &str, state: IMAPState, db: &mut DBClient, uid: bool) -> (r:
    Handled)
    requires
        old(db).wf(),
    ensures
        final(db).wf(),
        final(db)@.users == old(db)@.users,
        final(db)@.mailboxes == old(db)@.mailboxes,
        move_outcome(tag@, args@, state, old(db)@, final(db)@, r, uid),
{
    let selected = match state {
        IMAPState::Selected(s) => s,
        _ => {
            return Err(ImapError::BadState);
        },
    };
    if selected.read_only {
        return answer_line(
            tagged(tag, " NO MOVE failed: mailbox is read-only\r\n"),
            state,
            ResponseInfo::Regular,
        );
    }
    let t = match arguments(args) {
        Some(t) => t,
        None => {
            return Err(ImapError::BadArgument);
        },
    };
    if t.len() < 2 {
        return Err(ImapError::MissingArgument);
    }
    let set = match SequenceSet::from_chars(t[0].as_slice()) {
        Some(set) => set,
        None => {
            return Err(ImapError::BadArgument);
        },
    };
    let name = chars_to_string(t[1].as_slice());
    let target = match db.lookup_mailbox_id(selected.user_id, name.as_str()) {
        Some(id) => id,
        None => {
            return answer_line(
                refusal(tag, " NO MOVE failed: ", StoreError::NoSuchMailbox),
                state,
                ResponseInfo::Regular,
            );
        },
    };
    match db.move_messages(selected.mailbox_id, &set, uid, target) {
        Ok(reports) => {
            let mut texts: Vec<Vec<char>> = Vec::new();
            let mut i: usize = 0;
            while i < reports.len()
                invariant
                    i <= reports.len(),
                    texts@.len() == i,
                    forall|j: int| 0 <= j < i ==> texts@[j]@ == expunge_line(reports@[j]),
                decreases reports.len() - i,
            {
                let mut line: Vec<char> = Vec::new();
                push_str(&mut line, "* ");
                push_i64(&mut line, reports[i] as i64);
                push_str(&mut line, " EXPUNGE\r\n");
                assert(line@ =~= expunge_line(reports@[i as int]));
                texts.push(line);
                i += 1;
            }
            texts.push(tagged(tag, " OK MOVE completed\r\n"));
            assert(views(texts@) =~= move_lines(tag@, reports@));
            answer(texts, state, ResponseInfo::Regular)
        },
        Err(e) => answer_line(refusal(tag, " NO MOVE failed: ", e), state, ResponseInfo::Regular),
    }
}

impl IMAPOp for CopyMail {
    /// Copies messages picked by sequence number.
    fn process(tag: &str, args: &str, state: IMAPState, db: &mut DBClient, now: Timestamp) -> (r:
        Handled)
        ensures
            final(db)@.users == old(db)@.users,
            final(db)@.mailboxes == old(db)@.mailboxes,
            copy_outcome(tag@, args@, state, old(db)@, final(db)@, r, false),
    {
        copy_or_uid(tag, args, state, db, false)
    }
}

impl IMAPOp for MoveMail {
    /// Moves messages picked by sequence number.
    fn process(tag: &str, args: &str, state: IMAPState, db: &mut DBClient, now: Timestamp) -> (r:
        Handled)
        ensures
            final(db)@.users == old(db)@.users,
            final(db)@.mailboxes == old(db)@.mailboxes,
            move_outcome(tag@, args@, state, old(db)@, final(db)@, r, false),
    {
        move_or_uid(tag, args, state, db, false)
    }
}

} // verus!
