//! SELECT and EXAMINE.

use vstd::prelude::*;
use crate::database::DBClient;
use crate::dates::Timestamp;
use crate::imap::{
    answer, answer_line, fixed, handled_is, refused_with, tagged, Handled, IMAPOp, IMAPState,
    ImapError, ResponseInfo, SelectedState,
};
use crate::database::{got_mailbox_id, mailboxes_after_get};
use crate::imap_op::create::refusal;
use crate::scan::{split_words, words};
use crate::store::{mailbox_count, max_uid, StoreView};
use crate::text::{
    decimal, push_chars, push_i64, push_str, str_to_chars, strip_char, views, without_char,
};

verus! {

pub struct Select;

/// The flags that a message can have.
pub const FLAGS: &'static str = "* FLAGS (\\Answered \\Flagged \\Deleted \\Seen \\Draft)\r\n";

/// The flags that a client can change for good, in a mailbox selected for
/// writing.
pub const PERMANENT_FLAGS: &'static str = "* OK [PERMANENTFLAGS (\\Deleted \\Seen \\*)]\r\n";

/// No flag can be changed for good in a mailbox selected read-only.
pub const NO_PERMANENT_FLAGS: &'static str =
    "* OK [PERMANENTFLAGS ()] No permanent flags permitted\r\n";

/// The name that SELECT takes from its first word: the word without its
/// double quotes.
pub open spec fn selected_name(word: Seq<char>) -> Seq<char> {
    without_char(word, '"', word.len() as int)
}

/// The lines that SELECT (`select`) or EXAMINE answers for a mailbox with
/// `count` messages in a store whose next UID is `next_uid`, at the Unix
/// time `seconds`.
pub open spec fn select_lines(
    tag: Seq<char>,
    name: Seq<char>,
    count: int,
    seconds: int,
    next_uid: int,
    select: bool,
) -> Seq<Seq<char>> {
    seq![
        "* "@ + decimal(count) + " EXISTS\r\n"@,
        "* OK [UIDVALIDITY "@ + decimal(seconds) + "]\r\n"@,
        "* OK [UIDNEXT "@ + decimal(next_uid) + "]\r\n"@,
        FLAGS@,
        "* LIST () \"/\" "@ + name + "\r\n"@,
        if select {
            PERMANENT_FLAGS@
        } else {
            NO_PERMANENT_FLAGS@
        },
        tag + if select {
            " OK [READ-WRITE] SELECT completed\r\n"@
        } else {
            " OK [READ-ONLY] EXAMINE completed\r\n"@
        },
    ]
}

/// Whether SELECT or EXAMINE succeeds: the session is logged in, the
/// mailbox is named and exists or is the inbox that can be made, and the
/// time of the command can be written as a UIDVALIDITY.
pub open spec fn select_succeeds(
    args: Seq<char>,
    state: IMAPState,
    before: StoreView,
    now: Timestamp,
) -> bool {
    &&& state.user() is Some
    &&& words(args).len() > 0
    &&& got_mailbox_id(before.mailboxes, state.user()->0, selected_name(words(args)[0])) is Ok
    &&& 0 <= now.unix_seconds <= u32::MAX
}

/// The mailbox that a successful SELECT or EXAMINE opens.
pub open spec fn selected_mailbox(args: Seq<char>, state: IMAPState, before: StoreView) -> i32 {
    got_mailbox_id(before.mailboxes, state.user()->0, selected_name(words(args)[0]))->Ok_0
}

/// What SELECT (`select`) or EXAMINE does: the response, the state, and
/// the store after it.
pub open spec fn select_outcome(
    tag: Seq<char>,
    args: Seq<char>,
    state: IMAPState,
    before: StoreView,
    after: StoreView,
    now: Timestamp,
    r: Handled,
    select: bool,
) -> bool {
    match state.user() {
        None => refused_with(r, ImapError::BadState) && after == before,
        Some(user) => {
            let w = words(args);
            if w.len() == 0 {
                refused_with(r, ImapError::MissingArgument) && after == before
            } else {
                let name = selected_name(w[0]);
                match got_mailbox_id(before.mailboxes, user, name) {
                    Err(e) => after == before && handled_is(
                        r,
                        seq![
                            tag + if select {
                                " NO SELECT failed: "@
                            } else {
                                " NO EXAMINE failed: "@
                            } + e.reason_text() + "\r\n"@,
                        ],
                        state,
                        ResponseInfo::Regular,
                    ),
                    Ok(id) => after.mailboxes == mailboxes_after_get(before.mailboxes, user, name)
                        && if 0 <= now.unix_seconds <= u32::MAX {
                        handled_is(
                            r,
                            select_lines(
                                tag,
                                name,
                                mailbox_count(before.mail, id),
                                now.unix_seconds as int,
                                max_uid(before.mail) + 1,
                                select,
                            ),
                            IMAPState::Selected(
                                SelectedState { read_only: !select, user_id: user, mailbox_id: id },
                            ),
                            ResponseInfo::Regular,
                        )
                    } else {
                        refused_with(r, ImapError::BadClock)
                    },
                }
            }
        },
    }
}

/// Opens the user's mailbox of the given name, for writing (`select`) or
/// read-only, and tells how many messages it holds and which UID comes
/// next. The UIDVALIDITY is the time of the command.
pub fn select_or_examine(
    tag: &str,
    args: &str,
    state: IMAPState,
    db: &mut DBClient,
    now: Timestamp,
    select: bool,
) -> (r: Handled)
    requires
        old(db).wf(),
    ensures
        final(db).wf(),
        final(db)@.users == old(db)@.users,
        final(db)@.mail == old(db)@.mail,
        final(db)@.changes == old(db)@.changes,
        select_outcome(tag@, args@, state, old(db)@, final(db)@, now, r, select),
{
    let user = match state.user_id() {
        Some(u) => u,
        None => {
            return Err(ImapError::BadState);
        },
    };
    let chars = str_to_chars(args);
    let w = split_words(chars.as_slice());
    if w.len() == 0 {
        return Err(ImapError::MissingArgument);
    }
    let name = strip_char(w[0].as_slice(), '"');
    let name_text = crate::text::chars_to_string(name.as_slice());
    let id = match db.get_mailbox_id(user, name_text.as_str()) {
        Ok(id) => id,
        Err(e) => {
            return answer_line(
                refusal(
                    tag,
                    if select {
                        " NO SELECT failed: "
                    } else {
                        " NO EXAMINE failed: "
                    },
                    e,
                ),
                state,
                ResponseInfo::Regular,
            );
        },
    };
    if now.unix_seconds < 0 || now.unix_seconds > u32::MAX as i64 {
        return Err(ImapError::BadClock);
    }
    let count = db.mail_count(Some(id));
    let next_uid = db.next_uid();
    let mut texts: Vec<Vec<char>> = Vec::new();
    let mut line: Vec<char> = Vec::new();
    push_str(&mut line, "* ");
    push_i64(&mut line, count);
    push_str(&mut line, " EXISTS\r\n");
    texts.push(line);
    let mut line: Vec<char> = Vec::new();
    push_str(&mut line, "* OK [UIDVALIDITY ");
    push_i64(&mut line, now.unix_seconds);
    push_str(&mut line, "]\r\n");
    texts.push(line);
    let mut line: Vec<char> = Vec::new();
    push_str(&mut line, "* OK [UIDNEXT ");
    push_i64(&mut line, next_uid);
    push_str(&mut line, "]\r\n");
    texts.push(line);
    texts.push(fixed(FLAGS));
    let mut line: Vec<char> = Vec::new();
    push_str(&mut line, "* LIST () \"/\" ");
    push_chars(&mut line, name.as_slice());
    push_str(&mut line, "\r\n");
    texts.push(line);
    texts.push(
        fixed(
            if select {
                PERMANENT_FLAGS
            } else {
                NO_PERMANENT_FLAGS
            },
        ),
    );
    texts.push(
        tagged(
            tag,
            if select {
                " OK [READ-WRITE] SELECT completed\r\n"
            } else {
                " OK [READ-ONLY] EXAMINE completed\r\n"
            },
        ),
    );
    assert(views(texts@) =~= select_lines(
        tag@,
        name@,
        mailbox_count(old(db)@.mail, id),
        now.unix_seconds as int,
        max_uid(old(db)@.mail) + 1,
        select,
    ));
    answer(
        texts,
        IMAPState::Selected(SelectedState { read_only: !select, user_id: user, mailbox_id: id }),
        ResponseInfo::Regular,
    )
}

impl IMAPOp for Select {
    /// Opens a mailbox for reading and writing.
    fn process(tag: &str, args: &str, state: IMAPState, db: &mut DBClient, now: Timestamp) -> (r:
        Handled)
        ensures
            final(db)@.users == old(db)@.users,
            final(db)@.mail == old(db)@.mail,
            final(db)@.changes == old(db)@.changes,
            select_outcome(tag@, args@, state, old(db)@, final(db)@, now, r, true),
    {
        select_or_examine(tag, args, state, db, now, true)
    }
}

} // verus!
