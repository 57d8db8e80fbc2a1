//! STORE and UID STORE.

use vstd::prelude::*;
use crate::database::{
    bitmap_of, fetched, meant, readable_flag_chars, readable_flags, with_flags, DBClient,
    FlagChange,
    IMAPFlags,
};
use crate::dates::Timestamp;
use crate::imap::{
    answer, answer_line, handled_is, refused_with, tagged, Handled, IMAPOp, IMAPState, ImapError,
    ResponseInfo,
};
use crate::imap_op::append::{flags_named, parse_flag_words};
use crate::imap_op::search::{sequence_set_of, Sequence, SequenceSet};
use crate::scan::{split_words, words};
use crate::store::{mail_views, MailRow, MailView, StoreView};
use crate::text::{
    decimal, eq_str, lower_seq, push_chars, push_i64, push_str, str_to_chars, strip_char,
    to_lower_vec, views, without_char,
};

verus! {

pub struct Store;

/// The change that a data item name asks for, and whether it asks for
/// silence: `FLAGS`, `+FLAGS` or `-FLAGS`, with `.SILENT` behind it or
/// not, in any letter case.
pub open spec fn change_named(item: Seq<char>) -> Option<(FlagChange, bool)> {
    let c = lower_seq(item);
    if c == "flags"@ {
        Some((FlagChange::Replace, false))
    } else if c == "flags.silent"@ {
        Some((FlagChange::Replace, true))
    } else if c == "+flags"@ {
        Some((FlagChange::Add, false))
    } else if c == "+flags.silent"@ {
        Some((FlagChange::Add, true))
    } else if c == "-flags"@ {
        Some((FlagChange::Remove, false))
    } else if c == "-flags.silent"@ {
        Some((FlagChange::Remove, true))
    } else {
        None
    }
}

pub fn parse_change(item: &[char]) -> (r: Option<(FlagChange, bool)>)
    ensures
        r == change_named(item@),
{
    let c = to_lower_vec(item);
    if eq_str(c.as_slice(), "flags") {
        Some((FlagChange::Replace, false))
    } else if eq_str(c.as_slice(), "flags.silent") {
        Some((FlagChange::Replace, true))
    } else if eq_str(c.as_slice(), "+flags") {
        Some((FlagChange::Add, false))
    } else if eq_str(c.as_slice(), "+flags.silent") {
        Some((FlagChange::Add, true))
    } else if eq_str(c.as_slice(), "-flags") {
        Some((FlagChange::Remove, false))
    } else if eq_str(c.as_slice(), "-flags.silent") {
        Some((FlagChange::Remove, true))
    } else {
        None
    }
}

/// A word of a flag list without the parentheses of the list.
pub open spec fn bare_flag(word: Seq<char>) -> Seq<char> {
    let open = without_char(word, '(', word.len() as int);
    without_char(open, ')', open.len() as int)
}

/// The words of a flag list, which are the words from the third on.
pub open spec fn flag_words(w: Seq<Seq<char>>) -> Seq<Seq<char>> {
    Seq::new((w.len() - 2) as nat, |i: int| bare_flag(w[i + 2]))
}

/// The arguments of STORE.
pub ghost struct StoreArgs {
    pub set: Seq<Sequence>,
    pub change: FlagChange,
    pub silent: bool,
    pub flags: Seq<IMAPFlags>,
}

/// The arguments of STORE: a sequence set, the name of the change, and
/// the flags, in parentheses or bare. A word that names no flag is passed
/// over.
pub open spec fn store_of(args: Seq<char>) -> Result<StoreArgs, ImapError> {
    let w = words(args);
    if w.len() < 2 {
        Err(ImapError::MissingArgument)
    } else {
        match (sequence_set_of(w[0]), change_named(w[1])) {
            (Some(set), Some((change, silent))) => Ok(
                StoreArgs {
                    set,
                    change,
                    silent,
                    flags: flags_named(flag_words(w), flag_words(w).len() as int),
                },
            ),
            _ => Err(ImapError::BadArgument),
        }
    }
}

/// The line that shows the flags of a changed message, with its UID in
/// UID mode.
pub open spec fn flags_line(row: MailView, uid: bool) -> Seq<char> {
    "* "@ + decimal(row.seqnum as int) + " FETCH ("@ + if uid {
        "UID "@ + decimal(row.uid as int) + " "@
    } else {
        seq![]
    } + "FLAGS ("@ + readable_flags(row.flags, row.flags.len() as int) + "))\r\n"@
}

/// The lines of a STORE response for the changed messages; a silent
/// change shows no message.
pub open spec fn store_lines(tag: Seq<char>, rows: Seq<MailView>, uid: bool, silent: bool) -> Seq<
    Seq<char>,
> {
    if silent {
        seq![tag + " OK STORE completed\r\n"@]
    } else {
        Seq::new(rows.len(), |i: int| flags_line(rows[i], uid)).push(
            tag + " OK STORE completed\r\n"@,
        )
    }
}

/// What STORE, or UID STORE (`uid`), does: the response, the state, and
/// the store after it.
pub open spec fn store_outcome(
    tag: Seq<char>,
    args: Seq<char>,
    state: IMAPState,
    before: StoreView,
    after: StoreView,
    r: Handled,
    uid: bool,
) -> bool {
    match state {
        IMAPState::Selected(s) => if s.read_only {
            after == before && handled_is(
                r,
                seq![tag + " NO STORE failed: mailbox is read-only\r\n"@],
                state,
                ResponseInfo::Regular,
            )
        } else {
            match store_of(args) {
                Err(e) => after == before && refused_with(r, e),
                Ok(a) => {
                    &&& after.mail == with_flags(
                        before.mail,
                        meant(a.set, before.mail, s.mailbox_id, uid),
                        uid,
                        s.mailbox_id,
                        a.change,
                        bitmap_of(a.flags),
                        before.mail.len() as int,
                    )
                    &&& after.changes == before.changes
                    &&& handled_is(
                        r,
                        store_lines(
                            tag,
                            fetched(
                                after.mail,
                                meant(a.set, before.mail, s.mailbox_id, uid),
                                uid,
                                s.mailbox_id,
                                after.mail.len() as int,
                            ),
                            uid,
                            a.silent,
                        ),
                        state,
                        ResponseInfo::Regular,
                    )
                },
            }
        },
        _ => after == before && refused_with(r, ImapError::BadState),
    }
}

fn flags_line_for(row: &MailRow, uid: bool) -> (r: Vec<char>)
    ensures
        r@ == flags_line(row@, uid),
{
    let mut line: Vec<char> = Vec::new();
    push_str(&mut line, "* ");
    push_i64(&mut line, row.seqnum as i64);
    push_str(&mut line, " FETCH (");
    if uid {
        push_str(&mut line, "UID ");
        push_i64(&mut line, row.uid as i64);
        push_str(&mut line, " ");
    }
    let bits = str_to_chars(row.flags.as_str());
    let names = readable_flag_chars(bits.as_slice());
    push_str(&mut line, "FLAGS (");
    push_chars(&mut line, names.as_slice());
    push_str(&mut line, "))\r\n");
    assert(line@ =~= flags_line(row@, uid));
    line
}

/// Changes the flags of the messages that the sequence set picks in the
/// selected mailbox, by UID in UID mode, and shows their flags.
pub fn store_or_uid(tag: &str, args: &str, state: IMAPState, db: &mut DBClient, uid: bool) -> (r:
    Handled)
    requires
        old(db).wf(),
    ensures
        final(db).wf(),
        final(db)@.users == old(db)@.users,
        final(db)@.mailboxes == old(db)@.mailboxes,
        store_outcome(tag@, args@, state, old(db)@, final(db)@, r, uid),
{
    let selected = match state {
        IMAPState::Selected(s) => s,
        _ => {
            return Err(ImapError::BadState);
        },
    };
    if selected.read_only {
        return answer_line(
            tagged(tag, " NO STORE failed: mailbox is read-only\r\n"),
            state,
            ResponseInfo::Regular,
        );
    }
    let chars = str_to_chars(args);
    let w = split_words(chars.as_slice());
    if w.len() < 2 {
        return Err(ImapError::MissingArgument);
    }
    let (set, change, silent) = match (
        SequenceSet::from_chars(w[0].as_slice()),
        parse_change(w[1].as_slice()),
    ) {
        (Some(set), Some((change, silent))) => (set, change, silent),
        _ => {
            return Err(ImapError::BadArgument);
        },
    };
    let mut bare: Vec<Vec<char>> = Vec::new();
    let mut i: usize = 2;
    while i < w.len()
        invariant
            2 <= i <= w.len(),
            bare@.len() == i - 2,
            forall|j: int| 0 <= j < i - 2 ==> bare@[j]@ == bare_flag(views(w@)[j + 2]),
        decreases w.len() - i,
    {
        let open = strip_char(w[i].as_slice(), '(');
        bare.push(strip_char(open.as_slice(), ')'));
        i += 1;
    }
    assert(views(bare@) =~= flag_words(views(w@)));
    let flags = parse_flag_words(&bare);
    let rows = db.store_flags(selected.mailbox_id, &set, uid, change, &flags);
    let mut texts: Vec<Vec<char>> = Vec::new();
    if !silent {
        let mut k: usize = 0;
        while k < rows.len()
            invariant
                k <= rows.len(),
                texts@.len() == k,
                forall|j: int| 0 <= j < k ==> texts@[j]@ == flags_line(mail_views(rows@)[j], uid),
            decreases rows.len() - k,
        {
            assert(mail_views(rows@)[k as int] == rows@[k as int]@);
            texts.push(flags_line_for(&rows[k], uid));
            k += 1;
        }
    }
    texts.push(tagged(tag, " OK STORE completed\r\n"));
    assert(views(texts@) =~= store_lines(tag@, mail_views(rows@), uid, silent));
    answer(texts, state, ResponseInfo::Regular)
}

impl IMAPOp for Store {
    /// Changes flags of messages picked by sequence number.
    fn process(tag: &str, args: &str, state: IMAPState, db: &mut DBClient, now: Timestamp) -> (r:
        Handled)
        ensures
            final(db)@.users == old(db)@.users,
            final(db)@.mailboxes == old(db)@.mailboxes,
            store_outcome(tag@, args@, state, old(db)@, final(db)@, r, false),
    {
        store_or_uid(tag, args, state, db, false)
    }
}

} // verus!
