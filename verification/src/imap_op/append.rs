//! APPEND.

use vstd::prelude::*;
use crate::database::{
    bitmap_of, delivered, got_mailbox_id, mailboxes_after_get, DBClient, IMAPFlags, StoreError,
};
use crate::dates::{chrono_instant, Timestamp};
use crate::imap::{
    answer, answer_line, handled_is, refused_with, tagged, Handled, IMAPOp, IMAPState, ImapError,
    ResponseInfo,
};
use crate::imap_op::create::refusal;
use crate::parsing::imap::{
    literal_at, literal_chars, literal_start, octets_end, quoted_body, quoted_chars, take_octets,
};
use crate::parsing::IMAP_DATETIME_FMT;
use crate::scan::{
    find_char_from, find_from, lemma_find_from, matches_at, skip_word, skip_ws, split, split_char,
    split_once_at, split_once_str, split_words, word_end, words, ws_end,
};
use crate::smtp_common::{Mail, ReceivedMail};
use crate::store::{mailbox_count, max_uid, StoreView};
use crate::text::{
    chars_to_string, copy_range, decimal, push_i64, push_str, str_to_chars, string_views, views,
};

verus! {

pub struct Append;

/// The continuation that asks for the literal.
pub const READY: &'static str = "+ Ready for literal data\r\n";

/// The element at position `i`: a quoted string, or else the characters
/// up to the next white space. Gives the element and the position after
/// it.
pub open spec fn element_at(s: Seq<char>, i: int) -> Option<(Seq<char>, int)> {
    if 0 <= i < s.len() && s[i] == '"' {
        quoted_body(s, i + 1)
    } else if 0 <= i < s.len() {
        Some((s.subrange(i, word_end(s, i)), word_end(s, i)))
    } else {
        None
    }
}

pub fn parse_element(s: &[char], i: usize) -> (r: Option<(Vec<char>, usize)>)
    requires
        i <= s.len(),
    ensures
        match (r, element_at(s@, i as int)) {
            (Some(p), Some(q)) => p.0@ == q.0 && p.1 == q.1 && i <= p.1 <= s.len(),
            (None, None) => true,
            _ => false,
        },
{
    if i < s.len() && s[i] == '"' {
        quoted_chars(s, i + 1)
    } else if i < s.len() {
        let e = skip_word(s, i);
        Some((copy_range(s, i, e), e))
    } else {
        None
    }
}

/// The flags that the first `n` words name; a word that names no flag is
/// passed over.
pub open spec fn flags_named(w: Seq<Seq<char>>, n: int) -> Seq<IMAPFlags>
    decreases n,
{
    if n <= 0 || n > w.len() {
        seq![]
    } else {
        match IMAPFlags::named(w[n - 1]) {
            Some(f) => flags_named(w, n - 1).push(f),
            None => flags_named(w, n - 1),
        }
    }
}

pub fn parse_flag_words(w: &Vec<Vec<char>>) -> (r: Vec<IMAPFlags>)
    ensures
        r@ == flags_named(views(w@), w@.len() as int),
{
    let mut out: Vec<IMAPFlags> = Vec::new();
    let mut i: usize = 0;
    while i < w.len()
        invariant
            i <= w.len(),
            out@ == flags_named(views(w@), i as int),
        decreases w.len() - i,
    {
        match IMAPFlags::from_chars(w[i].as_slice()) {
            Some(f) => {
                out.push(f);
            },
            None => {},
        }
        i += 1;
    }
    out
}

/// A parenthesised flag list at position `i`: the flags and the position
/// after the `)`. Where no `(` stands at `i`, no flag is read and the
/// position stays. Nothing where the parenthesis does not close.
pub open spec fn flag_list_at(s: Seq<char>, i: int) -> Option<(Seq<IMAPFlags>, int)> {
    if 0 <= i < s.len() && s[i] == '(' {
        let close = find_from(s, ')', i + 1);
        if close < s.len() {
            let w = words(s.subrange(i + 1, close));
            Some((flags_named(w, w.len() as int), close + 1))
        } else {
            None
        }
    } else {
        Some((seq![], i))
    }
}

pub fn parse_flag_list(s: &[char], i: usize) -> (r: Option<(Vec<IMAPFlags>, usize)>)
    requires
        i <= s.len(),
    ensures
        match (r, flag_list_at(s@, i as int)) {
            (Some(p), Some(q)) => p.0@ == q.0 && p.1 == q.1 && i <= p.1 <= s.len(),
            (None, None) => true,
            _ => false,
        },
{
    if i < s.len() && s[i] == '(' {
        let close = find_char_from(s, ')', i + 1);
        if close < s.len() {
            let inside = copy_range(s, i + 1, close);
            let w = split_words(inside.as_slice());
            Some((parse_flag_words(&w), close + 1))
        } else {
            None
        }
    } else {
        Some((Vec::new(), i))
    }
}

/// A quoted internal date at position `i`: its text and the position
/// after it. Where no `"` stands at `i`, nothing is read and the position
/// stays. Nothing where the quoted string is malformed.
pub open spec fn date_at(s: Seq<char>, i: int) -> Option<(Option<Seq<char>>, int)> {
    if 0 <= i < s.len() && s[i] == '"' {
        match quoted_body(s, i + 1) {
            Some((text, e)) => Some((Some(text), e)),
            None => None,
        }
    } else {
        Some((None, i))
    }
}

/// The arguments of APPEND as far as the literal announcement.
pub ghost struct AppendHead {
    pub mailbox: Seq<char>,
    pub flags: Seq<IMAPFlags>,
    pub date: Option<Seq<char>>,
    pub count: u32,
    /// Whether the client sends the literal without waiting.
    pub plus: bool,
    /// The position after the literal announcement.
    pub end: int,
}

/// Why the arguments of APPEND cannot be read.
pub open spec fn append_head(s: Seq<char>) -> Result<AppendHead, ImapError> {
    let a = ws_end(s, 0);
    match element_at(s, a) {
        None => Err(ImapError::MissingArgument),
        Some((mailbox, b)) => match flag_list_at(s, ws_end(s, b)) {
            None => Err(ImapError::BadArgument),
            Some((flags, c)) => match date_at(s, ws_end(s, c)) {
                None => Err(ImapError::BadArgument),
                Some((date, d)) => match literal_at(s, ws_end(s, d)) {
                    None => Err(ImapError::MissingArgument),
                    Some((count, plus, end)) => Ok(
                        AppendHead { mailbox, flags, date, count, plus, end },
                    ),
                },
            },
        },
    }
}

/// Whether nothing but white space follows the literal announcement, so
/// that the literal is still to come.
pub open spec fn literal_pending(s: Seq<char>, end: int) -> bool {
    ws_end(s, end) >= s.len()
}

/// The lines of a text as `str::lines` gives them: the pieces between
/// line feeds, each without a carriage return before its line feed; a
/// last piece that is empty is no line.
pub open spec fn lines_of(data: Seq<char>) -> Seq<Seq<char>> {
    let p = split(data, '\n');
    let n = p.len() as int;
    Seq::new(
        if n > 0 && p[n - 1].len() == 0 {
            (n - 1) as nat
        } else {
            n as nat
        },
        |i: int|
            if i < n - 1 && p[i].len() > 0 && p[i].last() == '\r' {
                p[i].drop_last()
            } else {
                p[i]
            },
    )
}

pub fn text_lines(data: &[char]) -> (r: Vec<Vec<char>>)
    ensures
        views(r@) == lines_of(data@),
{
    let p = split_char(data, '\n');
    let n = p.len();
    let count = if n > 0 && p[n - 1].len() == 0 {
        n - 1
    } else {
        n
    };
    let mut out: Vec<Vec<char>> = Vec::new();
    let mut i: usize = 0;
    while i < count
        invariant
            i <= count <= n,
            n == p.len(),
            out@.len() == i,
            views(p@) == split(data@, '\n'),
            forall|j: int| 0 <= j < i ==> out@[j]@ == lines_of(data@)[j],
            lines_of(data@).len() == count,
        decreases count - i,
    {
        let piece = &p[i];
        assert(views(p@)[i as int] == piece@);
        if i + 1 < n && piece.len() > 0 && piece[piece.len() - 1] == '\r' {
            let line = copy_range(piece.as_slice(), 0, piece.len() - 1);
            assert(line@ =~= piece@.drop_last());
            out.push(line);
        } else {
            let line = copy_range(piece.as_slice(), 0, piece.len());
            assert(line@ =~= piece@);
            out.push(line);
        }
        i += 1;
    }
    assert(views(out@) =~= lines_of(data@));
    out
}

/// The address in a `From:` value: what stands between the first `<` and
/// the first `>` behind it, or the whole value where there are none.
pub open spec fn unwrapped(value: Seq<char>) -> Seq<char> {
    let a = find_from(value, '<', 0);
    let b = find_from(value, '>', a + 1);
    if a < value.len() && b < value.len() {
        value.subrange(a + 1, b)
    } else {
        value
    }
}

pub fn unwrap_address(value: &[char]) -> (r: Vec<char>)
    ensures
        r@ == unwrapped(value@),
{
    let a = find_char_from(value, '<', 0);
    if a < value.len() {
        let b = find_char_from(value, '>', a + 1);
        if b < value.len() {
            return copy_range(value, a + 1, b);
        }
    }
    let r = copy_range(value, 0, value.len());
    assert(r@ =~= value@);
    proof {
        lemma_find_from(value@, '<', 0);
        if a >= value.len() {
            assert(find_from(value@, '>', a + 1) >= value@.len() || !(a < value@.len()));
        }
    }
    r
}

/// The sender that the first `n` lines name: the address of the last
/// `From: ` line; the empty text where there is none.
pub open spec fn sender_of(lines: Seq<Seq<char>>, n: int) -> Seq<char>
    decreases n,
{
    if n <= 0 || n > lines.len() {
        seq![]
    } else {
        match split_once_at(lines[n - 1], ": "@) {
            Some((name, value)) => if name == "From"@ {
                unwrapped(value)
            } else {
                sender_of(lines, n - 1)
            },
            None => sender_of(lines, n - 1),
        }
    }
}

/// The recipients that the first `n` lines name: the values of the `To: `
/// lines, in order.
pub open spec fn recipients_of(lines: Seq<Seq<char>>, n: int) -> Seq<Seq<char>>
    decreases n,
{
    if n <= 0 || n > lines.len() {
        seq![]
    } else {
        match split_once_at(lines[n - 1], ": "@) {
            Some((name, value)) => if name == "To"@ {
                recipients_of(lines, n - 1).push(value)
            } else {
                recipients_of(lines, n - 1)
            },
            None => recipients_of(lines, n - 1),
        }
    }
}

/// The message that a literal holds: the text as it is, with the sender
/// and the recipients that its lines name.
pub open spec fn mail_of(data: Seq<char>) -> ReceivedMail {
    let lines = lines_of(data);
    ReceivedMail {
        from: sender_of(lines, lines.len() as int),
        to: recipients_of(lines, lines.len() as int),
        data,
    }
}

/// Reads sender and recipients from a message text.
pub fn read_mail(data: &[char]) -> (r: Mail)
    ensures
        r@ == mail_of(data@),
{
    let lines = text_lines(data);
    let mut from: Vec<char> = Vec::new();
    let mut to: Vec<String> = Vec::new();
    let mut i: usize = 0;
    while i < lines.len()
        invariant
            i <= lines.len(),
            from@ == sender_of(views(lines@), i as int),
            string_views(to@) == recipients_of(views(lines@), i as int),
        decreases lines.len() - i,
    {
        let ghost line = views(lines@)[i as int];
        assert(line == lines@[i as int]@);
        match split_once_str(lines[i].as_slice(), ": ") {
            Some((name, value)) => {
                proof {
                    reveal_strlit("From");
                    reveal_strlit("To");
                    assert(split_once_at(line, ": "@) == Some((name@, value@)));
                    assert("From"@.len() == 4);
                    assert("To"@.len() == 2);
                }
                if crate::text::eq_str(name.as_slice(), "From") {
                    from = unwrap_address(value.as_slice());
                } else if crate::text::eq_str(name.as_slice(), "To") {
                    let ghost before = string_views(to@);
                    to.push(chars_to_string(value.as_slice()));
                    assert(string_views(to@) =~= before.push(value@));
                }
            },
            None => {},
        }
        i += 1;
    }
    let mail = Mail { from: chars_to_string(from.as_slice()), to, data: chars_to_string(data) };
    assert(mail@.to == recipients_of(lines_of(data@), lines_of(data@).len() as int));
    mail
}

/// The internal date that APPEND stores: the one given, where it can be
/// read; nothing otherwise, and the message gets the time of the command.
pub open spec fn append_date(date: Option<Seq<char>>) -> Option<Timestamp> {
    match date {
        Some(text) => match chrono_instant(text, IMAP_DATETIME_FMT@) {
            Some((s, o)) => Some(Timestamp { unix_seconds: s, offset_seconds: o }),
            None => None,
        },
        None => None,
    }
}

/// The tagged line of a completed APPEND.
pub open spec fn appended_line(tag: Seq<char>, seconds: int, uid: int) -> Seq<char> {
    tag + " OK [APPENDUID "@ + decimal(seconds) + " "@ + decimal(uid) + "] APPEND completed\r\n"@
}

/// What APPEND does once its arguments are read and its literal is
/// there: the response, the state, and the store after it.
pub open spec fn append_stored(
    tag: Seq<char>,
    head: AppendHead,
    data: Seq<char>,
    user: i32,
    state: IMAPState,
    before: StoreView,
    after: StoreView,
    now: Timestamp,
    r: Handled,
) -> bool {
    match got_mailbox_id(before.mailboxes, user, head.mailbox) {
        Err(e) => after == before && handled_is(
            r,
            seq![tag + " NO APPEND failed: "@ + e.reason_text() + "\r\n"@],
            state,
            ResponseInfo::Regular,
        ),
        Ok(id) => after.mailboxes == mailboxes_after_get(before.mailboxes, user, head.mailbox)
            && if !(0 <= now.unix_seconds <= u32::MAX) {
            after.mail == before.mail && after.changes == before.changes && refused_with(
                r,
                ImapError::BadClock,
            )
        } else if max_uid(before.mail) >= i32::MAX {
            after.mail == before.mail && after.changes == before.changes && handled_is(
                r,
                seq![tag + " NO APPEND failed: "@ + StoreError::Full.reason_text() + "\r\n"@],
                state,
                ResponseInfo::Regular,
            )
        } else {
            let uid = (max_uid(before.mail) + 1) as i32;
            &&& after.mail == before.mail.push(
                delivered(
                    mail_of(data),
                    uid,
                    (mailbox_count(before.mail, id) + 1) as i32,
                    id,
                    match append_date(head.date) {
                        Some(d) => d,
                        None => now,
                    },
                    bitmap_of(head.flags),
                ),
            )
            &&& after.changes == before.changes.push("* 1 EXISTS\r\n"@)
            &&& handled_is(
                r,
                seq![appended_line(tag, now.unix_seconds as int, uid as int)],
                state,
                ResponseInfo::Regular,
            )
        },
    }
}

/// What APPEND does: the response, the state, and the store after it.
pub open spec fn append_outcome(
    tag: Seq<char>,
    args: Seq<char>,
    state: IMAPState,
    before: StoreView,
    after: StoreView,
    now: Timestamp,
    r: Handled,
) -> bool {
    match state.user() {
        None => after == before && refused_with(r, ImapError::BadState),
        Some(user) => match append_head(args) {
            Err(e) => after == before && refused_with(r, e),
            Ok(head) => if literal_pending(args, head.end) {
                after == before && handled_is(
                    r,
                    if head.plus {
                        seq![]
                    } else {
                        seq![READY@]
                    },
                    state,
                    ResponseInfo::RedoForNextMsg,
                )
            } else {
                match literal_start(args, head.end) {
                    None => after == before && refused_with(r, ImapError::BadArgument),
                    Some(start) => match octets_end(args, start, head.count as int) {
                        None => after == before && refused_with(r, ImapError::BadArgument),
                        Some(end) => append_stored(
                            tag,
                            head,
                            args.subrange(start, end),
                            user,
                            state,
                            before,
                            after,
                            now,
                            r,
                        ),
                    },
                }
            },
        },
    }
}

/// Stores the literal as a message of the mailbox and answers.
pub fn store_appended(
    tag: &str,
    mailbox: &str,
    flags: &Vec<IMAPFlags>,
    date: Option<Timestamp>,
    data: &[char],
    user: i32,
    state: IMAPState,
    db: &mut DBClient,
    now: Timestamp,
    head: Ghost<AppendHead>,
) -> (r: Handled)
    requires
        old(db).wf(),
        head@.mailbox == mailbox@,
        head@.flags == flags@,
        append_date(head@.date) == date,
    ensures
        final(db).wf(),
        final(db)@.users == old(db)@.users,
        append_stored(tag@, head@, data@, user, state, old(db)@, final(db)@, now, r),
{
    let id = match db.get_mailbox_id(user, mailbox) {
        Ok(id) => id,
        Err(e) => {
            return answer_line(refusal(tag, " NO APPEND failed: ", e), state, ResponseInfo::Regular);
        },
    };
    if now.unix_seconds < 0 || now.unix_seconds > u32::MAX as i64 {
        return Err(ImapError::BadClock);
    }
    let mail = read_mail(data);
    match db.replicate(mail, id, date, now, flags) {
        Ok(uid) => {
            let mut line: Vec<char> = Vec::new();
            push_str(&mut line, tag);
            push_str(&mut line, " OK [APPENDUID ");
            push_i64(&mut line, now.unix_seconds);
            push_str(&mut line, " ");
            push_i64(&mut line, uid as i64);
            push_str(&mut line, "] APPEND completed\r\n");
            assert(line@ =~= appended_line(tag@, now.unix_seconds as int, uid as int));
            answer_line(line, state, ResponseInfo::Regular)
        },
        Err(e) => answer_line(refusal(tag, " NO APPEND failed: ", e), state, ResponseInfo::Regular),
    }
}

impl IMAPOp for Append {
    /// Stores a message in a mailbox of the user. The arguments are the
    /// mailbox, an optional flag list, an optional internal date, and the
    /// literal. Where the literal is announced and not yet there, the
    /// handler asks for it and is run again with it.
    fn process(tag: &str, args: &str, state: IMAPState, db: &mut DBClient, now: Timestamp) -> (r:
        Handled)
        ensures
            final(db)@.users == old(db)@.users,
            append_outcome(tag@, args@, state, old(db)@, final(db)@, now, r),
    {
        let user = match state.user_id() {
            Some(u) => u,
            None => {
                return Err(ImapError::BadState);
            },
        };
        let s = str_to_chars(args);
        let a = skip_ws(s.as_slice(), 0);
        let (mailbox, b) = match parse_element(s.as_slice(), a) {
            Some(p) => p,
            None => {
                return Err(ImapError::MissingArgument);
            },
        };
        let b1 = skip_ws(s.as_slice(), b);
        let (flags, c) = match parse_flag_list(s.as_slice(), b1) {
            Some(p) => p,
            None => {
                return Err(ImapError::BadArgument);
            },
        };
        let c1 = skip_ws(s.as_slice(), c);
        let (date_text, d) = if c1 < s.len() && s[c1] == '"' {
            match quoted_chars(s.as_slice(), c1 + 1) {
                Some((text, e)) => (Some(text), e),
                None => {
                    return Err(ImapError::BadArgument);
                },
            }
        } else {
            (None, c1)
        };
        let d1 = skip_ws(s.as_slice(), d);
        let (count, plus, end) = match literal_chars(s.as_slice(), d1) {
            Some(p) => p,
            None => {
                return Err(ImapError::MissingArgument);
            },
        };
        let ghost head = AppendHead {
            mailbox: mailbox@,
            flags: flags@,
            date: match &date_text {
                Some(t) => Some(t@),
                None => None,
            },
            count,
            plus,
            end: end as int,
        };
        assert(append_head(args@) == Ok::<AppendHead, ImapError>(head));
        if skip_ws(s.as_slice(), end) >= s.len() {
            let mut texts: Vec<Vec<char>> = Vec::new();
            if !plus {
                texts.push(str_to_chars(READY));
                assert(views(texts@) =~= seq![READY@]);
            } else {
                assert(views(texts@) =~= Seq::<Seq<char>>::empty());
            }
            return answer(texts, state, ResponseInfo::RedoForNextMsg);
        }
        let crlf = str_to_chars("\r\n");
        proof {
            reveal_strlit("\r\n");
        }
        let start = if end < s.len() && s[end] == ' ' {
            end + 1
        } else if matches_at(s.as_slice(), crlf.as_slice(), end) {
            end + 2
        } else {
            return Err(ImapError::BadArgument);
        };
        let stop = match take_octets(s.as_slice(), start, count as usize) {
            Some(e) => e,
            None => {
                return Err(ImapError::BadArgument);
            },
        };
        let data = copy_range(s.as_slice(), start, stop);
        let date = match &date_text {
            Some(t) => Timestamp::parse(chars_to_string(t.as_slice()).as_str(), IMAP_DATETIME_FMT),
            None => None,
        };
        let name = chars_to_string(mailbox.as_slice());
        store_appended(
            tag,
            name.as_str(),
            &flags,
            date,
            data.as_slice(),
            user,
            state,
            db,
            now,
            Ghost(head),
        )
    }
}

} // verus!
