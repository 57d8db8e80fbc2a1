//! The message store: users, mailboxes and mail, with the operations the
//! command handlers need.

use vstd::prelude::*;
pub use crate::matching::{regex_capture, rfc2822_to_date};
use crate::dates::Timestamp;
use crate::scan::join;
use crate::imap_op::search::{
    format_search_result, id_number, key_views, search_result_text, set_holds, to_id_number,
    KeyView, SearchKeys, SequenceSet,
};
use crate::matching::{keys_match, matches_all, resolved_keys};
use crate::parsing::imap::SearchArgs;
use crate::smtp_common::Mail;
use crate::store::{
    count_in, has_mailbox, is_bitmap, lemma_count_in_bounds, lemma_push_mail, lemma_uid_bound,
    lemma_without, lemma_without_sound, mail_views, mail_wf, mailbox_count, mailbox_views,
    mailboxes_wf, max_mailbox_id, max_uid, renumbered, stands_for, user_views, users_wf, without,
    MailRow, MailView, MailboxRow, MailboxView, StoreView, User, UserView,
};
use crate::text::{
    chars_to_string, decimal, eq_chars, eq_str, push_i64, push_str, str_to_chars, string_views,
    views,
};

verus! {

/// A value bound to a `?` of an SQL statement.
#[derive(Debug, Clone, PartialEq, Eq)]
pub enum SqlValue {
    Integer(i64),
    Text(String),
}

pub ghost enum SqlParam {
    Integer(i64),
    Text(Seq<char>),
}

impl View for SqlValue {
    type V = SqlParam;

    open spec fn view(&self) -> SqlParam {
        match self {
            SqlValue::Integer(n) => SqlParam::Integer(*n),
            SqlValue::Text(s) => SqlParam::Text(s@),
        }
    }
}

/// The views of a list of bound values.
pub open spec fn param_views(v: Seq<SqlValue>) -> Seq<SqlParam> {
    Seq::new(v.len(), |i: int| v[i]@)
}

/// The five system flags.
#[derive(Debug, Clone, Copy, PartialEq, Eq, Structural)]
pub enum IMAPFlags {
    Answered,
    Flagged,
    Deleted,
    Seen,
    Draft,
}

/// Number of positions in a flag bitmap.
pub const FLAG_COUNT: usize = 5;

impl IMAPFlags {
    /// The flag's place in the bitmap, over the order Draft, Seen, Deleted,
    /// Flagged, Answered.
    pub open spec fn place(self) -> int {
        match self {
            IMAPFlags::Draft => 0,
            IMAPFlags::Seen => 1,
            IMAPFlags::Deleted => 2,
            IMAPFlags::Flagged => 3,
            IMAPFlags::Answered => 4,
        }
    }

    pub fn position(self) -> (p: usize)
        ensures
            p == self.place(),
            p < FLAG_COUNT,
    {
        match self {
            IMAPFlags::Draft => 0,
            IMAPFlags::Seen => 1,
            IMAPFlags::Deleted => 2,
            IMAPFlags::Flagged => 3,
            IMAPFlags::Answered => 4,
        }
    }

    /// The query pattern that holds `mark` at the flag's place and the
    /// wildcard `_` elsewhere.
    pub open spec fn pattern(self, mark: char) -> Seq<char> {
        Seq::new(
            5,
            |i: int|
                if i == self.place() {
                    mark
                } else {
                    '_'
                },
        )
    }

    pub fn pattern_with(self, mark: char) -> (r: Vec<char>)
        ensures
            r@ == self.pattern(mark),
    {
        let p = self.position();
        let mut r: Vec<char> = Vec::new();
        let mut i: usize = 0;
        while i < FLAG_COUNT
            invariant
                i <= FLAG_COUNT,
                p == self.place(),
                r@.len() == i,
                forall|j: int| 0 <= j < i ==> r@[j] == self.pattern(mark)[j],
            decreases FLAG_COUNT - i,
        {
            r.push(
                if i == p {
                    mark
                } else {
                    '_'
                },
            );
            i += 1;
        }
        assert(r@ =~= self.pattern(mark));
        r
    }

    /// The pattern that matches the bitmaps with this flag set.
    pub fn to_string(&self) -> (r: String)
        ensures
            r@ == self.pattern('1'),
    {
        let v = self.pattern_with('1');
        chars_to_string(v.as_slice())
    }

    /// The flag named by `s`, written as in a KEYWORD argument.
    pub open spec fn named(s: Seq<char>) -> Option<IMAPFlags> {
        if s == "\\Answered"@ {
            Some(IMAPFlags::Answered)
        } else if s == "\\Flagged"@ {
            Some(IMAPFlags::Flagged)
        } else if s == "\\Deleted"@ {
            Some(IMAPFlags::Deleted)
        } else if s == "\\Seen"@ {
            Some(IMAPFlags::Seen)
        } else if s == "\\Draft"@ {
            Some(IMAPFlags::Draft)
        } else {
            None
        }
    }

    pub fn from_chars(s: &[char]) -> (r: Option<IMAPFlags>)
        ensures
            r == Self::named(s@),
    {
        if eq_str(s, "\\Answered") {
            Some(IMAPFlags::Answered)
        } else if eq_str(s, "\\Flagged") {
            Some(IMAPFlags::Flagged)
        } else if eq_str(s, "\\Deleted") {
            Some(IMAPFlags::Deleted)
        } else if eq_str(s, "\\Seen") {
            Some(IMAPFlags::Seen)
        } else if eq_str(s, "\\Draft") {
            Some(IMAPFlags::Draft)
        } else {
            None
        }
    }

    pub fn from_str(s: &str) -> (r: Option<IMAPFlags>)
        ensures
            r == Self::named(s@),
    {
        let v = str_to_chars(s);
        Self::from_chars(v.as_slice())
    }
}

/// The name of the flag at a place of the bitmap.
pub open spec fn flag_name(i: int) -> Seq<char> {
    if i == 0 {
        "\\Draft"@
    } else if i == 1 {
        "\\Seen"@
    } else if i == 2 {
        "\\Deleted"@
    } else if i == 3 {
        "\\Flagged"@
    } else {
        "\\Answered"@
    }
}

/// The names of the flags set in the first `n` places of a bitmap, each
/// after the first preceded by a space.
pub open spec fn readable_flags(bitmap: Seq<char>, n: int) -> Seq<char>
    decreases n,
{
    if n <= 0 {
        seq![]
    } else if n <= bitmap.len() && n <= 5 && bitmap[n - 1] == '1' {
        let before = readable_flags(bitmap, n - 1);
        if before.len() == 0 {
            flag_name(n - 1)
        } else {
            before + " "@ + flag_name(n - 1)
        }
    } else {
        readable_flags(bitmap, n - 1)
    }
}

pub fn readable_flag_chars(input: &[char]) -> (r: Vec<char>)
    ensures
        r@ == readable_flags(input@, input@.len() as int),
{
    let mut out: Vec<char> = Vec::new();
    let mut i: usize = 0;
    while i < input.len()
        invariant
            i <= input.len(),
            out@ == readable_flags(input@, i as int),
        decreases input.len() - i,
    {
        if i < 5 && input[i] == '1' {
            if out.len() > 0 {
                push_str(&mut out, " ");
            }
            if i == 0 {
                push_str(&mut out, "\\Draft");
            } else if i == 1 {
                push_str(&mut out, "\\Seen");
            } else if i == 2 {
                push_str(&mut out, "\\Deleted");
            } else if i == 3 {
                push_str(&mut out, "\\Flagged");
            } else {
                push_str(&mut out, "\\Answered");
            }
        }
        i += 1;
    }
    out
}

/// The flag list that FETCH shows for a stored bitmap.
pub fn db_flag_to_readable_flag(input: &str) -> (r: String)
    ensures
        r@ == readable_flags(input@, input@.len() as int),
{
    let v = str_to_chars(input);
    let out = readable_flag_chars(v.as_slice());
    chars_to_string(out.as_slice())
}


/// Why the store refused an operation.
#[derive(Debug, Clone, Copy, PartialEq, Eq, Structural)]
pub enum StoreError {
    /// No mailbox has the id, or the user has no mailbox of the name.
    NoSuchMailbox,
    /// The user already has a mailbox of the name, or the name of a user
    /// is taken.
    Conflict,
    /// The 32-bit identifiers are used up.
    Full,
    /// A search without a key.
    NoSearchKeys,
}

impl StoreError {
    pub open spec fn reason_text(self) -> Seq<char> {
        match self {
            StoreError::NoSuchMailbox => "no such mailbox"@,
            StoreError::Conflict => "name already in use"@,
            StoreError::Full => "no identifier left"@,
            StoreError::NoSearchKeys => "no search key"@,
        }
    }

    /// The reason as a `NO` response names it.
    pub fn reason(&self) -> (r: &'static str)
        ensures
            r@ == self.reason_text(),
    {
        match self {
            StoreError::NoSuchMailbox => "no such mailbox",
            StoreError::Conflict => "name already in use",
            StoreError::Full => "no identifier left",
            StoreError::NoSearchKeys => "no search key",
        }
    }
}

/// Whether two texts are the same.
pub fn str_eq(a: &str, b: &str) -> (r: bool)
    ensures
        r == (a@ == b@),
{
    let x = str_to_chars(a);
    let y = str_to_chars(b);
    eq_chars(x.as_slice(), y.as_slice())
}

/// The bitmap with `1` at the places of the given flags.
pub open spec fn bitmap_of(flags: Seq<IMAPFlags>) -> Seq<char> {
    Seq::new(
        5,
        |i: int|
            if exists|k: int| 0 <= k < flags.len() && (#[trigger] flags[k]).place() == i {
                '1'
            } else {
                '0'
            },
    )
}

/// The bitmap that holds the given flags and no other.
pub fn make_bitmap(flags: &Vec<IMAPFlags>) -> (r: String)
    ensures
        r@ == bitmap_of(flags@),
        is_bitmap(r@),
{
    let mut out: Vec<char> = Vec::new();
    let mut i: usize = 0;
    while i < FLAG_COUNT
        invariant
            i <= FLAG_COUNT,
            out@.len() == i,
            forall|j: int| 0 <= j < i ==> out@[j] == bitmap_of(flags@)[j],
        decreases FLAG_COUNT - i,
    {
        let mut found = false;
        let mut k: usize = 0;
        while k < flags.len()
            invariant
                k <= flags.len(),
                i < FLAG_COUNT,
                found == exists|m: int| 0 <= m < k && (#[trigger] flags@[m]).place() == i,
            decreases flags.len() - k,
        {
            if flags[k].position() == i {
                found = true;
            }
            k += 1;
        }
        out.push(if found {
            '1'
        } else {
            '0'
        });
        i += 1;
    }
    assert(out@ =~= bitmap_of(flags@));
    chars_to_string(out.as_slice())
}

/// The store: users, mailboxes and mail, and the notifications that its
/// writes publish.
#[derive(Debug)]
pub struct DBClient {
    users: Vec<User>,
    mailboxes: Vec<MailboxRow>,
    mail: Vec<MailRow>,
    changes: Vec<String>,
}

impl View for DBClient {
    type V = StoreView;

    closed spec fn view(&self) -> StoreView {
        StoreView {
            users: user_views(self.users@),
            mailboxes: mailbox_views(self.mailboxes@),
            mail: mail_views(self.mail@),
            changes: string_views(self.changes@),
        }
    }
}

/// The position of the user's mailbox of the given name among the rows
/// from `i` on; the number of rows where there is none.
pub open spec fn mailbox_from(
    mailboxes: Seq<MailboxView>,
    user_id: i32,
    name: Seq<char>,
    i: int,
) -> int
    decreases mailboxes.len() - i,
{
    if 0 <= i < mailboxes.len() && !(mailboxes[i].user_id == user_id && mailboxes[i].name == name) {
        mailbox_from(mailboxes, user_id, name, i + 1)
    } else {
        i
    }
}

/// The id of the user's mailbox of the given name.
pub open spec fn mailbox_id_of(mailboxes: Seq<MailboxView>, user_id: i32, name: Seq<char>) -> Option<
    i32,
> {
    let i = mailbox_from(mailboxes, user_id, name, 0);
    if 0 <= i < mailboxes.len() {
        Some(mailboxes[i].id)
    } else {
        None
    }
}

pub proof fn lemma_mailbox_from(mailboxes: Seq<MailboxView>, user_id: i32, name: Seq<char>, i: int)
    requires
        0 <= i <= mailboxes.len(),
    ensures
        i <= mailbox_from(mailboxes, user_id, name, i) <= mailboxes.len(),
        mailbox_from(mailboxes, user_id, name, i) < mailboxes.len() ==> {
            let k = mailbox_from(mailboxes, user_id, name, i);
            mailboxes[k].user_id == user_id && mailboxes[k].name == name
        },
        forall|j: int|
            i <= j < mailbox_from(mailboxes, user_id, name, i) ==> !((#[trigger] mailboxes[j]).user_id
                == user_id && mailboxes[j].name == name),
    decreases mailboxes.len() - i,
{
    if i < mailboxes.len() && !(mailboxes[i].user_id == user_id && mailboxes[i].name == name) {
        lemma_mailbox_from(mailboxes, user_id, name, i + 1);
    }
}

/// The position of the user of the given name among the rows from `i` on;
/// the number of rows where there is none.
pub open spec fn user_from(users: Seq<UserView>, name: Seq<char>, i: int) -> int
    decreases users.len() - i,
{
    if 0 <= i < users.len() && users[i].name != name {
        user_from(users, name, i + 1)
    } else {
        i
    }
}

/// The user of the given name.
pub open spec fn user_named(users: Seq<UserView>, name: Seq<char>) -> Option<UserView> {
    let i = user_from(users, name, 0);
    if 0 <= i < users.len() {
        Some(users[i])
    } else {
        None
    }
}

pub proof fn lemma_user_from(users: Seq<UserView>, name: Seq<char>, i: int)
    requires
        0 <= i <= users.len(),
    ensures
        i <= user_from(users, name, i) <= users.len(),
        user_from(users, name, i) < users.len() ==> users[user_from(users, name, i)].name == name,
        forall|j: int| i <= j < user_from(users, name, i) ==> (#[trigger] users[j]).name != name,
    decreases users.len() - i,
{
    if i < users.len() && users[i].name != name {
        lemma_user_from(users, name, i + 1);
    }
}

impl DBClient {
    /// What holds of a store at all times.
    pub open spec fn wf(&self) -> bool {
        self@.wf()
    }

    /// An empty store.
    pub fn new() -> (r: DBClient)
        ensures
            r.wf(),
            r@.users.len() == 0,
            r@.mailboxes.len() == 0,
            r@.mail.len() == 0,
            r@.changes.len() == 0,
    {
        DBClient { users: Vec::new(), mailboxes: Vec::new(), mail: Vec::new(), changes: Vec::new() }
    }

    fn find_user(&self, name: &str) -> (r: usize)
        ensures
            r == user_from(self@.users, name@, 0),
            r <= self.users.len(),
    {
        let mut i: usize = 0;
        while i < self.users.len() && !str_eq(self.users[i].name.as_str(), name)
            invariant
                i <= self.users.len(),
                user_from(self@.users, name@, 0) == user_from(self@.users, name@, i as int),
            decreases self.users.len() - i,
        {
            i += 1;
        }
        i
    }

    fn find_mailbox(&self, user_id: i32, name: &str) -> (r: usize)
        ensures
            r == mailbox_from(self@.mailboxes, user_id, name@, 0),
            r <= self.mailboxes.len(),
    {
        let mut i: usize = 0;
        while i < self.mailboxes.len() && !(self.mailboxes[i].user_id == user_id && str_eq(
            self.mailboxes[i].name.as_str(),
            name,
        ))
            invariant
                i <= self.mailboxes.len(),
                mailbox_from(self@.mailboxes, user_id, name@, 0) == mailbox_from(
                    self@.mailboxes,
                    user_id,
                    name@,
                    i as int,
                ),
            decreases self.mailboxes.len() - i,
        {
            i += 1;
        }
        i
    }

    /// Whether a mailbox has the id.
    pub fn mailbox_exists(&self, mailbox_id: i32) -> (r: bool)
        ensures
            r == has_mailbox(self@.mailboxes, mailbox_id),
    {
        let mut i: usize = 0;
        while i < self.mailboxes.len()
            invariant
                i <= self.mailboxes.len(),
                forall|j: int| 0 <= j < i ==> (#[trigger] self@.mailboxes[j]).id != mailbox_id,
            decreases self.mailboxes.len() - i,
        {
            if self.mailboxes[i].id == mailbox_id {
                assert(self@.mailboxes[i as int].id == mailbox_id);
                return true;
            }
            i += 1;
        }
        false
    }

    /// Adds a user with the given bcrypt hash; gives the new id.
    pub fn add_user(&mut self, name: &str, password_hash: &str) -> (r: Result<i32, StoreError>)
        requires
            old(self).wf(),
        ensures
            final(self).wf(),
            final(self)@.mailboxes == old(self)@.mailboxes,
            final(self)@.mail == old(self)@.mail,
            final(self)@.changes == old(self)@.changes,
            match r {
                Ok(id) => user_named(old(self)@.users, name@) is None && final(self)@.users
                    == old(self)@.users.push(UserView { id, name: name@, password: password_hash@ }),
                Err(e) => final(self)@.users == old(self)@.users && (e == StoreError::Conflict
                    || e == StoreError::Full) && (e == StoreError::Conflict <==> user_named(
                    old(self)@.users,
                    name@,
                ) is Some),
            },
    {
        let k = self.find_user(name);
        proof {
            lemma_user_from(self@.users, name@, 0);
        }
        if k < self.users.len() {
            return Err(StoreError::Conflict);
        }
        let id: i32 = if self.users.len() == 0 {
            1
        } else {
            let last = self.users[self.users.len() - 1].id;
            assert(self@.users[self.users.len() - 1].id == last);
            if last == i32::MAX {
                return Err(StoreError::Full);
            }
            last + 1
        };
        let ghost before = self@.users;
        self.users.push(
            User { id, name: chars_to_string(str_to_chars(name).as_slice()), password: chars_to_string(
                str_to_chars(password_hash).as_slice(),
            ) },
        );
        assert(self@.users =~= before.push(
            UserView { id, name: name@, password: password_hash@ },
        ));
        proof {
            let after = self@.users;
            let n = before.len() as int;
            assert forall|i: int| 0 <= i < after.len() implies (#[trigger] after[i]).id >= 1 by {
                if i < n {
                    assert(before[i].id >= 1);
                }
            }
            assert forall|i: int, j: int| 0 <= i < j < after.len() implies (#[trigger] after[i]).id < (
            #[trigger] after[j]).id && after[i].name != after[j].name by {
                if j < n {
                    assert(before[i].id < before[j].id);
                    assert(before[i].name != before[j].name);
                } else {
                    assert(before[i].name != name@);
                    if i < n - 1 {
                        assert(before[i].id < before[n - 1].id);
                    }
                }
            }
        }
        Ok(id)
    }

    /// One more than the largest UID in the store; 1 for an empty store.
    pub fn next_uid(&self) -> (r: i64)
        ensures
            r == max_uid(self@.mail) + 1,
    {
        if self.mail.len() == 0 {
            1
        } else {
            self.mail[self.mail.len() - 1].uid as i64 + 1
        }
    }

    fn count_mailbox(&self, mailbox_id: i32) -> (r: usize)
        ensures
            r == mailbox_count(self@.mail, mailbox_id),
    {
        let mut c: usize = 0;
        let mut i: usize = 0;
        while i < self.mail.len()
            invariant
                i <= self.mail.len(),
                c == count_in(self@.mail, mailbox_id, i as int),
                c <= i,
            decreases self.mail.len() - i,
        {
            if self.mail[i].mailbox_id == mailbox_id {
                c += 1;
            }
            i += 1;
        }
        c
    }

    /// The sequence number that the next message of the mailbox gets: one
    /// more than the number of its messages.
    pub fn next_seqnum(&self, mailbox_id: i32) -> (r: i64)
        requires
            self.wf(),
        ensures
            r == mailbox_count(self@.mail, mailbox_id) + 1,
    {
        let c = self.count_mailbox(mailbox_id);
        proof {
            lemma_count_in_bounds(self@.mail, mailbox_id, self@.mail.len() as int);
            if self@.mail.len() > 0 {
                lemma_uid_bound(self@.mail, self@.mail.len() - 1);
            }
        }
        c as i64 + 1
    }

    /// The number of messages in the mailbox, or in the whole store where
    /// no mailbox is given.
    pub fn mail_count(&self, mailbox_id: Option<i32>) -> (r: i64)
        requires
            self.wf(),
        ensures
            r == match mailbox_id {
                Some(m) => mailbox_count(self@.mail, m),
                None => self@.mail.len() as int,
            },
    {
        proof {
            if self@.mail.len() > 0 {
                lemma_uid_bound(self@.mail, self@.mail.len() - 1);
            }
        }
        match mailbox_id {
            Some(m) => {
                let c = self.count_mailbox(m);
                proof {
                    lemma_count_in_bounds(self@.mail, m, self@.mail.len() as int);
                }
                c as i64
            },
            None => self.mail.len() as i64,
        }
    }
}


/// What `bcrypt::verify` says of a password and a stored hash: whether
/// they agree, or nothing where it reports an error.
pub uninterp spec fn bcrypt_verdict(password: Seq<char>, hash: Seq<char>) -> Option<bool>;

/// Calls `bcrypt::verify`. The contract only names the result.
#[verifier::external_body]
fn bcrypt_verify(password: &str, hash: &str) -> (r: Option<bool>)
    ensures
        r == bcrypt_verdict(password@, hash@),
{
    match bcrypt::verify(password, hash) {
        Ok(b) => Some(b),
        Err(_) => None,
    }
}

/// The user's id where the password was verified against the stored hash.
pub open spec fn granted(id: i32, verdict: Option<bool>) -> Option<i32> {
    if verdict == Some(true) {
        Some(id)
    } else {
        None
    }
}

/// Lets a user in where the verdict on the password is a plain yes.
pub fn grant(id: i32, verdict: Option<bool>) -> (r: Option<i32>)
    ensures
        r == granted(id, verdict),
{
    match verdict {
        Some(true) => Some(id),
        _ => None,
    }
}

/// Who a login with the given name and password is: the user of that
/// name, where the password verifies against the stored hash.
pub open spec fn login_of(users: Seq<UserView>, name: Seq<char>, password: Seq<char>) -> Option<
    i32,
> {
    match user_named(users, name) {
        Some(u) => granted(u.id, bcrypt_verdict(password, u.password)),
        None => None,
    }
}

/// The texts joined with `sep` between them.
pub fn join_strings(parts: &Vec<String>, sep: &str) -> (r: String)
    ensures
        r@ == join(string_views(parts@), sep@),
{
    let mut out: Vec<char> = Vec::new();
    let mut i: usize = 0;
    while i < parts.len()
        invariant
            i <= parts.len(),
            out@ == join(string_views(parts@).subrange(0, i as int), sep@),
        decreases parts.len() - i,
    {
        let ghost prev = string_views(parts@).subrange(0, i as int);
        let ghost next = string_views(parts@).subrange(0, i + 1);
        assert(next.drop_last() =~= prev);
        assert(next.last() == parts@[i as int]@);
        if i > 0 {
            push_str(&mut out, sep);
        }
        push_str(&mut out, parts[i].as_str());
        i += 1;
    }
    assert(string_views(parts@).subrange(0, i as int) =~= string_views(parts@));
    chars_to_string(out.as_slice())
}

/// The row that a delivered message becomes.
pub open spec fn delivered(
    mail: crate::smtp_common::ReceivedMail,
    uid: i32,
    seqnum: i32,
    mailbox_id: i32,
    date: Timestamp,
    flags: Seq<char>,
) -> MailView {
    MailView {
        uid,
        seqnum,
        date,
        sender: mail.from,
        recipients: join(mail.to, ", "@),
        data: mail.data,
        mailbox_id,
        flags,
    }
}

impl DBClient {
    /// The id of the user with the given name and password; nothing where
    /// there is no such user or the password does not verify.
    pub fn check_user(&self, username: &str, password: &str) -> (r: Option<i32>)
        ensures
            r == login_of(self@.users, username@, password@),
    {
        let k = self.find_user(username);
        if k < self.users.len() {
            let verdict = bcrypt_verify(password, self.users[k].password.as_str());
            assert(self@.users[k as int] == self.users@[k as int]@);
            grant(self.users[k].id, verdict)
        } else {
            None
        }
    }

    /// The id of the user with the given name.
    pub fn get_user_id(&self, username: &str) -> (r: Option<i32>)
        ensures
            r == match user_named(self@.users, username@) {
                Some(u) => Some(u.id),
                None => None,
            },
    {
        let k = self.find_user(username);
        if k < self.users.len() {
            assert(self@.users[k as int] == self.users@[k as int]@);
            Some(self.users[k].id)
        } else {
            None
        }
    }

    /// Stores a received message in a mailbox, at `datetime` or else at
    /// `now`, with the given flags set. The message gets the next UID of
    /// the store and the next sequence number of the mailbox, and
    /// `* 1 EXISTS` is published. Gives the UID.
    pub fn replicate(
        &mut self,
        mail: Mail,
        mailbox_id: i32,
        datetime: Option<Timestamp>,
        now: Timestamp,
        flags: &Vec<IMAPFlags>,
    ) -> (r: Result<i32, StoreError>)
        requires
            old(self).wf(),
        ensures
            final(self).wf(),
            final(self)@.users == old(self)@.users,
            final(self)@.mailboxes == old(self)@.mailboxes,
            r is Ok <==> has_mailbox(old(self)@.mailboxes, mailbox_id) && max_uid(old(self)@.mail)
                < i32::MAX,
            match r {
                Ok(uid) => {
                    &&& uid == max_uid(old(self)@.mail) + 1
                    &&& final(self)@.mail == old(self)@.mail.push(
                        delivered(
                            mail@,
                            uid,
                            (mailbox_count(old(self)@.mail, mailbox_id) + 1) as i32,
                            mailbox_id,
                            match datetime {
                                Some(d) => d,
                                None => now,
                            },
                            bitmap_of(flags@),
                        ),
                    )
                    &&& final(self)@.changes == old(self)@.changes.push("* 1 EXISTS\r\n"@)
                },
                Err(e) => {
                    &&& final(self)@ == old(self)@
                    &&& e == if has_mailbox(old(self)@.mailboxes, mailbox_id) {
                        StoreError::Full
                    } else {
                        StoreError::NoSuchMailbox
                    }
                },
            },
    {
        if !self.mailbox_exists(mailbox_id) {
            return Err(StoreError::NoSuchMailbox);
        }
        let next = self.next_uid();
        if next > i32::MAX as i64 {
            return Err(StoreError::Full);
        }
        let uid: i32 = next as i32;
        let count = self.count_mailbox(mailbox_id);
        proof {
            lemma_count_in_bounds(self@.mail, mailbox_id, self@.mail.len() as int);
            if self@.mail.len() > 0 {
                lemma_uid_bound(self@.mail, self@.mail.len() - 1);
            }
        }
        let seqnum: i32 = (count + 1) as i32;
        let date = match datetime {
            Some(d) => d,
            None => now,
        };
        let ghost received = mail@;
        let recipients = join_strings(&mail.to, ", ");
        let row = MailRow {
            uid,
            seqnum,
            date,
            sender: mail.from,
            recipients,
            data: mail.data,
            mailbox_id,
            flags: make_bitmap(flags),
        };
        let ghost before = self@;
        let ghost new_row = row@;
        assert(new_row == delivered(received, uid, seqnum, mailbox_id, date, bitmap_of(flags@)));
        self.mail.push(row);
        self.changes.push(chars_to_string(str_to_chars("* 1 EXISTS\r\n").as_slice()));
        proof {
            assert(self@.mail =~= before.mail.push(new_row));
            assert(self@.changes =~= before.changes.push("* 1 EXISTS\r\n"@));
            lemma_push_mail(before.mail, new_row);
            assert forall|i: int| 0 <= i < self@.mail.len() implies has_mailbox(
                self@.mailboxes,
                (#[trigger] self@.mail[i]).mailbox_id,
            ) by {
                if i < before.mail.len() {
                    assert(has_mailbox(before.mailboxes, before.mail[i].mailbox_id));
                }
            }
        }
        Ok(uid)
    }

    /// Takes the notifications published since the last call.
    pub fn take_changes(&mut self) -> (r: Vec<String>)
        requires
            old(self).wf(),
        ensures
            final(self).wf(),
            string_views(r@) == old(self)@.changes,
            final(self)@.changes.len() == 0,
            final(self)@.users == old(self)@.users,
            final(self)@.mailboxes == old(self)@.mailboxes,
            final(self)@.mail == old(self)@.mail,
    {
        let mut out: Vec<String> = Vec::new();
        std::mem::swap(&mut out, &mut self.changes);
        out
    }
}


/// Whether the bitmap has the flag set.
pub open spec fn flag_set(flags: Seq<char>, flag: IMAPFlags) -> bool {
    flag.place() < flags.len() && flags[flag.place()] == '1'
}

/// Whether an EXPUNGE of the mailbox, restricted to the UID range where
/// one is given, removes the message: it lies in the mailbox, has the
/// Deleted flag set, and its UID lies in the range.
pub open spec fn doomed(row: MailView, mailbox_id: i32, range: Option<(i32, i32)>) -> bool {
    &&& row.mailbox_id == mailbox_id
    &&& flag_set(row.flags, IMAPFlags::Deleted)
    &&& match range {
        Some((lo, hi)) => lo <= row.uid <= hi,
        None => true,
    }
}

/// For each message, whether an EXPUNGE removes it.
pub open spec fn expunge_marks(mail: Seq<MailView>, mailbox_id: i32, range: Option<(i32, i32)>) -> Seq<
    bool,
> {
    Seq::new(mail.len(), |i: int| doomed(mail[i], mailbox_id, range))
}

/// The sequence numbers that an EXPUNGE reports for the marked messages
/// among the first `n`: each message's number at the time of its report,
/// which is its old number less the number of reports before it.
pub open spec fn expunge_reports(mail: Seq<MailView>, marks: Seq<bool>, n: int) -> Seq<i32>
    decreases n,
{
    if n <= 0 || n > mail.len() || n > marks.len() {
        seq![]
    } else {
        let before = expunge_reports(mail, marks, n - 1);
        if marks[n - 1] {
            before.push((mail[n - 1].seqnum - before.len()) as i32)
        } else {
            before
        }
    }
}

/// The notification for one expunged message.
pub open spec fn expunge_notice(seqnum: i32) -> Seq<char> {
    "* "@ + decimal(seqnum as int) + " EXPUNGE\r\n"@
}

/// The notifications for the reported sequence numbers.
pub open spec fn expunge_notices(reports: Seq<i32>) -> Seq<Seq<char>> {
    Seq::new(reports.len(), |i: int| expunge_notice(reports[i]))
}

pub proof fn lemma_reports_len(mail: Seq<MailView>, marks: Seq<bool>, n: int)
    ensures
        expunge_reports(mail, marks, n).len() <= if n < 0 {
            0
        } else {
            n
        },
    decreases n,
{
    if !(n <= 0 || n > mail.len() || n > marks.len()) {
        lemma_reports_len(mail, marks, n - 1);
    }
}

/// How many of the given rows lie in the mailbox.
pub fn count_rows(rows: &Vec<MailRow>, mailbox_id: i32) -> (r: usize)
    ensures
        r == mailbox_count(mail_views(rows@), mailbox_id),
        r <= rows.len(),
{
    let mut c: usize = 0;
    let mut i: usize = 0;
    while i < rows.len()
        invariant
            i <= rows.len(),
            c == count_in(mail_views(rows@), mailbox_id, i as int),
            c <= i,
        decreases rows.len() - i,
    {
        if rows[i].mailbox_id == mailbox_id {
            c += 1;
        }
        i += 1;
    }
    c
}

/// A copy of the row with another sequence number.
pub fn renumber(row: &MailRow, seqnum: i32) -> (r: MailRow)
    ensures
        r@ == renumbered(row@, seqnum),
{
    MailRow {
        uid: row.uid,
        seqnum,
        date: row.date,
        sender: row.sender.clone(),
        recipients: row.recipients.clone(),
        data: row.data.clone(),
        mailbox_id: row.mailbox_id,
        flags: row.flags.clone(),
    }
}

impl DBClient {
    /// Takes the marked messages out and renumbers the others.
    fn remove_marked(&mut self, marks: &Vec<bool>)
        requires
            old(self).wf(),
            marks.len() == old(self)@.mail.len(),
        ensures
            final(self).wf(),
            final(self)@.mail == without(old(self)@.mail, marks@, old(self)@.mail.len() as int),
            final(self)@.users == old(self)@.users,
            final(self)@.mailboxes == old(self)@.mailboxes,
            final(self)@.changes == old(self)@.changes,
    {
        let ghost before = self@;
        let mut out: Vec<MailRow> = Vec::new();
        let mut i: usize = 0;
        while i < self.mail.len()
            invariant
                i <= self.mail.len(),
                self@ == before,
                before.wf(),
                marks.len() == before.mail.len(),
                mail_views(out@) == without(before.mail, marks@, i as int),
            decreases self.mail.len() - i,
        {
            proof {
                lemma_without(before.mail, marks@, i as int);
                lemma_uid_bound(before.mail, i as int);
            }
            if !marks[i] {
                let c = count_rows(&out, self.mail[i].mailbox_id);
                let ghost prev = mail_views(out@);
                let row = renumber(&self.mail[i], (c + 1) as i32);
                assert(self@.mail[i as int] == self.mail@[i as int]@);
                out.push(row);
                assert(mail_views(out@) =~= prev.push(row@));
            }
            i += 1;
        }
        self.mail = out;
        proof {
            let n = before.mail.len() as int;
            lemma_without(before.mail, marks@, n);
            assert forall|k: int| 0 <= k < self@.mail.len() implies has_mailbox(
                self@.mailboxes,
                (#[trigger] self@.mail[k]).mailbox_id,
            ) by {
                lemma_without_sound(before.mail, marks@, n, k);
                let j = choose|j: int|
                    0 <= j < n && !marks@[j] && #[trigger] stands_for(self@.mail[k], before.mail, j);
                assert(has_mailbox(before.mailboxes, before.mail[j].mailbox_id));
            }
        }
    }

    /// Removes the messages of the mailbox that have the Deleted flag set,
    /// within the UID range where one is given, and renumbers the others
    /// so that sequence numbers stay without gaps. Gives the sequence
    /// numbers to report to the client, in order, each as it stands after
    /// the reports before it, and publishes `* n EXPUNGE` for each.
    pub fn expunge(&mut self, mailbox_id: i32, uid: Option<(i32, i32)>) -> (r: Vec<i32>)
        requires
            old(self).wf(),
        ensures
            final(self).wf(),
            final(self)@.users == old(self)@.users,
            final(self)@.mailboxes == old(self)@.mailboxes,
            final(self)@.mail == without(
                old(self)@.mail,
                expunge_marks(old(self)@.mail, mailbox_id, uid),
                old(self)@.mail.len() as int,
            ),
            r@ == expunge_reports(
                old(self)@.mail,
                expunge_marks(old(self)@.mail, mailbox_id, uid),
                old(self)@.mail.len() as int,
            ),
            final(self)@.changes == old(self)@.changes + expunge_notices(r@),
    {
        let ghost before = self@;
        let ghost all = expunge_marks(before.mail, mailbox_id, uid);
        let mut marks: Vec<bool> = Vec::new();
        let mut reports: Vec<i32> = Vec::new();
        let mut i: usize = 0;
        while i < self.mail.len()
            invariant
                i <= self.mail.len(),
                self@ == before,
                before.wf(),
                all == expunge_marks(before.mail, mailbox_id, uid),
                marks@ == all.subrange(0, i as int),
                reports@ == expunge_reports(before.mail, all, i as int),
            decreases self.mail.len() - i,
        {
            let row = &self.mail[i];
            assert(self@.mail[i as int] == self.mail@[i as int]@);
            assert(is_bitmap(before.mail[i as int].flags));
            let flags = str_to_chars(row.flags.as_str());
            let in_range = match uid {
                Some((lo, hi)) => lo <= row.uid && row.uid <= hi,
                None => true,
            };
            let gone = row.mailbox_id == mailbox_id && flags[2] == '1' && in_range;
            assert(gone == doomed(before.mail[i as int], mailbox_id, uid));
            marks.push(gone);
            assert(marks@ =~= all.subrange(0, i + 1));
            if gone {
                proof {
                    lemma_reports_len(before.mail, all, i as int);
                    lemma_uid_bound(before.mail, i as int);
                    crate::store::lemma_seqnums_contiguous(before.mail, mailbox_id);
                }
                let earlier = reports.len();
                assert(earlier <= i);
                reports.push((row.seqnum as i64 - earlier as i64) as i32);
            }
            i += 1;
        }
        assert(marks@ =~= all);
        self.remove_marked(&marks);
        let mut k: usize = 0;
        let ghost changes0 = self@.changes;
        while k < reports.len()
            invariant
                k <= reports.len(),
                self.wf(),
                self@.users == before.users,
                self@.mailboxes == before.mailboxes,
                self@.mail == without(before.mail, all, before.mail.len() as int),
                self@.changes == changes0 + expunge_notices(reports@.subrange(0, k as int)),
            decreases reports.len() - k,
        {
            let mut line: Vec<char> = Vec::new();
            push_str(&mut line, "* ");
            push_i64(&mut line, reports[k] as i64);
            push_str(&mut line, " EXPUNGE\r\n");
            assert(line@ =~= expunge_notice(reports@[k as int]));
            let ghost c1 = self@.changes;
            self.changes.push(chars_to_string(line.as_slice()));
            assert(self@.changes =~= c1.push(line@));
            assert(self@.changes =~= changes0 + expunge_notices(reports@.subrange(0, k + 1)));
            k += 1;
        }
        assert(reports@.subrange(0, k as int) =~= reports@);
        reports
    }

    /// Removes the messages received before `cutoff` (Unix seconds) and
    /// renumbers the others.
    pub fn delete_old_mail(&mut self, cutoff: i64)
        requires
            old(self).wf(),
        ensures
            final(self).wf(),
            final(self)@.users == old(self)@.users,
            final(self)@.mailboxes == old(self)@.mailboxes,
            final(self)@.changes == old(self)@.changes,
            final(self)@.mail == without(
                old(self)@.mail,
                Seq::new(
                    old(self)@.mail.len(),
                    |i: int| old(self)@.mail[i].date.unix_seconds < cutoff,
                ),
                old(self)@.mail.len() as int,
            ),
    {
        let ghost before = self@;
        let ghost all = Seq::new(before.mail.len(), |i: int| before.mail[i].date.unix_seconds < cutoff);
        let mut marks: Vec<bool> = Vec::new();
        let mut i: usize = 0;
        while i < self.mail.len()
            invariant
                i <= self.mail.len(),
                self@ == before,
                all == Seq::new(
                    before.mail.len(),
                    |i: int| before.mail[i].date.unix_seconds < cutoff,
                ),
                marks@ == all.subrange(0, i as int),
            decreases self.mail.len() - i,
        {
            assert(self@.mail[i as int] == self.mail@[i as int]@);
            marks.push(self.mail[i].date.unix_seconds < cutoff);
            assert(marks@ =~= all.subrange(0, i + 1));
            i += 1;
        }
        assert(marks@ =~= all);
        self.remove_marked(&marks);
    }
}


/// The position of the mailbox with the id among the rows from `i` on;
/// the number of rows where there is none.
pub open spec fn mailbox_index_from(mailboxes: Seq<MailboxView>, id: i32, i: int) -> int
    decreases mailboxes.len() - i,
{
    if 0 <= i < mailboxes.len() && mailboxes[i].id != id {
        mailbox_index_from(mailboxes, id, i + 1)
    } else {
        i
    }
}

pub open spec fn mailbox_index(mailboxes: Seq<MailboxView>, id: i32) -> int {
    mailbox_index_from(mailboxes, id, 0)
}

pub proof fn lemma_mailbox_index_from(mailboxes: Seq<MailboxView>, id: i32, i: int)
    requires
        0 <= i <= mailboxes.len(),
    ensures
        i <= mailbox_index_from(mailboxes, id, i) <= mailboxes.len(),
        mailbox_index_from(mailboxes, id, i) < mailboxes.len() ==> mailboxes[mailbox_index_from(
            mailboxes,
            id,
            i,
        )].id == id,
        forall|j: int|
            i <= j < mailbox_index_from(mailboxes, id, i) ==> (#[trigger] mailboxes[j]).id != id,
    decreases mailboxes.len() - i,
{
    if i < mailboxes.len() && mailboxes[i].id != id {
        lemma_mailbox_index_from(mailboxes, id, i + 1);
    }
}

/// What asking for the user's mailbox of a name gives: its id; for
/// `INBOX`, where the user has none, the id of the one that is made.
pub open spec fn got_mailbox_id(mailboxes: Seq<MailboxView>, user_id: i32, name: Seq<char>) -> Result<
    i32,
    StoreError,
> {
    match mailbox_id_of(mailboxes, user_id, name) {
        Some(id) => Ok(id),
        None => if name == "INBOX"@ {
            if max_mailbox_id(mailboxes) < i32::MAX {
                Ok((max_mailbox_id(mailboxes) + 1) as i32)
            } else {
                Err(StoreError::Full)
            }
        } else {
            Err(StoreError::NoSuchMailbox)
        },
    }
}

/// The mailboxes after the user's mailbox of a name was asked for: as
/// before, but for an `INBOX` made where the user had none.
pub open spec fn mailboxes_after_get(mailboxes: Seq<MailboxView>, user_id: i32, name: Seq<char>) -> Seq<
    MailboxView,
> {
    if mailbox_id_of(mailboxes, user_id, name) is None && name == "INBOX"@ && max_mailbox_id(
        mailboxes,
    ) < i32::MAX {
        mailboxes.push(new_mailbox((max_mailbox_id(mailboxes) + 1) as i32, user_id, "INBOX"@))
    } else {
        mailboxes
    }
}

/// The row of a new mailbox: not subscribed.
pub open spec fn new_mailbox(id: i32, user_id: i32, name: Seq<char>) -> MailboxView {
    MailboxView { id, name, user_id, flags: 0 }
}

/// The names of the user's mailboxes among the first `n` rows.
pub open spec fn names_of(mailboxes: Seq<MailboxView>, user_id: i32, n: int) -> Seq<Seq<char>>
    decreases n,
{
    if n <= 0 || n > mailboxes.len() {
        seq![]
    } else if mailboxes[n - 1].user_id == user_id {
        names_of(mailboxes, user_id, n - 1).push(mailboxes[n - 1].name)
    } else {
        names_of(mailboxes, user_id, n - 1)
    }
}

/// A row put behind the others keeps the mailboxes well formed where its
/// id is above every id and its user has no mailbox of its name.
pub proof fn lemma_push_mailbox(mailboxes: Seq<MailboxView>, row: MailboxView)
    requires
        mailboxes_wf(mailboxes),
        row.id > max_mailbox_id(mailboxes),
        mailbox_id_of(mailboxes, row.user_id, row.name) is None,
    ensures
        mailboxes_wf(mailboxes.push(row)),
        forall|id: i32| has_mailbox(mailboxes, id) ==> has_mailbox(mailboxes.push(row), id),
        has_mailbox(mailboxes.push(row), row.id),
{
    let after = mailboxes.push(row);
    let n = mailboxes.len() as int;
    lemma_mailbox_from(mailboxes, row.user_id, row.name, 0);
    assert forall|i: int| 0 <= i < after.len() implies (#[trigger] after[i]).id >= 1 by {
        if i < n {
            assert(mailboxes[i].id >= 1);
        }
    }
    assert forall|i: int, j: int| 0 <= i < j < after.len() implies (#[trigger] after[i]).id < (
    #[trigger] after[j]).id && !(after[i].user_id == after[j].user_id && after[i].name
        == after[j].name) by {
        if j < n {
            assert(mailboxes[i].id < mailboxes[j].id);
            assert(!(mailboxes[i].user_id == mailboxes[j].user_id && mailboxes[i].name
                == mailboxes[j].name));
        } else {
            assert(!(mailboxes[i].user_id == row.user_id && mailboxes[i].name == row.name));
            if i < n - 1 {
                assert(mailboxes[i].id < mailboxes[n - 1].id);
            }
        }
    }
    assert forall|id: i32| has_mailbox(mailboxes, id) implies has_mailbox(after, id) by {
        let k = choose|k: int| 0 <= k < mailboxes.len() && (#[trigger] mailboxes[k]).id == id;
        assert(after[k].id == id);
    }
    assert(after[n].id == row.id);
}

/// Taking a row out keeps the mailboxes well formed, and every other
/// mailbox is still there.
pub proof fn lemma_remove_mailbox(mailboxes: Seq<MailboxView>, k: int)
    requires
        mailboxes_wf(mailboxes),
        0 <= k < mailboxes.len(),
    ensures
        mailboxes_wf(mailboxes.remove(k)),
        forall|id: i32|
            has_mailbox(mailboxes, id) && id != mailboxes[k].id ==> has_mailbox(
                mailboxes.remove(k),
                id,
            ),
        !has_mailbox(mailboxes.remove(k), mailboxes[k].id),
{
    let after = mailboxes.remove(k);
    assert forall|i: int| 0 <= i < after.len() implies (#[trigger] after[i]).id >= 1 by {
        if i < k {
            assert(mailboxes[i].id >= 1);
        } else {
            assert(mailboxes[i + 1].id >= 1);
        }
    }
    assert forall|i: int, j: int| 0 <= i < j < after.len() implies (#[trigger] after[i]).id < (
    #[trigger] after[j]).id && !(after[i].user_id == after[j].user_id && after[i].name
        == after[j].name) by {
        let a = if i < k {
            i
        } else {
            i + 1
        };
        let b = if j < k {
            j
        } else {
            j + 1
        };
        assert(mailboxes[a].id < mailboxes[b].id);
        assert(!(mailboxes[a].user_id == mailboxes[b].user_id && mailboxes[a].name
            == mailboxes[b].name));
    }
    assert forall|id: i32|
        has_mailbox(mailboxes, id) && id != mailboxes[k].id implies has_mailbox(after, id) by {
        let w = choose|w: int| 0 <= w < mailboxes.len() && (#[trigger] mailboxes[w]).id == id;
        if w < k {
            assert(after[w].id == id);
        } else {
            assert(after[w - 1].id == id);
        }
    }
    if has_mailbox(after, mailboxes[k].id) {
        let w = choose|w: int| 0 <= w < after.len() && (#[trigger] after[w]).id == mailboxes[k].id;
        if w < k {
            assert(mailboxes[w].id < mailboxes[k].id);
        } else {
            assert(mailboxes[k].id < mailboxes[w + 1].id);
        }
    }
}

impl DBClient {
    fn find_mailbox_by_id(&self, mailbox_id: i32) -> (r: usize)
        ensures
            r == mailbox_index(self@.mailboxes, mailbox_id),
            r <= self.mailboxes.len(),
    {
        let mut i: usize = 0;
        while i < self.mailboxes.len() && self.mailboxes[i].id != mailbox_id
            invariant
                i <= self.mailboxes.len(),
                mailbox_index(self@.mailboxes, mailbox_id) == mailbox_index_from(
                    self@.mailboxes,
                    mailbox_id,
                    i as int,
                ),
            decreases self.mailboxes.len() - i,
        {
            i += 1;
        }
        i
    }

    /// Adds a mailbox row for the user; the caller has seen that the user
    /// has none of the name.
    fn insert_mailbox(&mut self, user_id: i32, name: &str) -> (r: Result<i32, StoreError>)
        requires
            old(self).wf(),
            mailbox_id_of(old(self)@.mailboxes, user_id, name@) is None,
        ensures
            final(self).wf(),
            final(self)@.users == old(self)@.users,
            final(self)@.mail == old(self)@.mail,
            final(self)@.changes == old(self)@.changes,
            match r {
                Ok(id) => id == max_mailbox_id(old(self)@.mailboxes) + 1 && final(self)@.mailboxes
                    == old(self)@.mailboxes.push(new_mailbox(id, user_id, name@)),
                Err(e) => e == StoreError::Full && max_mailbox_id(old(self)@.mailboxes) == i32::MAX
                    && final(self)@ == old(self)@,
            },
    {
        let id: i32 = if self.mailboxes.len() == 0 {
            1
        } else {
            let last = self.mailboxes[self.mailboxes.len() - 1].id;
            assert(self@.mailboxes[self.mailboxes.len() - 1].id == last);
            if last == i32::MAX {
                return Err(StoreError::Full);
            }
            last + 1
        };
        let ghost before = self@;
        let row = MailboxRow {
            id,
            name: chars_to_string(str_to_chars(name).as_slice()),
            user_id,
            flags: 0,
        };
        assert(row@ == new_mailbox(id, user_id, name@));
        self.mailboxes.push(row);
        proof {
            assert(self@.mailboxes =~= before.mailboxes.push(new_mailbox(id, user_id, name@)));
            lemma_push_mailbox(before.mailboxes, new_mailbox(id, user_id, name@));
            assert forall|i: int| 0 <= i < self@.mail.len() implies has_mailbox(
                self@.mailboxes,
                (#[trigger] self@.mail[i]).mailbox_id,
            ) by {
                assert(has_mailbox(before.mailboxes, before.mail[i].mailbox_id));
            }
        }
        Ok(id)
    }

    /// The id of the user's mailbox of the given name. The mailbox `INBOX`
    /// is made where the user has none yet.
    pub fn get_mailbox_id(&mut self, user_id: i32, mailbox_name: &str) -> (r: Result<
        i32,
        StoreError,
    >)
        requires
            old(self).wf(),
        ensures
            final(self).wf(),
            final(self)@.users == old(self)@.users,
            final(self)@.mail == old(self)@.mail,
            final(self)@.changes == old(self)@.changes,
            r == got_mailbox_id(old(self)@.mailboxes, user_id, mailbox_name@),
            final(self)@.mailboxes == mailboxes_after_get(
                old(self)@.mailboxes,
                user_id,
                mailbox_name@,
            ),
            r is Ok ==> has_mailbox(final(self)@.mailboxes, r->Ok_0),
            match mailbox_id_of(old(self)@.mailboxes, user_id, mailbox_name@) {
                Some(id) => r == Ok::<i32, StoreError>(id) && final(self)@ == old(self)@,
                None => if mailbox_name@ == "INBOX"@ && max_mailbox_id(old(self)@.mailboxes)
                    < i32::MAX {
                    let id = (max_mailbox_id(old(self)@.mailboxes) + 1) as i32;
                    r == Ok::<i32, StoreError>(id) && final(self)@.mailboxes
                        == old(self)@.mailboxes.push(new_mailbox(id, user_id, "INBOX"@))
                } else {
                    final(self)@ == old(self)@ && r == Err::<i32, StoreError>(
                        if mailbox_name@ == "INBOX"@ {
                            StoreError::Full
                        } else {
                            StoreError::NoSuchMailbox
                        },
                    )
                },
            },
    {
        let k = self.find_mailbox(user_id, mailbox_name);
        if k < self.mailboxes.len() {
            assert(self@.mailboxes[k as int] == self.mailboxes@[k as int]@);
            return Ok(self.mailboxes[k].id);
        }
        if !str_eq(mailbox_name, "INBOX") {
            return Err(StoreError::NoSuchMailbox);
        }
        let r = self.insert_mailbox(user_id, mailbox_name);
        proof {
            if r is Ok {
                lemma_push_mailbox(
                    old(self)@.mailboxes,
                    new_mailbox(r->Ok_0, user_id, mailbox_name@),
                );
            }
        }
        r
    }

    /// Makes a mailbox for the user; refused where the user has one of the
    /// name already.
    pub fn create_mailbox(&mut self, user_id: i32, mailbox_name: &str) -> (r: Result<
        (),
        StoreError,
    >)
        requires
            old(self).wf(),
        ensures
            final(self).wf(),
            final(self)@.users == old(self)@.users,
            final(self)@.mail == old(self)@.mail,
            final(self)@.changes == old(self)@.changes,
            r is Ok <==> mailbox_id_of(old(self)@.mailboxes, user_id, mailbox_name@) is None
                && max_mailbox_id(old(self)@.mailboxes) < i32::MAX,
            match r {
                Ok(_) => final(self)@.mailboxes == old(self)@.mailboxes.push(
                    new_mailbox(
                        (max_mailbox_id(old(self)@.mailboxes) + 1) as i32,
                        user_id,
                        mailbox_name@,
                    ),
                ),
                Err(e) => final(self)@ == old(self)@ && e == if mailbox_id_of(
                    old(self)@.mailboxes,
                    user_id,
                    mailbox_name@,
                ) is Some {
                    StoreError::Conflict
                } else {
                    StoreError::Full
                },
            },
    {
        let k = self.find_mailbox(user_id, mailbox_name);
        if k < self.mailboxes.len() {
            return Err(StoreError::Conflict);
        }
        match self.insert_mailbox(user_id, mailbox_name) {
            Ok(_) => Ok(()),
            Err(e) => Err(e),
        }
    }

    /// Removes the mailbox with all its messages. Nothing changes where no
    /// mailbox has the id.
    pub fn delete_mailbox(&mut self, mailbox_id: i32)
        requires
            old(self).wf(),
        ensures
            final(self).wf(),
            final(self)@.users == old(self)@.users,
            final(self)@.changes == old(self)@.changes,
            final(self)@.mail == without(
                old(self)@.mail,
                Seq::new(old(self)@.mail.len(), |i: int| old(self)@.mail[i].mailbox_id == mailbox_id),
                old(self)@.mail.len() as int,
            ),
            final(self)@.mailboxes == if has_mailbox(old(self)@.mailboxes, mailbox_id) {
                old(self)@.mailboxes.remove(mailbox_index(old(self)@.mailboxes, mailbox_id))
            } else {
                old(self)@.mailboxes
            },
            !has_mailbox(final(self)@.mailboxes, mailbox_id),
    {
        let ghost before = self@;
        let ghost all = Seq::new(before.mail.len(), |i: int| before.mail[i].mailbox_id == mailbox_id);
        let mut marks: Vec<bool> = Vec::new();
        let mut i: usize = 0;
        while i < self.mail.len()
            invariant
                i <= self.mail.len(),
                self@ == before,
                all == Seq::new(before.mail.len(), |i: int| before.mail[i].mailbox_id == mailbox_id),
                marks@ == all.subrange(0, i as int),
            decreases self.mail.len() - i,
        {
            assert(self@.mail[i as int] == self.mail@[i as int]@);
            marks.push(self.mail[i].mailbox_id == mailbox_id);
            assert(marks@ =~= all.subrange(0, i + 1));
            i += 1;
        }
        assert(marks@ =~= all);
        self.remove_marked(&marks);
        let k = self.find_mailbox_by_id(mailbox_id);
        proof {
            lemma_mailbox_index_from(before.mailboxes, mailbox_id, 0);
        }
        if k < self.mailboxes.len() {
            let ghost mid = self@;
            self.mailboxes.remove(k);
            proof {
                assert(self@.mailboxes =~= before.mailboxes.remove(k as int));
                lemma_remove_mailbox(before.mailboxes, k as int);
                assert(before.mailboxes[k as int].id == mailbox_id);
                assert(has_mailbox(before.mailboxes, mailbox_id));
                assert forall|x: int| 0 <= x < self@.mail.len() implies has_mailbox(
                    self@.mailboxes,
                    (#[trigger] self@.mail[x]).mailbox_id,
                ) by {
                    let n = before.mail.len() as int;
                    lemma_without_sound(before.mail, all, n, x);
                    let j = choose|j: int|
                        0 <= j < n && !all[j] && #[trigger] stands_for(self@.mail[x], before.mail, j);
                    assert(has_mailbox(before.mailboxes, before.mail[j].mailbox_id));
                }
            }
        } else {
            proof {
                if has_mailbox(before.mailboxes, mailbox_id) {
                    let w = choose|w: int|
                        0 <= w < before.mailboxes.len() && (#[trigger] before.mailboxes[w]).id
                            == mailbox_id;
                    assert(false);
                }
            }
        }
    }
}


/// A mailbox row with another name.
pub open spec fn renamed(row: MailboxView, name: Seq<char>) -> MailboxView {
    MailboxView { name, ..row }
}

/// A mailbox row with another subscription bit.
pub open spec fn subscribed(row: MailboxView, on: bool) -> MailboxView {
    MailboxView {
        flags: if on {
            1
        } else {
            0
        },
        ..row
    }
}

/// Replacing a row by one with the same id keeps every mailbox in place.
pub proof fn lemma_update_mailbox(mailboxes: Seq<MailboxView>, k: int, row: MailboxView)
    requires
        mailboxes_wf(mailboxes),
        0 <= k < mailboxes.len(),
        row.id == mailboxes[k].id,
        row.user_id == mailboxes[k].user_id,
        row.name == mailboxes[k].name || forall|j: int|
            0 <= j < mailboxes.len() ==> !((#[trigger] mailboxes[j]).user_id == row.user_id
                && mailboxes[j].name == row.name),
    ensures
        mailboxes_wf(mailboxes.update(k, row)),
        forall|id: i32| has_mailbox(mailboxes, id) ==> has_mailbox(mailboxes.update(k, row), id),
{
    let after = mailboxes.update(k, row);
    assert forall|i: int| 0 <= i < after.len() implies (#[trigger] after[i]).id >= 1 by {
        assert(mailboxes[i].id >= 1);
    }
    assert forall|i: int, j: int| 0 <= i < j < after.len() implies (#[trigger] after[i]).id < (
    #[trigger] after[j]).id && !(after[i].user_id == after[j].user_id && after[i].name
        == after[j].name) by {
        assert(mailboxes[i].id < mailboxes[j].id);
        assert(!(mailboxes[i].user_id == mailboxes[j].user_id && mailboxes[i].name
            == mailboxes[j].name));
    }
    assert forall|id: i32| has_mailbox(mailboxes, id) implies has_mailbox(after, id) by {
        let w = choose|w: int| 0 <= w < mailboxes.len() && (#[trigger] mailboxes[w]).id == id;
        assert(after[w].id == id);
    }
}

/// The pattern that a list of flag demands makes: `_` at every place,
/// then for each of the first `n` demands `1` or `0` at its flag's place.
pub open spec fn demand_pattern(demands: Seq<(IMAPFlags, bool)>, n: int) -> Seq<char>
    decreases n,
{
    if n <= 0 || n > demands.len() {
        Seq::new(5, |i: int| '_')
    } else {
        demand_pattern(demands, n - 1).update(
            demands[n - 1].0.place(),
            if demands[n - 1].1 {
                '1'
            } else {
                '0'
            },
        )
    }
}

/// Whether a bitmap fits a pattern of the same length, `_` standing for
/// any character.
pub open spec fn fits(flags: Seq<char>, pattern: Seq<char>) -> bool {
    flags.len() == pattern.len() && forall|i: int|
        0 <= i < pattern.len() ==> (#[trigger] pattern[i] == '_' || pattern[i] == flags[i])
}

pub fn fits_pattern(flags: &[char], pattern: &[char]) -> (r: bool)
    ensures
        r == fits(flags@, pattern@),
{
    if flags.len() != pattern.len() {
        return false;
    }
    let mut i: usize = 0;
    while i < pattern.len()
        invariant
            i <= pattern.len(),
            flags.len() == pattern.len(),
            forall|j: int| 0 <= j < i ==> (#[trigger] pattern@[j] == '_' || pattern@[j] == flags@[j]),
        decreases pattern.len() - i,
    {
        if !(pattern[i] == '_' || pattern[i] == flags[i]) {
            return false;
        }
        i += 1;
    }
    true
}

/// How many of the first `n` messages lie in the mailbox and fit the
/// pattern.
pub open spec fn count_fitting(mail: Seq<MailView>, mailbox_id: i32, pattern: Seq<char>, n: int) -> int
    decreases n,
{
    if n <= 0 {
        0
    } else if n <= mail.len() && mail[n - 1].mailbox_id == mailbox_id && fits(
        mail[n - 1].flags,
        pattern,
    ) {
        count_fitting(mail, mailbox_id, pattern, n - 1) + 1
    } else {
        count_fitting(mail, mailbox_id, pattern, n - 1)
    }
}

/// The number by which a sequence set picks a message: its UID in UID
/// mode, its sequence number otherwise.
pub open spec fn picked_number(row: MailView, uid: bool) -> u32 {
    id_number(
        if uid {
            row.uid
        } else {
            row.seqnum
        },
    )
}

/// Those of the first `n` messages that lie in the mailbox and whose
/// number the set holds, in store order.
pub open spec fn fetched(
    mail: Seq<MailView>,
    items: Seq<crate::imap_op::search::Sequence>,
    uid: bool,
    mailbox_id: i32,
    n: int,
) -> Seq<MailView>
    decreases n,
{
    if n <= 0 || n > mail.len() {
        seq![]
    } else if mail[n - 1].mailbox_id == mailbox_id && set_holds(
        items,
        picked_number(mail[n - 1], uid),
    ) {
        fetched(mail, items, uid, mailbox_id, n - 1).push(mail[n - 1])
    } else {
        fetched(mail, items, uid, mailbox_id, n - 1)
    }
}

impl DBClient {
    /// Gives the mailbox another name; refused where its user has another
    /// mailbox of that name. Nothing changes where no mailbox has the id.
    pub fn rename_mailbox(&mut self, new_name: &str, mailbox_id: i32) -> (r: Result<(), StoreError>)
        requires
            old(self).wf(),
        ensures
            final(self).wf(),
            final(self)@.users == old(self)@.users,
            final(self)@.mail == old(self)@.mail,
            final(self)@.changes == old(self)@.changes,
            ({
                let k = mailbox_index(old(self)@.mailboxes, mailbox_id);
                if k >= old(self)@.mailboxes.len() {
                    r is Ok && final(self)@ == old(self)@
                } else {
                    let row = old(self)@.mailboxes[k];
                    let taken = mailbox_id_of(old(self)@.mailboxes, row.user_id, new_name@);
                    if taken is Some && taken != Some(mailbox_id) {
                        r == Err::<(), StoreError>(StoreError::Conflict) && final(self)@ == old(
                            self,
                        )@
                    } else {
                        r is Ok && final(self)@.mailboxes == old(self)@.mailboxes.update(
                            k,
                            renamed(row, new_name@),
                        )
                    }
                }
            }),
    {
        let k = self.find_mailbox_by_id(mailbox_id);
        proof {
            lemma_mailbox_index_from(self@.mailboxes, mailbox_id, 0);
        }
        if k >= self.mailboxes.len() {
            return Ok(());
        }
        assert(self@.mailboxes[k as int] == self.mailboxes@[k as int]@);
        let user_id = self.mailboxes[k].user_id;
        let flags = self.mailboxes[k].flags;
        let other = self.find_mailbox(user_id, new_name);
        proof {
            lemma_mailbox_from(self@.mailboxes, user_id, new_name@, 0);
        }
        if other < self.mailboxes.len() {
            assert(self@.mailboxes[other as int] == self.mailboxes@[other as int]@);
            if self.mailboxes[other].id != mailbox_id {
                return Err(StoreError::Conflict);
            }
        }
        let ghost before = self@;
        let row = MailboxRow {
            id: mailbox_id,
            name: chars_to_string(str_to_chars(new_name).as_slice()),
            user_id,
            flags,
        };
        assert(row@ == renamed(before.mailboxes[k as int], new_name@));
        self.mailboxes.set(k, row);
        proof {
            assert(self@.mailboxes =~= before.mailboxes.update(
                k as int,
                renamed(before.mailboxes[k as int], new_name@),
            ));
            if other < before.mailboxes.len() {
                if other != k {
                    if other < k {
                        assert(before.mailboxes[other as int].id < before.mailboxes[k as int].id);
                    } else {
                        assert(before.mailboxes[k as int].id < before.mailboxes[other as int].id);
                    }
                }
            }
            lemma_update_mailbox(
                before.mailboxes,
                k as int,
                renamed(before.mailboxes[k as int], new_name@),
            );
            assert forall|i: int| 0 <= i < self@.mail.len() implies has_mailbox(
                self@.mailboxes,
                (#[trigger] self@.mail[i]).mailbox_id,
            ) by {
                assert(has_mailbox(before.mailboxes, before.mail[i].mailbox_id));
            }
        }
        Ok(())
    }

    /// Sets or clears the subscription bit of the mailbox. Nothing changes
    /// where no mailbox has the id.
    pub fn change_mailbox_subscribed(&mut self, mailbox_id: i32, subscribe: bool)
        requires
            old(self).wf(),
        ensures
            final(self).wf(),
            final(self)@.users == old(self)@.users,
            final(self)@.mail == old(self)@.mail,
            final(self)@.changes == old(self)@.changes,
            ({
                let k = mailbox_index(old(self)@.mailboxes, mailbox_id);
                if k >= old(self)@.mailboxes.len() {
                    final(self)@ == old(self)@
                } else {
                    final(self)@.mailboxes == old(self)@.mailboxes.update(
                        k,
                        subscribed(old(self)@.mailboxes[k], subscribe),
                    )
                }
            }),
    {
        let k = self.find_mailbox_by_id(mailbox_id);
        proof {
            lemma_mailbox_index_from(self@.mailboxes, mailbox_id, 0);
        }
        if k >= self.mailboxes.len() {
            return ;
        }
        assert(self@.mailboxes[k as int] == self.mailboxes@[k as int]@);
        let ghost before = self@;
        let row = MailboxRow {
            id: mailbox_id,
            name: self.mailboxes[k].name.clone(),
            user_id: self.mailboxes[k].user_id,
            flags: if subscribe {
                1
            } else {
                0
            },
        };
        assert(row@ == subscribed(before.mailboxes[k as int], subscribe));
        self.mailboxes.set(k, row);
        proof {
            assert(self@.mailboxes =~= before.mailboxes.update(
                k as int,
                subscribed(before.mailboxes[k as int], subscribe),
            ));
            lemma_update_mailbox(
                before.mailboxes,
                k as int,
                subscribed(before.mailboxes[k as int], subscribe),
            );
            assert forall|i: int| 0 <= i < self@.mail.len() implies has_mailbox(
                self@.mailboxes,
                (#[trigger] self@.mail[i]).mailbox_id,
            ) by {
                assert(has_mailbox(before.mailboxes, before.mail[i].mailbox_id));
            }
        }
    }

    /// The names of the user's mailboxes, in the order they were made.
    /// Where the user has none, `INBOX` is made and named; nothing is given
    /// where it cannot be made.
    pub fn get_mailbox_names_for_user(&mut self, user_id: i32) -> (r: Option<Vec<String>>)
        requires
            old(self).wf(),
        ensures
            final(self).wf(),
            final(self)@.users == old(self)@.users,
            final(self)@.mail == old(self)@.mail,
            final(self)@.changes == old(self)@.changes,
            ({
                let names = names_of(
                    old(self)@.mailboxes,
                    user_id,
                    old(self)@.mailboxes.len() as int,
                );
                if names.len() > 0 {
                    r is Some && string_views(r->0@) == names && final(self)@ == old(self)@
                } else if max_mailbox_id(old(self)@.mailboxes) < i32::MAX {
                    r is Some && string_views(r->0@) == seq!["INBOX"@] && final(self)@.mailboxes
                        == old(self)@.mailboxes.push(
                        new_mailbox(
                            (max_mailbox_id(old(self)@.mailboxes) + 1) as i32,
                            user_id,
                            "INBOX"@,
                        ),
                    )
                } else {
                    r is None && final(self)@ == old(self)@
                }
            }),
    {
        let mut out: Vec<String> = Vec::new();
        let mut i: usize = 0;
        while i < self.mailboxes.len()
            invariant
                i <= self.mailboxes.len(),
                self@ == old(self)@,
                string_views(out@) == names_of(self@.mailboxes, user_id, i as int),
                forall|j: int| 0 <= j < i && (#[trigger] self@.mailboxes[j]).user_id == user_id ==> out.len() > 0,
            decreases self.mailboxes.len() - i,
        {
            assert(self@.mailboxes[i as int] == self.mailboxes@[i as int]@);
            if self.mailboxes[i].user_id == user_id {
                let ghost prev = string_views(out@);
                out.push(self.mailboxes[i].name.clone());
                assert(string_views(out@) =~= prev.push(self@.mailboxes[i as int].name));
            }
            i += 1;
        }
        if out.len() > 0 {
            return Some(out);
        }
        proof {
            lemma_mailbox_from(self@.mailboxes, user_id, "INBOX"@, 0);
            let k = mailbox_from(self@.mailboxes, user_id, "INBOX"@, 0);
            if k < self@.mailboxes.len() {
                assert(self@.mailboxes[k].user_id == user_id);
            }
        }
        match self.insert_mailbox(user_id, "INBOX") {
            Ok(_) => {
                out.push(chars_to_string(str_to_chars("INBOX").as_slice()));
                assert(string_views(out@) =~= seq!["INBOX"@]);
                Some(out)
            },
            Err(_) => None,
        }
    }

    /// The number of messages in the mailbox that have each demanded flag
    /// set or cleared as demanded; a later demand on a flag overrides an
    /// earlier one.
    pub fn mail_count_with_flags(&self, mailbox_id: i32, flags: Vec<(IMAPFlags, bool)>) -> (r: i32)
        requires
            self.wf(),
        ensures
            r == count_fitting(
                self@.mail,
                mailbox_id,
                demand_pattern(flags@, flags@.len() as int),
                self@.mail.len() as int,
            ),
    {
        let mut pattern: Vec<char> = Vec::new();
        let mut p: usize = 0;
        while p < FLAG_COUNT
            invariant
                p <= FLAG_COUNT,
                pattern@.len() == p,
                forall|j: int| 0 <= j < p ==> pattern@[j] == '_',
            decreases FLAG_COUNT - p,
        {
            pattern.push('_');
            p += 1;
        }
        assert(pattern@ =~= demand_pattern(flags@, 0));
        let mut d: usize = 0;
        while d < flags.len()
            invariant
                d <= flags.len(),
                pattern@ == demand_pattern(flags@, d as int),
                pattern@.len() == 5,
            decreases flags.len() - d,
        {
            let place = flags[d].0.position();
            pattern.set(
                place,
                if flags[d].1 {
                    '1'
                } else {
                    '0'
                },
            );
            d += 1;
        }
        let mut c: i32 = 0;
        let mut i: usize = 0;
        proof {
            if self@.mail.len() > 0 {
                lemma_uid_bound(self@.mail, self@.mail.len() - 1);
            }
        }
        while i < self.mail.len()
            invariant
                i <= self.mail.len(),
                self@.mail.len() <= i32::MAX,
                c == count_fitting(self@.mail, mailbox_id, pattern@, i as int),
                0 <= c <= i,
            decreases self.mail.len() - i,
        {
            assert(self@.mail[i as int] == self.mail@[i as int]@);
            if self.mail[i].mailbox_id == mailbox_id {
                let bits = str_to_chars(self.mail[i].flags.as_str());
                if fits_pattern(bits.as_slice(), pattern.as_slice()) {
                    c += 1;
                }
            }
            i += 1;
        }
        c
    }

    /// The messages of the mailbox that the set picks as it stands, by UID
    /// in UID mode and by sequence number otherwise, in store order.
    fn fetch_plain(&self, sequence_set: &SequenceSet, uid: bool, mailbox_id: i32) -> (r: Vec<
        MailRow,
    >)
        ensures
            mail_views(r@) == fetched(
                self@.mail,
                sequence_set.sequences@,
                uid,
                mailbox_id,
                self@.mail.len() as int,
            ),
    {
        let mut out: Vec<MailRow> = Vec::new();
        let mut i: usize = 0;
        while i < self.mail.len()
            invariant
                i <= self.mail.len(),
                mail_views(out@) == fetched(
                    self@.mail,
                    sequence_set.sequences@,
                    uid,
                    mailbox_id,
                    i as int,
                ),
            decreases self.mail.len() - i,
        {
            assert(self@.mail[i as int] == self.mail@[i as int]@);
            let row = &self.mail[i];
            if row.mailbox_id == mailbox_id {
                let number = to_id_number(
                    if uid {
                        row.uid
                    } else {
                        row.seqnum
                    },
                );
                if sequence_set.contains(number) {
                    let ghost prev = mail_views(out@);
                    let copy = renumber(row, row.seqnum);
                    assert(copy@ == row@);
                    out.push(copy);
                    assert(mail_views(out@) =~= prev.push(row@));
                }
            }
            i += 1;
        }
        out
    }
}


impl DBClient {
    /// The id of the user's mailbox of the given name, where there is one.
    pub fn lookup_mailbox_id(&self, user_id: i32, mailbox_name: &str) -> (r: Option<i32>)
        ensures
            r == mailbox_id_of(self@.mailboxes, user_id, mailbox_name@),
            r is Some ==> has_mailbox(self@.mailboxes, r->0),
    {
        let k = self.find_mailbox(user_id, mailbox_name);
        if k < self.mailboxes.len() {
            assert(self@.mailboxes[k as int] == self.mailboxes@[k as int]@);
            Some(self.mailboxes[k].id)
        } else {
            None
        }
    }
}


/// The conditions of the keys, joined by `AND`.
pub open spec fn keys_sql(keys: Seq<SearchKeys>) -> Seq<char>
    decreases keys.len(),
{
    if keys.len() == 0 {
        seq![]
    } else if keys.len() == 1 {
        keys[0].sql()
    } else {
        keys_sql(keys.drop_last()) + " AND "@ + keys.last().sql()
    }
}

/// The values bound by the keys, in order.
pub open spec fn keys_params(keys: Seq<SearchKeys>) -> Seq<SqlParam>
    decreases keys.len(),
{
    if keys.len() == 0 {
        seq![]
    } else {
        keys_params(keys.drop_last()) + keys.last().params()
    }
}

/// The column that a search gives back.
pub open spec fn search_column(uid: bool) -> Seq<char> {
    if uid {
        "uid"@
    } else {
        "seqnum"@
    }
}

/// The statement of a search.
pub open spec fn search_query(keys: Seq<SearchKeys>, uid: bool) -> Seq<char> {
    "SELECT "@ + search_column(uid) + " FROM mail WHERE mailbox_id = ? AND "@ + keys_sql(keys)
}

/// The numbers of those of the first `n` messages that lie in the mailbox
/// and match every key: UIDs in UID mode, sequence numbers otherwise.
pub open spec fn found(mail: Seq<MailView>, keys: Seq<KeyView>, mailbox_id: i32, uid: bool, n: int) -> Seq<
    i32,
>
    decreases n,
{
    if n <= 0 || n > mail.len() {
        seq![]
    } else if mail[n - 1].mailbox_id == mailbox_id && keys_match(keys, mail[n - 1]) {
        found(mail, keys, mailbox_id, uid, n - 1).push(
            if uid {
                mail[n - 1].uid
            } else {
                mail[n - 1].seqnum
            },
        )
    } else {
        found(mail, keys, mailbox_id, uid, n - 1)
    }
}

impl DBClient {
    /// The SQL statement that finds the messages of a mailbox that match
    /// every key, and the values it binds: the mailbox first, then those of
    /// the keys. Nothing where there is no key.
    pub fn get_search_query(search_args: &SearchArgs, mailbox_id: i32, uid: bool) -> (r: Option<
        (String, Vec<SqlValue>),
    >)
        ensures
            r is Some <==> search_args.search_keys@.len() > 0,
            r matches Some(q) ==> q.0@ == search_query(search_args.search_keys@, uid)
                && param_views(q.1@) == seq![SqlParam::Integer(mailbox_id as i64)] + keys_params(
                search_args.search_keys@,
            ),
    {
        let keys = &search_args.search_keys;
        if keys.len() == 0 {
            return None;
        }
        let mut out: Vec<char> = Vec::new();
        push_str(&mut out, "SELECT ");
        push_str(
            &mut out,
            if uid {
                "uid"
            } else {
                "seqnum"
            },
        );
        push_str(&mut out, " FROM mail WHERE mailbox_id = ? AND ");
        let ghost head = out@;
        assert(head =~= "SELECT "@ + search_column(uid) + " FROM mail WHERE mailbox_id = ? AND "@);
        let mut params: Vec<SqlValue> = Vec::new();
        params.push(SqlValue::Integer(mailbox_id as i64));
        let ghost first = param_views(params@);
        assert(first =~= seq![SqlParam::Integer(mailbox_id as i64)]);
        let mut i: usize = 0;
        while i < keys.len()
            invariant
                i <= keys.len(),
                out@ == head + keys_sql(keys@.subrange(0, i as int)),
                param_views(params@) == first + keys_params(keys@.subrange(0, i as int)),
            decreases keys.len() - i,
        {
            let ghost prev = keys@.subrange(0, i as int);
            let ghost next = keys@.subrange(0, i + 1);
            assert(next.drop_last() =~= prev);
            assert(next.last() == keys@[i as int]);
            if i > 0 {
                push_str(&mut out, " AND ");
            }
            keys[i].push_sql(&mut out, &mut params);
            assert(out@ =~= head + keys_sql(next));
            assert(param_views(params@) =~= first + keys_params(next));
            i += 1;
        }
        assert(keys@.subrange(0, i as int) =~= keys@);
        Some((chars_to_string(out.as_slice()), params))
    }

    /// The numbers of the messages of the mailbox that match every key, in
    /// store order: UIDs in UID mode, sequence numbers otherwise. In a
    /// sequence set among the keys `*` is the largest number in use in the
    /// mailbox.
    pub fn search_ids(&self, keys: &Vec<SearchKeys>, mailbox_id: i32, uid: bool) -> (r: Vec<i32>)
        ensures
            r@ == found(
                self@.mail,
                keys_meant(key_views(keys@), self@.mail, mailbox_id),
                mailbox_id,
                uid,
                self@.mail.len() as int,
            ),
    {
        let seqs = self.largest_number(mailbox_id, false);
        let uids = self.largest_number(mailbox_id, true);
        let ghost meant = keys_meant(key_views(keys@), self@.mail, mailbox_id);
        let mut out: Vec<i32> = Vec::new();
        let mut i: usize = 0;
        while i < self.mail.len()
            invariant
                i <= self.mail.len(),
                meant == resolved_keys(key_views(keys@), seqs, uids),
                out@ == found(self@.mail, meant, mailbox_id, uid, i as int),
            decreases self.mail.len() - i,
        {
            assert(self@.mail[i as int] == self.mail@[i as int]@);
            let row = &self.mail[i];
            if row.mailbox_id == mailbox_id && matches_all(keys, row, seqs, uids) {
                out.push(
                    if uid {
                        row.uid
                    } else {
                        row.seqnum
                    },
                );
            }
            i += 1;
        }
        out
    }

    /// Runs a search on the mailbox and writes what was found as the
    /// return options ask. Refused where there is no key.
    pub fn exec_search_query(&self, search_args: &SearchArgs, mailbox_id: i32, uid: bool) -> (r:
        Result<String, StoreError>)
        ensures
            match r {
                Ok(text) => search_args.search_keys@.len() > 0 && text@ == search_result_text(
                    search_args.return_opts@,
                    found(
                        self@.mail,
                        keys_meant(key_views(search_args.search_keys@), self@.mail, mailbox_id),
                        mailbox_id,
                        uid,
                        self@.mail.len() as int,
                    ),
                ),
                Err(e) => search_args.search_keys@.len() == 0 && e == StoreError::NoSearchKeys,
            },
    {
        if search_args.search_keys.len() == 0 {
            return Err(StoreError::NoSearchKeys);
        }
        let ids = self.search_ids(&search_args.search_keys, mailbox_id, uid);
        Ok(format_search_result(&search_args.return_opts, &ids))
    }
}


/// Whether the ids of the users are positive and rise from each row to
/// the next.
pub open spec fn user_ids_rise(users: Seq<UserView>, n: int) -> bool {
    &&& forall|i: int| 0 <= i < n ==> (#[trigger] users[i]).id >= 1
    &&& forall|i: int| 0 < i < n ==> users[i - 1].id < (#[trigger] users[i]).id
}

/// Ids that rise from each row to the next rise from every row to every
/// later row.
pub proof fn lemma_user_ids_rise(users: Seq<UserView>, i: int, j: int)
    requires
        user_ids_rise(users, users.len() as int),
        0 <= i < j < users.len(),
    ensures
        users[i].id < users[j].id,
    decreases j - i,
{
    if i + 1 < j {
        lemma_user_ids_rise(users, i, j - 1);
    }
    assert(users[j - 1].id < users[j].id);
}

/// Whether the ids of the mailboxes are positive and rise from each row
/// to the next.
pub open spec fn mailbox_ids_rise(mailboxes: Seq<MailboxView>, n: int) -> bool {
    &&& forall|i: int| 0 <= i < n ==> (#[trigger] mailboxes[i]).id >= 1
    &&& forall|i: int| 0 < i < n ==> mailboxes[i - 1].id < (#[trigger] mailboxes[i]).id
}

pub proof fn lemma_mailbox_ids_rise(mailboxes: Seq<MailboxView>, i: int, j: int)
    requires
        mailbox_ids_rise(mailboxes, mailboxes.len() as int),
        0 <= i < j < mailboxes.len(),
    ensures
        mailboxes[i].id < mailboxes[j].id,
    decreases j - i,
{
    if i + 1 < j {
        lemma_mailbox_ids_rise(mailboxes, i, j - 1);
    }
    assert(mailboxes[j - 1].id < mailboxes[j].id);
}

/// Whether the UIDs of the messages are positive and rise from each row
/// to the next.
pub open spec fn uids_rise(mail: Seq<MailView>, n: int) -> bool {
    &&& forall|i: int| 0 <= i < n ==> (#[trigger] mail[i]).uid >= 1
    &&& forall|i: int| 0 < i < n ==> mail[i - 1].uid < (#[trigger] mail[i]).uid
}

pub proof fn lemma_uids_rise(mail: Seq<MailView>, i: int, j: int)
    requires
        uids_rise(mail, mail.len() as int),
        0 <= i < j < mail.len(),
    ensures
        mail[i].uid < mail[j].uid,
    decreases j - i,
{
    if i + 1 < j {
        lemma_uids_rise(mail, i, j - 1);
    }
    assert(mail[j - 1].uid < mail[j].uid);
}

/// Whether the rows are what a store may hold of users.
pub fn users_ok(users: &Vec<User>) -> (r: bool)
    ensures
        r == users_wf(user_views(users@)),
{
    let ghost v = user_views(users@);
    let mut i: usize = 0;
    while i < users.len()
        invariant
            i <= users.len(),
            v == user_views(users@),
            user_ids_rise(v, i as int),
            forall|a: int, b: int| 0 <= a < b < i ==> (#[trigger] v[a]).name != (#[trigger] v[b]).name,
        decreases users.len() - i,
    {
        assert(v[i as int] == users@[i as int]@);
        if users[i].id < 1 {
            assert(!(v[i as int].id >= 1));
            return false;
        }
        if i > 0 {
            assert(v[i - 1] == users@[i - 1]@);
            if users[i - 1].id >= users[i].id {
                assert(!(v[i - 1].id < v[i as int].id));
                return false;
            }
        }
        let mut k: usize = 0;
        while k < i
            invariant
                k <= i < users.len(),
                v == user_views(users@),
                forall|a: int| 0 <= a < k ==> (#[trigger] v[a]).name != v[i as int].name,
            decreases i - k,
        {
            assert(v[k as int] == users@[k as int]@);
            assert(v[i as int] == users@[i as int]@);
            if str_eq(users[k].name.as_str(), users[i].name.as_str()) {
                assert(!(v[k as int].name != v[i as int].name));
                return false;
            }
            k += 1;
        }
        i += 1;
    }
    proof {
        assert forall|a: int, b: int| 0 <= a < b < v.len() implies (#[trigger] v[a]).id < (
        #[trigger] v[b]).id by {
            lemma_user_ids_rise(v, a, b);
        }
    }
    true
}

/// Whether the rows are what a store may hold of mailboxes.
pub fn mailboxes_ok(mailboxes: &Vec<MailboxRow>) -> (r: bool)
    ensures
        r == mailboxes_wf(mailbox_views(mailboxes@)),
{
    let ghost v = mailbox_views(mailboxes@);
    let mut i: usize = 0;
    while i < mailboxes.len()
        invariant
            i <= mailboxes.len(),
            v == mailbox_views(mailboxes@),
            mailbox_ids_rise(v, i as int),
            forall|a: int, b: int|
                0 <= a < b < i ==> !((#[trigger] v[a]).user_id == (#[trigger] v[b]).user_id
                    && v[a].name == v[b].name),
        decreases mailboxes.len() - i,
    {
        assert(v[i as int] == mailboxes@[i as int]@);
        if mailboxes[i].id < 1 {
            assert(!(v[i as int].id >= 1));
            return false;
        }
        if i > 0 {
            assert(v[i - 1] == mailboxes@[i - 1]@);
            if mailboxes[i - 1].id >= mailboxes[i].id {
                assert(!(v[i - 1].id < v[i as int].id));
                return false;
            }
        }
        let mut k: usize = 0;
        while k < i
            invariant
                k <= i < mailboxes.len(),
                v == mailbox_views(mailboxes@),
                forall|a: int|
                    0 <= a < k ==> !((#[trigger] v[a]).user_id == v[i as int].user_id && v[a].name
                        == v[i as int].name),
            decreases i - k,
        {
            assert(v[k as int] == mailboxes@[k as int]@);
            assert(v[i as int] == mailboxes@[i as int]@);
            if mailboxes[k].user_id == mailboxes[i].user_id && str_eq(
                mailboxes[k].name.as_str(),
                mailboxes[i].name.as_str(),
            ) {
                assert(v[k as int].user_id == v[i as int].user_id && v[k as int].name
                    == v[i as int].name);
                return false;
            }
            k += 1;
        }
        i += 1;
    }
    proof {
        assert forall|a: int, b: int| 0 <= a < b < v.len() implies (#[trigger] v[a]).id < (
        #[trigger] v[b]).id by {
            lemma_mailbox_ids_rise(v, a, b);
        }
    }
    true
}

/// Whether the text is a flag bitmap.
pub fn bitmap_ok(flags: &str) -> (r: bool)
    ensures
        r == is_bitmap(flags@),
{
    let bits = str_to_chars(flags);
    if bits.len() != 5 {
        return false;
    }
    let mut i: usize = 0;
    while i < 5
        invariant
            i <= 5,
            bits@.len() == 5,
            bits@ == flags@,
            forall|j: int| 0 <= j < i ==> (#[trigger] bits@[j] == '1' || bits@[j] == '0'),
        decreases 5 - i,
    {
        if !(bits[i] == '1' || bits[i] == '0') {
            assert(!(flags@[i as int] == '1' || flags@[i as int] == '0'));
            return false;
        }
        i += 1;
    }
    true
}

/// How many of the first `n` rows lie in the mailbox.
fn count_first(rows: &Vec<MailRow>, mailbox_id: i32, n: usize) -> (r: usize)
    requires
        n <= rows.len(),
    ensures
        r == count_in(mail_views(rows@), mailbox_id, n as int),
        r <= n,
{
    let mut c: usize = 0;
    let mut i: usize = 0;
    while i < n
        invariant
            i <= n <= rows.len(),
            c == count_in(mail_views(rows@), mailbox_id, i as int),
            c <= i,
        decreases n - i,
    {
        if rows[i].mailbox_id == mailbox_id {
            c += 1;
        }
        i += 1;
    }
    c
}

/// Whether the rows are what a store may hold of messages.
pub fn mail_ok(mail: &Vec<MailRow>) -> (r: bool)
    ensures
        r == mail_wf(mail_views(mail@)),
{
    let ghost v = mail_views(mail@);
    let mut i: usize = 0;
    while i < mail.len()
        invariant
            i <= mail.len(),
            v == mail_views(mail@),
            uids_rise(v, i as int),
            forall|a: int|
                0 <= a < i ==> (#[trigger] v[a]).seqnum as int == count_in(
                    v,
                    v[a].mailbox_id,
                    a + 1,
                ),
            forall|a: int| 0 <= a < i ==> is_bitmap((#[trigger] v[a]).flags),
        decreases mail.len() - i,
    {
        assert(v[i as int] == mail@[i as int]@);
        if mail[i].uid < 1 {
            assert(!(v[i as int].uid >= 1));
            return false;
        }
        if i > 0 {
            assert(v[i - 1] == mail@[i - 1]@);
            if mail[i - 1].uid >= mail[i].uid {
                assert(!(v[i - 1].uid < v[i as int].uid));
                return false;
            }
        }
        let rank = count_first(mail, mail[i].mailbox_id, i + 1);
        if mail[i].seqnum < 0 || mail[i].seqnum as usize != rank {
            assert(!(v[i as int].seqnum as int == count_in(v, v[i as int].mailbox_id, i + 1)));
            return false;
        }
        if !bitmap_ok(mail[i].flags.as_str()) {
            assert(!is_bitmap(v[i as int].flags));
            return false;
        }
        i += 1;
    }
    proof {
        assert forall|a: int, b: int| 0 <= a < b < v.len() implies (#[trigger] v[a]).uid < (
        #[trigger] v[b]).uid by {
            lemma_uids_rise(v, a, b);
        }
    }
    true
}

impl DBClient {
    /// The users, in the order of their ids.
    pub fn users(&self) -> (r: &Vec<User>)
        ensures
            user_views(r@) == self@.users,
    {
        &self.users
    }

    /// The mailboxes, in the order of their ids.
    pub fn mailboxes(&self) -> (r: &Vec<MailboxRow>)
        ensures
            mailbox_views(r@) == self@.mailboxes,
    {
        &self.mailboxes
    }

    /// The messages, in the order of their UIDs.
    pub fn mail(&self) -> (r: &Vec<MailRow>)
        ensures
            mail_views(r@) == self@.mail,
    {
        &self.mail
    }

    /// A store of the given rows, where they are what a store may hold:
    /// ids and UIDs rise from row to row, names are not taken twice,
    /// every message lies in a mailbox and carries its rank in it as its
    /// sequence number, and every bitmap is well formed.
    pub fn from_rows(users: Vec<User>, mailboxes: Vec<MailboxRow>, mail: Vec<MailRow>) -> (r:
        Option<DBClient>)
        ensures
            r is Some <==> (StoreView {
                users: user_views(users@),
                mailboxes: mailbox_views(mailboxes@),
                mail: mail_views(mail@),
                changes: seq![],
            }).wf(),
            r matches Some(db) ==> db.wf() && db@ == (StoreView {
                users: user_views(users@),
                mailboxes: mailbox_views(mailboxes@),
                mail: mail_views(mail@),
                changes: seq![],
            }),
    {
        if !users_ok(&users) || !mailboxes_ok(&mailboxes) || !mail_ok(&mail) {
            return None;
        }
        let ghost target = StoreView {
            users: user_views(users@),
            mailboxes: mailbox_views(mailboxes@),
            mail: mail_views(mail@),
            changes: seq![],
        };
        let db = DBClient { users, mailboxes, mail, changes: Vec::new() };
        assert(db@.changes =~= Seq::<Seq<char>>::empty());
        assert(db@ == target);
        let mut i: usize = 0;
        while i < db.mail.len()
            invariant
                i <= db.mail.len(),
                db@ == target,
                target == (StoreView {
                    users: user_views(users@),
                    mailboxes: mailbox_views(mailboxes@),
                    mail: mail_views(mail@),
                    changes: seq![],
                }),
                forall|a: int|
                    0 <= a < i ==> has_mailbox(db@.mailboxes, (#[trigger] db@.mail[a]).mailbox_id),
            decreases db.mail.len() - i,
        {
            assert(db@.mail[i as int] == db.mail@[i as int]@);
            if !db.mailbox_exists(db.mail[i].mailbox_id) {
                proof {
                    assert(!has_mailbox(target.mailboxes, target.mail[i as int].mailbox_id));
                    if target.wf() {
                        assert(has_mailbox(target.mailboxes, target.mail[i as int].mailbox_id));
                    }
                }
                return None;
            }
            i += 1;
        }
        assert(db@.changes =~= Seq::<Seq<char>>::empty());
        Some(db)
    }
}


/// How STORE changes the flags of a message.
#[derive(Debug, Clone, Copy, PartialEq, Eq, Structural)]
pub enum FlagChange {
    /// The given flags take the place of the message's flags.
    Replace,
    /// The given flags are set beside the message's flags.
    Add,
    /// The given flags are cleared.
    Remove,
}

/// The bitmap of a message after a change with the flags of the bitmap
/// `given`.
pub open spec fn changed_bitmap(bits: Seq<char>, given: Seq<char>, change: FlagChange) -> Seq<char> {
    Seq::new(
        5,
        |i: int|
            match change {
                FlagChange::Replace => given[i],
                FlagChange::Add => if given[i] == '1' {
                    '1'
                } else {
                    bits[i]
                },
                FlagChange::Remove => if given[i] == '1' {
                    '0'
                } else {
                    bits[i]
                },
            },
    )
}

/// Whether a sequence set picks a message of the mailbox, by UID in UID
/// mode and by sequence number otherwise.
pub open spec fn picked(
    row: MailView,
    items: Seq<crate::imap_op::search::Sequence>,
    uid: bool,
    mailbox_id: i32,
) -> bool {
    row.mailbox_id == mailbox_id && set_holds(items, picked_number(row, uid))
}

/// A message with other flags.
pub open spec fn reflagged(row: MailView, flags: Seq<char>) -> MailView {
    MailView { flags, ..row }
}

/// The first `n` messages after the flags of the picked ones were
/// changed.
pub open spec fn with_flags(
    mail: Seq<MailView>,
    items: Seq<crate::imap_op::search::Sequence>,
    uid: bool,
    mailbox_id: i32,
    change: FlagChange,
    given: Seq<char>,
    n: int,
) -> Seq<MailView>
    decreases n,
{
    if n <= 0 || n > mail.len() {
        seq![]
    } else {
        let before = with_flags(mail, items, uid, mailbox_id, change, given, n - 1);
        if picked(mail[n - 1], items, uid, mailbox_id) {
            before.push(reflagged(mail[n - 1], changed_bitmap(mail[n - 1].flags, given, change)))
        } else {
            before.push(mail[n - 1])
        }
    }
}

/// A change of flags leaves every message in its place, with its UID,
/// its sequence number and its mailbox, and keeps the store well formed.
pub proof fn lemma_with_flags(
    mail: Seq<MailView>,
    items: Seq<crate::imap_op::search::Sequence>,
    uid: bool,
    mailbox_id: i32,
    change: FlagChange,
    given: Seq<char>,
    n: int,
)
    requires
        0 <= n <= mail.len(),
        is_bitmap(given),
        forall|i: int| 0 <= i < mail.len() ==> is_bitmap((#[trigger] mail[i]).flags),
    ensures
        with_flags(mail, items, uid, mailbox_id, change, given, n).len() == n,
        forall|i: int|
            0 <= i < n ==> {
                let row = #[trigger] with_flags(mail, items, uid, mailbox_id, change, given, n)[i];
                &&& row == reflagged(mail[i], row.flags)
                &&& is_bitmap(row.flags)
                &&& row.flags == if picked(mail[i], items, uid, mailbox_id) {
                    changed_bitmap(mail[i].flags, given, change)
                } else {
                    mail[i].flags
                }
            },
    decreases n,
{
    if n > 0 {
        lemma_with_flags(mail, items, uid, mailbox_id, change, given, n - 1);
        let before = with_flags(mail, items, uid, mailbox_id, change, given, n - 1);
        let after = with_flags(mail, items, uid, mailbox_id, change, given, n);
        let bits = mail[n - 1].flags;
        assert(is_bitmap(bits));
        let new = changed_bitmap(bits, given, change);
        assert forall|k: int| 0 <= k < 5 implies (#[trigger] new[k] == '1' || new[k] == '0') by {
            assert(given[k] == '1' || given[k] == '0');
            assert(bits[k] == '1' || bits[k] == '0');
        }
        assert forall|i: int| 0 <= i < n implies {
            let row = #[trigger] after[i];
            &&& row == reflagged(mail[i], row.flags)
            &&& is_bitmap(row.flags)
            &&& row.flags == if picked(mail[i], items, uid, mailbox_id) {
                changed_bitmap(mail[i].flags, given, change)
            } else {
                mail[i].flags
            }
        } by {
            if i < n - 1 {
                assert(after[i] == before[i]);
            }
        }
    }
}

/// A store stays well formed where each message keeps all but its flags
/// and the flags stay bitmaps.
pub proof fn lemma_reflagged_wf(mail: Seq<MailView>, after: Seq<MailView>)
    requires
        mail_wf(mail),
        after.len() == mail.len(),
        forall|i: int|
            0 <= i < mail.len() ==> (#[trigger] after[i]) == reflagged(mail[i], after[i].flags)
                && is_bitmap(after[i].flags),
    ensures
        mail_wf(after),
{
    assert forall|i: int| 0 <= i < after.len() implies (#[trigger] after[i]).uid >= 1 by {
        assert(mail[i].uid >= 1);
    }
    assert forall|i: int, j: int| 0 <= i < j < after.len() implies (#[trigger] after[i]).uid < (
    #[trigger] after[j]).uid by {
        assert(mail[i].uid < mail[j].uid);
    }
    assert forall|i: int| 0 <= i < after.len() implies (#[trigger] after[i]).seqnum as int
        == count_in(after, after[i].mailbox_id, i + 1) by {
        assert(mail[i].seqnum as int == count_in(mail, mail[i].mailbox_id, i + 1));
        assert forall|k: int| 0 <= k < i + 1 implies (#[trigger] mail[k]).mailbox_id == (
        #[trigger] after[k]).mailbox_id by {}
        crate::store::lemma_count_in_prefix(mail, after, mail[i].mailbox_id, i + 1);
    }
}

/// The bitmap after a change.
pub fn change_bitmap(bits: &str, given: &str, change: FlagChange) -> (r: String)
    requires
        is_bitmap(bits@),
        is_bitmap(given@),
    ensures
        r@ == changed_bitmap(bits@, given@, change),
{
    let o = str_to_chars(bits);
    let g = str_to_chars(given);
    let mut out: Vec<char> = Vec::new();
    let mut i: usize = 0;
    while i < 5
        invariant
            i <= 5,
            o@ == bits@,
            g@ == given@,
            o@.len() == 5,
            g@.len() == 5,
            out@.len() == i,
            forall|j: int| 0 <= j < i ==> out@[j] == changed_bitmap(bits@, given@, change)[j],
        decreases 5 - i,
    {
        let c = match change {
            FlagChange::Replace => g[i],
            FlagChange::Add => if g[i] == '1' {
                '1'
            } else {
                o[i]
            },
            FlagChange::Remove => if g[i] == '1' {
                '0'
            } else {
                o[i]
            },
        };
        out.push(c);
        i += 1;
    }
    assert(out@ =~= changed_bitmap(bits@, given@, change));
    chars_to_string(out.as_slice())
}

impl DBClient {
    /// Changes the flags of the messages of the mailbox that the set
    /// picks as it stands, and gives the changed messages in store order.
    fn store_flags_plain(
        &mut self,
        mailbox_id: i32,
        sequence_set: &SequenceSet,
        uid: bool,
        change: FlagChange,
        flags: &Vec<IMAPFlags>,
    ) -> (r: Vec<MailRow>)
        requires
            old(self).wf(),
        ensures
            final(self).wf(),
            final(self)@.users == old(self)@.users,
            final(self)@.mailboxes == old(self)@.mailboxes,
            final(self)@.changes == old(self)@.changes,
            final(self)@.mail == with_flags(
                old(self)@.mail,
                sequence_set.sequences@,
                uid,
                mailbox_id,
                change,
                bitmap_of(flags@),
                old(self)@.mail.len() as int,
            ),
            mail_views(r@) == fetched(
                final(self)@.mail,
                sequence_set.sequences@,
                uid,
                mailbox_id,
                final(self)@.mail.len() as int,
            ),
    {
        let ghost before = self@;
        let given = make_bitmap(flags);
        let ghost items = sequence_set.sequences@;
        let mut out: Vec<MailRow> = Vec::new();
        let mut changed: Vec<MailRow> = Vec::new();
        let mut i: usize = 0;
        while i < self.mail.len()
            invariant
                i <= self.mail.len(),
                self@ == before,
                before.wf(),
                given@ == bitmap_of(flags@),
                is_bitmap(given@),
                items == sequence_set.sequences@,
                out@.len() == i,
                mail_views(out@) == with_flags(
                    before.mail,
                    items,
                    uid,
                    mailbox_id,
                    change,
                    given@,
                    i as int,
                ),
                mail_views(changed@) == fetched(
                    mail_views(out@),
                    items,
                    uid,
                    mailbox_id,
                    i as int,
                ),
            decreases self.mail.len() - i,
        {
            assert(self@.mail[i as int] == self.mail@[i as int]@);
            assert(is_bitmap(before.mail[i as int].flags));
            let row = &self.mail[i];
            let number = to_id_number(
                if uid {
                    row.uid
                } else {
                    row.seqnum
                },
            );
            let ghost prev = mail_views(out@);
            let ghost prev_changed = mail_views(changed@);
            let hit = row.mailbox_id == mailbox_id && sequence_set.contains(number);
            let new_row = MailRow {
                uid: row.uid,
                seqnum: row.seqnum,
                date: row.date,
                sender: row.sender.clone(),
                recipients: row.recipients.clone(),
                data: row.data.clone(),
                mailbox_id: row.mailbox_id,
                flags: if hit {
                    change_bitmap(row.flags.as_str(), given.as_str(), change)
                } else {
                    row.flags.clone()
                },
            };
            let ghost nv = new_row@;
            if hit {
                let copy = renumber(&new_row, new_row.seqnum);
                assert(copy@ == nv);
                changed.push(copy);
            }
            out.push(new_row);
            proof {
                assert(mail_views(out@) =~= prev.push(nv));
                assert(picked_number(nv, uid) == picked_number(before.mail[i as int], uid));
                lemma_fetched_prefix(prev, mail_views(out@), items, uid, mailbox_id, i as int);
                if hit {
                    assert(mail_views(changed@) =~= prev_changed.push(nv));
                }
            }
            i += 1;
        }
        self.mail = out;
        proof {
            let n = before.mail.len() as int;
            lemma_with_flags(before.mail, items, uid, mailbox_id, change, given@, n);
            lemma_reflagged_wf(before.mail, self@.mail);
            assert forall|k: int| 0 <= k < self@.mail.len() implies has_mailbox(
                self@.mailboxes,
                (#[trigger] self@.mail[k]).mailbox_id,
            ) by {
                assert(has_mailbox(before.mailboxes, before.mail[k].mailbox_id));
            }
        }
        changed
    }
}

/// What a fetch finds among the first `n` messages goes by those
/// messages alone.
pub proof fn lemma_fetched_prefix(
    a: Seq<MailView>,
    b: Seq<MailView>,
    items: Seq<crate::imap_op::search::Sequence>,
    uid: bool,
    mailbox_id: i32,
    n: int,
)
    requires
        0 <= n <= a.len(),
        n <= b.len(),
        forall|i: int| 0 <= i < n ==> a[i] == b[i],
    ensures
        fetched(a, items, uid, mailbox_id, n) == fetched(b, items, uid, mailbox_id, n),
    decreases n,
{
    if n > 0 {
        lemma_fetched_prefix(a, b, items, uid, mailbox_id, n - 1);
    }
}


/// The copy of a message that is put behind the messages `mail` into the
/// mailbox `target`: it gets the next UID of the store and the next
/// sequence number of the mailbox, and keeps all else.
pub open spec fn copy_of(row: MailView, mail: Seq<MailView>, target: i32) -> MailView {
    MailView {
        uid: (max_uid(mail) + 1) as i32,
        seqnum: (mailbox_count(mail, target) + 1) as i32,
        mailbox_id: target,
        ..row
    }
}

/// The messages after the first `n` of `rows` were copied into the
/// mailbox `target`, one after the other.
pub open spec fn with_copies(mail: Seq<MailView>, rows: Seq<MailView>, target: i32, n: int) -> Seq<
    MailView,
>
    decreases n,
{
    if n <= 0 || n > rows.len() {
        mail
    } else {
        let before = with_copies(mail, rows, target, n - 1);
        before.push(copy_of(rows[n - 1], before, target))
    }
}

/// The notifications for `n` new messages.
pub open spec fn exists_notices(n: int) -> Seq<Seq<char>> {
    Seq::new(
        if n < 0 {
            0nat
        } else {
            n as nat
        },
        |i: int| "* 1 EXISTS\r\n"@,
    )
}

pub proof fn lemma_with_copies_len(mail: Seq<MailView>, rows: Seq<MailView>, target: i32, n: int)
    requires
        0 <= n <= rows.len(),
    ensures
        with_copies(mail, rows, target, n).len() == mail.len() + n,
        forall|i: int|
            0 <= i < mail.len() ==> with_copies(mail, rows, target, n)[i] == #[trigger] mail[i],
    decreases n,
{
    if n > 0 {
        lemma_with_copies_len(mail, rows, target, n - 1);
    }
}

/// Whether a move takes the message at position `i` out: it is one of the
/// first `n` messages, which were there before the copies, and the set
/// picks it.
pub open spec fn move_marks(
    mail: Seq<MailView>,
    n: int,
    items: Seq<crate::imap_op::search::Sequence>,
    uid: bool,
    mailbox_id: i32,
) -> Seq<bool> {
    Seq::new(mail.len(), |i: int| i < n && picked(mail[i], items, uid, mailbox_id))
}

impl DBClient {
    /// Copies the messages of the mailbox `source` that the set picks as
    /// it stands into the mailbox `target`.
    fn copy_messages_plain(
        &mut self,
        source: i32,
        sequence_set: &SequenceSet,
        uid: bool,
        target: i32,
    ) -> (r: Result<usize, StoreError>)
        requires
            old(self).wf(),
        ensures
            final(self).wf(),
            final(self)@.users == old(self)@.users,
            final(self)@.mailboxes == old(self)@.mailboxes,
            ({
                let rows = fetched(
                    old(self)@.mail,
                    sequence_set.sequences@,
                    uid,
                    source,
                    old(self)@.mail.len() as int,
                );
                if !has_mailbox(old(self)@.mailboxes, target) {
                    r == Err::<usize, StoreError>(StoreError::NoSuchMailbox) && final(self)@ == old(
                        self,
                    )@
                } else if max_uid(old(self)@.mail) + rows.len() > i32::MAX {
                    r == Err::<usize, StoreError>(StoreError::Full) && final(self)@ == old(self)@
                } else {
                    &&& r == Ok::<usize, StoreError>(rows.len() as usize)
                    &&& final(self)@.mail == with_copies(
                        old(self)@.mail,
                        rows,
                        target,
                        rows.len() as int,
                    )
                    &&& final(self)@.changes == old(self)@.changes + exists_notices(
                        rows.len() as int,
                    )
                }
            }),
    {
        if !self.mailbox_exists(target) {
            return Err(StoreError::NoSuchMailbox);
        }
        let rows = self.fetch_plain(sequence_set, uid, source);
        let ghost before = self@;
        let ghost picked_rows = mail_views(rows@);
        proof {
            if before.mail.len() > 0 {
                lemma_uid_bound(before.mail, before.mail.len() - 1);
            }
            lemma_fetched_len(
                before.mail,
                sequence_set.sequences@,
                uid,
                source,
                before.mail.len() as int,
            );
        }
        let top = self.next_uid() - 1;
        if top + rows.len() as i64 > i32::MAX as i64 {
            return Err(StoreError::Full);
        }
        let mut i: usize = 0;
        while i < rows.len()
            invariant
                i <= rows.len(),
                self.wf(),
                self@.users == before.users,
                self@.mailboxes == before.mailboxes,
                has_mailbox(before.mailboxes, target),
                picked_rows == mail_views(rows@),
                max_uid(before.mail) + rows.len() <= i32::MAX,
                forall|k: int| 0 <= k < rows.len() ==> is_bitmap((#[trigger] picked_rows[k]).flags),
                self@.mail == with_copies(before.mail, picked_rows, target, i as int),
                max_uid(self@.mail) <= max_uid(before.mail) + i,
                self@.changes == before.changes + exists_notices(i as int),
            decreases rows.len() - i,
        {
            assert(picked_rows[i as int] == rows@[i as int]@);
            let ghost mid = self@;
            let next = self.next_uid();
            let count = self.count_mailbox(target);
            proof {
                lemma_count_in_bounds(mid.mail, target, mid.mail.len() as int);
                if mid.mail.len() > 0 {
                    lemma_uid_bound(mid.mail, mid.mail.len() - 1);
                }
            }
            let row = &rows[i];
            let copy = MailRow {
                uid: next as i32,
                seqnum: (count + 1) as i32,
                date: row.date,
                sender: row.sender.clone(),
                recipients: row.recipients.clone(),
                data: row.data.clone(),
                mailbox_id: target,
                flags: row.flags.clone(),
            };
            let ghost cv = copy@;
            assert(cv == copy_of(picked_rows[i as int], mid.mail, target));
            self.mail.push(copy);
            self.changes.push(chars_to_string(str_to_chars("* 1 EXISTS\r\n").as_slice()));
            proof {
                assert(self@.mail =~= mid.mail.push(cv));
                assert(self@.changes =~= mid.changes.push("* 1 EXISTS\r\n"@));
                assert(exists_notices(i + 1) =~= exists_notices(i as int).push("* 1 EXISTS\r\n"@));
                assert(self@.changes =~= before.changes + exists_notices(i + 1));
                lemma_push_mail(mid.mail, cv);
                assert forall|k: int| 0 <= k < self@.mail.len() implies has_mailbox(
                    self@.mailboxes,
                    (#[trigger] self@.mail[k]).mailbox_id,
                ) by {
                    if k < mid.mail.len() {
                        assert(has_mailbox(mid.mailboxes, mid.mail[k].mailbox_id));
                    }
                }
            }
            i += 1;
        }
        proof {
            assert(before.changes + exists_notices(0) =~= before.changes);
        }
        Ok(rows.len())
    }
}

/// What a fetch finds are messages of the store: no more than the store
/// holds, each with a well-formed bitmap where the store is well formed.
pub proof fn lemma_fetched_len(
    mail: Seq<MailView>,
    items: Seq<crate::imap_op::search::Sequence>,
    uid: bool,
    mailbox_id: i32,
    n: int,
)
    requires
        mail_wf(mail),
        0 <= n <= mail.len(),
    ensures
        fetched(mail, items, uid, mailbox_id, n).len() <= n,
        forall|k: int|
            0 <= k < fetched(mail, items, uid, mailbox_id, n).len() ==> is_bitmap(
                (#[trigger] fetched(mail, items, uid, mailbox_id, n)[k]).flags,
            ),
    decreases n,
{
    if n > 0 {
        lemma_fetched_len(mail, items, uid, mailbox_id, n - 1);
        assert(is_bitmap(mail[n - 1].flags));
    }
}


impl DBClient {
    /// Takes out those of the first `n` messages that the set picks in
    /// the mailbox, renumbers the others, and gives the sequence numbers
    /// to report, each as it stands after the reports before it;
    /// `* n EXPUNGE` is published for each.
    fn remove_picked(&mut self, n: usize, mailbox_id: i32, sequence_set: &SequenceSet, uid: bool) -> (r:
        Vec<i32>)
        requires
            old(self).wf(),
            n <= old(self)@.mail.len(),
        ensures
            final(self).wf(),
            final(self)@.users == old(self)@.users,
            final(self)@.mailboxes == old(self)@.mailboxes,
            final(self)@.mail == without(
                old(self)@.mail,
                move_marks(old(self)@.mail, n as int, sequence_set.sequences@, uid, mailbox_id),
                old(self)@.mail.len() as int,
            ),
            r@ == expunge_reports(
                old(self)@.mail,
                move_marks(old(self)@.mail, n as int, sequence_set.sequences@, uid, mailbox_id),
                old(self)@.mail.len() as int,
            ),
            final(self)@.changes == old(self)@.changes + expunge_notices(r@),
    {
        let ghost before = self@;
        let ghost all = move_marks(before.mail, n as int, sequence_set.sequences@, uid, mailbox_id);
        let mut marks: Vec<bool> = Vec::new();
        let mut reports: Vec<i32> = Vec::new();
        let mut i: usize = 0;
        while i < self.mail.len()
            invariant
                i <= self.mail.len(),
                self@ == before,
                before.wf(),
                all == move_marks(before.mail, n as int, sequence_set.sequences@, uid, mailbox_id),
                marks@ == all.subrange(0, i as int),
                reports@ == expunge_reports(before.mail, all, i as int),
                reports@.len() <= i,
            decreases self.mail.len() - i,
        {
            let row = &self.mail[i];
            assert(self@.mail[i as int] == self.mail@[i as int]@);
            let number = to_id_number(
                if uid {
                    row.uid
                } else {
                    row.seqnum
                },
            );
            let gone = i < n && row.mailbox_id == mailbox_id && sequence_set.contains(number);
            assert(gone == all[i as int]);
            marks.push(gone);
            assert(marks@ =~= all.subrange(0, i + 1));
            if gone {
                proof {
                    lemma_uid_bound(before.mail, i as int);
                }
                let earlier = reports.len();
                assert(earlier <= i);
                reports.push((row.seqnum as i64 - earlier as i64) as i32);
            }
            i += 1;
        }
        assert(marks@ =~= all);
        self.remove_marked(&marks);
        let mut k: usize = 0;
        let ghost changes0 = self@.changes;
        while k < reports.len()
            invariant
                k <= reports.len(),
                self.wf(),
                self@.users == before.users,
                self@.mailboxes == before.mailboxes,
                self@.mail == without(before.mail, all, before.mail.len() as int),
                self@.changes == changes0 + expunge_notices(reports@.subrange(0, k as int)),
            decreases reports.len() - k,
        {
            let mut line: Vec<char> = Vec::new();
            push_str(&mut line, "* ");
            push_i64(&mut line, reports[k] as i64);
            push_str(&mut line, " EXPUNGE\r\n");
            assert(line@ =~= expunge_notice(reports@[k as int]));
            let ghost c1 = self@.changes;
            self.changes.push(chars_to_string(line.as_slice()));
            assert(self@.changes =~= c1.push(line@));
            assert(self@.changes =~= changes0 + expunge_notices(reports@.subrange(0, k + 1)));
            k += 1;
        }
        assert(reports@.subrange(0, k as int) =~= reports@);
        reports
    }

    /// Moves the messages of the mailbox `source` that the set picks as it
    /// stands into the mailbox `target`.
    fn move_messages_plain(
        &mut self,
        source: i32,
        sequence_set: &SequenceSet,
        uid: bool,
        target: i32,
    ) -> (r: Result<Vec<i32>, StoreError>)
        requires
            old(self).wf(),
        ensures
            final(self).wf(),
            final(self)@.users == old(self)@.users,
            final(self)@.mailboxes == old(self)@.mailboxes,
            ({
                let n = old(self)@.mail.len() as int;
                let rows = fetched(old(self)@.mail, sequence_set.sequences@, uid, source, n);
                if !has_mailbox(old(self)@.mailboxes, target) {
                    r == Err::<Vec<i32>, StoreError>(StoreError::NoSuchMailbox) && final(self)@
                        == old(self)@
                } else if max_uid(old(self)@.mail) + rows.len() > i32::MAX {
                    r == Err::<Vec<i32>, StoreError>(StoreError::Full) && final(self)@ == old(
                        self,
                    )@
                } else {
                    let copied = with_copies(old(self)@.mail, rows, target, rows.len() as int);
                    let marks = move_marks(copied, n, sequence_set.sequences@, uid, source);
                    &&& r is Ok
                    &&& r->Ok_0@ == expunge_reports(copied, marks, copied.len() as int)
                    &&& final(self)@.mail == without(copied, marks, copied.len() as int)
                    &&& final(self)@.changes == old(self)@.changes + exists_notices(
                        rows.len() as int,
                    ) + expunge_notices(r->Ok_0@)
                }
            }),
    {
        let n = self.mail.len();
        match self.copy_messages_plain(source, sequence_set, uid, target) {
            Ok(_) => {
                proof {
                    let rows = fetched(
                        old(self)@.mail,
                        sequence_set.sequences@,
                        uid,
                        source,
                        old(self)@.mail.len() as int,
                    );
                    lemma_fetched_len(
                        old(self)@.mail,
                        sequence_set.sequences@,
                        uid,
                        source,
                        old(self)@.mail.len() as int,
                    );
                    lemma_with_copies_len(old(self)@.mail, rows, target, rows.len() as int);
                    if old(self)@.mail.len() > 0 {
                        lemma_uid_bound(old(self)@.mail, old(self)@.mail.len() - 1);
                    }
                }
                Ok(self.remove_picked(n, source, sequence_set, uid))
            },
            Err(e) => Err(e),
        }
    }
}

/// The largest number among the first `n` messages that lie in the
/// mailbox: the largest UID in UID mode, the largest sequence number
/// otherwise; 0 where the mailbox holds none of them.
pub open spec fn largest_in(mail: Seq<MailView>, mailbox_id: i32, uid: bool, n: int) -> u32
    decreases n,
{
    if n <= 0 || n > mail.len() {
        0
    } else {
        let before = largest_in(mail, mailbox_id, uid, n - 1);
        if mail[n - 1].mailbox_id == mailbox_id && picked_number(mail[n - 1], uid) > before {
            picked_number(mail[n - 1], uid)
        } else {
            before
        }
    }
}

/// What a sequence set means in a mailbox: its items with `*` taken as
/// the largest number in use there.
pub open spec fn meant(
    items: Seq<crate::imap_op::search::Sequence>,
    mail: Seq<MailView>,
    mailbox_id: i32,
    uid: bool,
) -> Seq<crate::imap_op::search::Sequence> {
    crate::imap_op::search::resolved_items(
        items,
        largest_in(mail, mailbox_id, uid, mail.len() as int),
    )
}

/// What search keys mean in a mailbox: in their sequence sets `*` is the
/// largest sequence number in use there, and behind `UID` the largest
/// UID.
pub open spec fn keys_meant(keys: Seq<KeyView>, mail: Seq<MailView>, mailbox_id: i32) -> Seq<
    KeyView,
> {
    resolved_keys(
        keys,
        largest_in(mail, mailbox_id, false, mail.len() as int),
        largest_in(mail, mailbox_id, true, mail.len() as int),
    )
}

impl DBClient {
    /// The largest number in use in the mailbox: the largest UID in UID
    /// mode, the largest sequence number otherwise.
    pub fn largest_number(&self, mailbox_id: i32, uid: bool) -> (r: u32)
        ensures
            r == largest_in(self@.mail, mailbox_id, uid, self@.mail.len() as int),
    {
        let mut best: u32 = 0;
        let mut i: usize = 0;
        while i < self.mail.len()
            invariant
                i <= self.mail.len(),
                best == largest_in(self@.mail, mailbox_id, uid, i as int),
            decreases self.mail.len() - i,
        {
            let row = &self.mail[i];
            assert(row@ == self@.mail[i as int]);
            if row.mailbox_id == mailbox_id {
                let number = to_id_number(
                    if uid {
                        row.uid
                    } else {
                        row.seqnum
                    },
                );
                if number > best {
                    best = number;
                }
            }
            i += 1;
        }
        best
    }

    /// The set with `*` taken as the largest number in use in the mailbox.
    pub fn meaning(&self, sequence_set: &SequenceSet, mailbox_id: i32, uid: bool) -> (r:
        SequenceSet)
        ensures
            r.sequences@ == meant(sequence_set.sequences@, self@.mail, mailbox_id, uid),
    {
        sequence_set.resolve(self.largest_number(mailbox_id, uid))
    }

    /// The messages of the mailbox that the set picks, by UID in UID mode
    /// and by sequence number otherwise, in store order. `*` is the
    /// largest number in use in the mailbox.
    pub fn fetch(&self, sequence_set: &SequenceSet, uid: bool, mailbox_id: i32) -> (r: Vec<MailRow>)
        ensures
            mail_views(r@) == fetched(
                self@.mail,
                meant(sequence_set.sequences@, self@.mail, mailbox_id, uid),
                uid,
                mailbox_id,
                self@.mail.len() as int,
            ),
    {
        let set = self.meaning(sequence_set, mailbox_id, uid);
        self.fetch_plain(&set, uid, mailbox_id)
    }

    /// Changes the flags of the messages of the mailbox that the set
    /// picks, by UID in UID mode and by sequence number otherwise, and
    /// gives the changed messages in store order. `*` is the largest
    /// number in use in the mailbox.
    pub fn store_flags(
        &mut self,
        mailbox_id: i32,
        sequence_set: &SequenceSet,
        uid: bool,
        change: FlagChange,
        flags: &Vec<IMAPFlags>,
    ) -> (r: Vec<MailRow>)
        requires
            old(self).wf(),
        ensures
            final(self).wf(),
            final(self)@.users == old(self)@.users,
            final(self)@.mailboxes == old(self)@.mailboxes,
            final(self)@.changes == old(self)@.changes,
            final(self)@.mail == with_flags(
                old(self)@.mail,
                meant(sequence_set.sequences@, old(self)@.mail, mailbox_id, uid),
                uid,
                mailbox_id,
                change,
                bitmap_of(flags@),
                old(self)@.mail.len() as int,
            ),
            mail_views(r@) == fetched(
                final(self)@.mail,
                meant(sequence_set.sequences@, old(self)@.mail, mailbox_id, uid),
                uid,
                mailbox_id,
                final(self)@.mail.len() as int,
            ),
    {
        let set = self.meaning(sequence_set, mailbox_id, uid);
        self.store_flags_plain(mailbox_id, &set, uid, change, flags)
    }

    /// Copies the messages of the mailbox `source` that the set picks
    /// into the mailbox `target`, in store order, and publishes
    /// `* 1 EXISTS` for each. Nothing is copied where the target does not
    /// exist or the UIDs do not suffice for all copies. Gives the number
    /// of copies. `*` is the largest number in use in the source.
    pub fn copy_messages(
        &mut self,
        source: i32,
        sequence_set: &SequenceSet,
        uid: bool,
        target: i32,
    ) -> (r: Result<usize, StoreError>)
        requires
            old(self).wf(),
        ensures
            final(self).wf(),
            final(self)@.users == old(self)@.users,
            final(self)@.mailboxes == old(self)@.mailboxes,
            ({
                let rows = fetched(
                    old(self)@.mail,
                    meant(sequence_set.sequences@, old(self)@.mail, source, uid),
                    uid,
                    source,
                    old(self)@.mail.len() as int,
                );
                if !has_mailbox(old(self)@.mailboxes, target) {
                    r == Err::<usize, StoreError>(StoreError::NoSuchMailbox) && final(self)@ == old(
                        self,
                    )@
                } else if max_uid(old(self)@.mail) + rows.len() > i32::MAX {
                    r == Err::<usize, StoreError>(StoreError::Full) && final(self)@ == old(self)@
                } else {
                    &&& r == Ok::<usize, StoreError>(rows.len() as usize)
                    &&& final(self)@.mail == with_copies(
                        old(self)@.mail,
                        rows,
                        target,
                        rows.len() as int,
                    )
                    &&& final(self)@.changes == old(self)@.changes + exists_notices(
                        rows.len() as int,
                    )
                }
            }),
    {
        let set = self.meaning(sequence_set, source, uid);
        self.copy_messages_plain(source, &set, uid, target)
    }

    /// Moves the messages of the mailbox `source` that the set picks into
    /// the mailbox `target`: copies them, then takes them out of the
    /// source and renumbers what is left. Gives the sequence numbers to
    /// report to the client. Nothing happens where the copies cannot be
    /// made. `*` is the largest number in use in the source before the
    /// move.
    pub fn move_messages(
        &mut self,
        source: i32,
        sequence_set: &SequenceSet,
        uid: bool,
        target: i32,
    ) -> (r: Result<Vec<i32>, StoreError>)
        requires
            old(self).wf(),
        ensures
            final(self).wf(),
            final(self)@.users == old(self)@.users,
            final(self)@.mailboxes == old(self)@.mailboxes,
            ({
                let n = old(self)@.mail.len() as int;
                let set = meant(sequence_set.sequences@, old(self)@.mail, source, uid);
                let rows = fetched(old(self)@.mail, set, uid, source, n);
                if !has_mailbox(old(self)@.mailboxes, target) {
                    r == Err::<Vec<i32>, StoreError>(StoreError::NoSuchMailbox) && final(self)@
                        == old(self)@
                } else if max_uid(old(self)@.mail) + rows.len() > i32::MAX {
                    r == Err::<Vec<i32>, StoreError>(StoreError::Full) && final(self)@ == old(
                        self,
                    )@
                } else {
                    let copied = with_copies(old(self)@.mail, rows, target, rows.len() as int);
                    let marks = move_marks(copied, n, set, uid, source);
                    &&& r is Ok
                    &&& r->Ok_0@ == expunge_reports(copied, marks, copied.len() as int)
                    &&& final(self)@.mail == without(copied, marks, copied.len() as int)
                    &&& final(self)@.changes == old(self)@.changes + exists_notices(
                        rows.len() as int,
                    ) + expunge_notices(r->Ok_0@)
                }
            }),
    {
        let set = self.meaning(sequence_set, source, uid);
        self.move_messages_plain(source, &set, uid, target)
    }
}

} // verus!
