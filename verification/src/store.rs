//! The rows of the store and what holds of them at all times.

use vstd::prelude::*;
use crate::dates::Timestamp;

verus! {

/// A user as the store holds them; `password` is a bcrypt hash.
#[derive(Debug, Clone, PartialEq, Eq)]
pub struct User {
    pub id: i32,
    pub name: String,
    pub password: String,
}

pub ghost struct UserView {
    pub id: i32,
    pub name: Seq<char>,
    pub password: Seq<char>,
}

impl View for User {
    type V = UserView;

    open spec fn view(&self) -> UserView {
        UserView { id: self.id, name: self.name@, password: self.password@ }
    }
}

/// A mailbox row; `flags` holds the subscription bit.
#[derive(Debug, Clone, PartialEq, Eq)]
pub struct MailboxRow {
    pub id: i32,
    pub name: String,
    pub user_id: i32,
    pub flags: i32,
}

pub ghost struct MailboxView {
    pub id: i32,
    pub name: Seq<char>,
    pub user_id: i32,
    pub flags: i32,
}

impl View for MailboxRow {
    type V = MailboxView;

    open spec fn view(&self) -> MailboxView {
        MailboxView { id: self.id, name: self.name@, user_id: self.user_id, flags: self.flags }
    }
}

/// A stored message.
#[derive(Debug, Clone, PartialEq, Eq)]
pub struct MailRow {
    pub uid: i32,
    pub seqnum: i32,
    pub date: Timestamp,
    pub sender: String,
    pub recipients: String,
    pub data: String,
    pub mailbox_id: i32,
    /// Five characters, `1` or `0`, over Draft, Seen, Deleted, Flagged,
    /// Answered.
    pub flags: String,
}

pub ghost struct MailView {
    pub uid: i32,
    pub seqnum: i32,
    pub date: Timestamp,
    pub sender: Seq<char>,
    pub recipients: Seq<char>,
    pub data: Seq<char>,
    pub mailbox_id: i32,
    pub flags: Seq<char>,
}

impl View for MailRow {
    type V = MailView;

    open spec fn view(&self) -> MailView {
        MailView {
            uid: self.uid,
            seqnum: self.seqnum,
            date: self.date,
            sender: self.sender@,
            recipients: self.recipients@,
            data: self.data@,
            mailbox_id: self.mailbox_id,
            flags: self.flags@,
        }
    }
}

pub open spec fn user_views(v: Seq<User>) -> Seq<UserView> {
    Seq::new(v.len(), |i: int| v[i]@)
}

pub open spec fn mailbox_views(v: Seq<MailboxRow>) -> Seq<MailboxView> {
    Seq::new(v.len(), |i: int| v[i]@)
}

pub open spec fn mail_views(v: Seq<MailRow>) -> Seq<MailView> {
    Seq::new(v.len(), |i: int| v[i]@)
}

/// A flag bitmap: five characters, each `1` or `0`.
pub open spec fn is_bitmap(flags: Seq<char>) -> bool {
    flags.len() == 5 && forall|i: int| 0 <= i < 5 ==> (#[trigger] flags[i] == '1' || flags[i] == '0')
}

/// How many of the first `n` messages lie in the mailbox.
pub open spec fn count_in(mail: Seq<MailView>, mailbox_id: i32, n: int) -> int
    decreases n,
{
    if n <= 0 {
        0
    } else if n <= mail.len() && mail[n - 1].mailbox_id == mailbox_id {
        count_in(mail, mailbox_id, n - 1) + 1
    } else {
        count_in(mail, mailbox_id, n - 1)
    }
}

/// The number of messages in the mailbox.
pub open spec fn mailbox_count(mail: Seq<MailView>, mailbox_id: i32) -> int {
    count_in(mail, mailbox_id, mail.len() as int)
}

/// The largest UID in the store; 0 where the store is empty.
pub open spec fn max_uid(mail: Seq<MailView>) -> int {
    if mail.len() == 0 {
        0
    } else {
        mail.last().uid as int
    }
}

/// The largest mailbox id; 0 where there is no mailbox.
pub open spec fn max_mailbox_id(mailboxes: Seq<MailboxView>) -> int {
    if mailboxes.len() == 0 {
        0
    } else {
        mailboxes.last().id as int
    }
}

/// Whether a mailbox with the id exists.
pub open spec fn has_mailbox(mailboxes: Seq<MailboxView>, id: i32) -> bool {
    exists|i: int| 0 <= i < mailboxes.len() && (#[trigger] mailboxes[i]).id == id
}

/// What holds of the messages at all times: UIDs are positive and rise
/// from each message to the next, so no two messages share one; every
/// message carries as its sequence number its rank among the messages of
/// its mailbox; and every bitmap is well formed.
pub open spec fn mail_wf(mail: Seq<MailView>) -> bool {
    &&& forall|i: int| 0 <= i < mail.len() ==> (#[trigger] mail[i]).uid >= 1
    &&& forall|i: int, j: int| 0 <= i < j < mail.len() ==> (#[trigger] mail[i]).uid < (#[trigger] mail[j]).uid
    &&& forall|i: int|
        0 <= i < mail.len() ==> (#[trigger] mail[i]).seqnum as int == count_in(
            mail,
            mail[i].mailbox_id,
            i + 1,
        )
    &&& forall|i: int| 0 <= i < mail.len() ==> is_bitmap((#[trigger] mail[i]).flags)
}

/// What holds of the mailboxes at all times: ids are positive and rise
/// from each row to the next, and no user has two mailboxes of one name.
pub open spec fn mailboxes_wf(mailboxes: Seq<MailboxView>) -> bool {
    &&& forall|i: int| 0 <= i < mailboxes.len() ==> (#[trigger] mailboxes[i]).id >= 1
    &&& forall|i: int, j: int|
        0 <= i < j < mailboxes.len() ==> (#[trigger] mailboxes[i]).id < (#[trigger] mailboxes[j]).id
    &&& forall|i: int, j: int|
        0 <= i < j < mailboxes.len() ==> !((#[trigger] mailboxes[i]).user_id == (
        #[trigger] mailboxes[j]).user_id && mailboxes[i].name == mailboxes[j].name)
}

/// What holds of the users at all times: ids are positive and rise from
/// each row to the next, and no two users share a name.
pub open spec fn users_wf(users: Seq<UserView>) -> bool {
    &&& forall|i: int| 0 <= i < users.len() ==> (#[trigger] users[i]).id >= 1
    &&& forall|i: int, j: int|
        0 <= i < j < users.len() ==> (#[trigger] users[i]).id < (#[trigger] users[j]).id
    &&& forall|i: int, j: int|
        0 <= i < j < users.len() ==> (#[trigger] users[i]).name != (#[trigger] users[j]).name
}

/// The store as plain values.
pub ghost struct StoreView {
    pub users: Seq<UserView>,
    pub mailboxes: Seq<MailboxView>,
    pub mail: Seq<MailView>,
    /// Notifications published and not yet taken.
    pub changes: Seq<Seq<char>>,
}

impl StoreView {
    /// What holds of a store at all times.
    pub open spec fn wf(self) -> bool {
        &&& users_wf(self.users)
        &&& mailboxes_wf(self.mailboxes)
        &&& mail_wf(self.mail)
        &&& forall|i: int|
            0 <= i < self.mail.len() ==> has_mailbox(
                self.mailboxes,
                (#[trigger] self.mail[i]).mailbox_id,
            )
    }
}

pub proof fn lemma_count_in_bounds(mail: Seq<MailView>, mailbox_id: i32, n: int)
    ensures
        0 <= count_in(mail, mailbox_id, n),
        0 <= n ==> count_in(mail, mailbox_id, n) <= n,
    decreases n,
{
    if n > 0 {
        lemma_count_in_bounds(mail, mailbox_id, n - 1);
    }
}

pub proof fn lemma_count_in_monotone(mail: Seq<MailView>, mailbox_id: i32, a: int, b: int)
    requires
        a <= b,
    ensures
        count_in(mail, mailbox_id, a) <= count_in(mail, mailbox_id, b),
    decreases b - a,
{
    if a < b {
        lemma_count_in_monotone(mail, mailbox_id, a, b - 1);
        lemma_count_in_bounds(mail, mailbox_id, b - 1);
    } else {
    }
}

/// Counting goes by the rows counted alone: two stores that agree on their
/// first `n` rows agree on every count over them.
pub proof fn lemma_count_in_prefix(a: Seq<MailView>, b: Seq<MailView>, mailbox_id: i32, n: int)
    requires
        n <= a.len(),
        n <= b.len(),
        forall|i: int| 0 <= i < n ==> (#[trigger] a[i]).mailbox_id == (#[trigger] b[i]).mailbox_id,
    ensures
        count_in(a, mailbox_id, n) == count_in(b, mailbox_id, n),
    decreases n,
{
    if n > 0 {
        lemma_count_in_prefix(a, b, mailbox_id, n - 1);
    }
}

/// Every number from 1 to a count is the rank of some counted message.
pub proof fn lemma_count_in_reached(mail: Seq<MailView>, mailbox_id: i32, n: int, k: int)
    requires
        0 <= n <= mail.len(),
        1 <= k <= count_in(mail, mailbox_id, n),
    ensures
        exists|i: int|
            0 <= i < n && (#[trigger] mail[i]).mailbox_id == mailbox_id && count_in(
                mail,
                mailbox_id,
                i + 1,
            ) == k,
    decreases n,
{
    lemma_count_in_bounds(mail, mailbox_id, n);
    if n > 0 {
        if mail[n - 1].mailbox_id == mailbox_id && count_in(mail, mailbox_id, n) == k {
            assert(mail[n - 1].mailbox_id == mailbox_id);
        } else {
            lemma_count_in_reached(mail, mailbox_id, n - 1, k);
        }
    }
}

/// Whether some message of the mailbox carries the sequence number.
pub open spec fn has_seqnum(mail: Seq<MailView>, mailbox_id: i32, k: int) -> bool {
    exists|i: int|
        0 <= i < mail.len() && (#[trigger] mail[i]).mailbox_id == mailbox_id && mail[i].seqnum == k
}

/// In a well-formed store the sequence numbers of a mailbox are exactly
/// the numbers from 1 to the number of its messages, each carried by one
/// message.
pub proof fn lemma_seqnums_contiguous(mail: Seq<MailView>, mailbox_id: i32)
    requires
        mail_wf(mail),
    ensures
        forall|i: int|
            0 <= i < mail.len() && (#[trigger] mail[i]).mailbox_id == mailbox_id ==> 1
                <= mail[i].seqnum <= mailbox_count(mail, mailbox_id),
        forall|i: int, j: int|
            0 <= i < j < mail.len() && (#[trigger] mail[i]).mailbox_id == mailbox_id && (
            #[trigger] mail[j]).mailbox_id == mailbox_id ==> mail[i].seqnum < mail[j].seqnum,
        forall|k: int|
            1 <= k <= mailbox_count(mail, mailbox_id) ==> #[trigger] has_seqnum(
                mail,
                mailbox_id,
                k,
            ),
{
    assert forall|i: int|
        0 <= i < mail.len() && (#[trigger] mail[i]).mailbox_id == mailbox_id implies 1
        <= mail[i].seqnum <= mailbox_count(mail, mailbox_id) by {
        lemma_count_in_bounds(mail, mailbox_id, i);
        lemma_count_in_monotone(mail, mailbox_id, i + 1, mail.len() as int);
    }
    assert forall|i: int, j: int|
        0 <= i < j < mail.len() && (#[trigger] mail[i]).mailbox_id == mailbox_id && (
        #[trigger] mail[j]).mailbox_id == mailbox_id implies mail[i].seqnum
        < mail[j].seqnum by {
        lemma_count_in_monotone(mail, mailbox_id, i + 1, j);
    }
    assert forall|k: int| 1 <= k <= mailbox_count(mail, mailbox_id) implies #[trigger] has_seqnum(
        mail,
        mailbox_id,
        k,
    ) by {
        lemma_count_in_reached(mail, mailbox_id, mail.len() as int, k);
        let i = choose|i: int|
            0 <= i < mail.len() && (#[trigger] mail[i]).mailbox_id == mailbox_id && count_in(
                mail,
                mailbox_id,
                i + 1,
            ) == k;
        assert(mail[i].seqnum == k);
    }
}


/// A message put behind the others keeps the store well formed where its
/// UID is above every UID in the store and its sequence number is one more
/// than the number of messages in its mailbox.
pub proof fn lemma_push_mail(mail: Seq<MailView>, row: MailView)
    requires
        mail_wf(mail),
        row.uid > max_uid(mail),
        row.seqnum == mailbox_count(mail, row.mailbox_id) + 1,
        is_bitmap(row.flags),
    ensures
        mail_wf(mail.push(row)),
        forall|m: i32|
            mailbox_count(mail.push(row), m) == mailbox_count(mail, m) + if m == row.mailbox_id {
                1int
            } else {
                0int
            },
{
    let after = mail.push(row);
    let n = mail.len() as int;
    assert forall|i: int, j: int| 0 <= i < j < after.len() implies (#[trigger] after[i]).uid < (
    #[trigger] after[j]).uid by {
        if j < n {
            assert(mail[i].uid < mail[j].uid);
        } else if i < n - 1 {
            assert(mail[i].uid < mail[n - 1].uid);
        }
    }
    assert forall|i: int| 0 <= i < after.len() implies (#[trigger] after[i]).seqnum as int
        == count_in(after, after[i].mailbox_id, i + 1) by {
        if i < n {
            lemma_count_in_prefix(mail, after, mail[i].mailbox_id, i + 1);
            assert(mail[i].seqnum as int == count_in(mail, mail[i].mailbox_id, i + 1));
        } else {
            lemma_count_in_prefix(mail, after, row.mailbox_id, n);
        }
    }
    assert forall|i: int| 0 <= i < after.len() implies (#[trigger] after[i]).uid >= 1 by {
        if i < n {
            assert(mail[i].uid >= 1);
        }
    }
    assert forall|i: int| 0 <= i < after.len() implies is_bitmap((#[trigger] after[i]).flags) by {
        if i < n {
            assert(is_bitmap(mail[i].flags));
        }
    }
    assert forall|m: i32|
        mailbox_count(after, m) == mailbox_count(mail, m) + if m == row.mailbox_id {
            1int
        } else {
            0int
        } by {
        lemma_count_in_prefix(mail, after, m, n);
    }
}

/// A message with its sequence number replaced.
pub open spec fn renumbered(row: MailView, seqnum: i32) -> MailView {
    MailView { seqnum, ..row }
}

/// What is left of the first `n` messages when the marked ones are taken
/// out: the others in their order, each with its rank among those left of
/// its mailbox as its sequence number.
pub open spec fn without(mail: Seq<MailView>, marks: Seq<bool>, n: int) -> Seq<MailView>
    decreases n,
{
    if n <= 0 || n > mail.len() || n > marks.len() {
        seq![]
    } else {
        let before = without(mail, marks, n - 1);
        if marks[n - 1] {
            before
        } else {
            before.push(
                renumbered(
                    mail[n - 1],
                    (mailbox_count(before, mail[n - 1].mailbox_id) + 1) as i32,
                ),
            )
        }
    }
}

/// Whether a message of `after` stands for the message at `j` of `mail`:
/// the same message but for its sequence number.
pub open spec fn stands_for(row: MailView, mail: Seq<MailView>, j: int) -> bool {
    0 <= j < mail.len() && row == renumbered(mail[j], row.seqnum)
}

/// Taking marked messages out keeps the store well formed.
pub proof fn lemma_without(mail: Seq<MailView>, marks: Seq<bool>, n: int)
    requires
        mail_wf(mail),
        marks.len() == mail.len(),
        0 <= n <= mail.len(),
    ensures
        mail_wf(without(mail, marks, n)),
        without(mail, marks, n).len() <= n,
        n > 0 ==> max_uid(without(mail, marks, n)) <= mail[n - 1].uid,
    decreases n,
{
    if n > 0 {
        lemma_without(mail, marks, n - 1);
        let before = without(mail, marks, n - 1);
        if n > 1 {
            assert(mail[n - 2].uid < mail[n - 1].uid);
        }
        if !marks[n - 1] {
            let m = mail[n - 1].mailbox_id;
            lemma_count_in_bounds(before, m, before.len() as int);
            lemma_uid_bound(mail, n - 1);
            let row = renumbered(mail[n - 1], (mailbox_count(before, m) + 1) as i32);
            assert(mail[n - 1].uid >= 1);
            assert(is_bitmap(mail[n - 1].flags));
            lemma_push_mail(before, row);
        }
    }
}

/// What is left when marked messages are taken out are unmarked messages
/// of the store.
pub proof fn lemma_without_sound(mail: Seq<MailView>, marks: Seq<bool>, n: int, k: int)
    requires
        marks.len() == mail.len(),
        0 <= n <= mail.len(),
        0 <= k < without(mail, marks, n).len(),
    ensures
        exists|j: int| 0 <= j < n && !marks[j] && #[trigger] stands_for(
            without(mail, marks, n)[k],
            mail,
            j,
        ),
    decreases n,
{
    if n > 0 {
        let before = without(mail, marks, n - 1);
        if k < before.len() {
            lemma_without_sound(mail, marks, n - 1, k);
            let j = choose|j: int|
                0 <= j < n - 1 && !marks[j] && #[trigger] stands_for(before[k], mail, j);
            assert(stands_for(without(mail, marks, n)[k], mail, j));
        } else {
            assert(stands_for(without(mail, marks, n)[k], mail, n - 1));
        }
    }
}

/// Every unmarked message is still there when the marked ones are taken
/// out.
pub proof fn lemma_without_complete(mail: Seq<MailView>, marks: Seq<bool>, n: int, j: int)
    requires
        marks.len() == mail.len(),
        0 <= n <= mail.len(),
        0 <= j < n,
        !marks[j],
    ensures
        exists|k: int|
            0 <= k < without(mail, marks, n).len() && #[trigger] stands_for(
                without(mail, marks, n)[k],
                mail,
                j,
            ),
    decreases n,
{
    let before = without(mail, marks, n - 1);
    if j < n - 1 {
        lemma_without_complete(mail, marks, n - 1, j);
        let k = choose|k: int| 0 <= k < before.len() && #[trigger] stands_for(before[k], mail, j);
        assert(stands_for(without(mail, marks, n)[k], mail, j));
    } else {
        assert(stands_for(without(mail, marks, n)[before.len() as int], mail, j));
    }
}

/// In a well-formed store the message at position `i` has a UID of at
/// least `i + 1`, so a store holds fewer than 2^31 messages.
pub proof fn lemma_uid_bound(mail: Seq<MailView>, i: int)
    requires
        mail_wf(mail),
        0 <= i < mail.len(),
    ensures
        mail[i].uid >= i + 1,
        mail.len() <= i32::MAX,
    decreases i,
{
    if i > 0 {
        lemma_uid_bound(mail, i - 1);
    }
    let n = mail.len() as int;
    if i < n - 1 {
        lemma_uid_from(mail, i, n - 1);
    }
}

/// UIDs rise by at least one from each message to the next.
pub proof fn lemma_uid_from(mail: Seq<MailView>, i: int, j: int)
    requires
        mail_wf(mail),
        0 <= i <= j < mail.len(),
    ensures
        mail[j].uid >= mail[i].uid + (j - i),
    decreases j - i,
{
    if i < j {
        lemma_uid_from(mail, i, j - 1);
        assert(mail[j - 1].uid < mail[j].uid);
    }
}

} // verus!
