//! What holds of the store and of the session whatever the commands.

use vstd::prelude::*;
use crate::database::{
    doomed, expunge_marks, flag_set, found, mailbox_id_of, mailbox_index, names_of, new_mailbox,
    IMAPFlags,
};
use vstd::utf8::encode_utf8;
use crate::dates::Timestamp;
use crate::imap::{
    byte_views, command_outcome, ran, sent, Handled, IMAPState, SessionAction, Settled,
};
use crate::imap_op::append::{append_stored, AppendHead};
use crate::parsing::imap::{char_width, octets_end};
use crate::imap_op::close::close_outcome;
use crate::imap_op::fetch::{body_item, envelope_item, item_text, message_headers, parts_of};
use crate::imap_op::search::KeyView;
use crate::imap_op::select::{
    select_lines, select_outcome, select_succeeds, selected_mailbox, selected_name,
};
use crate::parsing::fetch::{FetchView, SectionView};
use crate::scan::words;
use crate::store::StoreView;
use crate::text::{decimal, lower_seq, octets};
use crate::matching::{key_matches, keys_match};
use crate::store::{
    has_seqnum, is_bitmap, lemma_seqnums_contiguous, lemma_uid_from, lemma_without,
    lemma_without_complete, lemma_without_sound, mail_wf, mailbox_count, mailboxes_wf, max_uid,
    stands_for, without, MailView, MailboxView,
};

verus! {

/// The sequence numbers of a mailbox are the numbers from 1 to the number
/// of its messages, and no two of its messages share one. This holds of
/// every store, since every operation keeps the store well formed.
pub proof fn seqnums_are_one_to_count(mail: Seq<MailView>, mailbox_id: i32)
    requires
        mail_wf(mail),
    ensures
        forall|i: int|
            0 <= i < mail.len() && (#[trigger] mail[i]).mailbox_id == mailbox_id ==> 1
                <= mail[i].seqnum <= mailbox_count(mail, mailbox_id),
        forall|i: int, j: int|
            0 <= i < mail.len() && 0 <= j < mail.len() && i != j && (#[trigger] mail[i]).mailbox_id
                == mailbox_id && (#[trigger] mail[j]).mailbox_id == mailbox_id ==> mail[i].seqnum
                != mail[j].seqnum,
        forall|k: int|
            1 <= k <= mailbox_count(mail, mailbox_id) ==> #[trigger] has_seqnum(
                mail,
                mailbox_id,
                k,
            ),
{
    lemma_seqnums_contiguous(mail, mailbox_id);
    assert forall|i: int, j: int|
        0 <= i < mail.len() && 0 <= j < mail.len() && i != j && (#[trigger] mail[i]).mailbox_id
            == mailbox_id && (#[trigger] mail[j]).mailbox_id == mailbox_id implies mail[i].seqnum
        != mail[j].seqnum by {
        if i < j {
            assert(mail[i].seqnum < mail[j].seqnum);
        } else {
            assert(mail[j].seqnum < mail[i].seqnum);
        }
    }
}

/// The UID that the next message gets is above the UID of every message
/// in the store, so no two messages of a store ever share a UID.
pub proof fn next_uid_is_above_every_uid(mail: Seq<MailView>, i: int)
    requires
        mail_wf(mail),
        0 <= i < mail.len(),
    ensures
        mail[i].uid < max_uid(mail) + 1,
{
    lemma_uid_from(mail, i, mail.len() - 1);
}

/// Of two messages that are stored one after the other, the second gets
/// the larger UID.
pub proof fn uids_rise_from_append_to_append(mail: Seq<MailView>, first: MailView, second: MailView)
    requires
        first.uid == max_uid(mail) + 1,
        second.uid == max_uid(mail.push(first)) + 1,
    ensures
        first.uid < second.uid,
{
}

/// A UID that was expunged does not come again, as long as a message with
/// a larger UID is left in the store.
pub proof fn expunged_uid_is_not_reused(mail: Seq<MailView>, marks: Seq<bool>, gone: int, left: int)
    requires
        mail_wf(mail),
        marks.len() == mail.len(),
        0 <= gone < left < mail.len(),
        marks[gone],
        !marks[left],
    ensures
        mail[gone].uid < max_uid(without(mail, marks, mail.len() as int)) + 1,
{
    let rest = without(mail, marks, mail.len() as int);
    lemma_without(mail, marks, mail.len() as int);
    lemma_without_complete(mail, marks, mail.len() as int, left);
    let k = choose|k: int| 0 <= k < rest.len() && #[trigger] stands_for(rest[k], mail, left);
    next_uid_is_above_every_uid(rest, k);
    assert(mail[gone].uid < mail[left].uid);
}

/// The number under which a search shows a message.
pub open spec fn shown_number(row: MailView, uid: bool) -> i32 {
    if uid {
        row.uid
    } else {
        row.seqnum
    }
}

/// Whether a search over the first `n` messages finds the number through
/// the message at position `i`.
pub open spec fn found_through(
    mail: Seq<MailView>,
    keys: Seq<KeyView>,
    mailbox_id: i32,
    uid: bool,
    n: int,
    id: i32,
    i: int,
) -> bool {
    0 <= i < n && i < mail.len() && mail[i].mailbox_id == mailbox_id && keys_match(keys, mail[i])
        && shown_number(mail[i], uid) == id
}

/// A search finds a number if and only if a message of the mailbox that
/// matches every key has it: search results are numbers of messages that
/// are in the mailbox.
pub proof fn search_finds_what_is_in_the_mailbox(
    mail: Seq<MailView>,
    keys: Seq<KeyView>,
    mailbox_id: i32,
    uid: bool,
    n: int,
    id: i32,
)
    requires
        0 <= n <= mail.len(),
    ensures
        found(mail, keys, mailbox_id, uid, n).contains(id) <==> exists|i: int| #[trigger]
            found_through(mail, keys, mailbox_id, uid, n, id, i),
    decreases n,
{
    if n > 0 {
        search_finds_what_is_in_the_mailbox(mail, keys, mailbox_id, uid, n - 1, id);
        let before = found(mail, keys, mailbox_id, uid, n - 1);
        let now = found(mail, keys, mailbox_id, uid, n);
        let hit = mail[n - 1].mailbox_id == mailbox_id && keys_match(keys, mail[n - 1]);
        if now.contains(id) {
            let k = choose|k: int| 0 <= k < now.len() && now[k] == id;
            if hit && k == now.len() - 1 {
                assert(found_through(mail, keys, mailbox_id, uid, n, id, n - 1));
            } else {
                assert(before[k] == id);
                assert(before.contains(id));
                let i = choose|i: int| #[trigger]
                    found_through(mail, keys, mailbox_id, uid, n - 1, id, i);
                assert(found_through(mail, keys, mailbox_id, uid, n, id, i));
            }
        }
        if exists|i: int| #[trigger] found_through(mail, keys, mailbox_id, uid, n, id, i) {
            let i = choose|i: int| #[trigger] found_through(mail, keys, mailbox_id, uid, n, id, i);
            if i == n - 1 {
                assert(now == before.push(id));
                assert(now[now.len() - 1] == id);
            } else {
                assert(found_through(mail, keys, mailbox_id, uid, n - 1, id, i));
                assert(before.contains(id));
                let k = choose|k: int| 0 <= k < before.len() && before[k] == id;
                assert(now[k] == id);
            }
        }
    } else {
        assert(found(mail, keys, mailbox_id, uid, n) =~= Seq::<i32>::empty());
    }
}

/// What `OR k1 k2` finds is what `k1` finds together with what `k2`
/// finds.
pub proof fn or_finds_the_union(
    mail: Seq<MailView>,
    k1: KeyView,
    k2: KeyView,
    mailbox_id: i32,
    uid: bool,
    id: i32,
)
    ensures
        found(
            mail,
            seq![KeyView::Or(Box::new(k1), Box::new(k2))],
            mailbox_id,
            uid,
            mail.len() as int,
        ).contains(id) <==> found(mail, seq![k1], mailbox_id, uid, mail.len() as int).contains(id)
            || found(mail, seq![k2], mailbox_id, uid, mail.len() as int).contains(id),
{
    let n = mail.len() as int;
    let or = seq![KeyView::Or(Box::new(k1), Box::new(k2))];
    search_finds_what_is_in_the_mailbox(mail, or, mailbox_id, uid, n, id);
    search_finds_what_is_in_the_mailbox(mail, seq![k1], mailbox_id, uid, n, id);
    search_finds_what_is_in_the_mailbox(mail, seq![k2], mailbox_id, uid, n, id);
    assert forall|i: int| 0 <= i < n implies (keys_match(or, mail[i]) <==> keys_match(
        seq![k1],
        mail[i],
    ) || keys_match(seq![k2], mail[i])) by {
        assert(or[0] == KeyView::Or(Box::new(k1), Box::new(k2)));
        assert(seq![k1][0] == k1);
        assert(seq![k2][0] == k2);
    }
    if found(mail, or, mailbox_id, uid, n).contains(id) {
        let i = choose|i: int| #[trigger] found_through(mail, or, mailbox_id, uid, n, id, i);
        if keys_match(seq![k1], mail[i]) {
            assert(found_through(mail, seq![k1], mailbox_id, uid, n, id, i));
        } else {
            assert(found_through(mail, seq![k2], mailbox_id, uid, n, id, i));
        }
    }
    if found(mail, seq![k1], mailbox_id, uid, n).contains(id) {
        let i = choose|i: int| #[trigger] found_through(mail, seq![k1], mailbox_id, uid, n, id, i);
        assert(found_through(mail, or, mailbox_id, uid, n, id, i));
    }
    if found(mail, seq![k2], mailbox_id, uid, n).contains(id) {
        let i = choose|i: int| #[trigger] found_through(mail, seq![k2], mailbox_id, uid, n, id, i);
        assert(found_through(mail, or, mailbox_id, uid, n, id, i));
    }
}

/// Two messages of one mailbox that a search shows under the same number
/// are one message.
pub proof fn shown_numbers_tell_messages_apart(mail: Seq<MailView>, uid: bool, i: int, j: int)
    requires
        mail_wf(mail),
        0 <= i < mail.len(),
        0 <= j < mail.len(),
        mail[i].mailbox_id == mail[j].mailbox_id,
        shown_number(mail[i], uid) == shown_number(mail[j], uid),
    ensures
        i == j,
{
    if i != j {
        if uid {
            if i < j {
                assert(mail[i].uid < mail[j].uid);
            } else {
                assert(mail[j].uid < mail[i].uid);
            }
        } else {
            seqnums_are_one_to_count(mail, mail[i].mailbox_id);
        }
    }
}

/// What `NOT k` finds is what is in the mailbox and is not found by `k`.
pub proof fn not_finds_the_complement(
    mail: Seq<MailView>,
    k: KeyView,
    mailbox_id: i32,
    uid: bool,
    id: i32,
)
    requires
        mail_wf(mail),
    ensures
        found(mail, seq![KeyView::Not(Box::new(k))], mailbox_id, uid, mail.len() as int).contains(
            id,
        ) <==> found(mail, seq![KeyView::All], mailbox_id, uid, mail.len() as int).contains(id)
            && !found(mail, seq![k], mailbox_id, uid, mail.len() as int).contains(id),
{
    let n = mail.len() as int;
    let not = seq![KeyView::Not(Box::new(k))];
    let all = seq![KeyView::All];
    search_finds_what_is_in_the_mailbox(mail, not, mailbox_id, uid, n, id);
    search_finds_what_is_in_the_mailbox(mail, all, mailbox_id, uid, n, id);
    search_finds_what_is_in_the_mailbox(mail, seq![k], mailbox_id, uid, n, id);
    assert forall|i: int| 0 <= i < n implies (keys_match(not, mail[i]) <==> !keys_match(
        seq![k],
        mail[i],
    )) && keys_match(all, mail[i]) by {
        assert(not[0] == KeyView::Not(Box::new(k)));
        assert(seq![k][0] == k);
        assert(all[0] == KeyView::All);
    }
    if found(mail, not, mailbox_id, uid, n).contains(id) {
        let i = choose|i: int| #[trigger] found_through(mail, not, mailbox_id, uid, n, id, i);
        assert(found_through(mail, all, mailbox_id, uid, n, id, i));
        if found(mail, seq![k], mailbox_id, uid, n).contains(id) {
            let j = choose|j: int| #[trigger]
                found_through(mail, seq![k], mailbox_id, uid, n, id, j);
            shown_numbers_tell_messages_apart(mail, uid, i, j);
        }
    }
    if found(mail, all, mailbox_id, uid, n).contains(id) && !found(
        mail,
        seq![k],
        mailbox_id,
        uid,
        n,
    ).contains(id) {
        let i = choose|i: int| #[trigger] found_through(mail, all, mailbox_id, uid, n, id, i);
        if keys_match(seq![k], mail[i]) {
            assert(found_through(mail, seq![k], mailbox_id, uid, n, id, i));
        }
        assert(found_through(mail, not, mailbox_id, uid, n, id, i));
    }
}

/// The key that asks for a flag to be set.
pub open spec fn set_key(flag: IMAPFlags) -> KeyView {
    match flag {
        IMAPFlags::Answered => KeyView::Answered,
        IMAPFlags::Flagged => KeyView::Flagged,
        IMAPFlags::Deleted => KeyView::Deleted,
        IMAPFlags::Seen => KeyView::Seen,
        IMAPFlags::Draft => KeyView::Draft,
    }
}

/// The key that asks for a flag to be cleared.
pub open spec fn cleared_key(flag: IMAPFlags) -> KeyView {
    match flag {
        IMAPFlags::Answered => KeyView::Unanswered,
        IMAPFlags::Flagged => KeyView::Unflagged,
        IMAPFlags::Deleted => KeyView::Undeleted,
        IMAPFlags::Seen => KeyView::Unseen,
        IMAPFlags::Draft => KeyView::Undraft,
    }
}

/// A message matches the key of a flag, such as `SEEN`, if and only if
/// its bitmap has the flag's place set, and the key of the cleared flag,
/// such as `UNSEEN`, if and only if the place is cleared.
pub proof fn flag_keys_are_exact(row: MailView, flag: IMAPFlags)
    requires
        is_bitmap(row.flags),
    ensures
        key_matches(set_key(flag), row) <==> flag_set(row.flags, flag),
        key_matches(cleared_key(flag), row) <==> !flag_set(row.flags, flag),
        key_matches(KeyView::Keyword(flag), row) <==> flag_set(row.flags, flag),
        key_matches(KeyView::Unkeyword(flag), row) <==> !flag_set(row.flags, flag),
{
    let one = flag.pattern('1');
    let zero = flag.pattern('0');
    let p = flag.place();
    assert(one[p] == '1');
    assert(zero[p] == '0');
    assert(row.flags[p] == '1' || row.flags[p] == '0');
    if row.flags[p] == '1' {
        assert forall|i: int| 0 <= i < one.len() implies (#[trigger] one[i] == '_' || one[i]
            == row.flags[i]) by {}
        assert(!(zero[p] == '_' || zero[p] == row.flags[p]));
    } else {
        assert forall|i: int| 0 <= i < zero.len() implies (#[trigger] zero[i] == '_' || zero[i]
            == row.flags[i]) by {}
        assert(!(one[p] == '_' || one[p] == row.flags[p]));
    }
}


/// Whether a message of the store is still there after some messages were
/// taken out.
pub open spec fn survives(mail: Seq<MailView>, after: Seq<MailView>, j: int) -> bool {
    exists|k: int| 0 <= k < after.len() && #[trigger] stands_for(after[k], mail, j)
}

/// An expunge of a mailbox removes exactly the messages of the mailbox
/// that have the Deleted flag set: every such message is gone, and every
/// other message of the store is still there.
pub proof fn expunge_removes_exactly_the_deleted(mail: Seq<MailView>, mailbox_id: i32, j: int)
    requires
        mail_wf(mail),
        0 <= j < mail.len(),
    ensures
        survives(
            mail,
            without(mail, expunge_marks(mail, mailbox_id, None), mail.len() as int),
            j,
        ) <==> !(mail[j].mailbox_id == mailbox_id && flag_set(mail[j].flags, IMAPFlags::Deleted)),
{
    let marks = expunge_marks(mail, mailbox_id, None);
    let n = mail.len() as int;
    let after = without(mail, marks, n);
    assert(marks[j] == doomed(mail[j], mailbox_id, None));
    if !marks[j] {
        lemma_without_complete(mail, marks, n, j);
    } else if survives(mail, after, j) {
        let k = choose|k: int| 0 <= k < after.len() && #[trigger] stands_for(after[k], mail, j);
        lemma_without_sound(mail, marks, n, k);
        let i = choose|i: int| 0 <= i < n && !marks[i] && #[trigger] stands_for(after[k], mail, i);
        assert(mail[i].uid == mail[j].uid);
        if i < j {
            assert(mail[i].uid < mail[j].uid);
        }
        if j < i {
            assert(mail[j].uid < mail[i].uid);
        }
    }
}

/// A successful SELECT followed by CLOSE leaves in the store what an
/// expunge of the selected mailbox leaves: all but its messages with the
/// Deleted flag set. A successful EXAMINE followed by CLOSE leaves every
/// message.
pub proof fn close_after_select_and_after_examine(
    tag: Seq<char>,
    args: Seq<char>,
    state: IMAPState,
    db0: StoreView,
    db1: StoreView,
    now: Timestamp,
    opened: Handled,
    select: bool,
    tag2: Seq<char>,
    db2: StoreView,
    closed: Handled,
)
    requires
        select_succeeds(args, state, db0, now),
        select_outcome(tag, args, state, db0, db1, now, opened, select),
        opened is Ok,
        close_outcome(tag2, opened->Ok_0.1, db1, db2, closed, true),
    ensures
        select ==> db2.mail == without(
            db1.mail,
            expunge_marks(db1.mail, selected_mailbox(args, state, db0), None),
            db1.mail.len() as int,
        ),
        !select ==> db2 == db1,
{
}

/// A successful SELECT announces as many messages as the mailbox holds,
/// and a next UID above the UID of every message.
pub proof fn select_tells_count_and_next_uid(
    tag: Seq<char>,
    args: Seq<char>,
    state: IMAPState,
    before: StoreView,
    after: StoreView,
    now: Timestamp,
    r: Handled,
    select: bool,
    i: int,
)
    requires
        mail_wf(before.mail),
        select_succeeds(args, state, before, now),
        select_outcome(tag, args, state, before, after, now, r, select),
        0 <= i < before.mail.len(),
    ensures
        r is Ok,
        byte_views(r->Ok_0.0@)[0] == encode_utf8(
            "* "@ + decimal(mailbox_count(before.mail, selected_mailbox(args, state, before)))
                + " EXISTS\r\n"@,
        ),
        byte_views(r->Ok_0.0@)[2] == encode_utf8(
            "* OK [UIDNEXT "@ + decimal(max_uid(before.mail) + 1) + "]\r\n"@,
        ),
        before.mail[i].uid < max_uid(before.mail) + 1,
{
    next_uid_is_above_every_uid(before.mail, i);
    let lines = select_lines(
        tag,
        selected_name(words(args)[0]),
        mailbox_count(before.mail, selected_mailbox(args, state, before)),
        now.unix_seconds as int,
        max_uid(before.mail) + 1,
        select,
    );
    assert(sent(lines)[0] == encode_utf8(lines[0]));
    assert(sent(lines)[2] == encode_utf8(lines[2]));
}

/// STARTTLS on a session whose transport is TLS already is answered as
/// ever, and asks for no upgrade; the transport stays TLS.
pub proof fn starttls_twice_upgrades_once(
    state: IMAPState,
    tag: Seq<char>,
    command: Seq<char>,
    args: Seq<char>,
    second: bool,
    before: StoreView,
    after: StoreView,
    now: Timestamp,
    h: Handled,
    result: Settled,
)
    requires
        lower_seq(command) == "starttls"@,
        ran(state, true, tag, command, args, second, before, after, now, h, result),
    ensures
        result.1 == sent(seq![tag + " OK Begin TLS negotiation now\r\n"@]),
        result.2 == SessionAction::Nothing,
        result.0.tls,
        result.0.state == state,
        after == before,
{
    reveal(command_outcome);
    reveal_strlit("starttls");
    reveal_strlit("append");
    reveal_strlit("capability");
    reveal_strlit("create");
    reveal_strlit("enable");
    reveal_strlit("expunge");
    reveal_strlit("login");
    reveal_strlit("noop");
    reveal_strlit("select");
    reveal_strlit("status");
    reveal_strlit("unselect");
    reveal_strlit("authenticate");
    reveal_strlit("close");
    reveal_strlit("delete");
    reveal_strlit("examine");
    reveal_strlit("list");
    reveal_strlit("logout");
    reveal_strlit("namespace");
    reveal_strlit("rename");
    let c = lower_seq(command);
    assert(c.len() == 8);
    assert(c[0] == 's' && c[1] == 't' && c[2] == 'a');
    assert(c != "append"@);
    assert(c != "capability"@);
    assert(c != "create"@);
    assert(c != "enable"@);
    assert(c != "expunge"@);
    assert(c != "login"@);
    assert(c != "noop"@);
    assert(c != "select"@);
    assert(c != "status"@);
    assert("unselect"@[0] == 'u');
    assert(c != "unselect"@);
    assert(c != "authenticate"@);
    assert(c != "close"@);
    assert(c != "delete"@);
    assert(c != "examine"@);
    assert(c != "list"@);
    assert(c != "logout"@);
    assert(c != "namespace"@);
    assert(c != "rename"@);
}

/// A message that APPEND has stored is shown by FETCH with the same text
/// as its `BODY[]`, and with the envelope of that text.
pub proof fn fetch_shows_what_append_stored(
    tag: Seq<char>,
    head: AppendHead,
    data: Seq<char>,
    user: i32,
    state: IMAPState,
    before: StoreView,
    after: StoreView,
    now: Timestamp,
    r: Handled,
)
    requires
        append_stored(tag, head, data, user, state, before, after, now, r),
        r is Ok,
        after.mail.len() == before.mail.len() + 1,
    ensures
        after.mail.last().data == data,
        item_text(
            FetchView::Body(SectionView::Other(seq![], None), None),
            after.mail.last(),
            parts_of(data),
        ) == Some(body_item(seq![], data)),
        item_text(FetchView::Envelope, after.mail.last(), parts_of(data)) == Some(
            envelope_item(message_headers(parts_of(data))),
        ),
{
}

/// After a mailbox of a name was made for a user, the names of the
/// user's mailboxes, which LIST shows, include the name.
pub proof fn list_shows_a_created_mailbox(
    mailboxes: Seq<MailboxView>,
    id: i32,
    user: i32,
    name: Seq<char>,
)
    ensures
        names_of(
            mailboxes.push(new_mailbox(id, user, name)),
            user,
            mailboxes.len() as int + 1,
        ).contains(name),
{
    let after = mailboxes.push(new_mailbox(id, user, name));
    let names = names_of(after, user, after.len() as int);
    assert(names.last() == name);
}

/// Every name among the names of a user's mailboxes is the name of one of
/// the user's mailboxes.
pub proof fn listed_names_are_names_of_mailboxes(
    mailboxes: Seq<MailboxView>,
    user: i32,
    n: int,
    name: Seq<char>,
)
    requires
        0 <= n <= mailboxes.len(),
        names_of(mailboxes, user, n).contains(name),
    ensures
        exists|i: int|
            0 <= i < n && (#[trigger] mailboxes[i]).user_id == user && mailboxes[i].name == name,
    decreases n,
{
    let names = names_of(mailboxes, user, n);
    let k = choose|k: int| 0 <= k < names.len() && names[k] == name;
    if n > 0 {
        if mailboxes[n - 1].user_id == user && k == names.len() - 1 {
            assert(mailboxes[n - 1].name == name);
        } else {
            let before = names_of(mailboxes, user, n - 1);
            assert(before[k] == name);
            listed_names_are_names_of_mailboxes(mailboxes, user, n - 1, name);
        }
    }
}

/// After a user's mailbox of a name was removed, the names of the user's
/// mailboxes, which LIST shows, no longer include the name.
pub proof fn list_does_not_show_a_deleted_mailbox(
    mailboxes: Seq<MailboxView>,
    user: i32,
    name: Seq<char>,
)
    requires
        mailboxes_wf(mailboxes),
        mailbox_id_of(mailboxes, user, name) is Some,
    ensures
        ({
            let after = mailboxes.remove(
                mailbox_index(mailboxes, mailbox_id_of(mailboxes, user, name)->0),
            );
            !names_of(after, user, after.len() as int).contains(name)
        }),
{
    let id = mailbox_id_of(mailboxes, user, name)->0;
    let k0 = crate::database::mailbox_from(mailboxes, user, name, 0);
    crate::database::lemma_mailbox_from(mailboxes, user, name, 0);
    let k = mailbox_index(mailboxes, id);
    crate::database::lemma_mailbox_index_from(mailboxes, id, 0);
    if k < k0 {
        assert(mailboxes[k].id < mailboxes[k0].id);
    }
    if k0 < k {
        assert(mailboxes[k0].id != id);
    }
    let after = mailboxes.remove(k);
    if names_of(after, user, after.len() as int).contains(name) {
        listed_names_are_names_of_mailboxes(after, user, after.len() as int, name);
        let i = choose|i: int|
            0 <= i < after.len() && (#[trigger] after[i]).user_id == user && after[i].name == name;
        let j = if i < k {
            i
        } else {
            i + 1
        };
        assert(mailboxes[j].user_id == user && mailboxes[j].name == name);
        if j < k {
            assert(!(mailboxes[j].user_id == mailboxes[k].user_id && mailboxes[j].name
                == mailboxes[k].name));
        } else {
            assert(!(mailboxes[k].user_id == mailboxes[j].user_id && mailboxes[k].name
                == mailboxes[j].name));
        }
    }
}


/// The literal that APPEND takes after the announcement `{N}` has `N`
/// octets in UTF-8, which is the size that FETCH shows as `RFC822.SIZE`.
pub proof fn appended_literal_has_the_announced_size(s: Seq<char>, start: int, count: u32)
    requires
        0 <= start <= s.len(),
        octets_end(s, start, count as int) is Some,
    ensures
        start <= octets_end(s, start, count as int)->0 <= s.len(),
        octets(s.subrange(start, octets_end(s, start, count as int)->0)) == count,
{
    lemma_octets_end(s, start, count as int);
}

/// The characters up to the position where `count` octets are taken have
/// `count` octets in UTF-8.
pub proof fn lemma_octets_end(s: Seq<char>, i: int, count: int)
    requires
        0 <= i <= s.len(),
        octets_end(s, i, count) is Some,
    ensures
        i <= octets_end(s, i, count)->0 <= s.len(),
        encode_utf8(s.subrange(i, octets_end(s, i, count)->0)).len() == count,
    decreases s.len() - i,
{
    let e = octets_end(s, i, count)->0;
    if count == 0 {
        assert(s.subrange(i, e) =~= Seq::<char>::empty());
    } else {
        lemma_octets_end(s, i + 1, count - char_width(s[i]));
        vstd::utf8::char_is_scalar(s[i]);
        let piece = s.subrange(i, e);
        assert(piece.drop_first() =~= s.subrange(i + 1, e));
        assert(piece[0] == s[i]);
        assert(vstd::utf8::encode_scalar(s[i] as u32).len() == char_width(s[i]));
    }
}

} // verus!
