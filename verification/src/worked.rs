//! Worked examples: what the grammar reads from given texts, and what the
//! handlers answer on them, each proved like the rest of the library. The
//! texts are those of a short session: a user selects the inbox, appends a
//! message, fetches it and searches.

use vstd::prelude::*;
use vstd::utf8::{is_ascii_chars, is_ascii_chars_encode_utf8};
use crate::database::{
    bitmap_of, delivered, fetched, flag_name, found, got_mailbox_id, keys_meant, largest_in,
    mailbox_id_of, meant,
    new_mailbox, picked_number, readable_flags, IMAPFlags, StoreError,
};
use crate::dates::{chrono_instant, Timestamp};
use crate::imap::{
    handled_is, refused_with, Handled, IMAPState, ImapError, ResponseInfo, SelectedState,
};
use crate::imap_op::append::{
    append_head, append_outcome, appended_line, date_at, element_at, flag_list_at, flags_named,
    mail_of, AppendHead,
};
use crate::imap_op::fetch::{
    body_item, envelope_item, fetch_line, fetch_lines, fetch_outcome, item_text, item_texts,
    message_headers, parts_of,
};
use crate::imap_op::search::{
    esearch_line, key_at, keys_from, options_in_force, plain_key, return_option_of,
    search_outcome, search_result_text, sequence_of, sequence_set_of, sequences_of, set_holds,
    unary_key, KeyView, ReturnOptions, Sequence,
};
use crate::imap_op::select::{select_lines, select_outcome, selected_name};
use crate::matching::resolved_key;
use crate::parsing::fetch::{
    bracket_section_at, expanded, fetch_items_of, fetch_of, is_name_char, item_at, items_from,
    msg_text_at, name_end, part_at, partial_at, parts_at, parts_from, section_at, FetchView,
    SectionView,
};
use crate::parsing::imap::{
    awaited_from, char_width, digits_end, has_return, keys_in, list_from, list_of, literal_at,
    literal_start, literal_text_at, number_at, octets_end, options_of, quoted_body,
    search_awaits, search_of,
};
use crate::parsing::IMAP_DATETIME_FMT;
use crate::scan::{
    find_from, join, split, split_once, trimmed_end, word_end, words, words_from, ws_end,
};
use crate::store::{count_in, max_mailbox_id, MailView, StoreView};
use crate::text::{
    all_digits, bounded_nat, decimal, decimal_nat, digit_char, digit_of, digits_value, i64_of,
    is_digit, is_ws, lower_seq, octets, signed_of, u32_of, unsigned_of, without_char,
};

verus! {

/// A run of name characters that ends at `e` is the name that starts at
/// `i`.
pub proof fn lemma_name_end(s: Seq<char>, i: int, e: int)
    requires
        0 <= i <= e <= s.len(),
        forall|k: int| i <= k < e ==> is_name_char(#[trigger] s[k]),
        e == s.len() || !is_name_char(s[e]),
    ensures
        name_end(s, i) == e,
    decreases e - i,
{
    if i < e {
        lemma_name_end(s, i + 1, e);
    }
}

/// The name `uid`, in any letter case, is the UID.
pub proof fn lemma_uid_item(s: Seq<char>, i: int, e: int)
    requires
        0 <= i < e <= s.len(),
        name_end(s, i) == e,
        lower_seq(s.subrange(i, e)) == "uid"@,
    ensures
        item_at(s, i) == Some((FetchView::Uid, e)),
{
    let w = lower_seq(s.subrange(i, e));
    reveal_strlit("uid");
    assert(w.len() == 3);
    lemma_other_names();
}

/// The name `flags`, in any letter case, is the flags.
pub proof fn lemma_flags_item(s: Seq<char>, i: int, e: int)
    requires
        0 <= i < e <= s.len(),
        name_end(s, i) == e,
        lower_seq(s.subrange(i, e)) == "flags"@,
    ensures
        item_at(s, i) == Some((FetchView::Flags, e)),
{
    let w = lower_seq(s.subrange(i, e));
    reveal_strlit("flags");
    assert(w.len() == 5);
    assert(w[0] == 'f');
    lemma_other_names();
}

/// The name `rfc822.size`, in any letter case, is the size.
pub proof fn lemma_size_item(s: Seq<char>, i: int, e: int)
    requires
        0 <= i < e <= s.len(),
        name_end(s, i) == e,
        lower_seq(s.subrange(i, e)) == "rfc822.size"@,
    ensures
        item_at(s, i) == Some((FetchView::RFC822Size, e)),
{
    let w = lower_seq(s.subrange(i, e));
    reveal_strlit("rfc822.size");
    assert(w.len() == 11);
    assert(w[0] == 'r');
    lemma_other_names();
}

/// The lengths and first letters of the names of the data items.
pub proof fn lemma_other_names()
    ensures
        "binary"@.len() == 6,
        "binary.peek"@.len() == 11 && "binary.peek"@[0] == 'b',
        "binary.size"@.len() == 11 && "binary.size"@[0] == 'b',
        "body"@.len() == 4,
        "body.peek"@.len() == 9,
        "bodystructure"@.len() == 13,
        "envelope"@.len() == 8,
        "flags"@.len() == 5 && "flags"@[0] == 'f',
        "internaldate"@.len() == 12,
        "rfc822.size"@.len() == 11 && "rfc822.size"@[0] == 'r',
        "uid"@.len() == 3,
{
    reveal_strlit("uid");
    reveal_strlit("flags");
    reveal_strlit("rfc822.size");
    reveal_strlit("binary");
    reveal_strlit("binary.peek");
    reveal_strlit("binary.size");
    reveal_strlit("body");
    reveal_strlit("body.peek");
    reveal_strlit("bodystructure");
    reveal_strlit("envelope");
    reveal_strlit("internaldate");
}

/// One more data item before the items that follow it.
pub proof fn lemma_items_step(
    s: Seq<char>,
    i: int,
    a: int,
    e: int,
    item: FetchView,
    rest: Seq<FetchView>,
)
    requires
        0 <= i <= a < e <= s.len(),
        ws_end(s, i) == a,
        s[a] != ')',
        item_at(s, a) == Some((item, e)),
        e == s.len() || s[e] == ')' || is_ws(s[e]),
        items_from(s, e) == Some(rest),
    ensures
        items_from(s, i) == Some(seq![item] + rest),
{
}

/// The characters of the example.
pub open spec fn example_items() -> Seq<char> {
    "(UID FLAGS RFC822.SIZE)"@
}

/// Where the names of the example stand.
pub proof fn lemma_example_names()
    ensures
        example_items().len() == 23,
        ws_end(example_items(), 1) == 1,
        name_end(example_items(), 1) == 4,
        lower_seq(example_items().subrange(1, 4)) == "uid"@,
        ws_end(example_items(), 4) == 5,
        name_end(example_items(), 5) == 10,
        lower_seq(example_items().subrange(5, 10)) == "flags"@,
        ws_end(example_items(), 10) == 11,
        name_end(example_items(), 11) == 22,
        lower_seq(example_items().subrange(11, 22)) == "rfc822.size"@,
        ws_end(example_items(), 22) == 22,
        example_items()[1] == 'U',
        example_items()[4] == ' ',
        example_items()[5] == 'F',
        example_items()[10] == ' ',
        example_items()[11] == 'R',
        example_items()[22] == ')',
        example_items()[0] == '(',
{
    let s = example_items();
    reveal_strlit("(UID FLAGS RFC822.SIZE)");
    reveal_strlit("uid");
    reveal_strlit("flags");
    reveal_strlit("rfc822.size");
    assert(ws_end(s, 1) == 1);
    assert(ws_end(s, 5) == 5);
    assert(ws_end(s, 11) == 11);
    lemma_name_end(s, 1, 4);
    lemma_name_end(s, 5, 10);
    lemma_name_end(s, 11, 22);
    assert(lower_seq(s.subrange(1, 4)) =~= "uid"@);
    assert(lower_seq(s.subrange(5, 10)) =~= "flags"@);
    assert(lower_seq(s.subrange(11, 22)) =~= "rfc822.size"@);
}

/// `(UID FLAGS RFC822.SIZE)` names the UID, the flags and the size.
pub proof fn example_fetch_items()
    ensures
        fetch_items_of(example_items()) == Some(
            seq![FetchView::Uid, FetchView::Flags, FetchView::RFC822Size],
        ),
{
    let s = example_items();
    lemma_example_names();
    assert(trimmed_end(s) == s);
    assert(expanded(s) == s) by {
        reveal_strlit("ALL");
        reveal_strlit("FAST");
        reveal_strlit("FULL");
    }
    lemma_uid_item(s, 1, 4);
    lemma_flags_item(s, 5, 10);
    lemma_size_item(s, 11, 22);
    let none = Seq::<FetchView>::empty();
    assert(items_from(s, 22) == Some(none));
    lemma_items_step(s, 10, 11, 22, FetchView::RFC822Size, none);
    lemma_items_step(s, 4, 5, 10, FetchView::Flags, seq![FetchView::RFC822Size] + none);
    lemma_items_step(
        s,
        1,
        1,
        4,
        FetchView::Uid,
        seq![FetchView::Flags] + (seq![FetchView::RFC822Size] + none),
    );
    assert(seq![FetchView::Uid] + (seq![FetchView::Flags] + (seq![FetchView::RFC822Size] + none))
        =~= seq![FetchView::Uid, FetchView::Flags, FetchView::RFC822Size]);
}

/// The text `1` is the sequence set of the number 1.
pub proof fn example_set_of_one()
    ensures
        sequence_set_of("1"@) == Some(seq![Sequence::Int(1)]),
{
    let s = "1"@;
    reveal_strlit("1");
    reveal_strlit("*");
    assert(s.len() == 1 && s[0] == '1');
    assert(find_from(s, ',', 1) == 1);
    assert(find_from(s, ',', 0) == 1);
    assert(find_from(s, ':', 1) == 1);
    assert(find_from(s, ':', 0) == 1);
    assert(split(s, ',') =~= seq![s]) by {
        assert(s.subrange(0, 1) =~= s);
    }
    assert(split_once(s, ':') is None);
    assert(s.drop_last() =~= Seq::<char>::empty());
    assert(digits_value(s.drop_last()) == 0);
    assert(digits_value(s) == 1);
    assert(all_digits(s));
    assert(bounded_nat(s, u32::MAX as nat) == Some(1nat));
    assert(unsigned_of(s, u32::MAX as nat) == Some(1nat));
    assert(u32_of(s) == Some(1u32));
    assert(sequence_of(s) == Some(Sequence::Int(1)));
    let parts = seq![s];
    assert(forall|i: int| 0 <= i < parts.len() ==> (#[trigger] sequence_of(parts[i])) is Some);
    assert(sequences_of(parts)->0 =~= seq![Sequence::Int(1)]);
}

/// The arguments of the example: the first message, and its UID, flags
/// and size.
pub open spec fn example_fetch_text() -> Seq<char> {
    "1 (UID FLAGS RFC822.SIZE)"@
}

/// `1 (UID FLAGS RFC822.SIZE)` asks for the UID, the flags and the size of
/// the first message.
pub proof fn example_fetch_args()
    ensures
        fetch_of(example_fetch_text()) == Some(
            (
                seq![Sequence::Int(1)],
                seq![FetchView::Uid, FetchView::Flags, FetchView::RFC822Size],
            ),
        ),
{
    let s = example_fetch_text();
    reveal_strlit("1 (UID FLAGS RFC822.SIZE)");
    reveal_strlit("(UID FLAGS RFC822.SIZE)");
    reveal_strlit("1");
    assert(s.len() == 25);
    assert(find_from(s, ' ', 1) == 1);
    assert(find_from(s, ' ', 0) == 1);
    assert(s.subrange(0, 1) =~= "1"@);
    assert(s.subrange(2, s.len() as int) =~= example_items());
    example_set_of_one();
    example_fetch_items();
}

/// A number means itself in every mailbox.
pub proof fn lemma_number_meant(n: u32, mail: Seq<MailView>, mailbox_id: i32, uid: bool)
    ensures
        meant(seq![Sequence::Int(n)], mail, mailbox_id, uid) == seq![Sequence::Int(n)],
{
    assert(meant(seq![Sequence::Int(n)], mail, mailbox_id, uid) =~= seq![Sequence::Int(n)]);
}

/// A store whose one message is the first of its mailbox gives that
/// message for the number 1.
pub proof fn lemma_fetched_first(row: MailView, mailbox_id: i32)
    requires
        row.mailbox_id == mailbox_id,
        row.seqnum == 1,
    ensures
        fetched(seq![row], seq![Sequence::Int(1)], false, mailbox_id, 1) == seq![row],
{
    let set = seq![Sequence::Int(1)];
    assert(set[0].holds(picked_number(row, false)));
    assert(set_holds(set, picked_number(row, false)));
    assert(fetched(seq![row], set, false, mailbox_id, 0) == Seq::<MailView>::empty());
    assert(fetched(seq![row], set, false, mailbox_id, 1) =~= seq![row]);
}

/// The numbers 1 and 12 in decimal.
pub proof fn example_decimals()
    ensures
        decimal(1) == "1"@,
        decimal(12) == "12"@,
{
    reveal_strlit("1");
    reveal_strlit("12");
    assert(decimal_nat(1) =~= "1"@);
    assert(decimal_nat(12) =~= "12"@);
}

/// The bitmap with only the second place set shows the flag `\Seen`.
pub proof fn example_flags()
    ensures
        readable_flags("01000"@, 5) == "\\Seen"@,
{
    let b = "01000"@;
    reveal_strlit("01000");
    reveal_strlit("\\Seen");
    assert(readable_flags(b, 0) == Seq::<char>::empty());
    assert(readable_flags(b, 1) == Seq::<char>::empty());
    assert(readable_flags(b, 2) == flag_name(1));
    assert(readable_flags(b, 3) == flag_name(1));
    assert(readable_flags(b, 4) == flag_name(1));
    assert(readable_flags(b, 5) == flag_name(1));
}

/// `Hello world!` takes twelve octets.
pub proof fn example_octets()
    ensures
        octets("Hello world!"@) == 12,
{
    let d = "Hello world!"@;
    reveal_strlit("Hello world!");
    assert(d.len() == 12);
    assert(is_ascii_chars(d));
    is_ascii_chars_encode_utf8(d);
}

/// The line that shows the UID, the flags and the size of the message of
/// the example.
pub proof fn example_fetch_line(row: MailView)
    requires
        row.seqnum == 1,
        row.uid == 1,
        row.flags == "01000"@,
        row.data == "Hello world!"@,
    ensures
        fetch_line(row, seq![FetchView::Uid, FetchView::Flags, FetchView::RFC822Size])
            == "* 1 FETCH (UID 1 FLAGS (\\Seen) RFC822.SIZE 12)\r\n"@,
{
    let items = seq![FetchView::Uid, FetchView::Flags, FetchView::RFC822Size];
    let parts = parts_of(row.data);
    example_decimals();
    example_flags();
    example_octets();
    reveal_strlit("01000");
    let uid = "UID "@ + "1"@;
    let flags = "FLAGS ("@ + "\\Seen"@ + ")"@;
    let size = "RFC822.SIZE "@ + "12"@;
    assert(item_text(items[0], row, parts) == Some(uid));
    assert(item_text(items[1], row, parts) == Some(flags));
    assert(item_text(items[2], row, parts) == Some(size));
    assert(item_texts(items, row, parts, 0) == Seq::<Seq<char>>::empty());
    assert(item_texts(items, row, parts, 1) =~= seq![uid]);
    assert(item_texts(items, row, parts, 2) =~= seq![uid, flags]);
    assert(item_texts(items, row, parts, 3) =~= seq![uid, flags, size]);
    let texts = seq![uid, flags, size];
    assert(texts.drop_last() =~= seq![uid, flags]);
    assert(seq![uid, flags].drop_last() =~= seq![uid]);
    assert(join(seq![uid], " "@) == uid);
    assert(join(seq![uid, flags], " "@) == uid + " "@ + flags);
    assert(join(texts, " "@) == uid + " "@ + flags + " "@ + size);
    reveal_strlit("UID ");
    reveal_strlit("1");
    reveal_strlit("FLAGS (");
    reveal_strlit("\\Seen");
    reveal_strlit(")");
    reveal_strlit("RFC822.SIZE ");
    reveal_strlit("12");
    reveal_strlit(" ");
    reveal_strlit("* ");
    reveal_strlit(" FETCH (");
    reveal_strlit(")\r\n");
    reveal_strlit("* 1 FETCH (UID 1 FLAGS (\\Seen) RFC822.SIZE 12)\r\n");
    assert("* "@ + "1"@ + " FETCH ("@ + (uid + " "@ + flags + " "@ + size) + ")\r\n"@
        =~= "* 1 FETCH (UID 1 FLAGS (\\Seen) RFC822.SIZE 12)\r\n"@);
}

/// FETCH of the UID, the flags and the size of the first message, where
/// the store holds one message: the twelve octets `Hello world!`, seen,
/// with UID 1, first in the selected mailbox.
pub proof fn example_fetch(tag: Seq<char>, selected: SelectedState, db: StoreView, r: Handled)
    requires
        db.mail.len() == 1,
        db.mail[0].mailbox_id == selected.mailbox_id,
        db.mail[0].seqnum == 1,
        db.mail[0].uid == 1,
        db.mail[0].flags == "01000"@,
        db.mail[0].data == "Hello world!"@,
        fetch_outcome(tag, example_fetch_text(), IMAPState::Selected(selected), db, r, false),
    ensures
        handled_is(
            r,
            seq![
                "* 1 FETCH (UID 1 FLAGS (\\Seen) RFC822.SIZE 12)\r\n"@,
                tag + " OK FETCH completed\r\n"@,
            ],
            IMAPState::Selected(selected),
            ResponseInfo::Regular,
        ),
{
    let row = db.mail[0];
    let items = seq![FetchView::Uid, FetchView::Flags, FetchView::RFC822Size];
    lemma_number_meant(1, db.mail, selected.mailbox_id, false);
    example_fetch_args();
    assert(db.mail =~= seq![row]);
    lemma_fetched_first(row, selected.mailbox_id);
    example_fetch_line(row);
    assert(fetch_lines(tag, seq![row], items) =~= seq![
        "* 1 FETCH (UID 1 FLAGS (\\Seen) RFC822.SIZE 12)\r\n"@,
        tag + " OK FETCH completed\r\n"@,
    ]);
}

/// A run without white space that ends at `b` is the word that starts at
/// `a`.
pub proof fn lemma_word_run(s: Seq<char>, a: int, b: int)
    requires
        0 <= a <= b <= s.len(),
        forall|k: int| a <= k < b ==> !is_ws(#[trigger] s[k]),
        b == s.len() || is_ws(s[b]),
    ensures
        word_end(s, a) == b,
    decreases b - a,
{
    if a < b {
        lemma_word_run(s, a + 1, b);
    }
}

/// One more plain word before the elements that follow it.
pub proof fn lemma_list_step(s: Seq<char>, i: int, a: int, b: int, rest: Seq<Seq<char>>)
    requires
        0 <= i <= a < b <= s.len(),
        ws_end(s, i) == a,
        word_end(s, a) == b,
        s[a] != '"',
        s[a] != '{',
        list_from(s, b) == Some(rest),
    ensures
        list_from(s, i) == Some(seq![s.subrange(a, b)] + rest),
        awaited_from(s, i) == awaited_from(s, b),
{
    assert(literal_at(s, a) is None);
    assert(literal_text_at(s, a) is None);
}

/// The keys of the example as they stand behind the return options.
pub open spec fn example_keys_text() -> Seq<char> {
    " OR SEEN LARGER 1024"@
}

/// The elements of the keys of the example.
pub proof fn example_key_words()
    ensures
        list_of(example_keys_text()) == Some(seq!["OR"@, "SEEN"@, "LARGER"@, "1024"@]),
        awaited_from(example_keys_text(), 0) is None,
{
    let s = example_keys_text();
    reveal_strlit(" OR SEEN LARGER 1024");
    reveal_strlit("OR");
    reveal_strlit("SEEN");
    reveal_strlit("LARGER");
    reveal_strlit("1024");
    assert(s.len() == 20);
    let none = Seq::<Seq<char>>::empty();
    assert(ws_end(s, 20) == 20);
    assert(list_from(s, 20) == Some(none));
    assert(awaited_from(s, 20) is None);
    assert(ws_end(s, 16) == 16);
    assert(ws_end(s, 15) == 16);
    lemma_word_run(s, 16, 20);
    lemma_list_step(s, 15, 16, 20, none);
    assert(ws_end(s, 9) == 9);
    assert(ws_end(s, 8) == 9);
    lemma_word_run(s, 9, 15);
    lemma_list_step(s, 8, 9, 15, seq![s.subrange(16, 20)] + none);
    assert(ws_end(s, 4) == 4);
    assert(ws_end(s, 3) == 4);
    lemma_word_run(s, 4, 8);
    lemma_list_step(s, 3, 4, 8, seq![s.subrange(9, 15)] + (seq![s.subrange(16, 20)] + none));
    assert(ws_end(s, 1) == 1);
    assert(ws_end(s, 0) == 1);
    lemma_word_run(s, 1, 3);
    lemma_list_step(
        s,
        0,
        1,
        3,
        seq![s.subrange(4, 8)] + (seq![s.subrange(9, 15)] + (seq![s.subrange(16, 20)] + none)),
    );
    assert(s.subrange(1, 3) =~= "OR"@);
    assert(s.subrange(4, 8) =~= "SEEN"@);
    assert(s.subrange(9, 15) =~= "LARGER"@);
    assert(s.subrange(16, 20) =~= "1024"@);
    assert(seq![s.subrange(1, 3)] + (seq![s.subrange(4, 8)] + (seq![s.subrange(9, 15)] + (seq![
        s.subrange(16, 20),
    ] + none))) =~= seq!["OR"@, "SEEN"@, "LARGER"@, "1024"@]);
}

/// The lengths and first letters of the words that name keys.
pub proof fn lemma_key_names()
    ensures
        "all"@.len() == 3,
        "answered"@.len() == 8,
        "deleted"@.len() == 7,
        "draft"@.len() == 5,
        "flagged"@.len() == 7,
        "seen"@.len() == 4,
        "unanswered"@.len() == 10,
        "undeleted"@.len() == 9,
        "undraft"@.len() == 7,
        "unflagged"@.len() == 9,
        "unseen"@.len() == 6 && "unseen"@[0] == 'u',
        "bcc"@.len() == 3,
        "body"@.len() == 4,
        "cc"@.len() == 2 && "cc"@[0] == 'c',
        "from"@.len() == 4,
        "subject"@.len() == 7,
        "text"@.len() == 4,
        "to"@.len() == 2 && "to"@[0] == 't',
        "before"@.len() == 6 && "before"@[0] == 'b',
        "on"@.len() == 2 && "on"@[1] == 'n',
        "since"@.len() == 5,
        "sentbefore"@.len() == 10,
        "senton"@.len() == 6 && "senton"@[0] == 's',
        "sentsince"@.len() == 9,
        "larger"@.len() == 6 && "larger"@[0] == 'l',
        "smaller"@.len() == 7,
        "keyword"@.len() == 7,
        "unkeyword"@.len() == 9,
        "uid"@.len() == 3,
        "header"@.len() == 6 && "header"@[0] == 'h',
        "not"@.len() == 3,
        "or"@.len() == 2 && "or"@[0] == 'o' && "or"@[1] == 'r',
{
    reveal_strlit("all");
    reveal_strlit("answered");
    reveal_strlit("deleted");
    reveal_strlit("draft");
    reveal_strlit("flagged");
    reveal_strlit("seen");
    reveal_strlit("unanswered");
    reveal_strlit("undeleted");
    reveal_strlit("undraft");
    reveal_strlit("unflagged");
    reveal_strlit("unseen");
    reveal_strlit("bcc");
    reveal_strlit("body");
    reveal_strlit("cc");
    reveal_strlit("from");
    reveal_strlit("subject");
    reveal_strlit("text");
    reveal_strlit("to");
    reveal_strlit("before");
    reveal_strlit("on");
    reveal_strlit("since");
    reveal_strlit("sentbefore");
    reveal_strlit("senton");
    reveal_strlit("sentsince");
    reveal_strlit("larger");
    reveal_strlit("smaller");
    reveal_strlit("keyword");
    reveal_strlit("unkeyword");
    reveal_strlit("uid");
    reveal_strlit("header");
    reveal_strlit("not");
    reveal_strlit("or");
}

/// The text `1024` is the number 1024.
pub proof fn example_number()
    ensures
        i64_of("1024"@) == Some(1024i64),
{
    let s = "1024"@;
    reveal_strlit("1024");
    assert(s.len() == 4);
    let a = s.drop_last();
    let b = a.drop_last();
    let c = b.drop_last();
    assert(c.drop_last() =~= Seq::<char>::empty());
    assert(digits_value(c.drop_last()) == 0);
    assert(digits_value(c) == 1);
    assert(digits_value(b) == 10);
    assert(digits_value(a) == 102);
    assert(digits_value(s) == 1024);
    assert(all_digits(s));
    assert(bounded_nat(s, i64::MAX as nat) == Some(1024nat));
    assert(unsigned_of(s, i64::MAX as nat) == Some(1024nat));
    assert(signed_of(s, i64::MAX as nat) == Some(1024int));
}

/// `OR SEEN LARGER 1024` is one key: seen, or larger than 1024.
pub proof fn example_keys()
    ensures
        keys_from(seq!["OR"@, "SEEN"@, "LARGER"@, "1024"@], 0) == Some(
            seq![KeyView::Or(Box::new(KeyView::Seen), Box::new(KeyView::Larger(1024)))],
        ),
{
    let t = seq!["OR"@, "SEEN"@, "LARGER"@, "1024"@];
    reveal_strlit("OR");
    reveal_strlit("SEEN");
    reveal_strlit("LARGER");
    reveal_strlit("or");
    reveal_strlit("seen");
    reveal_strlit("larger");
    lemma_key_names();
    example_number();
    let seen = lower_seq(t[1]);
    assert(seen =~= "seen"@);
    assert(plain_key(seen) == Some(KeyView::Seen));
    assert(key_at(t, 1) == Some((KeyView::Seen, 2int)));
    let larger = lower_seq(t[2]);
    assert(larger =~= "larger"@);
    assert(plain_key(larger) is None);
    assert(unary_key(larger, t[3]) == Some(Some(KeyView::Larger(1024))));
    assert(unary_key(larger, seq![]) is Some);
    assert(key_at(t, 2) == Some((KeyView::Larger(1024), 4int)));
    let or = lower_seq(t[0]);
    assert(or =~= "or"@);
    assert(plain_key(or) is None);
    assert(unary_key(or, seq![]) is None);
    assert(key_at(t, 0) == Some(
        (KeyView::Or(Box::new(KeyView::Seen), Box::new(KeyView::Larger(1024))), 4int),
    ));
    assert(keys_from(t, 4) == Some(Seq::<KeyView>::empty()));
    assert(seq![KeyView::Or(Box::new(KeyView::Seen), Box::new(KeyView::Larger(1024)))]
        + Seq::<KeyView>::empty() =~= seq![
        KeyView::Or(Box::new(KeyView::Seen), Box::new(KeyView::Larger(1024))),
    ]);
}

/// The arguments of the example: all that is seen, or larger than 1024.
pub open spec fn example_search_text() -> Seq<char> {
    "RETURN (ALL) OR SEEN LARGER 1024"@
}

/// The return options of the example: `ALL`.
pub proof fn example_options()
    ensures
        options_of(words("ALL"@)) == Some(seq![ReturnOptions::All]),
{
    let s = "ALL"@;
    reveal_strlit("ALL");
    reveal_strlit("all");
    reveal_strlit("min");
    reveal_strlit("max");
    assert(s.len() == 3);
    assert(ws_end(s, 0) == 0);
    lemma_word_run(s, 0, 3);
    assert(ws_end(s, 3) == 3);
    assert(word_end(s, 3) == 3);
    assert(words_from(s, 3) == Seq::<Seq<char>>::empty());
    assert(s.subrange(0, 3) =~= s);
    assert(words(s) =~= seq![s]);
    assert(lower_seq(s) =~= "all"@);
    assert("all"@[0] == 'a' && "min"@[0] == 'm' && "max"@[0] == 'm');
    assert(return_option_of(s) == Some(ReturnOptions::All));
    let parts = seq![s];
    assert(forall|i: int| 0 <= i < parts.len() ==> (#[trigger] return_option_of(parts[i])) is Some);
    assert(options_of(parts)->0 =~= seq![ReturnOptions::All]);
}

/// `RETURN (ALL) OR SEEN LARGER 1024` asks for all that is seen or larger
/// than 1024, and waits for no literal.
pub proof fn example_search_args()
    ensures
        search_awaits(example_search_text()) is None,
        search_of(example_search_text()) == Some(
            (
                seq![ReturnOptions::All],
                seq![KeyView::Or(Box::new(KeyView::Seen), Box::new(KeyView::Larger(1024)))],
            ),
        ),
{
    let s = example_search_text();
    reveal_strlit("RETURN (ALL) OR SEEN LARGER 1024");
    reveal_strlit("return (");
    reveal_strlit("ALL");
    reveal_strlit(" OR SEEN LARGER 1024");
    assert(s.len() == 32);
    assert(lower_seq(s.subrange(0, 8)) =~= "return ("@);
    assert(has_return(s));
    assert(find_from(s, ')', 11) == 11);
    assert(find_from(s, ')', 10) == 11);
    assert(find_from(s, ')', 9) == 11);
    assert(find_from(s, ')', 8) == 11);
    assert(s.subrange(8, 11) =~= "ALL"@);
    assert(s.subrange(12, s.len() as int) =~= example_keys_text());
    example_options();
    example_key_words();
    example_keys();
    assert(keys_in(example_keys_text()) == Some(
        seq![KeyView::Or(Box::new(KeyView::Seen), Box::new(KeyView::Larger(1024)))],
    ));
}

/// SEARCH for all that is seen or larger than 1024 answers with the
/// numbers of the messages of the selected mailbox that match this one
/// key, written as `ALL` writes them.
pub proof fn example_search(tag: Seq<char>, selected: SelectedState, db: StoreView, r: Handled)
    requires
        search_outcome(tag, example_search_text(), IMAPState::Selected(selected), db, r, false),
    ensures
        handled_is(
            r,
            seq![
                esearch_line(
                    tag,
                    search_result_text(
                        seq![ReturnOptions::All],
                        found(
                            db.mail,
                            seq![KeyView::Or(Box::new(KeyView::Seen), Box::new(KeyView::Larger(1024)))],
                            selected.mailbox_id,
                            false,
                            db.mail.len() as int,
                        ),
                    ),
                ),
                tag + " OK SEARCH completed\r\n"@,
            ],
            IMAPState::Selected(selected),
            ResponseInfo::Regular,
        ),
{
    example_search_args();
    assert(options_in_force(seq![ReturnOptions::All]) == seq![ReturnOptions::All]);
    let keys = seq![KeyView::Or(Box::new(KeyView::Seen), Box::new(KeyView::Larger(1024)))];
    let resolved = keys_meant(keys, db.mail, selected.mailbox_id);
    assert(resolved.len() == 1);
    assert(resolved[0] == keys[0]) by {
        let seqs = largest_in(db.mail, selected.mailbox_id, false, db.mail.len() as int);
        let uids = largest_in(db.mail, selected.mailbox_id, true, db.mail.len() as int);
        assert(resolved_key(KeyView::Seen, seqs, uids) == KeyView::Seen);
        assert(resolved_key(KeyView::Larger(1024), seqs, uids) == KeyView::Larger(1024));
        assert(resolved_key(keys[0], seqs, uids) == keys[0]);
    }
    assert(resolved =~= keys);
}

/// A number written in decimal is a run of digits that writes the
/// number.
pub proof fn lemma_decimal_digits(n: nat)
    ensures
        decimal_nat(n).len() >= 1,
        all_digits(decimal_nat(n)),
        digits_value(decimal_nat(n)) == n,
    decreases n,
{
    if n < 10 {
        let s = decimal_nat(n);
        assert(s.drop_last() =~= Seq::<char>::empty());
        assert(digits_value(s.drop_last()) == 0);
        assert(digit_of(digit_char(n as int)) == n);
    } else {
        lemma_decimal_digits(n / 10);
        let s = decimal_nat(n);
        assert(s.drop_last() =~= decimal_nat(n / 10));
        assert(digit_of(digit_char((n % 10) as int)) == n % 10);
        assert forall|i: int| 0 <= i < s.len() implies is_digit(#[trigger] s[i]) by {
            if i < s.len() - 1 {
                assert(s[i] == decimal_nat(n / 10)[i]);
            }
        }
    }
}

/// A character that is no digit does not stand in a run of digits.
pub proof fn lemma_not_in_digits(s: Seq<char>, c: char, i: int)
    requires
        all_digits(s),
        !is_digit(c),
        0 <= i <= s.len(),
    ensures
        find_from(s, c, i) == s.len(),
    decreases s.len() - i,
{
    if i < s.len() {
        assert(is_digit(s[i]));
        lemma_not_in_digits(s, c, i + 1);
    }
}

/// The first place of a character that stands at `k` and nowhere from `i`
/// up to `k`.
pub proof fn lemma_find_first(s: Seq<char>, c: char, i: int, k: int)
    requires
        0 <= i <= k < s.len(),
        forall|j: int| i <= j < k ==> #[trigger] s[j] != c,
        s[k] == c,
    ensures
        find_from(s, c, i) == k,
    decreases k - i,
{
    if i < k {
        lemma_find_first(s, c, i + 1, k);
    }
}

/// A number written in decimal is the sequence set of that number.
pub proof fn lemma_number_set(n: u32)
    ensures
        sequence_set_of(decimal(n as int)) == Some(seq![Sequence::Int(n)]),
{
    let s = decimal(n as int);
    lemma_decimal_digits(n as nat);
    reveal_strlit("*");
    assert(is_digit(s[0]));
    lemma_not_in_digits(s, ',', 0);
    lemma_not_in_digits(s, ':', 0);
    assert(split(s, ',') =~= seq![s]) by {
        assert(s.subrange(0, s.len() as int) =~= s);
    }
    assert(split_once(s, ':') is None);
    assert(bounded_nat(s, u32::MAX as nat) == Some(n as nat));
    assert(unsigned_of(s, u32::MAX as nat) == Some(n as nat));
    assert(u32_of(s) == Some(n));
    assert(sequence_of(s) == Some(Sequence::Int(n)));
    let parts = seq![s];
    assert(forall|i: int| 0 <= i < parts.len() ==> (#[trigger] sequence_of(parts[i])) is Some);
    assert(sequences_of(parts)->0 =~= seq![Sequence::Int(n)]);
}

/// The whole message as a data item.
pub open spec fn whole_body() -> FetchView {
    FetchView::Body(SectionView::Other(seq![], None), None)
}

/// `(BODY[])` names the whole message.
pub proof fn example_body_items()
    ensures
        fetch_items_of("(BODY[])"@) == Some(seq![whole_body()]),
{
    let s = "(BODY[])"@;
    reveal_strlit("(BODY[])");
    reveal_strlit("ALL");
    reveal_strlit("FAST");
    reveal_strlit("FULL");
    reveal_strlit("body");
    reveal_strlit("TEXT");
    reveal_strlit("HEADER.FIELDS.NOT ");
    reveal_strlit("HEADER.FIELDS ");
    reveal_strlit("HEADER");
    lemma_other_names();
    assert(s.len() == 8);
    assert(trimmed_end(s) == s);
    assert(expanded(s) == s);
    assert(ws_end(s, 1) == 1);
    lemma_name_end(s, 1, 5);
    let w = lower_seq(s.subrange(1, 5));
    assert(w =~= "body"@);
    assert(msg_text_at(s, 6) is None);
    assert(digits_end(s, 6) == 6);
    assert(s.subrange(6, 6).len() == 0);
    assert(part_at(s, 6) is None);
    assert(parts_from(s, 6, seq![]) == (Seq::<i32>::empty(), 6int));
    assert(parts_at(s, 6) == (Seq::<i32>::empty(), 6int));
    assert(section_at(s, 6) == (SectionView::Other(seq![], None), 6int));
    assert(bracket_section_at(s, 5) == Some((SectionView::Other(seq![], None), 7int)));
    assert(partial_at(s, 7) == (None::<(i32, i32)>, 7int));
    assert(item_at(s, 1) == Some((whole_body(), 7int)));
    assert(ws_end(s, 7) == 7);
    assert(items_from(s, 7) == Some(Seq::<FetchView>::empty()));
    lemma_items_step(s, 1, 1, 7, whole_body(), Seq::<FetchView>::empty());
    assert(seq![whole_body()] + Seq::<FetchView>::empty() =~= seq![whole_body()]);
}

/// `(ENVELOPE)` names the envelope.
pub proof fn example_envelope_items()
    ensures
        fetch_items_of("(ENVELOPE)"@) == Some(seq![FetchView::Envelope]),
{
    let s = "(ENVELOPE)"@;
    reveal_strlit("(ENVELOPE)");
    reveal_strlit("ALL");
    reveal_strlit("FAST");
    reveal_strlit("FULL");
    reveal_strlit("envelope");
    lemma_other_names();
    assert(s.len() == 10);
    assert(trimmed_end(s) == s);
    assert(expanded(s) == s);
    assert(ws_end(s, 1) == 1);
    lemma_name_end(s, 1, 9);
    let w = lower_seq(s.subrange(1, 9));
    assert(w =~= "envelope"@);
    assert(item_at(s, 1) == Some((FetchView::Envelope, 9int)));
    assert(ws_end(s, 9) == 9);
    assert(items_from(s, 9) == Some(Seq::<FetchView>::empty()));
    lemma_items_step(s, 1, 1, 9, FetchView::Envelope, Seq::<FetchView>::empty());
    assert(seq![FetchView::Envelope] + Seq::<FetchView>::empty() =~= seq![FetchView::Envelope]);
}

/// A number, a space and data items are the arguments of FETCH for the
/// message of that number.
pub proof fn lemma_fetch_number(n: u32, items_text: Seq<char>, items: Seq<FetchView>)
    requires
        fetch_items_of(items_text) == Some(items),
    ensures
        fetch_of(decimal(n as int) + " "@ + items_text) == Some((seq![Sequence::Int(n)], items)),
{
    let d = decimal(n as int);
    let s = d + " "@ + items_text;
    reveal_strlit(" ");
    lemma_decimal_digits(n as nat);
    let k = d.len() as int;
    assert(s[k] == ' ');
    assert forall|j: int| 0 <= j < k implies #[trigger] s[j] != ' ' by {
        assert(s[j] == d[j]);
        assert(is_digit(d[j]));
    }
    lemma_find_first(s, ' ', 0, k);
    assert(s.subrange(0, k) =~= d);
    assert(s.subrange(k + 1, s.len() as int) =~= items_text);
    lemma_number_set(n);
}

/// The untagged line that shows one data item of a message.
pub open spec fn shown(row: MailView, item: Seq<char>) -> Seq<char> {
    "* "@ + decimal(row.seqnum as int) + " FETCH ("@ + item + ")\r\n"@
}

/// The messages that FETCH shows for a number are messages of the
/// selected mailbox with that sequence number.
pub proof fn lemma_fetched_number(mail: Seq<MailView>, n: u32, mailbox_id: i32, len: int)
    ensures
        n >= 1 ==> forall|i: int|
            0 <= i < fetched(mail, seq![Sequence::Int(n)], false, mailbox_id, len).len() ==> {
                let row = #[trigger] fetched(mail, seq![Sequence::Int(n)], false, mailbox_id, len)[i];
                row.mailbox_id == mailbox_id && row.seqnum == n
            },
    decreases len,
{
    if n >= 1 && len > 0 && len <= mail.len() {
        lemma_fetched_number(mail, n, mailbox_id, len - 1);
        let set = seq![Sequence::Int(n)];
        let last = mail[len - 1];
        let before = fetched(mail, set, false, mailbox_id, len - 1);
        let all = fetched(mail, set, false, mailbox_id, len);
        if last.mailbox_id == mailbox_id && set_holds(set, picked_number(last, false)) {
            let k = choose|k: int| 0 <= k < set.len() && (#[trigger] set[k]).holds(
                picked_number(last, false),
            );
            assert(set[k] == Sequence::Int(n));
            assert(last.seqnum == n);
            assert(all == before.push(last));
            assert forall|i: int| 0 <= i < all.len() implies ({
                let row = #[trigger] all[i];
                row.mailbox_id == mailbox_id && row.seqnum == n
            }) by {
                if i < before.len() {
                    assert(all[i] == before[i]);
                }
            }
        } else {
            assert(all == before);
        }
    }
}

/// FETCH of `BODY[]` for the message of a number shows, for that message
/// of the selected mailbox, its whole text as it is stored, as a literal
/// of as many octets as the text takes.
pub proof fn example_fetch_body(
    tag: Seq<char>,
    n: u32,
    selected: SelectedState,
    db: StoreView,
    r: Handled,
)
    requires
        fetch_outcome(
            tag,
            decimal(n as int) + " "@ + "(BODY[])"@,
            IMAPState::Selected(selected),
            db,
            r,
            false,
        ),
    ensures
        ({
            let rows = fetched(
                db.mail,
                seq![Sequence::Int(n)],
                false,
                selected.mailbox_id,
                db.mail.len() as int,
            );
            &&& handled_is(
                r,
                Seq::new(rows.len(), |i: int| shown(rows[i], body_item(seq![], rows[i].data))).push(
                    tag + " OK FETCH completed\r\n"@,
                ),
                IMAPState::Selected(selected),
                ResponseInfo::Regular,
            )
            &&& n >= 1 ==> forall|i: int|
                0 <= i < rows.len() ==> (#[trigger] rows[i]).mailbox_id == selected.mailbox_id
                    && rows[i].seqnum == n
        }),
{
    lemma_fetched_number(db.mail, n, selected.mailbox_id, db.mail.len() as int);
    lemma_number_meant(n, db.mail, selected.mailbox_id, false);
    let items = seq![whole_body()];
    example_body_items();
    lemma_fetch_number(n, "(BODY[])"@, items);
    let rows = fetched(
        db.mail,
        seq![Sequence::Int(n)],
        false,
        selected.mailbox_id,
        db.mail.len() as int,
    );
    assert forall|i: int| 0 <= i < rows.len() implies fetch_line(rows[i], items) == shown(
        rows[i],
        body_item(seq![], rows[i].data),
    ) by {
        let row = rows[i];
        let parts = parts_of(row.data);
        let item = body_item(seq![], row.data);
        assert(item_text(items[0], row, parts) == Some(item));
        assert(item_texts(items, row, parts, 0) == Seq::<Seq<char>>::empty());
        assert(item_texts(items, row, parts, 1) =~= seq![item]);
        assert(join(seq![item], " "@) == item);
    }
    assert(fetch_lines(tag, rows, items) =~= Seq::new(
        rows.len(),
        |i: int| shown(rows[i], body_item(seq![], rows[i].data)),
    ).push(tag + " OK FETCH completed\r\n"@));
}

/// FETCH of `ENVELOPE` for the message of a number shows, for that
/// message of the selected mailbox, the envelope of the headers that the
/// stored text has.
pub proof fn example_fetch_envelope(
    tag: Seq<char>,
    n: u32,
    selected: SelectedState,
    db: StoreView,
    r: Handled,
)
    requires
        fetch_outcome(
            tag,
            decimal(n as int) + " "@ + "(ENVELOPE)"@,
            IMAPState::Selected(selected),
            db,
            r,
            false,
        ),
    ensures
        ({
            let rows = fetched(
                db.mail,
                seq![Sequence::Int(n)],
                false,
                selected.mailbox_id,
                db.mail.len() as int,
            );
            &&& handled_is(
                r,
                Seq::new(
                    rows.len(),
                    |i: int|
                        shown(rows[i], envelope_item(message_headers(parts_of(rows[i].data)))),
                ).push(tag + " OK FETCH completed\r\n"@),
                IMAPState::Selected(selected),
                ResponseInfo::Regular,
            )
            &&& n >= 1 ==> forall|i: int|
                0 <= i < rows.len() ==> (#[trigger] rows[i]).mailbox_id == selected.mailbox_id
                    && rows[i].seqnum == n
        }),
{
    lemma_fetched_number(db.mail, n, selected.mailbox_id, db.mail.len() as int);
    lemma_number_meant(n, db.mail, selected.mailbox_id, false);
    let items = seq![FetchView::Envelope];
    example_envelope_items();
    lemma_fetch_number(n, "(ENVELOPE)"@, items);
    let rows = fetched(
        db.mail,
        seq![Sequence::Int(n)],
        false,
        selected.mailbox_id,
        db.mail.len() as int,
    );
    assert forall|i: int| 0 <= i < rows.len() implies fetch_line(rows[i], items) == shown(
        rows[i],
        envelope_item(message_headers(parts_of(rows[i].data))),
    ) by {
        let row = rows[i];
        let parts = parts_of(row.data);
        let item = envelope_item(message_headers(parts));
        assert(item_text(items[0], row, parts) == Some(item));
        assert(item_texts(items, row, parts, 0) == Seq::<Seq<char>>::empty());
        assert(item_texts(items, row, parts, 1) =~= seq![item]);
        assert(join(seq![item], " "@) == item);
    }
    assert(fetch_lines(tag, rows, items) =~= Seq::new(
        rows.len(),
        |i: int| shown(rows[i], envelope_item(message_headers(parts_of(rows[i].data)))),
    ).push(tag + " OK FETCH completed\r\n"@));
}

/// The inside of a quoted string without a backslash ends at the next
/// quote.
pub proof fn lemma_quoted_run(s: Seq<char>, i: int, k: int)
    requires
        0 <= i <= k < s.len(),
        s[k] == '"',
        forall|j: int| i <= j < k ==> #[trigger] s[j] != '"' && s[j] != '\\',
    ensures
        quoted_body(s, i) == Some((s.subrange(i, k), k + 1)),
    decreases k - i,
{
    if i < k {
        lemma_quoted_run(s, i + 1, k);
        assert(seq![s[i]] + s.subrange(i + 1, k) =~= s.subrange(i, k));
    } else {
        assert(s.subrange(i, k) =~= Seq::<char>::empty());
    }
}

/// As many ASCII characters as octets are counted take the count.
pub proof fn lemma_ascii_octets(s: Seq<char>, i: int, count: int)
    requires
        0 <= i,
        0 <= count,
        i + count <= s.len(),
        forall|j: int| i <= j < i + count ==> ((#[trigger] s[j]) as u32) < 0x80,
    ensures
        octets_end(s, i, count) == Some(i + count),
    decreases count,
{
    if count > 0 {
        assert(char_width(s[i]) == 1);
        lemma_ascii_octets(s, i + 1, count - 1);
    }
}

/// The arguments of the example with the literal behind them, as the
/// session puts them together: into `INBOX`, seen, with a date, twelve
/// octets.
pub open spec fn example_append_text() -> Seq<char> {
    "INBOX (\\Seen) \"01-Jan-2024 00:00:00 +0000\" {12} Hello world!\r\n"@
}

/// The date of the example.
pub open spec fn example_date_text() -> Seq<char> {
    "01-Jan-2024 00:00:00 +0000"@
}

/// The characters of the example that the steps below look at.
pub proof fn lemma_append_text()
    ensures
        example_append_text().len() == 62,
        example_append_text().subrange(0, 5) == "INBOX"@,
        example_append_text().subrange(7, 12) == "\\Seen"@,
        example_append_text().subrange(15, 41) == example_date_text(),
        example_append_text().subrange(44, 46) == "12"@,
        example_append_text().subrange(48, 60) == "Hello world!"@,
        forall|j: int| 0 <= j < 5 ==> !is_ws(#[trigger] example_append_text()[j]),
        forall|j: int| 7 <= j < 12 ==> #[trigger] example_append_text()[j] != ')',
        forall|j: int|
            15 <= j < 41 ==> #[trigger] example_append_text()[j] != '"' && example_append_text()[j]
                != '\\',
        forall|j: int| 48 <= j < 60 ==> ((#[trigger] example_append_text()[j]) as u32) < 0x80,
        example_append_text()[0] == 'I',
        example_append_text()[5] == ' ',
        example_append_text()[6] == '(',
        example_append_text()[12] == ')',
        example_append_text()[13] == ' ',
        example_append_text()[14] == '"',
        example_append_text()[41] == '"',
        example_append_text()[42] == ' ',
        example_append_text()[43] == '{',
        example_append_text()[44] == '1',
        example_append_text()[45] == '2',
        example_append_text()[46] == '}',
        example_append_text()[47] == ' ',
        example_append_text()[48] == 'H',
{
    let s = example_append_text();
    reveal_strlit("INBOX (\\Seen) \"01-Jan-2024 00:00:00 +0000\" {12} Hello world!\r\n");
    reveal_strlit("INBOX");
    reveal_strlit("\\Seen");
    reveal_strlit("01-Jan-2024 00:00:00 +0000");
    reveal_strlit("12");
    reveal_strlit("Hello world!");
    assert(s.subrange(0, 5) =~= "INBOX"@);
    assert(s.subrange(7, 12) =~= "\\Seen"@);
    assert(s.subrange(15, 41) =~= example_date_text());
    assert(s.subrange(44, 46) =~= "12"@);
    assert(s.subrange(48, 60) =~= "Hello world!"@);
}

/// The flag list of the example names the flag `\Seen`.
pub proof fn example_flag_words()
    ensures
        flags_named(words("\\Seen"@), words("\\Seen"@).len() as int) == seq![IMAPFlags::Seen],
{
    let w = "\\Seen"@;
    reveal_strlit("\\Seen");
    reveal_strlit("\\Answered");
    reveal_strlit("\\Flagged");
    reveal_strlit("\\Deleted");
    reveal_strlit("\\Draft");
    assert(w.len() == 5);
    assert(ws_end(w, 0) == 0);
    lemma_word_run(w, 0, 5);
    assert(ws_end(w, 5) == 5);
    assert(word_end(w, 5) == 5);
    assert(words_from(w, 5) == Seq::<Seq<char>>::empty());
    assert(w.subrange(0, 5) =~= w);
    assert(words(w) =~= seq![w]);
    assert(IMAPFlags::named(w) == Some(IMAPFlags::Seen));
    assert(flags_named(seq![w], 0) == Seq::<IMAPFlags>::empty());
    assert(flags_named(seq![w], 1) =~= seq![IMAPFlags::Seen]);
}

/// The text `12` at the place of the count is the number 12.
pub proof fn example_count()
    ensures
        number_at(example_append_text(), 44) == Some((12u32, 46int)),
{
    let s = example_append_text();
    lemma_append_text();
    reveal_strlit("12");
    assert(digits_end(s, 46) == 46);
    assert(digits_end(s, 45) == 46);
    assert(digits_end(s, 44) == 46);
    let d = "12"@;
    assert(d.drop_last().drop_last() =~= Seq::<char>::empty());
    assert(digits_value(d.drop_last().drop_last()) == 0);
    assert(digits_value(d.drop_last()) == 1);
    assert(digits_value(d) == 12);
    assert(all_digits(d));
    assert(bounded_nat(d, u32::MAX as nat) == Some(12nat));
}

/// What the arguments of the example say before the literal.
pub proof fn example_append_head()
    ensures
        append_head(example_append_text()) == Ok::<AppendHead, ImapError>(
            AppendHead {
                mailbox: "INBOX"@,
                flags: seq![IMAPFlags::Seen],
                date: Some(example_date_text()),
                count: 12,
                plus: false,
                end: 47,
            },
        ),
{
    let s = example_append_text();
    lemma_append_text();
    assert(ws_end(s, 0) == 0);
    lemma_word_run(s, 0, 5);
    assert(element_at(s, 0) == Some(("INBOX"@, 5int)));
    assert(ws_end(s, 6) == 6);
    assert(ws_end(s, 5) == 6);
    lemma_find_first(s, ')', 7, 12);
    example_flag_words();
    assert(flag_list_at(s, 6) == Some((seq![IMAPFlags::Seen], 13int)));
    assert(ws_end(s, 14) == 14);
    assert(ws_end(s, 13) == 14);
    lemma_quoted_run(s, 15, 41);
    assert(date_at(s, 14) == Some((Some(example_date_text()), 42int)));
    assert(ws_end(s, 43) == 43);
    assert(ws_end(s, 42) == 43);
    example_count();
    assert(literal_at(s, 43) == Some((12u32, false, 47int)));
}

/// The date that the message of the example gets: the one that `chrono`
/// reads from the date of the example, and the time of the command where
/// it reads none.
pub open spec fn example_date(now: Timestamp) -> Timestamp {
    match chrono_instant(example_date_text(), IMAP_DATETIME_FMT@) {
        Some((s, o)) => Timestamp { unix_seconds: s, offset_seconds: o },
        None => now,
    }
}

/// APPEND of the twelve octets `Hello world!` into `INBOX`, seen and with
/// a date, where the store holds no message: the message gets UID 1 and
/// sequence number 1, the flag and the date, and the response names the
/// UID. Where no identifier is left for the inbox the answer is `NO`, and
/// where the time of the command cannot be written the command is
/// refused; both leave the mail as it is.
pub proof fn example_append(
    tag: Seq<char>,
    user: i32,
    before: StoreView,
    after: StoreView,
    now: Timestamp,
    r: Handled,
)
    requires
        append_outcome(tag, example_append_text(), IMAPState::Authed(user), before, after, now, r),
        before.mail.len() == 0,
    ensures
        match got_mailbox_id(before.mailboxes, user, "INBOX"@) {
            Err(e) => after == before && handled_is(
                r,
                seq![tag + " NO APPEND failed: "@ + e.reason_text() + "\r\n"@],
                IMAPState::Authed(user),
                ResponseInfo::Regular,
            ),
            Ok(inbox) => if 0 <= now.unix_seconds <= u32::MAX {
                &&& after.mail == seq![
                    delivered(
                        mail_of("Hello world!"@),
                        1,
                        1,
                        inbox,
                        example_date(now),
                        "01000"@,
                    ),
                ]
                &&& after.mail[0].data == "Hello world!"@
                &&& after.changes == before.changes.push("* 1 EXISTS\r\n"@)
                &&& handled_is(
                    r,
                    seq![appended_line(tag, now.unix_seconds as int, 1)],
                    IMAPState::Authed(user),
                    ResponseInfo::Regular,
                )
            } else {
                after.mail == before.mail && after.changes == before.changes && refused_with(
                    r,
                    ImapError::BadClock,
                )
            },
        },
{
    let s = example_append_text();
    lemma_append_text();
    example_append_head();
    assert(ws_end(s, 48) == 48);
    assert(ws_end(s, 47) == 48);
    assert(literal_start(s, 47) == Some(48int));
    lemma_ascii_octets(s, 48, 12);
    reveal_strlit("01000");
    let flags = seq![IMAPFlags::Seen];
    assert(flags[0].place() == 1);
    assert(bitmap_of(flags) =~= "01000"@);
    assert(before.mail =~= Seq::<MailView>::empty());
    match got_mailbox_id(before.mailboxes, user, "INBOX"@) {
        Ok(inbox) => {
            assert(count_in(before.mail, inbox, 0) == 0);
            let row = delivered(
                mail_of("Hello world!"@),
                1,
                1,
                inbox,
                example_date(now),
                "01000"@,
            );
            assert(before.mail.push(row) =~= seq![row]);
        },
        Err(_) => {},
    }
}

/// SELECT of `INBOX` by a user who has no mailbox yet, in a store
/// without mail: the inbox is made and selected for writing, and the
/// response tells of no message and of 1 as the next UID. Where no
/// identifier is left for the inbox the answer is `NO` and nothing is
/// made; where the time of the command cannot be written the command is
/// refused.
pub proof fn example_select(
    tag: Seq<char>,
    user: i32,
    before: StoreView,
    after: StoreView,
    now: Timestamp,
    r: Handled,
)
    requires
        select_outcome(tag, "INBOX"@, IMAPState::Authed(user), before, after, now, r, true),
        before.mail.len() == 0,
        mailbox_id_of(before.mailboxes, user, "INBOX"@) is None,
    ensures
        if max_mailbox_id(before.mailboxes) >= i32::MAX {
            after == before && handled_is(
                r,
                seq![tag + " NO SELECT failed: "@ + StoreError::Full.reason_text() + "\r\n"@],
                IMAPState::Authed(user),
                ResponseInfo::Regular,
            )
        } else {
            &&& after.mailboxes == before.mailboxes.push(
                new_mailbox((max_mailbox_id(before.mailboxes) + 1) as i32, user, "INBOX"@),
            )
            &&& if 0 <= now.unix_seconds <= u32::MAX {
                handled_is(
                    r,
                    seq![
                        "* 0 EXISTS\r\n"@,
                        "* OK [UIDVALIDITY "@ + decimal(now.unix_seconds as int) + "]\r\n"@,
                        "* OK [UIDNEXT 1]\r\n"@,
                        "* FLAGS (\\Answered \\Flagged \\Deleted \\Seen \\Draft)\r\n"@,
                        "* LIST () \"/\" INBOX\r\n"@,
                        "* OK [PERMANENTFLAGS (\\Deleted \\Seen \\*)]\r\n"@,
                        tag + " OK [READ-WRITE] SELECT completed\r\n"@,
                    ],
                    IMAPState::Selected(
                        SelectedState {
                            read_only: false,
                            user_id: user,
                            mailbox_id: (max_mailbox_id(before.mailboxes) + 1) as i32,
                        },
                    ),
                    ResponseInfo::Regular,
                )
            } else {
                refused_with(r, ImapError::BadClock)
            }
        },
{
    let s = "INBOX"@;
    reveal_strlit("INBOX");
    assert(s.len() == 5);
    assert(ws_end(s, 0) == 0);
    lemma_word_run(s, 0, 5);
    assert(ws_end(s, 5) == 5);
    assert(word_end(s, 5) == 5);
    assert(words_from(s, 5) == Seq::<Seq<char>>::empty());
    assert(s.subrange(0, 5) =~= s);
    assert(words(s) =~= seq![s]);
    assert(without_char(s, '"', 0) == Seq::<char>::empty());
    assert(without_char(s, '"', 1) =~= s.subrange(0, 1));
    assert(without_char(s, '"', 2) =~= s.subrange(0, 2));
    assert(without_char(s, '"', 3) =~= s.subrange(0, 3));
    assert(without_char(s, '"', 4) =~= s.subrange(0, 4));
    assert(without_char(s, '"', 5) =~= s);
    assert(selected_name(s) == s);
    let id = (max_mailbox_id(before.mailboxes) + 1) as i32;
    if max_mailbox_id(before.mailboxes) < i32::MAX {
        assert(got_mailbox_id(before.mailboxes, user, s) == Ok::<i32, StoreError>(id));
    } else {
        assert(got_mailbox_id(before.mailboxes, user, s) == Err::<i32, StoreError>(
            StoreError::Full,
        ));
    }
    assert(before.mail =~= Seq::<MailView>::empty());
    assert(count_in(before.mail, id, 0) == 0);
    example_decimals();
    reveal_strlit("0");
    assert(decimal(0) =~= "0"@);
    reveal_strlit("1");
    reveal_strlit("* ");
    reveal_strlit(" EXISTS\r\n");
    reveal_strlit("* 0 EXISTS\r\n");
    assert("* "@ + "0"@ + " EXISTS\r\n"@ =~= "* 0 EXISTS\r\n"@);
    reveal_strlit("* OK [UIDNEXT ");
    reveal_strlit("]\r\n");
    reveal_strlit("* OK [UIDNEXT 1]\r\n");
    assert("* OK [UIDNEXT "@ + "1"@ + "]\r\n"@ =~= "* OK [UIDNEXT 1]\r\n"@);
    reveal_strlit("* LIST () \"/\" ");
    reveal_strlit("\r\n");
    reveal_strlit("* LIST () \"/\" INBOX\r\n");
    assert("* LIST () \"/\" "@ + s + "\r\n"@ =~= "* LIST () \"/\" INBOX\r\n"@);
    assert(select_lines(tag, s, 0, now.unix_seconds as int, 1, true) =~= seq![
        "* 0 EXISTS\r\n"@,
        "* OK [UIDVALIDITY "@ + decimal(now.unix_seconds as int) + "]\r\n"@,
        "* OK [UIDNEXT 1]\r\n"@,
        "* FLAGS (\\Answered \\Flagged \\Deleted \\Seen \\Draft)\r\n"@,
        "* LIST () \"/\" INBOX\r\n"@,
        "* OK [PERMANENTFLAGS (\\Deleted \\Seen \\*)]\r\n"@,
        tag + " OK [READ-WRITE] SELECT completed\r\n"@,
    ]);
}

} // verus!
