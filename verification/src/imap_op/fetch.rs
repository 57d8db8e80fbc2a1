//! FETCH: the envelope of a message, the sections of a message and of its
//! parts, and the response lines.

use vstd::prelude::*;
use vstd::string::StrSliceExecFns;
use crate::database::{fetched, meant, readable_flag_chars, readable_flags, DBClient};
use crate::dates::{chrono_instant_text, Timestamp};
use crate::parsing::IMAP_DATETIME_FMT;
use crate::imap::{
    answer, handled_is, refused_with, tagged, Handled, IMAPOp, IMAPState, ImapError, ResponseInfo,
};
pub use crate::imap_op::bodystructure::parts_of;
use crate::imap_op::bodystructure::{
    build_bodystructure, header_value, message_parts, message_structure,
    option_text, pair_views, part_views, push_structure, structure_text, text_view, MailPart,
    Pairs, PartView,
};
use vstd::utf8::{decode_utf8, valid_utf8};
use crate::imap_op::bodystructure::{build_at, is_empty_part, structure_at};
use crate::parsing::fetch::{
    fetch_of, fetch_views, FetchArgs, FetchView, MsgTextView, SectionMsgText, SectionSpec,
    SectionText, SectionView, TextView,
};
use crate::database::join_strings;
use crate::parsing::imap::{char_width, width_of};
use crate::scan::{
    find_char_from, find_from, find_sub, first_value, join, position_of, split, split_char,
    split_once, split_once_char,
};
use crate::text::{eq_chars, lower_seq, string_views, to_lower_vec};
use crate::store::{mail_views, MailRow, MailView, StoreView};
use crate::text::{
    chars_to_string, copy_range, decimal, in_quotes, octets, push_chars, push_i64, push_in_quotes,
    push_str, push_u64, str_to_chars, views,
};

verus! {

/// One address of a header: a display name, where there is one, and the
/// address itself.
#[derive(Debug, Clone, PartialEq, Eq)]
pub struct SingleAddress {
    pub display_name: Option<String>,
    pub addr: String,
}

/// An entry of an address header: one address, or a named group of
/// addresses.
#[derive(Debug, Clone, PartialEq, Eq)]
pub enum MailAddress {
    Group(String, Vec<SingleAddress>),
    Single(SingleAddress),
}

pub ghost struct SingleView {
    pub display_name: Option<Seq<char>>,
    pub addr: Seq<char>,
}

pub ghost enum AddressView {
    Group(Seq<char>, Seq<SingleView>),
    Single(SingleView),
}

impl View for SingleAddress {
    type V = SingleView;

    open spec fn view(&self) -> SingleView {
        SingleView { display_name: text_view(self.display_name), addr: self.addr@ }
    }
}

pub open spec fn single_views(v: Seq<SingleAddress>) -> Seq<SingleView> {
    Seq::new(v.len(), |i: int| v[i]@)
}

impl View for MailAddress {
    type V = AddressView;

    open spec fn view(&self) -> AddressView {
        match self {
            MailAddress::Group(name, addrs) => AddressView::Group(name@, single_views(addrs@)),
            MailAddress::Single(s) => AddressView::Single(s@),
        }
    }
}

pub open spec fn address_views(v: Seq<MailAddress>) -> Seq<AddressView> {
    Seq::new(v.len(), |i: int| v[i]@)
}

/// The addresses that `mailparse::addrparse` reads from a header value;
/// nothing where it reports an error.
pub uninterp spec fn mailparse_addresses(value: Seq<char>) -> Option<Seq<AddressView>>;

/// Calls `mailparse::addrparse`. The contract only names the result.
#[verifier::external_body]
fn parse_addresses(value: &str) -> (r: Option<Vec<MailAddress>>)
    ensures
        r is Some <==> mailparse_addresses(value@) is Some,
        r is Some ==> address_views(r->0@) == mailparse_addresses(value@)->0,
{
    let list = mailparse::addrparse(value).ok()?;
    let one = |s: &mailparse::SingleInfo| {
        SingleAddress { display_name: s.display_name.clone(), addr: s.addr.clone() }
    };
    let entry = |a: &mailparse::MailAddr| match a {
        mailparse::MailAddr::Single(s) => MailAddress::Single(one(s)),
        mailparse::MailAddr::Group(g) => {
            MailAddress::Group(g.group_name.clone(), g.addrs.iter().map(one).collect())
        },
    };
    Some(list.iter().map(entry).collect())
}

/// The address structure of one address: display name, `NIL`, mailbox
/// name and host name, each quoted, with `NIL` for what is missing. An
/// address without `@` has neither mailbox nor host.
pub open spec fn single_text(a: SingleView) -> Seq<char> {
    let name = match a.display_name {
        Some(n) => in_quotes(n),
        None => "NIL"@,
    };
    match split_once(a.addr, '@') {
        Some((mailbox, host)) => "("@ + name + " NIL "@ + in_quotes(mailbox) + " "@ + in_quotes(host)
            + ")"@,
        None => "("@ + name + " NIL NIL NIL)"@,
    }
}

/// The address structures of the first `n` addresses, one after the
/// other.
pub open spec fn singles_text(addrs: Seq<SingleView>, n: int) -> Seq<char>
    decreases n,
{
    if n <= 0 || n > addrs.len() {
        seq![]
    } else {
        singles_text(addrs, n - 1) + single_text(addrs[n - 1])
    }
}

/// The address structures of one entry: those of a group stand between a
/// structure that names the group and one that ends it.
pub open spec fn address_text(a: AddressView) -> Seq<char> {
    match a {
        AddressView::Single(s) => single_text(s),
        AddressView::Group(name, addrs) => "(NIL NIL "@ + name + " NIL)"@ + singles_text(
            addrs,
            addrs.len() as int,
        ) + "(NIL NIL NIL NIL)"@,
    }
}

/// The address structures of the first `n` entries, one after the other.
pub open spec fn addresses_text(list: Seq<AddressView>, n: int) -> Seq<char>
    decreases n,
{
    if n <= 0 || n > list.len() {
        seq![]
    } else {
        addresses_text(list, n - 1) + address_text(list[n - 1])
    }
}

/// The parenthesised list of address structures of a header value; an
/// empty list where the value cannot be read.
pub open spec fn address_list_text(found: Option<Seq<AddressView>>) -> Seq<char> {
    match found {
        Some(list) => "("@ + addresses_text(list, list.len() as int) + ")"@,
        None => "()"@,
    }
}

/// Appends the address structure of one address.
pub fn get_data_single_item(out: &mut Vec<char>, i: &SingleAddress)
    ensures
        final(out)@ == old(out)@ + single_text(i@),
{
    let mut name: Vec<char> = Vec::new();
    match &i.display_name {
        Some(n) => {
            let chars = str_to_chars(n.as_str());
            push_in_quotes(&mut name, chars.as_slice());
        },
        None => {
            push_str(&mut name, "NIL");
        },
    }
    let addr = str_to_chars(i.addr.as_str());
    push_str(out, "(");
    push_chars(out, name.as_slice());
    match split_once_char(addr.as_slice(), '@') {
        Some((mailbox, host)) => {
            push_str(out, " NIL ");
            push_in_quotes(out, mailbox.as_slice());
            push_str(out, " ");
            push_in_quotes(out, host.as_slice());
            push_str(out, ")");
            assert(out@ =~= old(out)@ + single_text(i@));
        },
        None => {
            push_str(out, " NIL NIL NIL)");
            assert(out@ =~= old(out)@ + single_text(i@));
        },
    }
}

fn push_singles(out: &mut Vec<char>, addrs: &Vec<SingleAddress>)
    ensures
        final(out)@ == old(out)@ + singles_text(single_views(addrs@), addrs@.len() as int),
{
    let mut k: usize = 0;
    assert(out@ =~= old(out)@ + singles_text(single_views(addrs@), 0));
    while k < addrs.len()
        invariant
            k <= addrs.len(),
            out@ == old(out)@ + singles_text(single_views(addrs@), k as int),
        decreases addrs.len() - k,
    {
        get_data_single_item(out, &addrs[k]);
        assert(out@ =~= old(out)@ + singles_text(single_views(addrs@), k + 1));
        k += 1;
    }
}

fn push_address(out: &mut Vec<char>, a: &MailAddress)
    ensures
        final(out)@ == old(out)@ + address_text(a@),
{
    match a {
        MailAddress::Single(s) => {
            get_data_single_item(out, s);
        },
        MailAddress::Group(name, addrs) => {
            push_str(out, "(NIL NIL ");
            push_str(out, name.as_str());
            push_str(out, " NIL)");
            push_singles(out, addrs);
            push_str(out, "(NIL NIL NIL NIL)");
            assert(out@ =~= old(out)@ + address_text(a@));
        },
    }
}

/// Appends the parenthesised list of address structures for what was read
/// from a header value.
pub fn push_address_list(out: &mut Vec<char>, found: &Option<Vec<MailAddress>>)
    ensures
        final(out)@ == old(out)@ + address_list_text(
            match found {
                Some(v) => Some(address_views(v@)),
                None => None,
            },
        ),
{
    match found {
        Some(list) => {
            push_str(out, "(");
            let ghost start = out@;
            let mut k: usize = 0;
            assert(out@ =~= start + addresses_text(address_views(list@), 0));
            while k < list.len()
                invariant
                    k <= list.len(),
                    out@ == start + addresses_text(address_views(list@), k as int),
                decreases list.len() - k,
            {
                push_address(out, &list[k]);
                assert(out@ =~= start + addresses_text(address_views(list@), k + 1));
                k += 1;
            }
            push_str(out, ")");
            assert(out@ =~= old(out)@ + address_list_text(Some(address_views(list@))));
        },
        None => {
            push_str(out, "()");
        },
    }
}

/// The parenthesised list of address structures of the first header of
/// the given name; `NIL` where there is no such header.
pub open spec fn address_field(headers: Pairs, key: Seq<char>) -> Seq<char> {
    match first_value(headers, key) {
        Some(v) => address_list_text(mailparse_addresses(v)),
        None => "NIL"@,
    }
}

/// The quoted value of the first header of the given name; `NIL` where
/// there is no such header.
pub open spec fn text_field(headers: Pairs, key: Seq<char>) -> Seq<char> {
    option_text(first_value(headers, key))
}

/// The envelope of a message with the given headers: date, subject, from,
/// sender, reply-to, to, cc, bcc, in-reply-to and message-id.
pub open spec fn envelope_item(headers: Pairs) -> Seq<char> {
    "ENVELOPE ("@ + text_field(headers, "Date"@) + " "@ + text_field(headers, "Subject"@) + " "@
        + address_field(headers, "From"@) + " "@ + address_field(headers, "Sender"@) + " "@
        + address_field(headers, "Reply-To"@) + " "@ + address_field(headers, "To"@) + " "@
        + address_field(headers, "Cc"@) + " "@ + address_field(headers, "Bcc"@) + " "@ + text_field(
        headers,
        "In-Reply-To"@,
    ) + " "@ + text_field(headers, "Message-ID"@) + ")"@
}

/// The envelope with a space behind it.
pub open spec fn envelope_text(headers: Pairs) -> Seq<char> {
    envelope_item(headers) + " "@
}

/// Appends the list of address structures of a header.
pub fn parenthesized_list_of_addr_structures(
    out: &mut Vec<char>,
    headers: &Vec<(String, String)>,
    key: &str,
)
    ensures
        final(out)@ == old(out)@ + address_field(pair_views(headers@), key@),
{
    match header_value(headers, key) {
        Some(v) => {
            let found = parse_addresses(v.as_str());
            push_address_list(out, &found);
        },
        None => {
            push_str(out, "NIL");
        },
    }
}

fn push_text_field(out: &mut Vec<char>, headers: &Vec<(String, String)>, key: &str)
    ensures
        final(out)@ == old(out)@ + text_field(pair_views(headers@), key@),
{
    match header_value(headers, key) {
        Some(v) => {
            let chars = str_to_chars(v.as_str());
            push_in_quotes(out, chars.as_slice());
        },
        None => {
            push_str(out, "NIL");
        },
    }
}

/// The ENVELOPE item of a message with the given headers, a space behind
/// it.
pub fn envelope_to_string(headers: &Vec<(String, String)>) -> (r: String)
    ensures
        r@ == envelope_text(pair_views(headers@)),
{
    let mut out = envelope_chars(headers);
    push_str(&mut out, " ");
    chars_to_string(out.as_slice())
}

/// The ENVELOPE item of a message with the given headers.
pub fn envelope_chars(headers: &Vec<(String, String)>) -> (r: Vec<char>)
    ensures
        r@ == envelope_item(pair_views(headers@)),
{
    let mut out: Vec<char> = Vec::new();
    push_str(&mut out, "ENVELOPE (");
    push_text_field(&mut out, headers, "Date");
    push_str(&mut out, " ");
    push_text_field(&mut out, headers, "Subject");
    push_str(&mut out, " ");
    parenthesized_list_of_addr_structures(&mut out, headers, "From");
    push_str(&mut out, " ");
    parenthesized_list_of_addr_structures(&mut out, headers, "Sender");
    push_str(&mut out, " ");
    parenthesized_list_of_addr_structures(&mut out, headers, "Reply-To");
    push_str(&mut out, " ");
    parenthesized_list_of_addr_structures(&mut out, headers, "To");
    push_str(&mut out, " ");
    parenthesized_list_of_addr_structures(&mut out, headers, "Cc");
    push_str(&mut out, " ");
    parenthesized_list_of_addr_structures(&mut out, headers, "Bcc");
    push_str(&mut out, " ");
    push_text_field(&mut out, headers, "In-Reply-To");
    push_str(&mut out, " ");
    push_text_field(&mut out, headers, "Message-ID");
    push_str(&mut out, ")");
    assert(out@ =~= envelope_item(pair_views(headers@)));
    out
}


pub struct Fetch;

/// Where the header of a message ends: behind the first empty line, or at
/// the end of the message where there is none.
pub open spec fn header_end(data: Seq<char>) -> int {
    match (position_of(data, "\r\n\r\n"@), position_of(data, "\n\n"@)) {
        (Some(a), Some(b)) => if a < b {
            a + 4
        } else {
            b + 2
        },
        (Some(a), None) => a + 4,
        (None, Some(b)) => b + 2,
        (None, None) => data.len() as int,
    }
}

/// What the header lines have given after the first `n` of them.
pub ghost struct FieldsView {
    /// The lines that were taken, as they stand.
    pub out: Seq<char>,
    /// Whether the field at hand is taken, so that the lines that
    /// continue it are taken too.
    pub taking: bool,
    /// Whether the empty line was passed.
    pub ended: bool,
}

/// Line `j` of the pieces that line feeds cut a text into, as it stands in
/// the text: with its line feed, but for the last piece.
pub open spec fn raw_line(lines: Seq<Seq<char>>, j: int) -> Seq<char> {
    if j < lines.len() - 1 {
        lines[j] + seq!['\n']
    } else {
        lines[j]
    }
}

/// The name of the header field that a line starts, in lower case: what
/// stands before its first colon.
pub open spec fn field_name(line: Seq<char>) -> Seq<char> {
    lower_seq(line.subrange(0, find_from(line, ':', 0)))
}

/// Whether the names hold the lower-case name, letter case aside.
pub open spec fn names_hold(names: Seq<Seq<char>>, name: Seq<char>) -> bool {
    exists|i: int| 0 <= i < names.len() && lower_seq(#[trigger] names[i]) == name
}

/// The header fields that the first `n` lines give: up to the empty line,
/// each field whose name is among the names (or, with `not`, is not
/// among them), with the lines that continue it.
pub open spec fn fields_after(lines: Seq<Seq<char>>, names: Seq<Seq<char>>, not: bool, n: int) -> FieldsView
    decreases n,
{
    if n <= 0 || n > lines.len() {
        FieldsView { out: seq![], taking: false, ended: false }
    } else {
        let b = fields_after(lines, names, not, n - 1);
        let l = lines[n - 1];
        if b.ended {
            b
        } else if l.len() == 0 || l == seq!['\r'] {
            FieldsView { out: b.out, taking: false, ended: true }
        } else if l[0] == ' ' || l[0] == '\t' {
            if b.taking {
                FieldsView { out: b.out + raw_line(lines, n - 1), taking: true, ended: false }
            } else {
                b
            }
        } else if names_hold(names, field_name(l)) != not {
            FieldsView { out: b.out + raw_line(lines, n - 1), taking: true, ended: false }
        } else {
            FieldsView { out: b.out, taking: false, ended: false }
        }
    }
}

/// The header fields of a message whose names are among the names (or,
/// with `not`, are not), and the empty line behind them.
pub open spec fn header_fields(data: Seq<char>, names: Seq<Seq<char>>, not: bool) -> Seq<char> {
    let lines = split(data, '\n');
    fields_after(lines, names, not, lines.len() as int).out + "\r\n"@
}

/// The name of a section of header fields as the response writes it.
pub open spec fn fields_name(names: Seq<Seq<char>>, not: bool) -> Seq<char> {
    if not {
        "HEADER.FIELDS.NOT ("@ + join(names, " "@) + ")"@
    } else {
        "HEADER.FIELDS ("@ + join(names, " "@) + ")"@
    }
}

/// The position behind the characters from `i` on that take `left` octets
/// together at most.
pub open spec fn octets_reach(s: Seq<char>, i: int, left: int) -> int
    decreases s.len() - i,
{
    if 0 <= i < s.len() && char_width(s[i]) <= left {
        octets_reach(s, i + 1, left - char_width(s[i]))
    } else {
        i
    }
}

/// The part of a text that a partial range asks for: `count` octets from
/// the octet `start` on. A character that the start of the range cuts is
/// shown whole; one that its end cuts is left out.
pub open spec fn partial_data(data: Seq<char>, start: i32, count: i32) -> Seq<char> {
    let from = octets_reach(data, 0, start as int);
    let to = octets_reach(data, from, count as int);
    if 0 <= from <= to <= data.len() {
        data.subrange(from, to)
    } else {
        seq![]
    }
}

/// The name of a section that FETCH can show, and the part of the message
/// it stands for: the empty section is the whole message, `HEADER` its
/// header with the empty line, `TEXT` what follows, `HEADER.FIELDS` and
/// `HEADER.FIELDS.NOT` the header fields of the given names, and those of
/// other names. Nothing for a part of the message or its `MIME` header.
pub open spec fn section_data(section: SectionView, data: Seq<char>) -> Option<
    (Seq<char>, Seq<char>),
> {
    match section {
        SectionView::Other(parts, text) => if parts.len() == 0 && text is None {
            Some((seq![], data))
        } else {
            None
        },
        SectionView::MsgText(MsgTextView::Header) => Some(
            ("HEADER"@, data.subrange(0, header_end(data))),
        ),
        SectionView::MsgText(MsgTextView::Text) => Some(
            ("TEXT"@, data.subrange(header_end(data), data.len() as int)),
        ),
        SectionView::MsgText(MsgTextView::HeaderFields(names)) => Some(
            (fields_name(names, false), header_fields(data, names, false)),
        ),
        SectionView::MsgText(MsgTextView::HeaderFieldsNot(names)) => Some(
            (fields_name(names, true), header_fields(data, names, true)),
        ),
        _ => None,
    }
}

/// A `BODY[…]` item: the section name and the data as a literal.
pub open spec fn body_item(name: Seq<char>, data: Seq<char>) -> Seq<char> {
    "BODY["@ + name + "] {"@ + decimal(octets(data) as int) + "}\r\n"@ + data
}

/// A `BODY[…]<…>` item: the section name, the octet at which the data
/// starts, and the data as a literal.
pub open spec fn partial_item(name: Seq<char>, start: i32, data: Seq<char>) -> Seq<char> {
    "BODY["@ + name + "]<"@ + decimal(start as int) + "> {"@ + decimal(octets(data) as int)
        + "}\r\n"@ + data
}

/// The place of child number `k` among the `left` parts that follow one
/// another from position `j` on, each with its subparts behind it. A part
/// that holds nothing has no number.
pub open spec fn child_from(parts: Seq<PartView>, j: int, left: int, k: int) -> Option<int>
    decreases parts.len() - j,
{
    if left <= 0 || j < 0 || j >= parts.len() || k < 1 {
        None
    } else if is_empty_part(parts[j]) {
        child_from(parts, j + 1, left - 1, k)
    } else if k == 1 {
        Some(j)
    } else {
        let e = structure_at(parts, j, 0).1;
        if j < e <= parts.len() {
            child_from(parts, e, left - 1, k - 1)
        } else {
            None
        }
    }
}

/// The place of part number `k` of the part at `i`: a child of a
/// multipart; a part that is no multipart is its own part 1.
pub open spec fn part_below(parts: Seq<PartView>, i: int, k: int) -> Option<int> {
    let kind = split(parts[i].mimetype, '/');
    if kind.len() == 2 && kind[0] == "multipart"@ {
        child_from(parts, i + 1, parts[i].children as int, k)
    } else if k == 1 {
        Some(i)
    } else {
        None
    }
}

/// The place of the part that the first `n` part numbers lead to, from
/// the whole message on.
pub open spec fn part_of_path(parts: Seq<PartView>, path: Seq<i32>, n: int) -> Option<int>
    decreases n,
{
    if parts.len() == 0 || n > path.len() {
        None
    } else if n <= 0 {
        Some(0)
    } else {
        match part_of_path(parts, path, n - 1) {
            Some(i) => if 0 <= i < parts.len() {
                part_below(parts, i, path[n - 1] as int)
            } else {
                None
            },
            None => None,
        }
    }
}

/// Part numbers that lead nowhere lead nowhere when more follow.
pub proof fn lemma_no_part(parts: Seq<PartView>, path: Seq<i32>, m: int, n: int)
    requires
        0 <= m <= n <= path.len(),
        part_of_path(parts, path, m) is None,
    ensures
        part_of_path(parts, path, n) is None,
    decreases n - m,
{
    if m < n {
        lemma_no_part(parts, path, m, n - 1);
    }
}

/// The first `n` part numbers with dots between them.
pub open spec fn path_name(path: Seq<i32>, n: int) -> Seq<char>
    decreases n,
{
    if n <= 0 || n > path.len() {
        seq![]
    } else if n == 1 {
        decimal(path[0] as int)
    } else {
        path_name(path, n - 1) + "."@ + decimal(path[n - 1] as int)
    }
}

/// The part as a text, where its octets write one.
pub open spec fn part_text(part: PartView) -> Option<Seq<char>> {
    if valid_utf8(part.raw) {
        Some(decode_utf8(part.raw))
    } else {
        None
    }
}

/// The name of a section of a part and what it stands for: part numbers
/// alone are the body of the part as it stands in the message, with
/// `MIME` behind them its header with the empty line. Nothing where the
/// message has no such part or the part is no text.
pub open spec fn part_data(parts: Seq<PartView>, path: Seq<i32>, mime: bool) -> Option<
    (Seq<char>, Seq<char>),
> {
    match part_of_path(parts, path, path.len() as int) {
        Some(i) => if 0 <= i < parts.len() {
            match part_text(parts[i]) {
                Some(raw) => if mime {
                    Some(
                        (
                            path_name(path, path.len() as int) + ".MIME"@,
                            raw.subrange(0, header_end(raw)),
                        ),
                    )
                } else {
                    Some(
                        (
                            path_name(path, path.len() as int),
                            raw.subrange(header_end(raw), raw.len() as int),
                        ),
                    )
                },
                None => None,
            }
        } else {
            None
        },
        None => None,
    }
}

/// The name of a section and what it stands for, in the message or in one
/// of its parts.
pub open spec fn section_of(section: SectionView, data: Seq<char>, parts: Seq<PartView>) -> Option<
    (Seq<char>, Seq<char>),
> {
    match section {
        SectionView::Other(path, text) => if path.len() == 0 {
            section_data(section, data)
        } else {
            match text {
                None => part_data(parts, path, false),
                Some(TextView::Mime) => part_data(parts, path, true),
                Some(TextView::MsgText(_)) => None,
            }
        },
        _ => section_data(section, data),
    }
}

/// What a `BODY[…]` item with or without a partial range shows of a
/// message; nothing for a section that cannot be shown.
pub open spec fn section_text(
    section: SectionView,
    range: Option<(i32, i32)>,
    data: Seq<char>,
    parts: Seq<PartView>,
) -> Option<Seq<char>> {
    match section_of(section, data, parts) {
        Some((name, d)) => match range {
            None => Some(body_item(name, d)),
            Some((start, count)) => Some(partial_item(name, start, partial_data(d, start, count))),
        },
        None => None,
    }
}

/// The headers of a message: those of its first part.
pub open spec fn message_headers(parts: Seq<PartView>) -> Pairs {
    if parts.len() > 0 {
        parts[0].headers
    } else {
        seq![]
    }
}

/// The body of the part that part numbers lead to, with its transfer
/// encoding undone; nothing where the message has no such part or its
/// body cannot be decoded.
pub open spec fn binary_data(path: Seq<i32>, parts: Seq<PartView>) -> Option<Seq<char>> {
    match part_of_path(parts, path, path.len() as int) {
        Some(i) => if 0 <= i < parts.len() {
            parts[i].body
        } else {
            None
        },
        None => None,
    }
}

/// A `BINARY[…]` item, with or without a partial range: the decoded body
/// of a part as a literal.
pub open spec fn binary_text(path: Seq<i32>, range: Option<(i32, i32)>, parts: Seq<PartView>) -> Option<
    Seq<char>,
> {
    match binary_data(path, parts) {
        Some(d) => match range {
            None => Some(
                "BINARY["@ + path_name(path, path.len() as int) + "] {"@ + decimal(
                    octets(d) as int,
                ) + "}\r\n"@ + d,
            ),
            Some((start, count)) => {
                let part = partial_data(d, start, count);
                Some(
                    "BINARY["@ + path_name(path, path.len() as int) + "]<"@ + decimal(start as int)
                        + "> {"@ + decimal(octets(part) as int) + "}\r\n"@ + part,
                )
            },
        },
        None => None,
    }
}

/// What one data item shows of a message; nothing for an item that cannot
/// be shown.
pub open spec fn item_text(item: FetchView, row: MailView, parts: Seq<PartView>) -> Option<
    Seq<char>,
> {
    match item {
        FetchView::InternalDate => match chrono_instant_text(
            row.date.unix_seconds,
            row.date.offset_seconds,
            IMAP_DATETIME_FMT@,
        ) {
            Some(t) => Some("INTERNALDATE \""@ + t + "\""@),
            None => None,
        },
        FetchView::Uid => Some("UID "@ + decimal(row.uid as int)),
        FetchView::Flags => Some(
            "FLAGS ("@ + readable_flags(row.flags, row.flags.len() as int) + ")"@,
        ),
        FetchView::RFC822Size => Some(
            "RFC822.SIZE "@ + decimal(octets(row.data) as int),
        ),
        FetchView::Envelope => Some(envelope_item(message_headers(parts))),
        FetchView::BodyNoArgs => if parts.len() > 0 {
            Some("BODY "@ + structure_text(message_structure(parts), false))
        } else {
            None
        },
        FetchView::BodyStructure => if parts.len() > 0 {
            Some("BODYSTRUCTURE "@ + structure_text(message_structure(parts), true))
        } else {
            None
        },
        FetchView::Body(section, range) => section_text(section, range, row.data, parts),
        FetchView::BodyPeek(section, range) => section_text(section, range, row.data, parts),
        FetchView::Binary(path, range) => binary_text(path, range, parts),
        FetchView::BinaryPeek(path, range) => binary_text(path, range, parts),
        FetchView::BinarySize(path) => match binary_data(path, parts) {
            Some(d) => Some(
                "BINARY.SIZE["@ + path_name(path, path.len() as int) + "] "@ + decimal(
                    octets(d) as int,
                ),
            ),
            None => None,
        },
        _ => None,
    }
}

/// What the first `n` data items show, in their order.
pub open spec fn item_texts(items: Seq<FetchView>, row: MailView, parts: Seq<PartView>, n: int) -> Seq<
    Seq<char>,
>
    decreases n,
{
    if n <= 0 || n > items.len() {
        seq![]
    } else {
        let before = item_texts(items, row, parts, n - 1);
        match item_text(items[n - 1], row, parts) {
            Some(t) => before.push(t),
            None => before,
        }
    }
}

/// The untagged line that shows the data items of one message.
pub open spec fn fetch_line(row: MailView, items: Seq<FetchView>) -> Seq<char> {
    "* "@ + decimal(row.seqnum as int) + " FETCH ("@ + join(
        item_texts(items, row, parts_of(row.data), items.len() as int),
        " "@,
    ) + ")\r\n"@
}

/// The lines of a FETCH response for the given messages.
pub open spec fn fetch_lines(tag: Seq<char>, rows: Seq<MailView>, items: Seq<FetchView>) -> Seq<
    Seq<char>,
> {
    Seq::new(rows.len(), |i: int| fetch_line(rows[i], items)).push(tag + " OK FETCH completed\r\n"@)
}

/// What FETCH, or UID FETCH (`uid`), answers; the store stays as it is.
pub open spec fn fetch_outcome(
    tag: Seq<char>,
    args: Seq<char>,
    state: IMAPState,
    db: StoreView,
    r: Handled,
    uid: bool,
) -> bool {
    match state {
        IMAPState::Selected(s) => match fetch_of(args) {
            None => refused_with(r, ImapError::BadArgument),
            Some((set, items)) => handled_is(
                r,
                fetch_lines(
                    tag,
                    fetched(
                        db.mail,
                        meant(set, db.mail, s.mailbox_id, uid),
                        uid,
                        s.mailbox_id,
                        db.mail.len() as int,
                    ),
                    items,
                ),
                state,
                ResponseInfo::Regular,
            ),
        },
        _ => refused_with(r, ImapError::BadState),
    }
}

fn find_header_end(data: &[char]) -> (r: usize)
    ensures
        r == header_end(data@),
        r <= data.len(),
{
    let crlf = str_to_chars("\r\n\r\n");
    let lf = str_to_chars("\n\n");
    proof {
        reveal_strlit("\r\n\r\n");
        reveal_strlit("\n\n");
    }
    match (find_sub(data, crlf.as_slice()), find_sub(data, lf.as_slice())) {
        (Some(a), Some(b)) => if a < b {
            a + 4
        } else {
            b + 2
        },
        (Some(a), None) => a + 4,
        (None, Some(b)) => b + 2,
        (None, None) => data.len(),
    }
}

fn push_body_item(out: &mut Vec<char>, name: &[char], data: &[char])
    ensures
        final(out)@ == old(out)@ + body_item(name@, data@),
{
    let text = chars_to_string(data);
    push_str(out, "BODY[");
    push_chars(out, name);
    push_str(out, "] {");
    push_u64(out, text.as_str().len() as u64);
    push_str(out, "}\r\n");
    push_chars(out, data);
    assert(out@ =~= old(out)@ + body_item(name@, data@));
}

fn push_partial_item(out: &mut Vec<char>, name: &[char], start: i32, data: &[char])
    ensures
        final(out)@ == old(out)@ + partial_item(name@, start, data@),
{
    let text = chars_to_string(data);
    push_str(out, "BODY[");
    push_chars(out, name);
    push_str(out, "]<");
    push_i64(out, start as i64);
    push_str(out, "> {");
    push_u64(out, text.as_str().len() as u64);
    push_str(out, "}\r\n");
    push_chars(out, data);
    assert(out@ =~= old(out)@ + partial_item(name@, start, data@));
}

/// The position behind the characters from `i` on that take `left` octets
/// together at most.
fn reach_octets(s: &[char], i: usize, left: usize) -> (r: usize)
    requires
        i <= s.len(),
    ensures
        r == octets_reach(s@, i as int, left as int),
        i <= r <= s.len(),
{
    let mut k: usize = i;
    let mut rest: usize = left;
    while k < s.len() && width_of(s[k]) <= rest
        invariant
            i <= k <= s.len(),
            octets_reach(s@, i as int, left as int) == octets_reach(s@, k as int, rest as int),
        decreases s.len() - k,
    {
        rest -= width_of(s[k]);
        k += 1;
    }
    k
}

/// The part of a text that a partial range asks for.
fn take_partial(data: &[char], start: i32, count: i32) -> (r: Vec<char>)
    ensures
        r@ == partial_data(data@, start, count),
{
    let from = if start < 0 {
        0
    } else {
        reach_octets(data, 0, start as usize)
    };
    let to = if count < 0 {
        from
    } else {
        reach_octets(data, from, count as usize)
    };
    copy_range(data, from, to)
}

/// Whether the names hold the lower-case name, letter case aside.
fn holds_name(names: &Vec<String>, name: &[char]) -> (r: bool)
    ensures
        r == names_hold(string_views(names@), name@),
{
    let mut i: usize = 0;
    while i < names.len()
        invariant
            i <= names.len(),
            forall|j: int| 0 <= j < i ==> lower_seq(#[trigger] string_views(names@)[j]) != name@,
        decreases names.len() - i,
    {
        let n = to_lower_vec(str_to_chars(names[i].as_str()).as_slice());
        assert(string_views(names@)[i as int] == names@[i as int]@);
        if eq_chars(n.as_slice(), name) {
            return true;
        }
        i += 1;
    }
    false
}

/// The header fields of a message whose names are among the names (or,
/// with `not`, are not), and the empty line behind them.
fn pick_fields(data: &[char], names: &Vec<String>, not: bool) -> (r: Vec<char>)
    ensures
        r@ == header_fields(data@, string_views(names@), not),
{
    let lines = split_char(data, '\n');
    let ghost all = views(lines@);
    let ghost wanted = string_views(names@);
    let mut out: Vec<char> = Vec::new();
    let mut taking = false;
    let mut ended = false;
    let mut i: usize = 0;
    while i < lines.len()
        invariant
            i <= lines.len(),
            all == views(lines@),
            wanted == string_views(names@),
            fields_after(all, wanted, not, i as int) == (FieldsView {
                out: out@,
                taking,
                ended,
            }),
        decreases lines.len() - i,
    {
        let l = &lines[i];
        assert(all[i as int] == lines@[i as int]@);
        let ghost before = out@;
        if ended {
        } else if l.len() == 0 || (l.len() == 1 && l[0] == '\r') {
            assert(l@.len() == 0 || l@ =~= seq!['\r']);
            taking = false;
            ended = true;
        } else if l[0] == ' ' || l[0] == '\t' {
            assert(!(l@ =~= seq!['\r']));
            if taking {
                push_chars(&mut out, l.as_slice());
                if i < lines.len() - 1 {
                    out.push('\n');
                }
                assert(out@ =~= before + raw_line(all, i as int));
            }
        } else {
            assert(!(l@ =~= seq!['\r']) || l@.len() == 1);
            let colon = find_char_from(l.as_slice(), ':', 0);
            let name = to_lower_vec(copy_range(l.as_slice(), 0, colon).as_slice());
            if holds_name(names, name.as_slice()) != not {
                push_chars(&mut out, l.as_slice());
                if i < lines.len() - 1 {
                    out.push('\n');
                }
                assert(out@ =~= before + raw_line(all, i as int));
                taking = true;
            } else {
                taking = false;
            }
        }
        i += 1;
    }
    push_str(&mut out, "\r\n");
    out
}

/// The name of a section of header fields as the response writes it.
fn fields_label(names: &Vec<String>, not: bool) -> (r: Vec<char>)
    ensures
        r@ == fields_name(string_views(names@), not),
{
    let mut out: Vec<char> = Vec::new();
    if not {
        push_str(&mut out, "HEADER.FIELDS.NOT (");
    } else {
        push_str(&mut out, "HEADER.FIELDS (");
    }
    push_str(&mut out, join_strings(names, " ").as_str());
    push_str(&mut out, ")");
    assert(out@ =~= fields_name(string_views(names@), not));
    out
}

/// The place of child number `k` among the `left` parts that follow one
/// another from position `j` on.
fn find_child(parts: &Vec<MailPart>, j: usize, left: usize, k: i32) -> (r: Option<usize>)
    ensures
        match (r, child_from(part_views(parts@), j as int, left as int, k as int)) {
            (Some(a), Some(b)) => a == b && a < parts.len(),
            (None, None) => true,
            _ => false,
        },
    decreases parts.len() - j,
{
    if left == 0 || j >= parts.len() || k < 1 {
        return None;
    }
    assert(parts@[j as int]@ == part_views(parts@)[j as int]);
    if parts[j].raw.len() == 0 && parts[j].children == 0 {
        find_child(parts, j + 1, left - 1, k)
    } else if k == 1 {
        Some(j)
    } else {
        let (_, e) = build_at(parts, j, 0);
        find_child(parts, e, left - 1, k - 1)
    }
}

/// The place of the part that the part numbers lead to.
fn find_part(parts: &Vec<MailPart>, path: &Vec<i32>) -> (r: Option<usize>)
    ensures
        match (r, part_of_path(part_views(parts@), path@, path@.len() as int)) {
            (Some(a), Some(b)) => a == b && a < parts.len(),
            (None, None) => true,
            _ => false,
        },
{
    if parts.len() == 0 {
        return None;
    }
    let mut at: usize = 0;
    let mut n: usize = 0;
    while n < path.len()
        invariant
            n <= path.len(),
            at < parts.len(),
            part_of_path(part_views(parts@), path@, n as int) == Some(at as int),
        decreases path.len() - n,
    {
        let part = &parts[at];
        assert(part@ == part_views(parts@)[at as int]);
        let mime = str_to_chars(part.mimetype.as_str());
        let kind = split_char(mime.as_slice(), '/');
        let next = if kind.len() == 2 && eq_chars(
            kind[0].as_slice(),
            str_to_chars("multipart").as_slice(),
        ) {
            find_child(parts, at + 1, part.children, path[n])
        } else if path[n] == 1 {
            Some(at)
        } else {
            None
        };
        match next {
            Some(i) => {
                at = i;
            },
            None => {
                proof {
                    lemma_no_part(part_views(parts@), path@, n + 1, path@.len() as int);
                }
                return None;
            },
        }
        n += 1;
    }
    Some(at)
}

/// The part numbers with dots between them.
fn path_label(path: &Vec<i32>) -> (r: Vec<char>)
    ensures
        r@ == path_name(path@, path@.len() as int),
{
    let mut out: Vec<char> = Vec::new();
    let mut i: usize = 0;
    while i < path.len()
        invariant
            i <= path.len(),
            out@ == path_name(path@, i as int),
        decreases path.len() - i,
    {
        if i > 0 {
            push_str(&mut out, ".");
        }
        push_i64(&mut out, path[i] as i64);
        assert(out@ =~= path_name(path@, i + 1));
        i += 1;
    }
    out
}

/// A copy of octets.
fn copy_octets(v: &Vec<u8>) -> (r: Vec<u8>)
    ensures
        r@ == v@,
{
    let mut out: Vec<u8> = Vec::new();
    let mut i: usize = 0;
    while i < v.len()
        invariant
            i <= v.len(),
            out@ == v@.subrange(0, i as int),
        decreases v.len() - i,
    {
        out.push(v[i]);
        assert(out@ =~= v@.subrange(0, i + 1));
        i += 1;
    }
    assert(v@.subrange(0, i as int) =~= v@);
    out
}

/// The name and the text of a section of a part.
fn part_chars(parts: &Vec<MailPart>, path: &Vec<i32>, mime: bool) -> (r: Option<
    (Vec<char>, Vec<char>),
>)
    ensures
        match (r, part_data(part_views(parts@), path@, mime)) {
            (Some(p), Some(q)) => p.0@ == q.0 && p.1@ == q.1,
            (None, None) => true,
            _ => false,
        },
{
    let i = match find_part(parts, path) {
        Some(i) => i,
        None => {
            return None;
        },
    };
    assert(parts@[i as int]@ == part_views(parts@)[i as int]);
    let text = match crate::utils::string_from_utf8(copy_octets(&parts[i].raw)) {
        Some(t) => t,
        None => {
            return None;
        },
    };
    let raw = str_to_chars(text.as_str());
    let e = find_header_end(raw.as_slice());
    let mut name = path_label(path);
    if mime {
        push_str(&mut name, ".MIME");
        Some((name, copy_range(raw.as_slice(), 0, e)))
    } else {
        Some((name, copy_range(raw.as_slice(), e, raw.len())))
    }
}

/// The name and the text of a section that FETCH can show.
fn section_chars(section: &SectionSpec, data: &[char], parts: &Vec<MailPart>) -> (r: Option<
    (Vec<char>, Vec<char>),
>)
    ensures
        match (r, section_of(section@, data@, part_views(parts@))) {
            (Some(p), Some(q)) => p.0@ == q.0 && p.1@ == q.1,
            (None, None) => true,
            _ => false,
        },
{
    match section {
        SectionSpec::Other(path, text) => {
            if path.len() == 0 {
                if text.is_none() {
                    let name: Vec<char> = Vec::new();
                    Some((name, copy_range(data, 0, data.len())))
                } else {
                    None
                }
            } else {
                match text {
                    None => part_chars(parts, path, false),
                    Some(SectionText::Mime) => part_chars(parts, path, true),
                    Some(SectionText::MsgText(_)) => None,
                }
            }
        },
        SectionSpec::MsgText(SectionMsgText::Header) => {
            let e = find_header_end(data);
            Some((str_to_chars("HEADER"), copy_range(data, 0, e)))
        },
        SectionSpec::MsgText(SectionMsgText::Text) => {
            let e = find_header_end(data);
            Some((str_to_chars("TEXT"), copy_range(data, e, data.len())))
        },
        SectionSpec::MsgText(SectionMsgText::HeaderFields(names)) => Some(
            (fields_label(names, false), pick_fields(data, names, false)),
        ),
        SectionSpec::MsgText(SectionMsgText::HeaderFieldsNot(names)) => Some(
            (fields_label(names, true), pick_fields(data, names, true)),
        ),
    }
}

fn section_item(
    section: &SectionSpec,
    range: &Option<(i32, i32)>,
    data: &str,
    parts: &Vec<MailPart>,
) -> (r: Option<Vec<char>>)
    ensures
        r is Some <==> section_text(section@, *range, data@, part_views(parts@)) is Some,
        r is Some ==> r->0@ == section_text(section@, *range, data@, part_views(parts@))->0,
{
    let chars = str_to_chars(data);
    let mut out: Vec<char> = Vec::new();
    match section_chars(section, chars.as_slice(), parts) {
        Some((name, text)) => {
            match range {
                None => {
                    push_body_item(&mut out, name.as_slice(), text.as_slice());
                },
                Some((start, count)) => {
                    let part = take_partial(text.as_slice(), *start, *count);
                    push_partial_item(&mut out, name.as_slice(), *start, part.as_slice());
                },
            }
            Some(out)
        },
        None => None,
    }
}

/// The decoded body of the part that the part numbers lead to.
fn binary_chars(path: &Vec<i32>, parts: &Vec<MailPart>) -> (r: Option<Vec<char>>)
    ensures
        match (r, binary_data(path@, part_views(parts@))) {
            (Some(a), Some(b)) => a@ == b,
            (None, None) => true,
            _ => false,
        },
{
    match find_part(parts, path) {
        Some(i) => {
            assert(parts@[i as int]@ == part_views(parts@)[i as int]);
            match &parts[i].body {
                Some(b) => Some(str_to_chars(b.as_str())),
                None => None,
            }
        },
        None => None,
    }
}

fn binary_item(path: &Vec<i32>, range: &Option<(i32, i32)>, parts: &Vec<MailPart>) -> (r: Option<
    Vec<char>,
>)
    ensures
        r is Some <==> binary_text(path@, *range, part_views(parts@)) is Some,
        r is Some ==> r->0@ == binary_text(path@, *range, part_views(parts@))->0,
{
    let data = match binary_chars(path, parts) {
        Some(d) => d,
        None => {
            return None;
        },
    };
    let name = path_label(path);
    let mut out: Vec<char> = Vec::new();
    push_str(&mut out, "BINARY[");
    push_chars(&mut out, name.as_slice());
    match range {
        None => {
            push_str(&mut out, "] {");
            push_u64(&mut out, chars_to_string(data.as_slice()).as_str().len() as u64);
            push_str(&mut out, "}\r\n");
            push_chars(&mut out, data.as_slice());
            assert(out@ =~= binary_text(path@, *range, part_views(parts@))->0);
        },
        Some((start, count)) => {
            let part = take_partial(data.as_slice(), *start, *count);
            push_str(&mut out, "]<");
            push_i64(&mut out, *start as i64);
            push_str(&mut out, "> {");
            push_u64(&mut out, chars_to_string(part.as_slice()).as_str().len() as u64);
            push_str(&mut out, "}\r\n");
            push_chars(&mut out, part.as_slice());
            assert(out@ =~= binary_text(path@, *range, part_views(parts@))->0);
        },
    }
    Some(out)
}

fn item_chars(item: &FetchArgs, row: &MailRow, parts: &Vec<MailPart>) -> (r: Option<Vec<char>>)
    ensures
        r is Some <==> item_text(item@, row@, part_views(parts@)) is Some,
        r is Some ==> r->0@ == item_text(item@, row@, part_views(parts@))->0,
{
    let mut out: Vec<char> = Vec::new();
    match item {
        FetchArgs::InternalDate => match row.date.to_imap_string() {
            Some(t) => {
                push_str(&mut out, "INTERNALDATE \"");
                push_str(&mut out, t.as_str());
                push_str(&mut out, "\"");
                assert(out@ =~= "INTERNALDATE \""@ + t@ + "\""@);
                Some(out)
            },
            None => None,
        },
        FetchArgs::Uid => {
            push_str(&mut out, "UID ");
            push_i64(&mut out, row.uid as i64);
            assert(out@ =~= "UID "@ + decimal(row.uid as int));
            Some(out)
        },
        FetchArgs::Flags => {
            let bits = str_to_chars(row.flags.as_str());
            let names = readable_flag_chars(bits.as_slice());
            push_str(&mut out, "FLAGS (");
            push_chars(&mut out, names.as_slice());
            push_str(&mut out, ")");
            assert(out@ =~= "FLAGS ("@ + readable_flags(row@.flags, row@.flags.len() as int)
                + ")"@);
            Some(out)
        },
        FetchArgs::RFC822Size => {
            push_str(&mut out, "RFC822.SIZE ");
            push_u64(&mut out, row.data.as_str().len() as u64);
            assert(out@ =~= "RFC822.SIZE "@ + decimal(octets(row@.data) as int));
            Some(out)
        },
        FetchArgs::Envelope => {
            if parts.len() > 0 {
                assert(part_views(parts@)[0] == parts@[0]@);
                Some(envelope_chars(&parts[0].headers))
            } else {
                let none: Vec<(String, String)> = Vec::new();
                assert(pair_views(none@) =~= Seq::empty());
                Some(envelope_chars(&none))
            }
        },
        FetchArgs::BodyNoArgs => match build_bodystructure(parts) {
            Some(structure) => {
                push_str(&mut out, "BODY ");
                push_structure(&mut out, &structure, false);
                assert(out@ =~= "BODY "@ + structure_text(structure@, false));
                Some(out)
            },
            None => None,
        },
        FetchArgs::BodyStructure => match build_bodystructure(parts) {
            Some(structure) => {
                push_str(&mut out, "BODYSTRUCTURE ");
                push_structure(&mut out, &structure, true);
                assert(out@ =~= "BODYSTRUCTURE "@ + structure_text(structure@, true));
                Some(out)
            },
            None => None,
        },
        FetchArgs::Body(section, range) => section_item(section, range, row.data.as_str(), parts),
        FetchArgs::BodyPeek(section, range) => section_item(
            section,
            range,
            row.data.as_str(),
            parts,
        ),
        FetchArgs::Binary(path, range) => binary_item(path, range, parts),
        FetchArgs::BinaryPeek(path, range) => binary_item(path, range, parts),
        FetchArgs::BinarySize(path) => match binary_chars(path, parts) {
            Some(d) => {
                push_str(&mut out, "BINARY.SIZE[");
                push_chars(&mut out, path_label(path).as_slice());
                push_str(&mut out, "] ");
                push_u64(&mut out, chars_to_string(d.as_slice()).as_str().len() as u64);
                assert(out@ =~= item_text(item@, row@, part_views(parts@))->0);
                Some(out)
            },
            None => None,
        },
    }
}

/// The untagged line that shows the data items of one message.
pub fn fetch_line_for(row: &MailRow, items: &Vec<FetchArgs>) -> (r: Vec<char>)
    ensures
        r@ == fetch_line(row@, fetch_views(items@)),
{
    let parts = message_parts(row.data.as_str().as_bytes_vec().as_slice());
    assert(part_views(parts@) == parts_of(row@.data));
    let mut texts: Vec<Vec<char>> = Vec::new();
    let mut i: usize = 0;
    while i < items.len()
        invariant
            i <= items.len(),
            views(texts@) == item_texts(fetch_views(items@), row@, part_views(parts@), i as int),
        decreases items.len() - i,
    {
        let ghost before = views(texts@);
        assert(fetch_views(items@)[i as int] == items@[i as int]@);
        match item_chars(&items[i], row, &parts) {
            Some(t) => {
                texts.push(t);
                assert(views(texts@) =~= before.push(t@));
            },
            None => {},
        }
        i += 1;
    }
    let joined = crate::scan::join_chars(&texts, " ");
    let mut line: Vec<char> = Vec::new();
    push_str(&mut line, "* ");
    push_i64(&mut line, row.seqnum as i64);
    push_str(&mut line, " FETCH (");
    push_chars(&mut line, joined.as_slice());
    push_str(&mut line, ")\r\n");
    assert(line@ =~= fetch_line(row@, fetch_views(items@)));
    line
}

/// Shows the asked data items of the messages that the sequence set
/// picks in the selected mailbox, by UID in UID mode.
pub fn fetch_or_uid(tag: &str, args: &str, state: IMAPState, db: &DBClient, uid: bool) -> (r: Handled)
    ensures
        fetch_outcome(tag@, args@, state, db@, r, uid),
{
    let selected = match state {
        IMAPState::Selected(s) => s,
        _ => {
            return Err(ImapError::BadState);
        },
    };
    let (set, items) = match crate::parsing::fetch::fetch(args) {
        Some(p) => p,
        None => {
            return Err(ImapError::BadArgument);
        },
    };
    let rows = db.fetch(&set, uid, selected.mailbox_id);
    let mut texts: Vec<Vec<char>> = Vec::new();
    let mut i: usize = 0;
    while i < rows.len()
        invariant
            i <= rows.len(),
            texts@.len() == i,
            forall|j: int|
                0 <= j < i ==> texts@[j]@ == fetch_line(mail_views(rows@)[j], fetch_views(items@)),
        decreases rows.len() - i,
    {
        assert(mail_views(rows@)[i as int] == rows@[i as int]@);
        texts.push(fetch_line_for(&rows[i], &items));
        i += 1;
    }
    texts.push(tagged(tag, " OK FETCH completed\r\n"));
    assert(views(texts@) =~= fetch_lines(tag@, mail_views(rows@), fetch_views(items@)));
    answer(texts, state, ResponseInfo::Regular)
}

impl IMAPOp for Fetch {
    /// Shows data items of messages picked by sequence number.
    fn process(tag: &str, args: &str, state: IMAPState, db: &mut DBClient, now: Timestamp) -> (r:
        Handled)
        ensures
            final(db)@ == old(db)@,
            fetch_outcome(tag@, args@, state, old(db)@, r, false),
    {
        fetch_or_uid(tag, args, state, db, false)
    }
}

} // verus!
