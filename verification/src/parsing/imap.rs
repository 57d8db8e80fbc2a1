//! Tokens of the IMAP command grammar: numbers, literals, quoted strings,
//! lists, mailbox names, and the arguments of SEARCH and FETCH.

use vstd::prelude::*;
pub use crate::parsing::fetch::{
    fetch, fetch_args, FetchArgs, SectionMsgText, SectionSpec, SectionText,
};
use crate::imap_op::search::{
    key_views, keys_from, parse_keys, return_option_of, KeyView, ReturnOptions, SearchKeys,
};
use crate::scan::{
    find_char_from, find_from, matches_at, occurs_at, skip_word, skip_ws, split_words, word_end,
    words, ws_end,
};
use crate::text::{
    all_digits, bounded_nat, chars_to_string, copy_range, eq_lower, is_ascii_digit, is_digit,
    lower_seq, parse_nat, str_to_chars, string_views, views,
};

verus! {

/// The first position at or after `i` that holds no decimal digit.
pub open spec fn digits_end(s: Seq<char>, i: int) -> int
    decreases s.len() - i,
{
    if 0 <= i < s.len() && is_digit(s[i]) {
        digits_end(s, i + 1)
    } else {
        i
    }
}

pub proof fn lemma_digits_end(s: Seq<char>, i: int)
    requires
        0 <= i <= s.len(),
    ensures
        i <= digits_end(s, i) <= s.len(),
        all_digits(s.subrange(i, digits_end(s, i))),
    decreases s.len() - i,
{
    if i < s.len() && is_digit(s[i]) {
        lemma_digits_end(s, i + 1);
        let e = digits_end(s, i);
        assert forall|j: int| 0 <= j < e - i implies is_digit(#[trigger] s.subrange(i, e)[j]) by {
            if j > 0 {
                assert(s.subrange(i + 1, e)[j - 1] == s[i + j]);
            }
        }
    }
}

pub fn skip_digits(s: &[char], i: usize) -> (r: usize)
    requires
        i <= s.len(),
    ensures
        r == digits_end(s@, i as int),
        i <= r <= s.len(),
        all_digits(s@.subrange(i as int, r as int)),
{
    proof {
        lemma_digits_end(s@, i as int);
    }
    let mut k: usize = i;
    while k < s.len() && is_ascii_digit(s[k])
        invariant
            i <= k <= s.len(),
            digits_end(s@, i as int) == digits_end(s@, k as int),
        decreases s.len() - k,
    {
        k += 1;
    }
    k
}

/// The number at position `i`: the longest run of digits there, which must
/// not be empty and must fit 32 bits. Gives the number and the position
/// after it.
pub open spec fn number_at(s: Seq<char>, i: int) -> Option<(u32, int)> {
    let e = digits_end(s, i);
    match bounded_nat(s.subrange(i, e), u32::MAX as nat) {
        Some(n) => Some((n as u32, e)),
        None => None,
    }
}

pub fn number_chars(s: &[char], i: usize) -> (r: Option<(u32, usize)>)
    requires
        i <= s.len(),
    ensures
        match (r, number_at(s@, i as int)) {
            (Some(p), Some(q)) => p.0 == q.0 && p.1 == q.1 && i < p.1 <= s.len(),
            (None, None) => true,
            _ => false,
        },
{
    let e = skip_digits(s, i);
    let digits = copy_range(s, i, e);
    match parse_nat(digits.as_slice(), u32::MAX as u64) {
        Some(n) => Some((n as u32, e)),
        None => None,
    }
}

/// What `number` reads at the start of a text: the number and the rest.
pub open spec fn number_of(s: Seq<char>) -> Option<(Seq<char>, u32)> {
    match number_at(s, 0) {
        Some((n, e)) => Some((s.subrange(e, s.len() as int), n)),
        None => None,
    }
}

/// Reads a decimal number from the start of the input; gives the rest of
/// the input and the number.
pub fn number(i: &str) -> (r: Option<(String, u32)>)
    ensures
        match (r, number_of(i@)) {
            (Some(p), Some(q)) => p.0@ == q.0 && p.1 == q.1,
            (None, None) => true,
            _ => false,
        },
{
    let s = str_to_chars(i);
    match number_chars(s.as_slice(), 0) {
        Some((n, e)) => {
            let rest = copy_range(s.as_slice(), e, s.len());
            Some((chars_to_string(rest.as_slice()), n))
        },
        None => None,
    }
}

/// A literal announcement at position `i`: `{N}` or `{N+}`. Gives the
/// count, whether the `+` is there, and the position after the brace.
pub open spec fn literal_at(s: Seq<char>, i: int) -> Option<(u32, bool, int)> {
    if 0 <= i < s.len() && s[i] == '{' {
        match number_at(s, i + 1) {
            Some((n, e)) => {
                if e < s.len() && s[e] == '}' {
                    Some((n, false, e + 1))
                } else if e + 1 < s.len() && s[e] == '+' && s[e + 1] == '}' {
                    Some((n, true, e + 2))
                } else {
                    None
                }
            },
            None => None,
        }
    } else {
        None
    }
}

pub fn literal_chars(s: &[char], i: usize) -> (r: Option<(u32, bool, usize)>)
    requires
        i <= s.len(),
    ensures
        match (r, literal_at(s@, i as int)) {
            (Some(p), Some(q)) => p.0 == q.0 && p.1 == q.1 && p.2 == q.2 && i < p.2 <= s.len(),
            (None, None) => true,
            _ => false,
        },
{
    if i < s.len() && s[i] == '{' {
        match number_chars(s, i + 1) {
            Some((n, e)) => {
                if e < s.len() && s[e] == '}' {
                    Some((n, false, e + 1))
                } else if e < s.len() - 1 && s[e] == '+' && s[e + 1] == '}' {
                    Some((n, true, e + 2))
                } else {
                    None
                }
            },
            None => None,
        }
    } else {
        None
    }
}

/// The number of octets that a character takes in UTF-8.
pub open spec fn char_width(c: char) -> int {
    let u = c as u32;
    if u < 0x80 {
        1
    } else if u < 0x800 {
        2
    } else if u < 0x10000 {
        3
    } else {
        4
    }
}

pub fn width_of(c: char) -> (r: usize)
    ensures
        r == char_width(c),
{
    let u = c as u32;
    if u < 0x80 {
        1
    } else if u < 0x800 {
        2
    } else if u < 0x10000 {
        3
    } else {
        4
    }
}

/// The position at which the characters from `i` on have taken exactly
/// `count` octets; nothing where the text ends before, or a character
/// straddles the count.
pub open spec fn octets_end(s: Seq<char>, i: int, count: int) -> Option<int>
    decreases s.len() - i,
{
    if count == 0 {
        Some(i)
    } else if count < 0 || i < 0 || i >= s.len() {
        None
    } else {
        octets_end(s, i + 1, count - char_width(s[i]))
    }
}

pub fn take_octets(s: &[char], start: usize, count: usize) -> (r: Option<usize>)
    requires
        start <= s.len(),
    ensures
        match (r, octets_end(s@, start as int, count as int)) {
            (Some(e), Some(f)) => e == f && start <= e <= s.len(),
            (None, None) => true,
            _ => false,
        },
{
    let mut i: usize = start;
    let mut left: usize = count;
    loop
        invariant
            start <= i <= s.len(),
            octets_end(s@, start as int, count as int) == octets_end(s@, i as int, left as int),
        decreases s.len() - i,
    {
        if left == 0 {
            return Some(i);
        }
        if i >= s.len() {
            return None;
        }
        let w = width_of(s[i]);
        if w > left {
            assert(octets_end(s@, i + 1, left - w) is None);
            return None;
        }
        left -= w;
        i += 1;
    }
}

/// Where the literal starts behind its announcement: after one space or
/// one line break. Nothing where neither stands there.
pub open spec fn literal_start(s: Seq<char>, end: int) -> Option<int> {
    if 0 <= end < s.len() && s[end] == ' ' {
        Some(end + 1)
    } else if occurs_at(s, "\r\n"@, end) {
        Some(end + 2)
    } else {
        None
    }
}

/// The literal at position `a`: its announcement stands there, and its
/// text are the announced octets behind one space or one line break.
/// Gives the text and the position after it.
pub open spec fn literal_text_at(s: Seq<char>, a: int) -> Option<(Seq<char>, int)> {
    match literal_at(s, a) {
        Some((count, _, e)) => match literal_start(s, e) {
            Some(start) => match octets_end(s, start, count as int) {
                Some(end) => if a < start <= end <= s.len() {
                    Some((s.subrange(start, end), end))
                } else {
                    None
                },
                None => None,
            },
            None => None,
        },
        None => None,
    }
}

/// Reads the literal at position `a`, where one stands there whole.
pub fn literal_text(s: &[char], a: usize) -> (r: Option<(Vec<char>, usize)>)
    requires
        a <= s.len(),
    ensures
        match (r, literal_text_at(s@, a as int)) {
            (Some(p), Some(q)) => p.0@ == q.0 && p.1 == q.1 && a < p.1 <= s.len(),
            (None, None) => true,
            _ => false,
        },
{
    let (count, _plus, e) = match literal_chars(s, a) {
        Some(p) => p,
        None => {
            return None;
        },
    };
    let crlf = str_to_chars("\r\n");
    proof {
        reveal_strlit("\r\n");
    }
    let start = if e < s.len() && s[e] == ' ' {
        e + 1
    } else if matches_at(s, crlf.as_slice(), e) {
        e + 2
    } else {
        return None;
    };
    match take_octets(s, start, count as usize) {
        Some(end) => Some((copy_range(s, start, end), end)),
        None => None,
    }
}

/// What `literal` reads at the start of a text: the rest and the count.
pub open spec fn literal_of(s: Seq<char>) -> Option<(Seq<char>, u32)> {
    match literal_at(s, 0) {
        Some((n, _, e)) => Some((s.subrange(e, s.len() as int), n)),
        None => None,
    }
}

/// Reads a literal announcement, `{N}` or `{N+}`, from the start of the
/// input; gives the rest of the input and the count.
pub fn literal(input: &str) -> (r: Option<(String, u32)>)
    ensures
        match (r, literal_of(input@)) {
            (Some(p), Some(q)) => p.0@ == q.0 && p.1 == q.1,
            (None, None) => true,
            _ => false,
        },
{
    let s = str_to_chars(input);
    match literal_chars(s.as_slice(), 0) {
        Some((n, _plus, e)) => {
            let rest = copy_range(s.as_slice(), e, s.len());
            Some((chars_to_string(rest.as_slice()), n))
        },
        None => None,
    }
}

/// The inside of a quoted string from position `i`, which is just after
/// the opening quote: every character up to the closing quote, with `\"`
/// and `\\` standing for `"` and `\`. Gives the characters and the position
/// after the closing quote; nothing where the string does not close or a
/// backslash stands before another character.
pub open spec fn quoted_body(s: Seq<char>, i: int) -> Option<(Seq<char>, int)>
    decreases s.len() - i,
{
    if i < 0 || i >= s.len() {
        None
    } else if s[i] == '"' {
        Some((seq![], i + 1))
    } else if s[i] == '\\' {
        if i + 1 < s.len() && (s[i + 1] == '"' || s[i + 1] == '\\') {
            match quoted_body(s, i + 2) {
                Some((rest, j)) => Some((seq![s[i + 1]] + rest, j)),
                None => None,
            }
        } else {
            None
        }
    } else {
        match quoted_body(s, i + 1) {
            Some((rest, j)) => Some((seq![s[i]] + rest, j)),
            None => None,
        }
    }
}

/// `quoted_body` with the characters read so far put in front.
pub open spec fn quoted_rest(
    acc: Seq<char>,
    tail: Option<(Seq<char>, int)>,
) -> Option<(Seq<char>, int)> {
    match tail {
        Some((rest, j)) => Some((acc + rest, j)),
        None => None,
    }
}

pub proof fn lemma_quoted_body_end(s: Seq<char>, i: int)
    requires
        0 <= i,
    ensures
        quoted_body(s, i) matches Some(p) ==> i < p.1 <= s.len(),
    decreases s.len() - i,
{
    if i < s.len() && s[i] != '"' {
        if s[i] == '\\' {
            if i + 1 < s.len() {
                lemma_quoted_body_end(s, i + 2);
            }
        } else {
            lemma_quoted_body_end(s, i + 1);
        }
    }
}

pub fn quoted_chars(s: &[char], start: usize) -> (r: Option<(Vec<char>, usize)>)
    requires
        start <= s.len(),
    ensures
        match (r, quoted_body(s@, start as int)) {
            (Some(p), Some(q)) => p.0@ == q.0 && p.1 == q.1 && start < p.1 <= s.len(),
            (None, None) => true,
            _ => false,
        },
{
    let mut acc: Vec<char> = Vec::new();
    let mut i: usize = start;
    proof {
        lemma_quoted_body_end(s@, start as int);
    }
    loop
        invariant
            start <= i <= s.len(),
            quoted_body(s@, start as int) == quoted_rest(acc@, quoted_body(s@, i as int)),
        decreases s.len() - i,
    {
        if i >= s.len() {
            return None;
        }
        let c = s[i];
        if c == '"' {
            assert(acc@ + Seq::<char>::empty() =~= acc@);
            return Some((acc, i + 1));
        } else if c == '\\' {
            if i + 1 < s.len() && (s[i + 1] == '"' || s[i + 1] == '\\') {
                let ghost before = acc@;
                acc.push(s[i + 1]);
                proof {
                    match quoted_body(s@, i + 2) {
                        Some((rest, j)) => {
                            assert(acc@ + rest =~= before + (seq![s@[i + 1]] + rest));
                        },
                        None => {},
                    }
                }
                i += 2;
            } else {
                return None;
            }
        } else {
            let ghost before = acc@;
            acc.push(c);
            proof {
                match quoted_body(s@, i + 1) {
                    Some((rest, j)) => {
                        assert(acc@ + rest =~= before + (seq![s@[i as int]] + rest));
                    },
                    None => {},
                }
            }
            i += 1;
        }
    }
}

/// A quoted string at the start of a text: the rest and the characters
/// inside the quotes.
pub open spec fn quoted_of(s: Seq<char>) -> Option<(Seq<char>, Seq<char>)> {
    if s.len() > 0 && s[0] == '"' {
        match quoted_body(s, 1) {
            Some((inside, e)) => Some((s.subrange(e, s.len() as int), inside)),
            None => None,
        }
    } else {
        None
    }
}

/// Reads a quoted string from the start of the input; gives the rest of
/// the input and the string without its quotes and escapes.
pub fn quoted(input: &str) -> (r: Option<(String, String)>)
    ensures
        match (r, quoted_of(input@)) {
            (Some(p), Some(q)) => p.0@ == q.0 && p.1@ == q.1,
            (None, None) => true,
            _ => false,
        },
{
    let s = str_to_chars(input);
    if s.len() > 0 && s[0] == '"' {
        match quoted_chars(s.as_slice(), 1) {
            Some((inside, e)) => {
                let rest = copy_range(s.as_slice(), e, s.len());
                Some((chars_to_string(rest.as_slice()), chars_to_string(inside.as_slice())))
            },
            None => None,
        }
    } else {
        None
    }
}

/// A string argument: the inside of the quotes where the text starts with
/// a quoted string, the text itself otherwise.
pub open spec fn string_of(s: Seq<char>) -> Seq<char> {
    match quoted_of(s) {
        Some((_, inside)) => inside,
        None => s,
    }
}

pub fn string_chars(s: &[char]) -> (r: Vec<char>)
    ensures
        r@ == string_of(s@),
{
    if s.len() > 0 && s[0] == '"' {
        match quoted_chars(s, 1) {
            Some((inside, _)) => inside,
            None => {
                let r = copy_range(s, 0, s.len());
                assert(r@ == s@);
                r
            },
        }
    } else {
        let r = copy_range(s, 0, s.len());
        assert(r@ == s@);
        r
    }
}

/// Reads a string argument: a quoted string gives what is inside its
/// quotes, any other text stands for itself.
pub fn string(input: &str) -> (r: String)
    ensures
        r@ == string_of(input@),
{
    let s = str_to_chars(input);
    let r = string_chars(s.as_slice());
    chars_to_string(r.as_slice())
}

/// The mailbox that a name denotes.
#[derive(Debug, PartialEq, Eq)]
pub enum Mailbox {
    Inbox,
    Custom(String),
}

pub ghost enum MailboxView {
    Inbox,
    Custom(Seq<char>),
}

impl View for Mailbox {
    type V = MailboxView;

    open spec fn view(&self) -> MailboxView {
        match self {
            Mailbox::Inbox => MailboxView::Inbox,
            Mailbox::Custom(s) => MailboxView::Custom(s@),
        }
    }
}

/// `INBOX` in any letter case is the inbox; every other name is itself.
pub open spec fn mailbox_named(s: Seq<char>) -> MailboxView {
    if lower_seq(s) == "inbox"@ {
        MailboxView::Inbox
    } else {
        MailboxView::Custom(s)
    }
}

impl Mailbox {
    pub fn from_chars(s: &[char]) -> (r: Mailbox)
        ensures
            r@ == mailbox_named(s@),
    {
        if eq_lower(s, "inbox") {
            Mailbox::Inbox
        } else {
            Mailbox::Custom(chars_to_string(s))
        }
    }

    /// The mailbox that the name denotes.
    pub fn from(s: &str) -> (r: Mailbox)
        ensures
            r@ == mailbox_named(s@),
    {
        let v = str_to_chars(s);
        Self::from_chars(v.as_slice())
    }
}

/// Reads a quoted mailbox name from the start of the input; gives the rest
/// of the input and the mailbox.
pub fn mailbox(input: &str) -> (r: Option<(String, Mailbox)>)
    ensures
        match (r, quoted_of(input@)) {
            (Some(p), Some(q)) => p.0@ == q.0 && p.1@ == mailbox_named(q.1),
            (None, None) => true,
            _ => false,
        },
{
    match quoted(input) {
        Some((rest, name)) => Some((rest, Mailbox::from(name.as_str()))),
        None => None,
    }
}

/// `list_from` with the elements read so far put in front.
pub open spec fn list_rest(acc: Seq<Seq<char>>, tail: Option<Seq<Seq<char>>>) -> Option<
    Seq<Seq<char>>,
> {
    match tail {
        Some(rest) => Some(acc + rest),
        None => None,
    }
}

/// The elements of a list from position `i` on: elements are separated by
/// white space; one that starts with `"` is a quoted string and stands for
/// the characters inside its quotes; a literal that stands there whole
/// stands for its text. Nothing where a quoted string is malformed.
pub open spec fn list_from(s: Seq<char>, i: int) -> Option<Seq<Seq<char>>>
    decreases s.len() - i,
{
    let a = ws_end(s, i);
    if !(i <= a < s.len()) {
        Some(seq![])
    } else if s[a] == '"' {
        match quoted_body(s, a + 1) {
            Some((inside, j)) => {
                if a < j <= s.len() {
                    list_rest(seq![inside], list_from(s, j))
                } else {
                    None
                }
            },
            None => None,
        }
    } else if literal_text_at(s, a) is Some {
        let (text, j) = literal_text_at(s, a)->0;
        if a < j <= s.len() {
            list_rest(seq![text], list_from(s, j))
        } else {
            None
        }
    } else {
        let b = word_end(s, a);
        if a < b <= s.len() {
            list_rest(seq![s.subrange(a, b)], list_from(s, b))
        } else {
            None
        }
    }
}

/// Whether a list ends with the announcement of a literal whose text is
/// still to come, and whether that announcement holds the `+`. The list is
/// read as `list_from` reads it; an announcement is still to be followed
/// where nothing but white space stands behind it.
pub open spec fn awaited_from(s: Seq<char>, i: int) -> Option<bool>
    decreases s.len() - i,
{
    let a = ws_end(s, i);
    if !(i <= a < s.len()) {
        None
    } else if s[a] == '"' {
        match quoted_body(s, a + 1) {
            Some((_, j)) => {
                if a < j <= s.len() {
                    awaited_from(s, j)
                } else {
                    None
                }
            },
            None => None,
        }
    } else if literal_text_at(s, a) is Some {
        let (_, j) = literal_text_at(s, a)->0;
        if a < j <= s.len() {
            awaited_from(s, j)
        } else {
            None
        }
    } else {
        match literal_at(s, a) {
            Some((_, plus, e)) if ws_end(s, e) >= s.len() => Some(plus),
            _ => {
                let b = word_end(s, a);
                if a < b <= s.len() {
                    awaited_from(s, b)
                } else {
                    None
                }
            },
        }
    }
}

/// Says whether a list ends with the announcement of a literal whose text
/// is still to come, and whether the announcement holds the `+`.
pub fn awaits_literal(s: &[char]) -> (r: Option<bool>)
    ensures
        r == awaited_from(s@, 0),
{
    let mut i: usize = 0;
    loop
        invariant
            i <= s.len(),
            awaited_from(s@, 0) == awaited_from(s@, i as int),
        decreases s.len() - i,
    {
        let a = skip_ws(s, i);
        if a >= s.len() {
            return None;
        }
        proof {
            crate::scan::lemma_ws_end(s@, i as int);
        }
        if s[a] == '"' {
            match quoted_chars(s, a + 1) {
                Some((_, j)) => {
                    i = j;
                },
                None => {
                    return None;
                },
            }
        } else {
            match literal_text(s, a) {
                Some((_, j)) => {
                    i = j;
                },
                None => {
                    match literal_chars(s, a) {
                        Some((_, plus, e)) => {
                            if skip_ws(s, e) >= s.len() {
                                return Some(plus);
                            }
                        },
                        None => {},
                    }
                    let b = skip_word(s, a);
                    proof {
                        crate::scan::lemma_word_end(s@, a as int);
                    }
                    i = b;
                },
            }
        }
    }
}

/// The elements of a list.
pub open spec fn list_of(s: Seq<char>) -> Option<Seq<Seq<char>>> {
    list_from(s, 0)
}

pub fn parse_list_chars(s: &[char]) -> (r: Option<Vec<Vec<char>>>)
    ensures
        r is Some <==> list_of(s@) is Some,
        r is Some ==> views(r->0@) == list_of(s@)->0,
{
    let mut out: Vec<Vec<char>> = Vec::new();
    let mut i: usize = 0;
    loop
        invariant
            i <= s.len(),
            list_of(s@) == list_rest(views(out@), list_from(s@, i as int)),
        decreases s.len() - i,
    {
        let a = skip_ws(s, i);
        if a >= s.len() {
            assert(views(out@) + Seq::<Seq<char>>::empty() =~= views(out@));
            return Some(out);
        }
        proof {
            crate::scan::lemma_ws_end(s@, i as int);
        }
        let ghost before = views(out@);
        if s[a] == '"' {
            match quoted_chars(s, a + 1) {
                Some((inside, j)) => {
                    out.push(inside);
                    assert(views(out@) =~= before.push(inside@));
                    proof {
                        match list_from(s@, j as int) {
                            Some(rest) => {
                                assert(views(out@) + rest =~= before + (seq![inside@] + rest));
                            },
                            None => {},
                        }
                    }
                    i = j;
                },
                None => {
                    return None;
                },
            }
        } else if let Some((text, j)) = literal_text(s, a) {
            out.push(text);
            assert(views(out@) =~= before.push(text@));
            proof {
                match list_from(s@, j as int) {
                    Some(rest) => {
                        assert(views(out@) + rest =~= before + (seq![text@] + rest));
                    },
                    None => {},
                }
            }
            i = j;
        } else {
            let b = skip_word(s, a);
            proof {
                crate::scan::lemma_word_end(s@, a as int);
            }
            let piece = copy_range(s, a, b);
            out.push(piece);
            assert(views(out@) =~= before.push(s@.subrange(a as int, b as int)));
            proof {
                match list_from(s@, b as int) {
                    Some(rest) => {
                        assert(views(out@) + rest =~= before + (seq![
                            s@.subrange(a as int, b as int),
                        ] + rest));
                    },
                    None => {},
                }
            }
            i = b;
        }
    }
}

/// The strings of the given character vectors.
pub fn to_strings(v: &Vec<Vec<char>>) -> (r: Vec<String>)
    ensures
        string_views(r@) == views(v@),
{
    let mut out: Vec<String> = Vec::new();
    let mut i: usize = 0;
    while i < v.len()
        invariant
            i <= v.len(),
            out@.len() == i,
            forall|j: int| 0 <= j < i ==> out@[j]@ == v@[j]@,
        decreases v.len() - i,
    {
        out.push(chars_to_string(v[i].as_slice()));
        i += 1;
    }
    assert(string_views(out@) =~= views(v@));
    out
}

/// Splits a list into its elements: `HELLO WORLD "QUOTED ELEMENT"` gives
/// `HELLO`, `WORLD` and `QUOTED ELEMENT`.
pub fn parse_list(list: &str) -> (r: Option<Vec<String>>)
    ensures
        r is Some <==> list_of(list@) is Some,
        r is Some ==> string_views(r->0@) == list_of(list@)->0,
{
    let s = str_to_chars(list);
    match parse_list_chars(s.as_slice()) {
        Some(v) => Some(to_strings(&v)),
        None => None,
    }
}


/// The arguments of a SEARCH command.
#[derive(Debug)]
pub struct SearchArgs {
    pub return_opts: Vec<ReturnOptions>,
    pub search_keys: Vec<SearchKeys>,
}

impl SearchArgs {
    /// No return option and no key.
    pub fn new() -> (r: SearchArgs)
        ensures
            r.return_opts@.len() == 0,
            r.search_keys@.len() == 0,
    {
        SearchArgs { return_opts: Vec::new(), search_keys: Vec::new() }
    }
}

/// The return options that the words name, if each names one.
pub open spec fn options_of(parts: Seq<Seq<char>>) -> Option<Seq<ReturnOptions>> {
    if forall|i: int| 0 <= i < parts.len() ==> (#[trigger] return_option_of(parts[i])) is Some {
        Some(Seq::new(parts.len(), |i: int| return_option_of(parts[i])->0))
    } else {
        None
    }
}

pub fn parse_options(parts: &Vec<Vec<char>>) -> (r: Option<Vec<ReturnOptions>>)
    ensures
        r is Some <==> options_of(views(parts@)) is Some,
        r is Some ==> r->0@ == options_of(views(parts@))->0,
{
    let mut out: Vec<ReturnOptions> = Vec::new();
    let mut i: usize = 0;
    while i < parts.len()
        invariant
            i <= parts.len(),
            out@.len() == i,
            forall|j: int| 0 <= j < i ==> (#[trigger] return_option_of(views(parts@)[j])) is Some,
            forall|j: int| 0 <= j < i ==> out@[j] == return_option_of(views(parts@)[j])->0,
        decreases parts.len() - i,
    {
        match ReturnOptions::from_chars(parts[i].as_slice()) {
            Some(o) => {
                out.push(o);
            },
            None => {
                assert(return_option_of(views(parts@)[i as int]) is None);
                return None;
            },
        }
        i += 1;
    }
    assert(out@ =~= options_of(views(parts@))->0);
    Some(out)
}

/// Whether the arguments start with `RETURN (`, in any letter case.
pub open spec fn has_return(s: Seq<char>) -> bool {
    s.len() >= 8 && lower_seq(s.subrange(0, 8)) == "return ("@
}

/// The keys that a text writes, one after the other.
pub open spec fn keys_in(s: Seq<char>) -> Option<Seq<KeyView>> {
    match list_of(s) {
        Some(t) => keys_from(t, 0),
        None => None,
    }
}

/// The arguments of SEARCH: an optional `RETURN (…)` with return options
/// between the parentheses, then the keys. Nothing where the parenthesis
/// does not close, a word in it names no return option, or a key is
/// malformed.
pub open spec fn search_of(s: Seq<char>) -> Option<(Seq<ReturnOptions>, Seq<KeyView>)> {
    if has_return(s) {
        let close = find_from(s, ')', 8);
        if close < s.len() {
            match (
                options_of(words(s.subrange(8, close))),
                keys_in(s.subrange(close + 1, s.len() as int)),
            ) {
                (Some(opts), Some(keys)) => Some((opts, keys)),
                _ => None,
            }
        } else {
            None
        }
    } else {
        match keys_in(s) {
            Some(keys) => Some((seq![], keys)),
            None => None,
        }
    }
}

/// Whether the arguments of SEARCH end with the announcement of a literal
/// whose text is still to come, and whether that announcement holds the
/// `+`.
pub open spec fn search_awaits(s: Seq<char>) -> Option<bool> {
    if has_return(s) {
        let close = find_from(s, ')', 8);
        if close < s.len() {
            awaited_from(s.subrange(close + 1, s.len() as int), 0)
        } else {
            None
        }
    } else {
        awaited_from(s, 0)
    }
}

/// Says whether the arguments of a SEARCH command wait for the text of a
/// literal.
pub fn search_pending(input: &str) -> (r: Option<bool>)
    ensures
        r == search_awaits(input@),
{
    let s = str_to_chars(input);
    let with_return = if s.len() >= 8 {
        let head = copy_range(s.as_slice(), 0, 8);
        eq_lower(head.as_slice(), "return (")
    } else {
        false
    };
    if with_return {
        let close = find_char_from(s.as_slice(), ')', 8);
        if close < s.len() {
            let rest = copy_range(s.as_slice(), close + 1, s.len());
            awaits_literal(rest.as_slice())
        } else {
            None
        }
    } else {
        awaits_literal(s.as_slice())
    }
}

pub fn parse_keys_in(s: &[char]) -> (r: Option<Vec<SearchKeys>>)
    ensures
        r is Some <==> keys_in(s@) is Some,
        r is Some ==> key_views(r->0@) == keys_in(s@)->0,
{
    match parse_list_chars(s) {
        Some(t) => parse_keys(&t),
        None => None,
    }
}

/// Reads the arguments of a SEARCH command, the verb already taken off.
pub fn search(input: &str) -> (r: Option<SearchArgs>)
    ensures
        match (r, search_of(input@)) {
            (Some(a), Some(v)) => a.return_opts@ == v.0 && key_views(a.search_keys@) == v.1,
            (None, None) => true,
            _ => false,
        },
{
    let s = str_to_chars(input);
    let with_return = if s.len() >= 8 {
        let head = copy_range(s.as_slice(), 0, 8);
        eq_lower(head.as_slice(), "return (")
    } else {
        false
    };
    if with_return {
        let close = find_char_from(s.as_slice(), ')', 8);
        if close < s.len() {
            let inside = copy_range(s.as_slice(), 8, close);
            let parts = split_words(inside.as_slice());
            let rest = copy_range(s.as_slice(), close + 1, s.len());
            match (parse_options(&parts), parse_keys_in(rest.as_slice())) {
                (Some(opts), Some(keys)) => Some(
                    SearchArgs { return_opts: opts, search_keys: keys },
                ),
                _ => None,
            }
        } else {
            None
        }
    } else {
        match parse_keys_in(s.as_slice()) {
            Some(keys) => Some(SearchArgs { return_opts: Vec::new(), search_keys: keys }),
            None => None,
        }
    }
}

} // verus!
