//! The arguments of FETCH: a sequence set and data items.

use vstd::prelude::*;
use crate::imap_op::search::{sequence_set_of, Sequence, SequenceSet};
use crate::parsing::imap::{digits_end, skip_digits};
use crate::scan::{
    find_char_from, find_from, matches_at, occurs_at, skip_ws, split_words, trim_end,
    trimmed_end, words, ws_end,
};
use crate::text::{
    bounded_nat, copy_range, eq_str, is_alpha, is_ascii_alpha, is_ascii_digit, is_digit,
    lower_seq, parse_nat, str_to_chars, string_views, to_lower_vec, views,
};

verus! {

/// The text part of a message that a section names.
#[derive(Debug, PartialEq, Eq)]
pub enum SectionMsgText {
    Header,
    HeaderFields(Vec<String>),
    HeaderFieldsNot(Vec<String>),
    Text,
}

/// What may follow the part numbers of a section.
#[derive(Debug, PartialEq, Eq)]
pub enum SectionText {
    Mime,
    MsgText(SectionMsgText),
}

/// A section specifier.
#[derive(Debug, PartialEq, Eq)]
pub enum SectionSpec {
    MsgText(SectionMsgText),
    Other(Vec<i32>, Option<SectionText>),
}

/// A data item of FETCH.
#[derive(Debug, PartialEq, Eq)]
pub enum FetchArgs {
    Binary(Vec<i32>, Option<(i32, i32)>),
    BinaryPeek(Vec<i32>, Option<(i32, i32)>),
    BinarySize(Vec<i32>),
    BodyNoArgs,
    Body(SectionSpec, Option<(i32, i32)>),
    BodyPeek(SectionSpec, Option<(i32, i32)>),
    BodyStructure,
    Envelope,
    Flags,
    InternalDate,
    RFC822Size,
    Uid,
}

pub ghost enum MsgTextView {
    Header,
    HeaderFields(Seq<Seq<char>>),
    HeaderFieldsNot(Seq<Seq<char>>),
    Text,
}

pub ghost enum TextView {
    Mime,
    MsgText(MsgTextView),
}

pub ghost enum SectionView {
    MsgText(MsgTextView),
    Other(Seq<i32>, Option<TextView>),
}

pub ghost enum FetchView {
    Binary(Seq<i32>, Option<(i32, i32)>),
    BinaryPeek(Seq<i32>, Option<(i32, i32)>),
    BinarySize(Seq<i32>),
    BodyNoArgs,
    Body(SectionView, Option<(i32, i32)>),
    BodyPeek(SectionView, Option<(i32, i32)>),
    BodyStructure,
    Envelope,
    Flags,
    InternalDate,
    RFC822Size,
    Uid,
}

impl View for SectionMsgText {
    type V = MsgTextView;

    open spec fn view(&self) -> MsgTextView {
        match self {
            SectionMsgText::Header => MsgTextView::Header,
            SectionMsgText::HeaderFields(n) => MsgTextView::HeaderFields(string_views(n@)),
            SectionMsgText::HeaderFieldsNot(n) => MsgTextView::HeaderFieldsNot(string_views(n@)),
            SectionMsgText::Text => MsgTextView::Text,
        }
    }
}

impl View for SectionText {
    type V = TextView;

    open spec fn view(&self) -> TextView {
        match self {
            SectionText::Mime => TextView::Mime,
            SectionText::MsgText(t) => TextView::MsgText(t@),
        }
    }
}

impl View for SectionSpec {
    type V = SectionView;

    open spec fn view(&self) -> SectionView {
        match self {
            SectionSpec::MsgText(t) => SectionView::MsgText(t@),
            SectionSpec::Other(parts, text) => SectionView::Other(
                parts@,
                match text {
                    Some(t) => Some(t@),
                    None => None,
                },
            ),
        }
    }
}

impl View for FetchArgs {
    type V = FetchView;

    open spec fn view(&self) -> FetchView {
        match self {
            FetchArgs::Binary(p, r) => FetchView::Binary(p@, *r),
            FetchArgs::BinaryPeek(p, r) => FetchView::BinaryPeek(p@, *r),
            FetchArgs::BinarySize(p) => FetchView::BinarySize(p@),
            FetchArgs::BodyNoArgs => FetchView::BodyNoArgs,
            FetchArgs::Body(s, r) => FetchView::Body(s@, *r),
            FetchArgs::BodyPeek(s, r) => FetchView::BodyPeek(s@, *r),
            FetchArgs::BodyStructure => FetchView::BodyStructure,
            FetchArgs::Envelope => FetchView::Envelope,
            FetchArgs::Flags => FetchView::Flags,
            FetchArgs::InternalDate => FetchView::InternalDate,
            FetchArgs::RFC822Size => FetchView::RFC822Size,
            FetchArgs::Uid => FetchView::Uid,
        }
    }
}

/// The views of a list of data items.
pub open spec fn fetch_views(v: Seq<FetchArgs>) -> Seq<FetchView> {
    Seq::new(v.len(), |i: int| v[i]@)
}

/// The number at position `i`, which must fit a signed 32-bit integer,
/// and the position after it.
pub open spec fn part_at(s: Seq<char>, i: int) -> Option<(i32, int)> {
    let e = digits_end(s, i);
    match bounded_nat(s.subrange(i, e), i32::MAX as nat) {
        Some(n) => Some((n as i32, e)),
        None => None,
    }
}

pub fn parse_part(s: &[char], i: usize) -> (r: Option<(i32, usize)>)
    requires
        i <= s.len(),
    ensures
        match (r, part_at(s@, i as int)) {
            (Some(p), Some(q)) => p.0 == q.0 && p.1 == q.1 && i < p.1 <= s.len(),
            (None, None) => true,
            _ => false,
        },
{
    let e = skip_digits(s, i);
    let digits = copy_range(s, i, e);
    match parse_nat(digits.as_slice(), i32::MAX as u64) {
        Some(n) => Some((n as i32, e)),
        None => None,
    }
}

/// The part numbers from position `i` on: numbers with `.` between them,
/// as many as there are, and the position after the last. The numbers
/// read so far are in `acc`.
pub open spec fn parts_from(s: Seq<char>, i: int, acc: Seq<i32>) -> (Seq<i32>, int)
    decreases s.len() - i,
{
    if acc.len() == 0 {
        match part_at(s, i) {
            Some((n, e)) => if i < e <= s.len() {
                parts_from(s, e, acc.push(n))
            } else {
                (acc, i)
            },
            None => (acc, i),
        }
    } else if 0 <= i < s.len() && s[i] == '.' {
        match part_at(s, i + 1) {
            Some((n, e)) => if i < e <= s.len() {
                parts_from(s, e, acc.push(n))
            } else {
                (acc, i)
            },
            None => (acc, i),
        }
    } else {
        (acc, i)
    }
}

/// The part numbers at position `i`.
pub open spec fn parts_at(s: Seq<char>, i: int) -> (Seq<i32>, int) {
    parts_from(s, i, seq![])
}

pub proof fn lemma_parts_from(s: Seq<char>, i: int, acc: Seq<i32>)
    requires
        0 <= i <= s.len(),
    ensures
        i <= parts_from(s, i, acc).1 <= s.len(),
    decreases s.len() - i,
{
    if acc.len() == 0 {
        match part_at(s, i) {
            Some((n, e)) => {
                if i < e <= s.len() {
                    lemma_parts_from(s, e, acc.push(n));
                }
            },
            None => {},
        }
    } else if i < s.len() && s[i] == '.' {
        match part_at(s, i + 1) {
            Some((n, e)) => {
                if i < e <= s.len() {
                    lemma_parts_from(s, e, acc.push(n));
                }
            },
            None => {},
        }
    }
}

pub fn parse_parts(s: &[char], start: usize) -> (r: (Vec<i32>, usize))
    requires
        start <= s.len(),
    ensures
        r.0@ == parts_at(s@, start as int).0,
        r.1 == parts_at(s@, start as int).1,
        start <= r.1 <= s.len(),
{
    let mut acc: Vec<i32> = Vec::new();
    let mut i: usize = start;
    proof {
        lemma_parts_from(s@, start as int, seq![]);
    }
    loop
        invariant
            start <= i <= s.len(),
            parts_at(s@, start as int) == parts_from(s@, i as int, acc@),
        decreases s.len() - i,
    {
        if acc.len() == 0 {
            match parse_part(s, i) {
                Some((n, e)) => {
                    acc.push(n);
                    i = e;
                },
                None => {
                    return (acc, i);
                },
            }
        } else if i < s.len() && s[i] == '.' {
            match parse_part(s, i + 1) {
                Some((n, e)) => {
                    acc.push(n);
                    i = e;
                },
                None => {
                    return (acc, i);
                },
            }
        } else {
            return (acc, i);
        }
    }
}

/// A partial range `<n.m>` at position `i`; where there is none, nothing
/// is read and the position stays.
pub open spec fn partial_at(s: Seq<char>, i: int) -> (Option<(i32, i32)>, int) {
    if 0 <= i < s.len() && s[i] == '<' {
        match part_at(s, i + 1) {
            Some((a, e)) => if 0 <= e < s.len() && s[e] == '.' {
                match part_at(s, e + 1) {
                    Some((b, f)) => if 0 <= f < s.len() && s[f] == '>' {
                        (Some((a, b)), f + 1)
                    } else {
                        (None, i)
                    },
                    None => (None, i),
                }
            } else {
                (None, i)
            },
            None => (None, i),
        }
    } else {
        (None, i)
    }
}

pub fn parse_partial(s: &[char], i: usize) -> (r: (Option<(i32, i32)>, usize))
    requires
        i <= s.len(),
    ensures
        r.0 == partial_at(s@, i as int).0,
        r.1 == partial_at(s@, i as int).1,
        i <= r.1 <= s.len(),
{
    if i < s.len() && s[i] == '<' {
        match parse_part(s, i + 1) {
            Some((a, e)) => {
                if e < s.len() && s[e] == '.' {
                    match parse_part(s, e + 1) {
                        Some((b, f)) => {
                            if f < s.len() && s[f] == '>' {
                                (Some((a, b)), f + 1)
                            } else {
                                (None, i)
                            }
                        },
                        None => (None, i),
                    }
                } else {
                    (None, i)
                }
            },
            None => (None, i),
        }
    } else {
        (None, i)
    }
}

/// The header field names of a parenthesised list whose `(` stands at
/// position `i`: the words up to the next `)`, of which there must be at
/// least one. Gives the names and the position after the `)`.
pub open spec fn names_at(s: Seq<char>, i: int) -> Option<(Seq<Seq<char>>, int)> {
    if 0 <= i < s.len() && s[i] == '(' {
        let close = find_from(s, ')', i + 1);
        if close < s.len() && words(s.subrange(i + 1, close)).len() > 0 {
            Some((words(s.subrange(i + 1, close)), close + 1))
        } else {
            None
        }
    } else {
        None
    }
}

pub fn parse_names(s: &[char], i: usize) -> (r: Option<(Vec<String>, usize)>)
    requires
        i <= s.len(),
    ensures
        match (r, names_at(s@, i as int)) {
            (Some(p), Some(q)) => string_views(p.0@) == q.0 && p.1 == q.1 && i < p.1 <= s.len(),
            (None, None) => true,
            _ => false,
        },
{
    if i < s.len() && s[i] == '(' {
        let close = find_char_from(s, ')', i + 1);
        if close < s.len() {
            let inside = copy_range(s, i + 1, close);
            let w = split_words(inside.as_slice());
            if w.len() > 0 {
                Some((crate::parsing::imap::to_strings(&w), close + 1))
            } else {
                None
            }
        } else {
            None
        }
    } else {
        None
    }
}

/// A message text at position `i`: `TEXT`, `HEADER.FIELDS.NOT (names)`,
/// `HEADER.FIELDS (names)` or `HEADER`.
pub open spec fn msg_text_at(s: Seq<char>, i: int) -> Option<(MsgTextView, int)> {
    if occurs_at(s, "TEXT"@, i) {
        Some((MsgTextView::Text, i + "TEXT"@.len()))
    } else if occurs_at(s, "HEADER.FIELDS.NOT "@, i) {
        match names_at(s, i + "HEADER.FIELDS.NOT "@.len()) {
            Some((names, e)) => Some((MsgTextView::HeaderFieldsNot(names), e)),
            None => None,
        }
    } else if occurs_at(s, "HEADER.FIELDS "@, i) {
        match names_at(s, i + "HEADER.FIELDS "@.len()) {
            Some((names, e)) => Some((MsgTextView::HeaderFields(names), e)),
            None => None,
        }
    } else if occurs_at(s, "HEADER"@, i) {
        Some((MsgTextView::Header, i + "HEADER"@.len()))
    } else {
        None
    }
}

/// The view of a message text that may be missing, with its end.
pub open spec fn msg_text_view(r: Option<(SectionMsgText, usize)>) -> Option<(MsgTextView, int)> {
    match r {
        Some((t, e)) => Some((t@, e as int)),
        None => None,
    }
}

pub fn parse_msg_text(s: &[char], i: usize) -> (r: Option<(SectionMsgText, usize)>)
    requires
        i <= s.len(),
    ensures
        msg_text_view(r) == msg_text_at(s@, i as int),
        r matches Some(p) ==> i <= p.1 <= s.len(),
{
    let text = str_to_chars("TEXT");
    let not = str_to_chars("HEADER.FIELDS.NOT ");
    let fields = str_to_chars("HEADER.FIELDS ");
    let header = str_to_chars("HEADER");
    if matches_at(s, text.as_slice(), i) {
        Some((SectionMsgText::Text, i + text.len()))
    } else if matches_at(s, not.as_slice(), i) {
        match parse_names(s, i + not.len()) {
            Some((names, e)) => Some((SectionMsgText::HeaderFieldsNot(names), e)),
            None => None,
        }
    } else if matches_at(s, fields.as_slice(), i) {
        match parse_names(s, i + fields.len()) {
            Some((names, e)) => Some((SectionMsgText::HeaderFields(names), e)),
            None => None,
        }
    } else if matches_at(s, header.as_slice(), i) {
        Some((SectionMsgText::Header, i + header.len()))
    } else {
        None
    }
}

/// What may follow part numbers, at position `i`: `MIME` or a message
/// text.
pub open spec fn section_text_at(s: Seq<char>, i: int) -> Option<(TextView, int)> {
    if occurs_at(s, "MIME"@, i) {
        Some((TextView::Mime, i + "MIME"@.len()))
    } else {
        match msg_text_at(s, i) {
            Some((t, e)) => Some((TextView::MsgText(t), e)),
            None => None,
        }
    }
}

pub open spec fn section_text_view(r: Option<(SectionText, usize)>) -> Option<(TextView, int)> {
    match r {
        Some((t, e)) => Some((t@, e as int)),
        None => None,
    }
}

pub fn parse_section_text(s: &[char], i: usize) -> (r: Option<(SectionText, usize)>)
    requires
        i <= s.len(),
    ensures
        section_text_view(r) == section_text_at(s@, i as int),
        r matches Some(p) ==> i <= p.1 <= s.len(),
{
    let mime = str_to_chars("MIME");
    if matches_at(s, mime.as_slice(), i) {
        Some((SectionText::Mime, i + mime.len()))
    } else {
        match parse_msg_text(s, i) {
            Some((t, e)) => Some((SectionText::MsgText(t), e)),
            None => None,
        }
    }
}

/// A section specifier at position `i`: a message text, or part numbers
/// that a `.` and `MIME` or a message text may follow. The empty section
/// is part numbers without a number.
pub open spec fn section_at(s: Seq<char>, i: int) -> (SectionView, int) {
    match msg_text_at(s, i) {
        Some((t, e)) => (SectionView::MsgText(t), e),
        None => {
            let (parts, e) = parts_at(s, i);
            let after = if 0 <= e < s.len() && s[e] == '.' {
                section_text_at(s, e + 1)
            } else {
                None
            };
            match after {
                Some((t, f)) => (SectionView::Other(parts, Some(t)), f),
                None => (SectionView::Other(parts, None), e),
            }
        },
    }
}

pub fn parse_section(s: &[char], i: usize) -> (r: (SectionSpec, usize))
    requires
        i <= s.len(),
    ensures
        r.0@ == section_at(s@, i as int).0,
        r.1 == section_at(s@, i as int).1,
        i <= r.1 <= s.len(),
{
    match parse_msg_text(s, i) {
        Some((t, e)) => (SectionSpec::MsgText(t), e),
        None => {
            let (parts, e) = parse_parts(s, i);
            let after = if e < s.len() && s[e] == '.' {
                parse_section_text(s, e + 1)
            } else {
                None
            };
            match after {
                Some((t, f)) => (SectionSpec::Other(parts, Some(t)), f),
                None => (SectionSpec::Other(parts, None), e),
            }
        },
    }
}

impl SectionMsgText {
    /// Reads a message text from the start of the input; gives the text
    /// and the number of characters read.
    pub fn from_str(input: &str) -> (r: Option<(SectionMsgText, usize)>)
        ensures
            msg_text_view(r) == msg_text_at(input@, 0),
    {
        let s = str_to_chars(input);
        parse_msg_text(s.as_slice(), 0)
    }
}

impl SectionText {
    /// Reads `MIME` or a message text from the start of the input; gives
    /// it and the number of characters read.
    pub fn from_str(input: &str) -> (r: Option<(SectionText, usize)>)
        ensures
            section_text_view(r) == section_text_at(input@, 0),
    {
        let s = str_to_chars(input);
        parse_section_text(s.as_slice(), 0)
    }
}

impl SectionSpec {
    /// Reads a section specifier from the start of the input; gives it
    /// and the number of characters read.
    pub fn from_str(input: &str) -> (r: (SectionSpec, usize))
        ensures
            r.0@ == section_at(input@, 0).0,
            r.1 == section_at(input@, 0).1,
    {
        let s = str_to_chars(input);
        parse_section(s.as_slice(), 0)
    }
}

/// A character of a data item's name: a letter, a digit or `.`.
pub open spec fn is_name_char(c: char) -> bool {
    is_alpha(c) || is_digit(c) || c == '.'
}

/// The first position at or after `i` that holds no character of a name.
pub open spec fn name_end(s: Seq<char>, i: int) -> int
    decreases s.len() - i,
{
    if 0 <= i < s.len() && is_name_char(s[i]) {
        name_end(s, i + 1)
    } else {
        i
    }
}

pub fn skip_name(s: &[char], i: usize) -> (r: usize)
    requires
        i <= s.len(),
    ensures
        r == name_end(s@, i as int),
        i <= r <= s.len(),
{
    let mut k: usize = i;
    while k < s.len() && (is_ascii_alpha(s[k]) || is_ascii_digit(s[k]) || s[k] == '.')
        invariant
            i <= k <= s.len(),
            name_end(s@, i as int) == name_end(s@, k as int),
        decreases s.len() - k,
    {
        k += 1;
    }
    k
}

/// Part numbers in brackets at position `i`, and the position after the
/// closing bracket.
pub open spec fn bracket_parts_at(s: Seq<char>, i: int) -> Option<(Seq<i32>, int)> {
    if 0 <= i < s.len() && s[i] == '[' {
        let (parts, e) = parts_at(s, i + 1);
        if 0 <= e < s.len() && s[e] == ']' {
            Some((parts, e + 1))
        } else {
            None
        }
    } else {
        None
    }
}

pub fn parse_bracket_parts(s: &[char], i: usize) -> (r: Option<(Vec<i32>, usize)>)
    requires
        i <= s.len(),
    ensures
        match (r, bracket_parts_at(s@, i as int)) {
            (Some(p), Some(q)) => p.0@ == q.0 && p.1 == q.1 && i < p.1 <= s.len(),
            (None, None) => true,
            _ => false,
        },
{
    if i < s.len() && s[i] == '[' {
        let (parts, e) = parse_parts(s, i + 1);
        if e < s.len() && s[e] == ']' {
            Some((parts, e + 1))
        } else {
            None
        }
    } else {
        None
    }
}

/// A section in brackets at position `i`, and the position after the
/// closing bracket.
pub open spec fn bracket_section_at(s: Seq<char>, i: int) -> Option<(SectionView, int)> {
    if 0 <= i < s.len() && s[i] == '[' {
        let (section, e) = section_at(s, i + 1);
        if 0 <= e < s.len() && s[e] == ']' {
            Some((section, e + 1))
        } else {
            None
        }
    } else {
        None
    }
}

pub fn parse_bracket_section(s: &[char], i: usize) -> (r: Option<(SectionSpec, usize)>)
    requires
        i <= s.len(),
    ensures
        match (r, bracket_section_at(s@, i as int)) {
            (Some(p), Some(q)) => p.0@ == q.0 && p.1 == q.1 && i < p.1 <= s.len(),
            (None, None) => true,
            _ => false,
        },
{
    if i < s.len() && s[i] == '[' {
        let (section, e) = parse_section(s, i + 1);
        if e < s.len() && s[e] == ']' {
            Some((section, e + 1))
        } else {
            None
        }
    } else {
        None
    }
}

/// The data item at position `i` and the position after it. The name of
/// an item is read in any letter case. `BODY` without a bracket behind it
/// is the body structure without extension data.
pub open spec fn item_at(s: Seq<char>, i: int) -> Option<(FetchView, int)> {
    let e = name_end(s, i);
    let w = lower_seq(s.subrange(i, e));
    if w == "binary"@ || w == "binary.peek"@ {
        match bracket_parts_at(s, e) {
            Some((parts, f)) => {
                let (range, g) = partial_at(s, f);
                if w == "binary"@ {
                    Some((FetchView::Binary(parts, range), g))
                } else {
                    Some((FetchView::BinaryPeek(parts, range), g))
                }
            },
            None => None,
        }
    } else if w == "binary.size"@ {
        match bracket_parts_at(s, e) {
            Some((parts, f)) => Some((FetchView::BinarySize(parts), f)),
            None => None,
        }
    } else if w == "body"@ && !(0 <= e < s.len() && s[e] == '[') {
        Some((FetchView::BodyNoArgs, e))
    } else if w == "body"@ || w == "body.peek"@ {
        match bracket_section_at(s, e) {
            Some((section, f)) => {
                let (range, g) = partial_at(s, f);
                if w == "body"@ {
                    Some((FetchView::Body(section, range), g))
                } else {
                    Some((FetchView::BodyPeek(section, range), g))
                }
            },
            None => None,
        }
    } else if w == "bodystructure"@ {
        Some((FetchView::BodyStructure, e))
    } else if w == "envelope"@ {
        Some((FetchView::Envelope, e))
    } else if w == "flags"@ {
        Some((FetchView::Flags, e))
    } else if w == "internaldate"@ {
        Some((FetchView::InternalDate, e))
    } else if w == "rfc822.size"@ {
        Some((FetchView::RFC822Size, e))
    } else if w == "uid"@ {
        Some((FetchView::Uid, e))
    } else {
        None
    }
}

pub fn parse_item(s: &[char], i: usize) -> (r: Option<(FetchArgs, usize)>)
    requires
        i <= s.len(),
    ensures
        match (r, item_at(s@, i as int)) {
            (Some(p), Some(q)) => p.0@ == q.0 && p.1 == q.1 && i <= p.1 <= s.len(),
            (None, None) => true,
            _ => false,
        },
{
    let e = skip_name(s, i);
    let name = copy_range(s, i, e);
    let w = to_lower_vec(name.as_slice());
    let binary = eq_str(w.as_slice(), "binary");
    let body = eq_str(w.as_slice(), "body");
    if binary || eq_str(w.as_slice(), "binary.peek") {
        match parse_bracket_parts(s, e) {
            Some((parts, f)) => {
                let (range, g) = parse_partial(s, f);
                if binary {
                    Some((FetchArgs::Binary(parts, range), g))
                } else {
                    Some((FetchArgs::BinaryPeek(parts, range), g))
                }
            },
            None => None,
        }
    } else if eq_str(w.as_slice(), "binary.size") {
        match parse_bracket_parts(s, e) {
            Some((parts, f)) => Some((FetchArgs::BinarySize(parts), f)),
            None => None,
        }
    } else if body && !(e < s.len() && s[e] == '[') {
        Some((FetchArgs::BodyNoArgs, e))
    } else if body || eq_str(w.as_slice(), "body.peek") {
        match parse_bracket_section(s, e) {
            Some((section, f)) => {
                let (range, g) = parse_partial(s, f);
                if body {
                    Some((FetchArgs::Body(section, range), g))
                } else {
                    Some((FetchArgs::BodyPeek(section, range), g))
                }
            },
            None => None,
        }
    } else if eq_str(w.as_slice(), "bodystructure") {
        Some((FetchArgs::BodyStructure, e))
    } else if eq_str(w.as_slice(), "envelope") {
        Some((FetchArgs::Envelope, e))
    } else if eq_str(w.as_slice(), "flags") {
        Some((FetchArgs::Flags, e))
    } else if eq_str(w.as_slice(), "internaldate") {
        Some((FetchArgs::InternalDate, e))
    } else if eq_str(w.as_slice(), "rfc822.size") {
        Some((FetchArgs::RFC822Size, e))
    } else if eq_str(w.as_slice(), "uid") {
        Some((FetchArgs::Uid, e))
    } else {
        None
    }
}

impl FetchArgs {
    /// Reads one data item from the start of the input; gives the item
    /// and the number of characters read.
    pub fn from_str(input: &str) -> (r: Option<(FetchArgs, usize)>)
        ensures
            match (r, item_at(input@, 0)) {
                (Some(p), Some(q)) => p.0@ == q.0 && p.1 == q.1,
                (None, None) => true,
                _ => false,
            },
    {
        let s = str_to_chars(input);
        parse_item(s.as_slice(), 0)
    }
}

/// `items_from` with the items read so far put in front.
pub open spec fn items_rest(acc: Seq<FetchView>, tail: Option<Seq<FetchView>>) -> Option<
    Seq<FetchView>,
> {
    match tail {
        Some(rest) => Some(acc + rest),
        None => None,
    }
}

/// The data items from position `i` on, with white space between them, up
/// to a closing parenthesis or the end. Nothing where an item is
/// malformed or is not followed by white space, a parenthesis or the end.
pub open spec fn items_from(s: Seq<char>, i: int) -> Option<Seq<FetchView>>
    decreases s.len() - i,
{
    let a = ws_end(s, i);
    if !(0 <= i <= a < s.len()) || s[a] == ')' {
        Some(seq![])
    } else {
        match item_at(s, a) {
            Some((item, e)) => {
                if a < e <= s.len() && (e == s.len() || s[e] == ')' || crate::text::is_ws(s[e])) {
                    items_rest(seq![item], items_from(s, e))
                } else {
                    None
                }
            },
            None => None,
        }
    }
}

/// The text that a macro stands for; any other text stands for itself.
pub open spec fn expanded(s: Seq<char>) -> Seq<char> {
    if s == "ALL"@ {
        "(FLAGS INTERNALDATE RFC822.SIZE ENVELOPE)"@
    } else if s == "FAST"@ {
        "(FLAGS INTERNALDATE RFC822.SIZE)"@
    } else if s == "FULL"@ {
        "(FLAGS INTERNALDATE RFC822.SIZE ENVELOPE BODY)"@
    } else {
        s
    }
}

/// The data items that the arguments name: a macro, one item, or a
/// parenthesised list of items.
pub open spec fn fetch_items_of(args: Seq<char>) -> Option<Seq<FetchView>> {
    let s = expanded(trimmed_end(args));
    if s.len() > 0 && s[0] == '(' {
        items_from(s, 1)
    } else {
        items_from(s, 0)
    }
}

pub fn parse_items(s: &[char], start: usize) -> (r: Option<Vec<FetchArgs>>)
    requires
        start <= s.len(),
    ensures
        r is Some <==> items_from(s@, start as int) is Some,
        r is Some ==> fetch_views(r->0@) == items_from(s@, start as int)->0,
{
    let mut out: Vec<FetchArgs> = Vec::new();
    let mut i: usize = start;
    loop
        invariant
            i <= s.len(),
            items_from(s@, start as int) == items_rest(fetch_views(out@), items_from(s@, i as int)),
        decreases s.len() - i,
    {
        let a = skip_ws(s, i);
        if a >= s.len() || s[a] == ')' {
            assert(fetch_views(out@) + Seq::<FetchView>::empty() =~= fetch_views(out@));
            return Some(out);
        }
        match parse_item(s, a) {
            Some((item, e)) => {
                if a < e && (e == s.len() || s[e] == ')' || crate::text::is_whitespace(s[e])) {
                    let ghost before = fetch_views(out@);
                    let ghost iv = item@;
                    out.push(item);
                    assert(fetch_views(out@) =~= before.push(iv));
                    proof {
                        match items_from(s@, e as int) {
                            Some(rest) => {
                                assert(fetch_views(out@) + rest =~= before + (seq![iv] + rest));
                            },
                            None => {},
                        }
                    }
                    i = e;
                } else {
                    return None;
                }
            },
            None => {
                return None;
            },
        }
    }
}

/// Reads the data items of a FETCH command.
pub fn fetch_args(args: &str) -> (r: Option<Vec<FetchArgs>>)
    ensures
        r is Some <==> fetch_items_of(args@) is Some,
        r is Some ==> fetch_views(r->0@) == fetch_items_of(args@)->0,
{
    let raw = str_to_chars(args);
    let t = trim_end(raw.as_slice());
    let s = if eq_str(t.as_slice(), "ALL") {
        str_to_chars("(FLAGS INTERNALDATE RFC822.SIZE ENVELOPE)")
    } else if eq_str(t.as_slice(), "FAST") {
        str_to_chars("(FLAGS INTERNALDATE RFC822.SIZE)")
    } else if eq_str(t.as_slice(), "FULL") {
        str_to_chars("(FLAGS INTERNALDATE RFC822.SIZE ENVELOPE BODY)")
    } else {
        t
    };
    if s.len() > 0 && s[0] == '(' {
        parse_items(s.as_slice(), 1)
    } else {
        parse_items(s.as_slice(), 0)
    }
}

/// The arguments of FETCH: a sequence set, a space, and data items.
pub open spec fn fetch_of(input: Seq<char>) -> Option<(Seq<Sequence>, Seq<FetchView>)> {
    let k = find_from(input, ' ', 0);
    if k < input.len() {
        match (
            sequence_set_of(input.subrange(0, k)),
            fetch_items_of(input.subrange(k + 1, input.len() as int)),
        ) {
            (Some(set), Some(items)) => Some((set, items)),
            _ => None,
        }
    } else {
        None
    }
}

/// Reads the arguments of a FETCH command, the verb already taken off.
pub fn fetch(input: &str) -> (r: Option<(SequenceSet, Vec<FetchArgs>)>)
    ensures
        match (r, fetch_of(input@)) {
            (Some(p), Some(q)) => p.0.sequences@ == q.0 && fetch_views(p.1@) == q.1,
            (None, None) => true,
            _ => false,
        },
{
    let s = str_to_chars(input);
    let k = find_char_from(s.as_slice(), ' ', 0);
    if k < s.len() {
        let head = copy_range(s.as_slice(), 0, k);
        let tail = copy_range(s.as_slice(), k + 1, s.len());
        let tail_text = crate::text::chars_to_string(tail.as_slice());
        match (SequenceSet::from_chars(head.as_slice()), fetch_args(tail_text.as_str())) {
            (Some(set), Some(items)) => Some((set, items)),
            _ => None,
        }
    } else {
        None
    }
}

} // verus!
