//! SEARCH: the keys, the SQL conditions they stand for, and sequence sets.

use vstd::prelude::*;
use crate::database::{
    found, keys_meant, param_views, DBClient, IMAPFlags, SqlParam, SqlValue,
};
use crate::dates::Timestamp;
use crate::imap::{
    answer, answer_lines, handled_is, refused_with, tagged, Handled, IMAPOp, IMAPState, ImapError,
    ResponseInfo,
};
use crate::imap_op::append::READY;
use crate::parsing::imap::{search_awaits, search_of, search_pending};
use crate::store::StoreView;
use crate::dates::{date_in, Date, DateView};
use crate::parsing::SEARCH_DATE_FMT;
use crate::parsing::imap::{list_of, parse_list_chars};
use crate::scan::{join, split, split_char, split_once, split_once_char};
use crate::text::{
    chars_to_string, decimal, eq_lower, eq_str, i64_of, lower_seq, parse_i64, parse_u32, push_i64,
    push_str, push_u64, str_to_chars, to_lower_vec, u32_of, views,
};

verus! {

/// One item of a sequence set.
#[derive(Debug, Clone, Copy, PartialEq, Eq, Structural)]
pub enum Sequence {
    /// `n`
    Int(u32),
    /// `*:m`: the numbers between the largest in use and `m`
    RangeTo(u32),
    /// `n:*`: the numbers between `n` and the largest in use
    RangeFrom(u32),
    /// `n:m`: the numbers from `n` to `m`, both included
    Range(u32, u32),
    /// `*`: the largest number in use
    RangeFull,
}

impl Sequence {
    /// Whether the item holds the number where no largest number is
    /// known: `*` then stands for a number beyond every other.
    pub open spec fn holds(self, num: u32) -> bool {
        match self {
            Sequence::Int(n) => num == n,
            Sequence::RangeTo(m) => num <= m,
            Sequence::RangeFrom(n) => n <= num,
            Sequence::Range(n, m) => n <= num <= m,
            Sequence::RangeFull => true,
        }
    }

    /// Whether the item holds the number.
    pub fn contains(&self, num: u32) -> (r: bool)
        ensures
            r == self.holds(num),
    {
        match self {
            Sequence::Int(n) => num == *n,
            Sequence::RangeTo(m) => num <= *m,
            Sequence::RangeFrom(n) => *n <= num,
            Sequence::Range(n, m) => *n <= num && num <= *m,
            Sequence::RangeFull => true,
        }
    }
}

/// The smaller of two numbers.
pub open spec fn lesser(a: u32, b: u32) -> u32 {
    if a < b {
        a
    } else {
        b
    }
}

/// The larger of two numbers.
pub open spec fn greater(a: u32, b: u32) -> u32 {
    if a < b {
        b
    } else {
        a
    }
}

impl Sequence {
    /// The item with `*` taken as the largest number in use, and the two
    /// ends of a range in rising order.
    pub open spec fn resolved(self, largest: u32) -> Sequence {
        match self {
            Sequence::Int(n) => Sequence::Int(n),
            Sequence::RangeTo(m) => Sequence::Range(lesser(m, largest), greater(m, largest)),
            Sequence::RangeFrom(n) => Sequence::Range(lesser(n, largest), greater(n, largest)),
            Sequence::Range(n, m) => Sequence::Range(lesser(n, m), greater(n, m)),
            Sequence::RangeFull => Sequence::Int(largest),
        }
    }

    /// Gives `*` its meaning: the largest number in use.
    pub fn resolve(&self, largest: u32) -> (r: Sequence)
        ensures
            r == self.resolved(largest),
    {
        match self {
            Sequence::Int(n) => Sequence::Int(*n),
            Sequence::RangeTo(m) => if *m < largest {
                Sequence::Range(*m, largest)
            } else {
                Sequence::Range(largest, *m)
            },
            Sequence::RangeFrom(n) => if *n < largest {
                Sequence::Range(*n, largest)
            } else {
                Sequence::Range(largest, *n)
            },
            Sequence::Range(n, m) => if *n < *m {
                Sequence::Range(*n, *m)
            } else {
                Sequence::Range(*m, *n)
            },
            Sequence::RangeFull => Sequence::Int(largest),
        }
    }
}

/// The items with `*` taken as the largest number in use.
pub open spec fn resolved_items(items: Seq<Sequence>, largest: u32) -> Seq<Sequence> {
    Seq::new(items.len(), |i: int| items[i].resolved(largest))
}

/// A sequence set: its items in the order they were written.
#[derive(Debug, Clone, PartialEq, Eq)]
pub struct SequenceSet {
    pub sequences: Vec<Sequence>,
}

/// Whether some of the items holds the number.
pub open spec fn set_holds(items: Seq<Sequence>, num: u32) -> bool {
    exists|i: int| 0 <= i < items.len() && (#[trigger] items[i]).holds(num)
}

impl SequenceSet {
    pub open spec fn holds(&self, num: u32) -> bool {
        set_holds(self.sequences@, num)
    }

    /// Gives `*` its meaning in every item: the largest number in use.
    pub fn resolve(&self, largest: u32) -> (r: SequenceSet)
        ensures
            r.sequences@ == resolved_items(self.sequences@, largest),
    {
        let mut out: Vec<Sequence> = Vec::new();
        let mut i: usize = 0;
        while i < self.sequences.len()
            invariant
                i <= self.sequences.len(),
                out@.len() == i,
                forall|j: int| 0 <= j < i ==> out@[j] == self.sequences@[j].resolved(largest),
            decreases self.sequences.len() - i,
        {
            out.push(self.sequences[i].resolve(largest));
            i += 1;
        }
        assert(out@ =~= resolved_items(self.sequences@, largest));
        SequenceSet { sequences: out }
    }

    /// Whether some item of the set holds the number.
    pub fn contains(&self, num: u32) -> (r: bool)
        ensures
            r == self.holds(num),
    {
        let mut i: usize = 0;
        while i < self.sequences.len()
            invariant
                i <= self.sequences.len(),
                forall|j: int| 0 <= j < i ==> !(#[trigger] self.sequences@[j]).holds(num),
            decreases self.sequences.len() - i,
        {
            if self.sequences[i].contains(num) {
                return true;
            }
            i += 1;
        }
        false
    }
}

/// What a SEARCH command asks to have returned.
#[derive(Debug, Clone, Copy, PartialEq, Eq, Structural)]
pub enum ReturnOptions {
    Min,
    Max,
    All,
    Count,
    Save,
}

/// A search key.
#[derive(Debug)]
pub enum SearchKeys {
    SequenceSet(SequenceSet),
    All,
    Answered,
    Bcc(String),
    Before(Date),
    Body(String),
    Cc(String),
    Deleted,
    Draft,
    Flagged,
    From(String),
    Header(String, String),
    Keyword(IMAPFlags),
    Larger(i64),
    Not(Box<SearchKeys>),
    On(Date),
    Or(Box<SearchKeys>, Box<SearchKeys>),
    Seen,
    SentBefore(Date),
    SentOn(Date),
    SentSince(Date),
    Since(Date),
    Smaller(i64),
    Subject(String),
    Text(String),
    To(String),
    Uid(SequenceSet),
    Unanswered,
    Undeleted,
    Undraft,
    Unflagged,
    Unkeyword(IMAPFlags),
    Unseen,
}

/// The pattern that finds a message's `Date:` header line and captures the
/// calendar date in it.
pub const DATE_HEADER_REGEX: &'static str =
    "(?m)^Date: (?:\\w{3}, )?(\\d{2} \\w{3} \\d{4}) \\d{2}:\\d{2}:\\d{2} [+-]\\d{4}\\r?$";

/// The regular expression that finds `needle` in the value of the header
/// `name`.
pub open spec fn header_regex(name: Seq<char>, needle: Seq<char>) -> Seq<char> {
    ".*"@ + name + ": .*"@ + needle + ".*"@
}

/// The regular expression that finds `needle` on a line without a colon.
pub open spec fn body_regex(needle: Seq<char>) -> Seq<char> {
    "^(?!.*:).*"@ + needle + ".*"@
}

/// The LIKE pattern that finds `needle` anywhere.
pub open spec fn text_pattern(needle: Seq<char>) -> Seq<char> {
    "%"@ + needle + "%"@
}

/// The condition on the calendar date of the `Date:` header, with the
/// comparison `op`.
pub open spec fn sent_sql(op: Seq<char>) -> Seq<char> {
    "rfc2822_to_date(regex_capture('"@ + DATE_HEADER_REGEX@ + "', data, 1)) "@ + op + " ?"@
}

impl SearchKeys {
    /// The SQL condition of the key.
    pub open spec fn sql(self) -> Seq<char>
        decreases self,
    {
        match self {
            SearchKeys::All => "data LIKE '%'"@,
            SearchKeys::Text(_) => "data LIKE ?"@,
            SearchKeys::Header(_, _) => "data REGEXP ?"@,
            SearchKeys::Body(_) => "data REGEXP ?"@,
            SearchKeys::Bcc(_) => "data REGEXP ?"@,
            SearchKeys::Cc(_) => "data REGEXP ?"@,
            SearchKeys::From(_) => "data REGEXP ?"@,
            SearchKeys::Subject(_) => "data REGEXP ?"@,
            SearchKeys::To(_) => "data REGEXP ?"@,
            SearchKeys::Answered => "flags LIKE ?"@,
            SearchKeys::Flagged => "flags LIKE ?"@,
            SearchKeys::Deleted => "flags LIKE ?"@,
            SearchKeys::Seen => "flags LIKE ?"@,
            SearchKeys::Draft => "flags LIKE ?"@,
            SearchKeys::Unanswered => "flags LIKE ?"@,
            SearchKeys::Unflagged => "flags LIKE ?"@,
            SearchKeys::Undeleted => "flags LIKE ?"@,
            SearchKeys::Unseen => "flags LIKE ?"@,
            SearchKeys::Undraft => "flags LIKE ?"@,
            SearchKeys::Keyword(_) => "flags LIKE ?"@,
            SearchKeys::Unkeyword(_) => "flags NOT LIKE ?"@,
            SearchKeys::Larger(_) => "length(data) > ?"@,
            SearchKeys::Smaller(_) => "length(data) < ?"@,
            SearchKeys::Before(_) => "unixepoch(date) < ?"@,
            SearchKeys::On(_) => "unixepoch(date) = ?"@,
            SearchKeys::Since(_) => "unixepoch(date) > ?"@,
            SearchKeys::SentBefore(_) => sent_sql("<"@),
            SearchKeys::SentOn(_) => sent_sql("="@),
            SearchKeys::SentSince(_) => sent_sql(">"@),
            SearchKeys::Not(k) => "NOT ( "@ + k.sql() + " )"@,
            SearchKeys::Or(a, b) => "( "@ + a.sql() + " OR "@ + b.sql() + " )"@,
            SearchKeys::SequenceSet(s) => crate::utils::set_sql(s.sequences@, "seqnum"@),
            SearchKeys::Uid(s) => crate::utils::set_sql(s.sequences@, "uid"@),
        }
    }

    /// The values that the key's condition binds, in the order of its `?`.
    pub open spec fn params(self) -> Seq<SqlParam>
        decreases self,
    {
        match self {
            SearchKeys::All => seq![],
            SearchKeys::Text(s) => seq![SqlParam::Text(text_pattern(s@))],
            SearchKeys::Header(h, v) => seq![SqlParam::Text(header_regex(h@, v@))],
            SearchKeys::Body(s) => seq![SqlParam::Text(body_regex(s@))],
            SearchKeys::Bcc(s) => seq![SqlParam::Text(header_regex("Bcc"@, s@))],
            SearchKeys::Cc(s) => seq![SqlParam::Text(header_regex("Cc"@, s@))],
            SearchKeys::From(s) => seq![SqlParam::Text(header_regex("From"@, s@))],
            SearchKeys::Subject(s) => seq![SqlParam::Text(header_regex("Subject"@, s@))],
            SearchKeys::To(s) => seq![SqlParam::Text(header_regex("To"@, s@))],
            SearchKeys::Answered => seq![SqlParam::Text(IMAPFlags::Answered.pattern('1'))],
            SearchKeys::Flagged => seq![SqlParam::Text(IMAPFlags::Flagged.pattern('1'))],
            SearchKeys::Deleted => seq![SqlParam::Text(IMAPFlags::Deleted.pattern('1'))],
            SearchKeys::Seen => seq![SqlParam::Text(IMAPFlags::Seen.pattern('1'))],
            SearchKeys::Draft => seq![SqlParam::Text(IMAPFlags::Draft.pattern('1'))],
            SearchKeys::Unanswered => seq![SqlParam::Text(IMAPFlags::Answered.pattern('0'))],
            SearchKeys::Unflagged => seq![SqlParam::Text(IMAPFlags::Flagged.pattern('0'))],
            SearchKeys::Undeleted => seq![SqlParam::Text(IMAPFlags::Deleted.pattern('0'))],
            SearchKeys::Unseen => seq![SqlParam::Text(IMAPFlags::Seen.pattern('0'))],
            SearchKeys::Undraft => seq![SqlParam::Text(IMAPFlags::Draft.pattern('0'))],
            SearchKeys::Keyword(f) => seq![SqlParam::Text(f.pattern('1'))],
            SearchKeys::Unkeyword(f) => seq![SqlParam::Text(f.pattern('1'))],
            SearchKeys::Larger(n) => seq![SqlParam::Integer(n)],
            SearchKeys::Smaller(n) => seq![SqlParam::Integer(n)],
            SearchKeys::Before(d) => seq![SqlParam::Integer(d.unix_seconds)],
            SearchKeys::On(d) => seq![SqlParam::Integer(d.unix_seconds)],
            SearchKeys::Since(d) => seq![SqlParam::Integer(d.unix_seconds)],
            SearchKeys::SentBefore(d) => seq![SqlParam::Text(d.canonical@)],
            SearchKeys::SentOn(d) => seq![SqlParam::Text(d.canonical@)],
            SearchKeys::SentSince(d) => seq![SqlParam::Text(d.canonical@)],
            SearchKeys::Not(k) => k.params(),
            SearchKeys::Or(a, b) => a.params() + b.params(),
            SearchKeys::SequenceSet(s) => crate::utils::sequences_params(s.sequences@),
            SearchKeys::Uid(s) => crate::utils::sequences_params(s.sequences@),
        }
    }
}


/// Appends one bound value.
pub fn bind(params: &mut Vec<SqlValue>, value: SqlValue)
    ensures
        param_views(final(params)@) == param_views(old(params)@) + seq![value@],
{
    params.push(value);
    assert(param_views(params@) =~= param_views(old(params)@) + seq![value@]);
}

/// The bound text `before` + `needle` + `after`.
pub fn text_between(before: &str, needle: &str, after: &str) -> (v: SqlValue)
    ensures
        v@ == SqlParam::Text(before@ + needle@ + after@),
{
    let mut t: Vec<char> = Vec::new();
    push_str(&mut t, before);
    push_str(&mut t, needle);
    push_str(&mut t, after);
    assert(t@ =~= before@ + needle@ + after@);
    SqlValue::Text(chars_to_string(t.as_slice()))
}

/// The bound regular expression for a header search.
pub fn header_param(name: &str, needle: &str) -> (v: SqlValue)
    ensures
        v@ == SqlParam::Text(header_regex(name@, needle@)),
{
    let mut t: Vec<char> = Vec::new();
    push_str(&mut t, ".*");
    push_str(&mut t, name);
    push_str(&mut t, ": .*");
    push_str(&mut t, needle);
    push_str(&mut t, ".*");
    assert(t@ =~= header_regex(name@, needle@));
    SqlValue::Text(chars_to_string(t.as_slice()))
}

/// The bound pattern for a flag search.
pub fn flag_param(flag: IMAPFlags, mark: char) -> (v: SqlValue)
    ensures
        v@ == SqlParam::Text(flag.pattern(mark)),
{
    let p = flag.pattern_with(mark);
    SqlValue::Text(chars_to_string(p.as_slice()))
}

/// Appends the condition on the `Date:` header with the comparison `op`.
pub fn push_sent_sql(out: &mut Vec<char>, op: &str)
    ensures
        final(out)@ == old(out)@ + sent_sql(op@),
{
    push_str(out, "rfc2822_to_date(regex_capture('");
    push_str(out, DATE_HEADER_REGEX);
    push_str(out, "', data, 1)) ");
    push_str(out, op);
    push_str(out, " ?");
    assert(out@ =~= old(out)@ + sent_sql(op@));
}

impl SearchKeys {
    /// Appends the key's SQL condition to `out` and the values it binds to
    /// `params`.
    pub fn push_sql(&self, out: &mut Vec<char>, params: &mut Vec<SqlValue>)
        ensures
            final(out)@ == old(out)@ + self.sql(),
            param_views(final(params)@) == param_views(old(params)@) + self.params(),
        decreases self,
    {
        let ghost bound = param_views(params@);
        match self {
            SearchKeys::All => {
                push_str(out, "data LIKE '%'");
                assert(bound + self.params() =~= bound);
            },
            SearchKeys::Text(s) => {
                push_str(out, "data LIKE ?");
                bind(params, text_between("%", s.as_str(), "%"));
            },
            SearchKeys::Header(h, v) => {
                push_str(out, "data REGEXP ?");
                bind(params, header_param(h.as_str(), v.as_str()));
            },
            SearchKeys::Body(s) => {
                push_str(out, "data REGEXP ?");
                bind(params, text_between("^(?!.*:).*", s.as_str(), ".*"));
            },
            SearchKeys::Bcc(s) => {
                push_str(out, "data REGEXP ?");
                bind(params, header_param("Bcc", s.as_str()));
            },
            SearchKeys::Cc(s) => {
                push_str(out, "data REGEXP ?");
                bind(params, header_param("Cc", s.as_str()));
            },
            SearchKeys::From(s) => {
                push_str(out, "data REGEXP ?");
                bind(params, header_param("From", s.as_str()));
            },
            SearchKeys::Subject(s) => {
                push_str(out, "data REGEXP ?");
                bind(params, header_param("Subject", s.as_str()));
            },
            SearchKeys::To(s) => {
                push_str(out, "data REGEXP ?");
                bind(params, header_param("To", s.as_str()));
            },
            SearchKeys::Answered => {
                push_str(out, "flags LIKE ?");
                bind(params, flag_param(IMAPFlags::Answered, '1'));
            },
            SearchKeys::Flagged => {
                push_str(out, "flags LIKE ?");
                bind(params, flag_param(IMAPFlags::Flagged, '1'));
            },
            SearchKeys::Deleted => {
                push_str(out, "flags LIKE ?");
                bind(params, flag_param(IMAPFlags::Deleted, '1'));
            },
            SearchKeys::Seen => {
                push_str(out, "flags LIKE ?");
                bind(params, flag_param(IMAPFlags::Seen, '1'));
            },
            SearchKeys::Draft => {
                push_str(out, "flags LIKE ?");
                bind(params, flag_param(IMAPFlags::Draft, '1'));
            },
            SearchKeys::Unanswered => {
                push_str(out, "flags LIKE ?");
                bind(params, flag_param(IMAPFlags::Answered, '0'));
            },
            SearchKeys::Unflagged => {
                push_str(out, "flags LIKE ?");
                bind(params, flag_param(IMAPFlags::Flagged, '0'));
            },
            SearchKeys::Undeleted => {
                push_str(out, "flags LIKE ?");
                bind(params, flag_param(IMAPFlags::Deleted, '0'));
            },
            SearchKeys::Unseen => {
                push_str(out, "flags LIKE ?");
                bind(params, flag_param(IMAPFlags::Seen, '0'));
            },
            SearchKeys::Undraft => {
                push_str(out, "flags LIKE ?");
                bind(params, flag_param(IMAPFlags::Draft, '0'));
            },
            SearchKeys::Keyword(f) => {
                push_str(out, "flags LIKE ?");
                bind(params, flag_param(*f, '1'));
            },
            SearchKeys::Unkeyword(f) => {
                push_str(out, "flags NOT LIKE ?");
                bind(params, flag_param(*f, '1'));
            },
            SearchKeys::Larger(n) => {
                push_str(out, "length(data) > ?");
                bind(params, SqlValue::Integer(*n));
            },
            SearchKeys::Smaller(n) => {
                push_str(out, "length(data) < ?");
                bind(params, SqlValue::Integer(*n));
            },
            SearchKeys::Before(d) => {
                push_str(out, "unixepoch(date) < ?");
                bind(params, SqlValue::Integer(d.unix_seconds));
            },
            SearchKeys::On(d) => {
                push_str(out, "unixepoch(date) = ?");
                bind(params, SqlValue::Integer(d.unix_seconds));
            },
            SearchKeys::Since(d) => {
                push_str(out, "unixepoch(date) > ?");
                bind(params, SqlValue::Integer(d.unix_seconds));
            },
            SearchKeys::SentBefore(d) => {
                push_sent_sql(out, "<");
                bind(params, SqlValue::Text(d.canonical.clone()));
            },
            SearchKeys::SentOn(d) => {
                push_sent_sql(out, "=");
                bind(params, SqlValue::Text(d.canonical.clone()));
            },
            SearchKeys::SentSince(d) => {
                push_sent_sql(out, ">");
                bind(params, SqlValue::Text(d.canonical.clone()));
            },
            SearchKeys::Not(k) => {
                push_str(out, "NOT ( ");
                k.push_sql(out, params);
                push_str(out, " )");
                assert(out@ =~= old(out)@ + self.sql());
            },
            SearchKeys::Or(a, b) => {
                push_str(out, "( ");
                a.push_sql(out, params);
                push_str(out, " OR ");
                b.push_sql(out, params);
                push_str(out, " )");
                assert(out@ =~= old(out)@ + self.sql());
                assert(param_views(params@) =~= bound + self.params());
            },
            SearchKeys::SequenceSet(s) => {
                let column = str_to_chars("seqnum");
                crate::utils::push_set_sql(&s.sequences, column.as_slice(), out, params);
            },
            SearchKeys::Uid(s) => {
                let column = str_to_chars("uid");
                crate::utils::push_set_sql(&s.sequences, column.as_slice(), out, params);
            },
        }
    }

    /// The key as an SQL condition with `?` for each value, and the values
    /// to bind, in order. A bare sequence set is over `seqnum` and a `UID`
    /// set over `uid`, whatever `uid` says.
    pub fn to_sql_arg(&self, uid: bool) -> (r: (String, Vec<SqlValue>))
        ensures
            r.0@ == self.sql(),
            param_views(r.1@) == self.params(),
    {
        let mut out: Vec<char> = Vec::new();
        let mut params: Vec<SqlValue> = Vec::new();
        self.push_sql(&mut out, &mut params);
        assert(out@ =~= self.sql());
        assert(param_views(params@) =~= self.params());
        (chars_to_string(out.as_slice()), params)
    }
}


/// The item that a text writes: `n`, `n:m`, `n:*`, `*:m`, `*:*` or `*`.
pub open spec fn sequence_of(s: Seq<char>) -> Option<Sequence> {
    match split_once(s, ':') {
        Some((a, b)) => {
            if a == "*"@ && b == "*"@ {
                Some(Sequence::RangeFull)
            } else if a == "*"@ {
                match u32_of(b) {
                    Some(m) => Some(Sequence::RangeTo(m)),
                    None => None,
                }
            } else if b == "*"@ {
                match u32_of(a) {
                    Some(n) => Some(Sequence::RangeFrom(n)),
                    None => None,
                }
            } else {
                match (u32_of(a), u32_of(b)) {
                    (Some(n), Some(m)) => Some(Sequence::Range(n, m)),
                    _ => None,
                }
            }
        },
        None => {
            if s == "*"@ {
                Some(Sequence::RangeFull)
            } else {
                match u32_of(s) {
                    Some(n) => Some(Sequence::Int(n)),
                    None => None,
                }
            }
        },
    }
}

/// The text of an item, as a sequence set shows it.
pub open spec fn sequence_text(item: Sequence) -> Seq<char> {
    match item {
        Sequence::Int(n) => decimal(n as int),
        Sequence::RangeTo(m) => "*:"@ + decimal(m as int),
        Sequence::RangeFrom(n) => decimal(n as int) + ":*"@,
        Sequence::Range(n, m) => decimal(n as int) + ":"@ + decimal(m as int),
        Sequence::RangeFull => "*"@,
    }
}

impl Sequence {
    pub fn from_chars(s: &[char]) -> (r: Option<Sequence>)
        ensures
            r == sequence_of(s@),
    {
        match split_once_char(s, ':') {
            Some((a, b)) => {
                let a_star = eq_str(a.as_slice(), "*");
                let b_star = eq_str(b.as_slice(), "*");
                if a_star && b_star {
                    Some(Sequence::RangeFull)
                } else if a_star {
                    match parse_u32(b.as_slice()) {
                        Some(m) => Some(Sequence::RangeTo(m)),
                        None => None,
                    }
                } else if b_star {
                    match parse_u32(a.as_slice()) {
                        Some(n) => Some(Sequence::RangeFrom(n)),
                        None => None,
                    }
                } else {
                    match (parse_u32(a.as_slice()), parse_u32(b.as_slice())) {
                        (Some(n), Some(m)) => Some(Sequence::Range(n, m)),
                        _ => None,
                    }
                }
            },
            None => {
                if eq_str(s, "*") {
                    Some(Sequence::RangeFull)
                } else {
                    match parse_u32(s) {
                        Some(n) => Some(Sequence::Int(n)),
                        None => None,
                    }
                }
            },
        }
    }

    /// Reads one item of a sequence set.
    pub fn from_str(s: &str) -> (r: Option<Sequence>)
        ensures
            r == sequence_of(s@),
    {
        let v = str_to_chars(s);
        Self::from_chars(v.as_slice())
    }

    pub fn push_text(&self, out: &mut Vec<char>)
        ensures
            final(out)@ == old(out)@ + sequence_text(*self),
    {
        match self {
            Sequence::Int(n) => {
                push_u64(out, *n as u64);
            },
            Sequence::RangeTo(m) => {
                push_str(out, "*:");
                push_u64(out, *m as u64);
                assert(out@ =~= old(out)@ + sequence_text(*self));
            },
            Sequence::RangeFrom(n) => {
                push_u64(out, *n as u64);
                push_str(out, ":*");
                assert(out@ =~= old(out)@ + sequence_text(*self));
            },
            Sequence::Range(n, m) => {
                push_u64(out, *n as u64);
                push_str(out, ":");
                push_u64(out, *m as u64);
                assert(out@ =~= old(out)@ + sequence_text(*self));
            },
            Sequence::RangeFull => {
                push_str(out, "*");
            },
        }
    }
}

/// The items that the pieces write, if each piece writes one.
pub open spec fn sequences_of(parts: Seq<Seq<char>>) -> Option<Seq<Sequence>> {
    if forall|i: int| 0 <= i < parts.len() ==> (#[trigger] sequence_of(parts[i])) is Some {
        Some(Seq::new(parts.len(), |i: int| sequence_of(parts[i])->0))
    } else {
        None
    }
}

/// The items of a sequence set written as a comma-separated list.
pub open spec fn sequence_set_of(s: Seq<char>) -> Option<Seq<Sequence>> {
    sequences_of(split(s, ','))
}

/// The texts of the items, joined by commas.
pub open spec fn sequences_text(items: Seq<Sequence>) -> Seq<char>
    decreases items.len(),
{
    if items.len() == 0 {
        seq![]
    } else if items.len() == 1 {
        sequence_text(items[0])
    } else {
        sequences_text(items.drop_last()) + ","@ + sequence_text(items.last())
    }
}

/// The number that a stored identifier stands for in a sequence set;
/// identifiers below zero count as zero.
pub open spec fn id_number(n: i32) -> u32 {
    if n < 0 {
        0
    } else {
        n as u32
    }
}

/// The position after the run of consecutive numbers that starts at `i`.
pub open spec fn run_end(list: Seq<i32>, i: int) -> int
    decreases list.len() - i,
{
    if 0 <= i && i + 1 < list.len() && list[i + 1] == list[i] + 1 {
        run_end(list, i + 1)
    } else {
        i + 1
    }
}

/// The list from position `i` on as items: each maximal run of consecutive
/// numbers becomes one range, a single number stays a number.
pub open spec fn compressed_from(list: Seq<i32>, i: int) -> Seq<Sequence>
    decreases list.len() - i,
{
    let e = run_end(list, i);
    if 0 <= i < e <= list.len() {
        let item = if e == i + 1 {
            Sequence::Int(id_number(list[i]))
        } else {
            Sequence::Range(id_number(list[i]), id_number(list[e - 1]))
        };
        seq![item] + compressed_from(list, e)
    } else {
        seq![]
    }
}

pub open spec fn compressed(list: Seq<i32>) -> Seq<Sequence> {
    compressed_from(list, 0)
}

pub fn to_id_number(n: i32) -> (r: u32)
    ensures
        r == id_number(n),
{
    if n < 0 {
        0
    } else {
        n as u32
    }
}

impl SequenceSet {
    pub fn from_chars(s: &[char]) -> (r: Option<SequenceSet>)
        ensures
            r is Some <==> sequence_set_of(s@) is Some,
            r is Some ==> r->0.sequences@ == sequence_set_of(s@)->0,
    {
        let parts = split_char(s, ',');
        let mut out: Vec<Sequence> = Vec::new();
        let mut i: usize = 0;
        while i < parts.len()
            invariant
                i <= parts.len(),
                views(parts@) == split(s@, ','),
                out@.len() == i,
                forall|j: int| 0 <= j < i ==> (#[trigger] sequence_of(views(parts@)[j])) is Some,
                forall|j: int| 0 <= j < i ==> out@[j] == sequence_of(views(parts@)[j])->0,
            decreases parts.len() - i,
        {
            match Sequence::from_chars(parts[i].as_slice()) {
                Some(item) => {
                    out.push(item);
                },
                None => {
                    assert(sequence_of(views(parts@)[i as int]) is None);
                    return None;
                },
            }
            i += 1;
        }
        assert(out@ =~= sequence_set_of(s@)->0);
        Some(SequenceSet { sequences: out })
    }

    /// Reads a sequence set: items separated by commas.
    pub fn from_str(s: &str) -> (r: Option<SequenceSet>)
        ensures
            r is Some <==> sequence_set_of(s@) is Some,
            r is Some ==> r->0.sequences@ == sequence_set_of(s@)->0,
    {
        let v = str_to_chars(s);
        Self::from_chars(v.as_slice())
    }

    /// The set that holds the listed numbers, runs of consecutive numbers
    /// written as ranges.
    pub fn from_list(list: &Vec<i32>) -> (r: SequenceSet)
        ensures
            r.sequences@ == compressed(list@),
    {
        let mut out: Vec<Sequence> = Vec::new();
        let mut i: usize = 0;
        while i < list.len()
            invariant
                i <= list.len(),
                compressed(list@) == out@ + compressed_from(list@, i as int),
            decreases list.len() - i,
        {
            let mut e: usize = i + 1;
            while e < list.len() && list[e] as i64 == list[e - 1] as i64 + 1
                invariant
                    i < e <= list.len(),
                    run_end(list@, i as int) == run_end(list@, e - 1),
                decreases list.len() - e,
            {
                e += 1;
            }
            let item = if e == i + 1 {
                Sequence::Int(to_id_number(list[i]))
            } else {
                Sequence::Range(to_id_number(list[i]), to_id_number(list[e - 1]))
            };
            let ghost before = out@;
            out.push(item);
            assert(out@ + compressed_from(list@, e as int) =~= before + compressed_from(
                list@,
                i as int,
            ));
            i = e;
        }
        assert(out@ + compressed_from(list@, i as int) =~= out@);
        SequenceSet { sequences: out }
    }

    pub fn push_text(&self, out: &mut Vec<char>)
        ensures
            final(out)@ == old(out)@ + sequences_text(self.sequences@),
    {
        let mut i: usize = 0;
        while i < self.sequences.len()
            invariant
                i <= self.sequences.len(),
                out@ == old(out)@ + sequences_text(self.sequences@.subrange(0, i as int)),
            decreases self.sequences.len() - i,
        {
            let ghost prev = self.sequences@.subrange(0, i as int);
            let ghost next = self.sequences@.subrange(0, i + 1);
            assert(next.drop_last() =~= prev);
            assert(next.last() == self.sequences@[i as int]);
            if i > 0 {
                push_str(out, ",");
            }
            self.sequences[i].push_text(out);
            assert(out@ =~= old(out)@ + sequences_text(next));
            i += 1;
        }
        assert(self.sequences@.subrange(0, i as int) =~= self.sequences@);
    }

    /// The set as it is written on the wire.
    pub fn to_string(&self) -> (r: String)
        ensures
            r@ == sequences_text(self.sequences@),
    {
        let mut out: Vec<char> = Vec::new();
        self.push_text(&mut out);
        assert(out@ =~= sequences_text(self.sequences@));
        chars_to_string(out.as_slice())
    }
}

impl From<Vec<i32>> for SequenceSet {
    fn from(list: Vec<i32>) -> (r: SequenceSet) {
        SequenceSet::from_list(&list)
    }
}

impl vstd::std_specs::convert::FromSpecImpl<Vec<i32>> for SequenceSet {
    open spec fn obeys_from_spec() -> bool {
        false
    }

    open spec fn from_spec(list: Vec<i32>) -> SequenceSet {
        arbitrary()
    }
}

/// The return option that a word names, letter case aside.
pub open spec fn return_option_of(s: Seq<char>) -> Option<ReturnOptions> {
    let l = lower_seq(s);
    if l == "min"@ {
        Some(ReturnOptions::Min)
    } else if l == "max"@ {
        Some(ReturnOptions::Max)
    } else if l == "all"@ {
        Some(ReturnOptions::All)
    } else if l == "count"@ {
        Some(ReturnOptions::Count)
    } else if l == "save"@ {
        Some(ReturnOptions::Save)
    } else {
        None
    }
}

impl ReturnOptions {
    pub fn from_chars(s: &[char]) -> (r: Option<ReturnOptions>)
        ensures
            r == return_option_of(s@),
    {
        if eq_lower(s, "min") {
            Some(ReturnOptions::Min)
        } else if eq_lower(s, "max") {
            Some(ReturnOptions::Max)
        } else if eq_lower(s, "all") {
            Some(ReturnOptions::All)
        } else if eq_lower(s, "count") {
            Some(ReturnOptions::Count)
        } else if eq_lower(s, "save") {
            Some(ReturnOptions::Save)
        } else {
            None
        }
    }

    /// Reads one item of a `RETURN (…)` list.
    pub fn from_str(s: &str) -> (r: Option<ReturnOptions>)
        ensures
            r == return_option_of(s@),
    {
        let v = str_to_chars(s);
        Self::from_chars(v.as_slice())
    }
}


/// A search key as plain values.
pub ghost enum KeyView {
    SequenceSet(Seq<Sequence>),
    All,
    Answered,
    Bcc(Seq<char>),
    Before(DateView),
    Body(Seq<char>),
    Cc(Seq<char>),
    Deleted,
    Draft,
    Flagged,
    From(Seq<char>),
    Header(Seq<char>, Seq<char>),
    Keyword(IMAPFlags),
    Larger(i64),
    Not(Box<KeyView>),
    On(DateView),
    Or(Box<KeyView>, Box<KeyView>),
    Seen,
    SentBefore(DateView),
    SentOn(DateView),
    SentSince(DateView),
    Since(DateView),
    Smaller(i64),
    Subject(Seq<char>),
    Text(Seq<char>),
    To(Seq<char>),
    Uid(Seq<Sequence>),
    Unanswered,
    Undeleted,
    Undraft,
    Unflagged,
    Unkeyword(IMAPFlags),
    Unseen,
}

/// The key's plain values.
pub open spec fn key_of(key: SearchKeys) -> KeyView
    decreases key,
{
        match key {
            SearchKeys::SequenceSet(s) => KeyView::SequenceSet(s.sequences@),
            SearchKeys::All => KeyView::All,
            SearchKeys::Answered => KeyView::Answered,
            SearchKeys::Bcc(s) => KeyView::Bcc(s@),
            SearchKeys::Before(d) => KeyView::Before(d@),
            SearchKeys::Body(s) => KeyView::Body(s@),
            SearchKeys::Cc(s) => KeyView::Cc(s@),
            SearchKeys::Deleted => KeyView::Deleted,
            SearchKeys::Draft => KeyView::Draft,
            SearchKeys::Flagged => KeyView::Flagged,
            SearchKeys::From(s) => KeyView::From(s@),
            SearchKeys::Header(h, v) => KeyView::Header(h@, v@),
            SearchKeys::Keyword(f) => KeyView::Keyword(f),
            SearchKeys::Larger(n) => KeyView::Larger(n),
            SearchKeys::Not(k) => KeyView::Not(Box::new(key_of(*k))),
            SearchKeys::On(d) => KeyView::On(d@),
            SearchKeys::Or(a, b) => KeyView::Or(Box::new(key_of(*a)), Box::new(key_of(*b))),
            SearchKeys::Seen => KeyView::Seen,
            SearchKeys::SentBefore(d) => KeyView::SentBefore(d@),
            SearchKeys::SentOn(d) => KeyView::SentOn(d@),
            SearchKeys::SentSince(d) => KeyView::SentSince(d@),
            SearchKeys::Since(d) => KeyView::Since(d@),
            SearchKeys::Smaller(n) => KeyView::Smaller(n),
            SearchKeys::Subject(s) => KeyView::Subject(s@),
            SearchKeys::Text(s) => KeyView::Text(s@),
            SearchKeys::To(s) => KeyView::To(s@),
            SearchKeys::Uid(s) => KeyView::Uid(s.sequences@),
            SearchKeys::Unanswered => KeyView::Unanswered,
            SearchKeys::Undeleted => KeyView::Undeleted,
            SearchKeys::Undraft => KeyView::Undraft,
            SearchKeys::Unflagged => KeyView::Unflagged,
            SearchKeys::Unkeyword(f) => KeyView::Unkeyword(f),
            SearchKeys::Unseen => KeyView::Unseen,
        }
}

impl View for SearchKeys {
    type V = KeyView;

    open spec fn view(&self) -> KeyView {
        key_of(*self)
    }
}

/// The view of a key that may be missing.
pub open spec fn key_view(k: Option<SearchKeys>) -> Option<KeyView> {
    match k {
        Some(k) => Some(k@),
        None => None,
    }
}

/// The key without arguments that a lower-case word names.
pub open spec fn plain_key(w: Seq<char>) -> Option<KeyView> {
    if w == "all"@ {
        Some(KeyView::All)
    } else if w == "answered"@ {
        Some(KeyView::Answered)
    } else if w == "deleted"@ {
        Some(KeyView::Deleted)
    } else if w == "draft"@ {
        Some(KeyView::Draft)
    } else if w == "flagged"@ {
        Some(KeyView::Flagged)
    } else if w == "seen"@ {
        Some(KeyView::Seen)
    } else if w == "unanswered"@ {
        Some(KeyView::Unanswered)
    } else if w == "undeleted"@ {
        Some(KeyView::Undeleted)
    } else if w == "undraft"@ {
        Some(KeyView::Undraft)
    } else if w == "unflagged"@ {
        Some(KeyView::Unflagged)
    } else if w == "unseen"@ {
        Some(KeyView::Unseen)
    } else {
        None
    }
}

/// The key that a lower-case word makes of one argument; nothing where
/// the word names no such key. Inside, nothing where the argument is not
/// of the key's type.
pub open spec fn unary_key(w: Seq<char>, arg: Seq<char>) -> Option<Option<KeyView>> {
    if w == "bcc"@ {
        Some(Some(KeyView::Bcc(arg)))
    } else if w == "body"@ {
        Some(Some(KeyView::Body(arg)))
    } else if w == "cc"@ {
        Some(Some(KeyView::Cc(arg)))
    } else if w == "from"@ {
        Some(Some(KeyView::From(arg)))
    } else if w == "subject"@ {
        Some(Some(KeyView::Subject(arg)))
    } else if w == "text"@ {
        Some(Some(KeyView::Text(arg)))
    } else if w == "to"@ {
        Some(Some(KeyView::To(arg)))
    } else if w == "before"@ {
        Some(
            match date_in(arg, SEARCH_DATE_FMT@) {
                Some(d) => Some(KeyView::Before(d)),
                None => None,
            },
        )
    } else if w == "on"@ {
        Some(
            match date_in(arg, SEARCH_DATE_FMT@) {
                Some(d) => Some(KeyView::On(d)),
                None => None,
            },
        )
    } else if w == "since"@ {
        Some(
            match date_in(arg, SEARCH_DATE_FMT@) {
                Some(d) => Some(KeyView::Since(d)),
                None => None,
            },
        )
    } else if w == "sentbefore"@ {
        Some(
            match date_in(arg, SEARCH_DATE_FMT@) {
                Some(d) => Some(KeyView::SentBefore(d)),
                None => None,
            },
        )
    } else if w == "senton"@ {
        Some(
            match date_in(arg, SEARCH_DATE_FMT@) {
                Some(d) => Some(KeyView::SentOn(d)),
                None => None,
            },
        )
    } else if w == "sentsince"@ {
        Some(
            match date_in(arg, SEARCH_DATE_FMT@) {
                Some(d) => Some(KeyView::SentSince(d)),
                None => None,
            },
        )
    } else if w == "larger"@ {
        Some(
            match i64_of(arg) {
                Some(n) => Some(KeyView::Larger(n)),
                None => None,
            },
        )
    } else if w == "smaller"@ {
        Some(
            match i64_of(arg) {
                Some(n) => Some(KeyView::Smaller(n)),
                None => None,
            },
        )
    } else if w == "keyword"@ {
        Some(
            match IMAPFlags::named(arg) {
                Some(f) => Some(KeyView::Keyword(f)),
                None => None,
            },
        )
    } else if w == "unkeyword"@ {
        Some(
            match IMAPFlags::named(arg) {
                Some(f) => Some(KeyView::Unkeyword(f)),
                None => None,
            },
        )
    } else if w == "uid"@ {
        Some(
            match sequence_set_of(arg) {
                Some(items) => Some(KeyView::Uid(items)),
                None => None,
            },
        )
    } else {
        None
    }
}

/// The key that starts at element `i` of a list of elements, and the
/// position after it. A key is a word without arguments, a word with one
/// argument, `HEADER` with two, `NOT` before a key, `OR` before two keys,
/// or else a sequence set. Nothing where an argument is missing or not of
/// its type.
pub open spec fn key_at(t: Seq<Seq<char>>, i: int) -> Option<(KeyView, int)>
    decreases t.len() - i,
{
    if i < 0 || i >= t.len() {
        None
    } else {
        let w = lower_seq(t[i]);
        if plain_key(w) is Some {
            Some((plain_key(w)->0, i + 1))
        } else if unary_key(w, seq![]) is Some {
            if i + 1 < t.len() {
                match unary_key(w, t[i + 1])->0 {
                    Some(k) => Some((k, i + 2)),
                    None => None,
                }
            } else {
                None
            }
        } else if w == "header"@ {
            if i + 2 < t.len() {
                Some((KeyView::Header(t[i + 1], t[i + 2]), i + 3))
            } else {
                None
            }
        } else if w == "not"@ {
            match key_at(t, i + 1) {
                Some((k, j)) => Some((KeyView::Not(Box::new(k)), j)),
                None => None,
            }
        } else if w == "or"@ {
            match key_at(t, i + 1) {
                Some((a, j)) => {
                    if i < j <= t.len() {
                        match key_at(t, j) {
                            Some((b, e)) => Some((KeyView::Or(Box::new(a), Box::new(b)), e)),
                            None => None,
                        }
                    } else {
                        None
                    }
                },
                None => None,
            }
        } else {
            match sequence_set_of(t[i]) {
                Some(items) => Some((KeyView::SequenceSet(items), i + 1)),
                None => None,
            }
        }
    }
}

pub proof fn lemma_key_at_end(t: Seq<Seq<char>>, i: int)
    ensures
        key_at(t, i) matches Some(p) ==> i < p.1 <= t.len(),
    decreases t.len() - i,
{
    if 0 <= i < t.len() {
        let w = lower_seq(t[i]);
        if plain_key(w) is Some {
        } else if unary_key(w, seq![]) is Some {
        } else if w == "header"@ {
        } else if w == "not"@ {
            lemma_key_at_end(t, i + 1);
        } else if w == "or"@ {
            lemma_key_at_end(t, i + 1);
            match key_at(t, i + 1) {
                Some((a, j)) => {
                    if i < j <= t.len() {
                        lemma_key_at_end(t, j);
                    }
                },
                None => {},
            }
        }
    }
}

/// Whether a lower-case word names a key with one argument.
pub proof fn lemma_unary_key_word(w: Seq<char>, a: Seq<char>, b: Seq<char>)
    ensures
        unary_key(w, a) is Some <==> unary_key(w, b) is Some,
{
}

pub fn parse_plain_key(w: &[char]) -> (r: Option<SearchKeys>)
    ensures
        key_view(r) == plain_key(w@),
{
    if eq_str(w, "all") {
        Some(SearchKeys::All)
    } else if eq_str(w, "answered") {
        Some(SearchKeys::Answered)
    } else if eq_str(w, "deleted") {
        Some(SearchKeys::Deleted)
    } else if eq_str(w, "draft") {
        Some(SearchKeys::Draft)
    } else if eq_str(w, "flagged") {
        Some(SearchKeys::Flagged)
    } else if eq_str(w, "seen") {
        Some(SearchKeys::Seen)
    } else if eq_str(w, "unanswered") {
        Some(SearchKeys::Unanswered)
    } else if eq_str(w, "undeleted") {
        Some(SearchKeys::Undeleted)
    } else if eq_str(w, "undraft") {
        Some(SearchKeys::Undraft)
    } else if eq_str(w, "unflagged") {
        Some(SearchKeys::Unflagged)
    } else if eq_str(w, "unseen") {
        Some(SearchKeys::Unseen)
    } else {
        None
    }
}

/// The view of a key that may be missing, under a word that may name none.
pub open spec fn key_view2(k: Option<Option<SearchKeys>>) -> Option<Option<KeyView>> {
    match k {
        Some(k) => Some(key_view(k)),
        None => None,
    }
}

/// Reads a date argument of a key.
pub fn parse_search_date(arg: &[char]) -> (r: Option<Date>)
    ensures
        r is Some <==> date_in(arg@, SEARCH_DATE_FMT@) is Some,
        r is Some ==> r->0@ == date_in(arg@, SEARCH_DATE_FMT@)->0,
{
    let text = chars_to_string(arg);
    Date::parse(text.as_str(), SEARCH_DATE_FMT)
}

pub fn parse_unary_key(w: &[char], arg: &[char]) -> (r: Option<Option<SearchKeys>>)
    ensures
        key_view2(r) == unary_key(w@, arg@),
{
    if eq_str(w, "bcc") {
        Some(Some(SearchKeys::Bcc(chars_to_string(arg))))
    } else if eq_str(w, "body") {
        Some(Some(SearchKeys::Body(chars_to_string(arg))))
    } else if eq_str(w, "cc") {
        Some(Some(SearchKeys::Cc(chars_to_string(arg))))
    } else if eq_str(w, "from") {
        Some(Some(SearchKeys::From(chars_to_string(arg))))
    } else if eq_str(w, "subject") {
        Some(Some(SearchKeys::Subject(chars_to_string(arg))))
    } else if eq_str(w, "text") {
        Some(Some(SearchKeys::Text(chars_to_string(arg))))
    } else if eq_str(w, "to") {
        Some(Some(SearchKeys::To(chars_to_string(arg))))
    } else if eq_str(w, "before") {
        Some(
            match parse_search_date(arg) {
                Some(d) => Some(SearchKeys::Before(d)),
                None => None,
            },
        )
    } else if eq_str(w, "on") {
        Some(
            match parse_search_date(arg) {
                Some(d) => Some(SearchKeys::On(d)),
                None => None,
            },
        )
    } else if eq_str(w, "since") {
        Some(
            match parse_search_date(arg) {
                Some(d) => Some(SearchKeys::Since(d)),
                None => None,
            },
        )
    } else if eq_str(w, "sentbefore") {
        Some(
            match parse_search_date(arg) {
                Some(d) => Some(SearchKeys::SentBefore(d)),
                None => None,
            },
        )
    } else if eq_str(w, "senton") {
        Some(
            match parse_search_date(arg) {
                Some(d) => Some(SearchKeys::SentOn(d)),
                None => None,
            },
        )
    } else if eq_str(w, "sentsince") {
        Some(
            match parse_search_date(arg) {
                Some(d) => Some(SearchKeys::SentSince(d)),
                None => None,
            },
        )
    } else if eq_str(w, "larger") {
        Some(
            match parse_i64(arg) {
                Some(n) => Some(SearchKeys::Larger(n)),
                None => None,
            },
        )
    } else if eq_str(w, "smaller") {
        Some(
            match parse_i64(arg) {
                Some(n) => Some(SearchKeys::Smaller(n)),
                None => None,
            },
        )
    } else if eq_str(w, "keyword") {
        Some(
            match IMAPFlags::from_chars(arg) {
                Some(f) => Some(SearchKeys::Keyword(f)),
                None => None,
            },
        )
    } else if eq_str(w, "unkeyword") {
        Some(
            match IMAPFlags::from_chars(arg) {
                Some(f) => Some(SearchKeys::Unkeyword(f)),
                None => None,
            },
        )
    } else if eq_str(w, "uid") {
        Some(
            match SequenceSet::from_chars(arg) {
                Some(set) => Some(SearchKeys::Uid(set)),
                None => None,
            },
        )
    } else {
        None
    }
}

/// Reads the key that starts at element `i`; gives the key and the
/// position after it.
pub fn parse_key(t: &Vec<Vec<char>>, i: usize) -> (r: Option<(SearchKeys, usize)>)
    ensures
        match (r, key_at(views(t@), i as int)) {
            (Some(p), Some(q)) => p.0@ == q.0 && p.1 == q.1 && i < p.1 <= t.len(),
            (None, None) => true,
            _ => false,
        },
    decreases t.len() - i,
{
    proof {
        lemma_key_at_end(views(t@), i as int);
    }
    if i >= t.len() {
        return None;
    }
    let w = to_lower_vec(t[i].as_slice());
    assert(w@ == lower_seq(views(t@)[i as int]));
    if let Some(k) = parse_plain_key(w.as_slice()) {
        return Some((k, i + 1));
    }
    let empty: Vec<char> = Vec::new();
    assert(empty@ =~= Seq::<char>::empty());
    if parse_unary_key(w.as_slice(), empty.as_slice()).is_some() {
        if i + 1 < t.len() {
            proof {
                lemma_unary_key_word(w@, seq![], views(t@)[i + 1]);
            }
            return match parse_unary_key(w.as_slice(), t[i + 1].as_slice()) {
                Some(Some(k)) => Some((k, i + 2)),
                _ => None,
            };
        } else {
            return None;
        }
    }
    if eq_str(w.as_slice(), "header") {
        if t.len() - i > 2 {
            let h = chars_to_string(t[i + 1].as_slice());
            let v = chars_to_string(t[i + 2].as_slice());
            return Some((SearchKeys::Header(h, v), i + 3));
        } else {
            return None;
        }
    }
    if eq_str(w.as_slice(), "not") {
        return match parse_key(t, i + 1) {
            Some((k, j)) => Some((SearchKeys::Not(Box::new(k)), j)),
            None => None,
        };
    }
    if eq_str(w.as_slice(), "or") {
        return match parse_key(t, i + 1) {
            Some((a, j)) => {
                match parse_key(t, j) {
                    Some((b, e)) => Some((SearchKeys::Or(Box::new(a), Box::new(b)), e)),
                    None => None,
                }
            },
            None => None,
        };
    }
    match SequenceSet::from_chars(t[i].as_slice()) {
        Some(set) => Some((SearchKeys::SequenceSet(set), i + 1)),
        None => None,
    }
}


/// The views of a list of keys.
pub open spec fn key_views(v: Seq<SearchKeys>) -> Seq<KeyView> {
    Seq::new(v.len(), |i: int| v[i]@)
}

/// `keys_from` with the keys read so far put in front.
pub open spec fn keys_rest(acc: Seq<KeyView>, tail: Option<Seq<KeyView>>) -> Option<Seq<KeyView>> {
    match tail {
        Some(rest) => Some(acc + rest),
        None => None,
    }
}

/// The keys that the elements from position `i` on write, one after the
/// other; nothing where one of them is malformed.
pub open spec fn keys_from(t: Seq<Seq<char>>, i: int) -> Option<Seq<KeyView>>
    decreases t.len() - i,
{
    if i < 0 || i >= t.len() {
        Some(seq![])
    } else {
        match key_at(t, i) {
            Some((k, j)) => {
                if i < j <= t.len() {
                    keys_rest(seq![k], keys_from(t, j))
                } else {
                    None
                }
            },
            None => None,
        }
    }
}

/// Reads all the keys of a list of elements.
pub fn parse_keys(t: &Vec<Vec<char>>) -> (r: Option<Vec<SearchKeys>>)
    ensures
        r is Some <==> keys_from(views(t@), 0) is Some,
        r is Some ==> key_views(r->0@) == keys_from(views(t@), 0)->0,
{
    let mut out: Vec<SearchKeys> = Vec::new();
    let mut i: usize = 0;
    while i < t.len()
        invariant
            i <= t.len(),
            keys_from(views(t@), 0) == keys_rest(key_views(out@), keys_from(views(t@), i as int)),
        decreases t.len() - i,
    {
        match parse_key(t, i) {
            Some((k, j)) => {
                let ghost before = key_views(out@);
                let ghost kv = k@;
                out.push(k);
                assert(key_views(out@) =~= before.push(kv));
                proof {
                    match keys_from(views(t@), j as int) {
                        Some(rest) => {
                            assert(key_views(out@) + rest =~= before + (seq![kv] + rest));
                        },
                        None => {},
                    }
                }
                i = j;
            },
            None => {
                return None;
            },
        }
    }
    assert(key_views(out@) + Seq::<KeyView>::empty() =~= key_views(out@));
    Some(out)
}

/// The single key that a text writes: its elements must make up exactly
/// one key.
pub open spec fn key_in(s: Seq<char>) -> Option<KeyView> {
    match list_of(s) {
        Some(t) => {
            match key_at(t, 0) {
                Some((k, j)) => {
                    if j == t.len() {
                        Some(k)
                    } else {
                        None
                    }
                },
                None => None,
            }
        },
        None => None,
    }
}

impl SearchKeys {
    /// Reads one search key with its arguments.
    pub fn from_str(s: &str) -> (r: Option<SearchKeys>)
        ensures
            key_view(r) == key_in(s@),
    {
        let chars = str_to_chars(s);
        match parse_list_chars(chars.as_slice()) {
            Some(t) => {
                match parse_key(&t, 0) {
                    Some((k, j)) => {
                        if j == t.len() {
                            Some(k)
                        } else {
                            None
                        }
                    },
                    None => None,
                }
            },
            None => None,
        }
    }
}

/// The smallest of the numbers; 0 where there is none.
pub open spec fn smallest(ids: Seq<i32>) -> i32
    decreases ids.len(),
{
    if ids.len() == 0 {
        0
    } else if ids.len() == 1 {
        ids[0]
    } else if ids.last() < smallest(ids.drop_last()) {
        ids.last()
    } else {
        smallest(ids.drop_last())
    }
}

/// The largest of the numbers; 0 where there is none.
pub open spec fn largest(ids: Seq<i32>) -> i32
    decreases ids.len(),
{
    if ids.len() == 0 {
        0
    } else if ids.len() == 1 {
        ids[0]
    } else if ids.last() > largest(ids.drop_last()) {
        ids.last()
    } else {
        largest(ids.drop_last())
    }
}

pub proof fn lemma_smallest(ids: Seq<i32>)
    requires
        ids.len() > 0,
    ensures
        ids.contains(smallest(ids)),
        forall|i: int| 0 <= i < ids.len() ==> smallest(ids) <= ids[i],
    decreases ids.len(),
{
    if ids.len() > 1 {
        lemma_smallest(ids.drop_last());
        let m = smallest(ids.drop_last());
        let k = choose|k: int| 0 <= k < ids.drop_last().len() && ids.drop_last()[k] == m;
        assert(ids[k] == m);
        assert(ids[ids.len() - 1] == ids.last());
        assert forall|i: int| 0 <= i < ids.len() implies smallest(ids) <= ids[i] by {
            if i < ids.len() - 1 {
                assert(ids.drop_last()[i] == ids[i]);
            }
        }
    } else {
        assert(ids[0] == smallest(ids));
    }
}

pub proof fn lemma_largest(ids: Seq<i32>)
    requires
        ids.len() > 0,
    ensures
        ids.contains(largest(ids)),
        forall|i: int| 0 <= i < ids.len() ==> largest(ids) >= ids[i],
    decreases ids.len(),
{
    if ids.len() > 1 {
        lemma_largest(ids.drop_last());
        let m = largest(ids.drop_last());
        let k = choose|k: int| 0 <= k < ids.drop_last().len() && ids.drop_last()[k] == m;
        assert(ids[k] == m);
        assert(ids[ids.len() - 1] == ids.last());
        assert forall|i: int| 0 <= i < ids.len() implies largest(ids) >= ids[i] by {
            if i < ids.len() - 1 {
                assert(ids.drop_last()[i] == ids[i]);
            }
        }
    } else {
        assert(ids[0] == largest(ids));
    }
}

pub fn min_of(ids: &Vec<i32>) -> (r: i32)
    ensures
        r == smallest(ids@),
        ids@.len() > 0 ==> ids@.contains(r),
        forall|i: int| 0 <= i < ids@.len() ==> r <= ids@[i],
{
    if ids.len() == 0 {
        return 0;
    }
    proof {
        lemma_smallest(ids@);
    }
    let mut m: i32 = ids[0];
    let mut i: usize = 1;
    assert(ids@.subrange(0, 1).len() == 1);
    while i < ids.len()
        invariant
            1 <= i <= ids.len(),
            m == smallest(ids@.subrange(0, i as int)),
        decreases ids.len() - i,
    {
        assert(ids@.subrange(0, i + 1).drop_last() =~= ids@.subrange(0, i as int));
        if ids[i] < m {
            m = ids[i];
        }
        i += 1;
    }
    assert(ids@.subrange(0, i as int) =~= ids@);
    m
}

pub fn max_of(ids: &Vec<i32>) -> (r: i32)
    ensures
        r == largest(ids@),
        ids@.len() > 0 ==> ids@.contains(r),
        forall|i: int| 0 <= i < ids@.len() ==> r >= ids@[i],
{
    if ids.len() == 0 {
        return 0;
    }
    proof {
        lemma_largest(ids@);
    }
    let mut m: i32 = ids[0];
    let mut i: usize = 1;
    assert(ids@.subrange(0, 1).len() == 1);
    while i < ids.len()
        invariant
            1 <= i <= ids.len(),
            m == largest(ids@.subrange(0, i as int)),
        decreases ids.len() - i,
    {
        assert(ids@.subrange(0, i + 1).drop_last() =~= ids@.subrange(0, i as int));
        if ids[i] > m {
            m = ids[i];
        }
        i += 1;
    }
    assert(ids@.subrange(0, i as int) =~= ids@);
    m
}

/// What one return option shows of the found numbers; nothing for `MIN`
/// and `MAX` where no number was found, and nothing for `SAVE`.
pub open spec fn return_item(opt: ReturnOptions, ids: Seq<i32>) -> Option<Seq<char>> {
    match opt {
        ReturnOptions::Min => if ids.len() > 0 {
            Some("MIN "@ + decimal(smallest(ids) as int))
        } else {
            None
        },
        ReturnOptions::Max => if ids.len() > 0 {
            Some("MAX "@ + decimal(largest(ids) as int))
        } else {
            None
        },
        ReturnOptions::All => Some("ALL "@ + sequences_text(compressed(ids))),
        ReturnOptions::Count => Some("COUNT "@ + decimal(ids.len() as int)),
        ReturnOptions::Save => None,
    }
}

/// What the return options show, in their order.
pub open spec fn return_items(opts: Seq<ReturnOptions>, ids: Seq<i32>) -> Seq<Seq<char>>
    decreases opts.len(),
{
    if opts.len() == 0 {
        seq![]
    } else {
        let before = return_items(opts.drop_last(), ids);
        match return_item(opts.last(), ids) {
            Some(t) => before.push(t),
            None => before,
        }
    }
}

/// The result part of an ESEARCH response.
pub open spec fn search_result_text(opts: Seq<ReturnOptions>, ids: Seq<i32>) -> Seq<char> {
    join(return_items(opts, ids), " "@)
}

pub fn return_item_chars(opt: ReturnOptions, ids: &Vec<i32>) -> (r: Option<Vec<char>>)
    ensures
        r is Some <==> return_item(opt, ids@) is Some,
        r is Some ==> r->0@ == return_item(opt, ids@)->0,
{
    let mut out: Vec<char> = Vec::new();
    match opt {
        ReturnOptions::Min => {
            if ids.len() > 0 {
                push_str(&mut out, "MIN ");
                push_i64(&mut out, min_of(ids) as i64);
                assert(out@ =~= return_item(opt, ids@)->0);
                Some(out)
            } else {
                None
            }
        },
        ReturnOptions::Max => {
            if ids.len() > 0 {
                push_str(&mut out, "MAX ");
                push_i64(&mut out, max_of(ids) as i64);
                assert(out@ =~= return_item(opt, ids@)->0);
                Some(out)
            } else {
                None
            }
        },
        ReturnOptions::All => {
            push_str(&mut out, "ALL ");
            let set = SequenceSet::from_list(ids);
            set.push_text(&mut out);
            assert(out@ =~= return_item(opt, ids@)->0);
            Some(out)
        },
        ReturnOptions::Count => {
            push_str(&mut out, "COUNT ");
            push_u64(&mut out, ids.len() as u64);
            assert(out@ =~= return_item(opt, ids@)->0);
            Some(out)
        },
        ReturnOptions::Save => None,
    }
}

/// Writes the found numbers as the return options ask: `MIN n`, `MAX n`,
/// `ALL set`, `COUNT k`, separated by single spaces.
pub fn format_search_result(return_opts: &Vec<ReturnOptions>, ids: &Vec<i32>) -> (r: String)
    ensures
        r@ == search_result_text(return_opts@, ids@),
{
    let mut items: Vec<Vec<char>> = Vec::new();
    let mut i: usize = 0;
    while i < return_opts.len()
        invariant
            i <= return_opts.len(),
            views(items@) == return_items(return_opts@.subrange(0, i as int), ids@),
        decreases return_opts.len() - i,
    {
        assert(return_opts@.subrange(0, i + 1).drop_last() =~= return_opts@.subrange(0, i as int));
        assert(return_opts@.subrange(0, i + 1).last() == return_opts@[i as int]);
        let ghost before = views(items@);
        match return_item_chars(return_opts[i], ids) {
            Some(t) => {
                items.push(t);
                assert(views(items@) =~= before.push(t@));
            },
            None => {},
        }
        i += 1;
    }
    assert(return_opts@.subrange(0, i as int) =~= return_opts@);
    let out = crate::scan::join_chars(&items, " ");
    chars_to_string(out.as_slice())
}


pub struct Search;

/// The return options in force: `ALL` where none was given.
pub open spec fn options_in_force(opts: Seq<ReturnOptions>) -> Seq<ReturnOptions> {
    if opts.len() == 0 {
        seq![ReturnOptions::All]
    } else {
        opts
    }
}

/// The untagged line of a search response.
pub open spec fn esearch_line(tag: Seq<char>, result: Seq<char>) -> Seq<char> {
    "* ESEARCH (TAG \""@ + tag + "\") "@ + result + "\r\n"@
}

/// What SEARCH, or UID SEARCH (`uid`), answers; the store stays as it is.
/// Where the arguments end with the announcement of a literal, the text
/// of the literal is asked for, with a prompt unless the announcement
/// holds the `+`.
pub open spec fn search_outcome(
    tag: Seq<char>,
    args: Seq<char>,
    state: IMAPState,
    db: StoreView,
    r: Handled,
    uid: bool,
) -> bool {
    match state {
        IMAPState::Selected(s) => match search_awaits(args) {
            Some(plus) => handled_is(
                r,
                if plus {
                    seq![]
                } else {
                    seq![READY@]
                },
                state,
                ResponseInfo::RedoForNextMsg,
            ),
            None => match search_of(args) {
                None => refused_with(r, ImapError::BadArgument),
                Some((opts, keys)) => if keys.len() == 0 {
                    refused_with(r, ImapError::MissingArgument)
                } else {
                    handled_is(
                        r,
                        seq![
                            esearch_line(
                                tag,
                                search_result_text(
                                    options_in_force(opts),
                                    found(
                                        db.mail,
                                        keys_meant(keys, db.mail, s.mailbox_id),
                                        s.mailbox_id,
                                        uid,
                                        db.mail.len() as int,
                                    ),
                                ),
                            ),
                            tag + " OK SEARCH completed\r\n"@,
                        ],
                        state,
                        ResponseInfo::Regular,
                    )
                },
            },
        },
        _ => refused_with(r, ImapError::BadState),
    }
}

/// Searches the selected mailbox and answers with sequence numbers, or
/// with UIDs in UID mode.
pub fn search_or_uid(tag: &str, args: &str, state: IMAPState, db: &DBClient, uid: bool) -> (r:
    Handled)
    ensures
        search_outcome(tag@, args@, state, db@, r, uid),
{
    let selected = match state {
        IMAPState::Selected(s) => s,
        _ => {
            return Err(ImapError::BadState);
        },
    };
    match search_pending(args) {
        Some(plus) => {
            let mut texts: Vec<Vec<char>> = Vec::new();
            if !plus {
                texts.push(str_to_chars(READY));
                assert(views(texts@) =~= seq![READY@]);
            } else {
                assert(views(texts@) =~= Seq::<Seq<char>>::empty());
            }
            return answer(texts, state, ResponseInfo::RedoForNextMsg);
        },
        None => {},
    }
    let mut search_args = match crate::parsing::imap::search(args) {
        Some(a) => a,
        None => {
            return Err(ImapError::BadArgument);
        },
    };
    if search_args.return_opts.len() == 0 {
        search_args.return_opts.push(ReturnOptions::All);
        assert(search_args.return_opts@ =~= seq![ReturnOptions::All]);
    }
    match db.exec_search_query(&search_args, selected.mailbox_id, uid) {
        Ok(result) => {
            let mut line: Vec<char> = Vec::new();
            push_str(&mut line, "* ESEARCH (TAG \"");
            push_str(&mut line, tag);
            push_str(&mut line, "\") ");
            push_str(&mut line, result.as_str());
            push_str(&mut line, "\r\n");
            assert(line@ =~= esearch_line(tag@, result@));
            answer_lines(line, tagged(tag, " OK SEARCH completed\r\n"), state, ResponseInfo::Regular)
        },
        Err(_) => Err(ImapError::MissingArgument),
    }
}

impl IMAPOp for Search {
    /// Searches the selected mailbox by sequence number.
    fn process(tag: &str, args: &str, state: IMAPState, db: &mut DBClient, now: Timestamp) -> (r:
        Handled)
        ensures
            final(db)@ == old(db)@,
            search_outcome(tag@, args@, state, old(db)@, r, false),
    {
        search_or_uid(tag, args, state, db, false)
    }
}

} // verus!
