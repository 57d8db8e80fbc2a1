//! What it means for a message to match a search key.
//!
//! The conditions are those that the SQL condition of a key puts on a
//! row: `LIKE` on the text and on the flag bitmap, `REGEXP` on the text,
//! and comparisons of sizes and dates. Regular expressions are run by
//! `fancy_regex`; what it returns is named here and nothing more is
//! claimed of it. A database that runs the conditions itself gives its
//! `REGEXP` the function `search_pattern`, so that both read one dialect.

use vstd::prelude::*;
use vstd::string::StrSliceExecFns;
use crate::database::{fits, fits_pattern, IMAPFlags};
use crate::dates::{date_in, Date};
use crate::imap_op::search::{
    body_regex, header_regex, id_number, key_views, resolved_items, set_holds, text_pattern,
    to_id_number, KeyView,
    SearchKeys, DATE_HEADER_REGEX,
};
use crate::parsing::imap::{digits_end, skip_digits};
use crate::scan::{find_char_from, find_from};
use crate::parsing::MAIL_NAIVE_DATE_FMT;
use crate::store::{MailRow, MailView};
use crate::text::{
    chars_to_string, copy_range, digits_value, is_ascii_digit, is_digit, lower, parse_nat,
    push_str, str_to_chars, to_lower,
};

verus! {

/// The most that the length of a pattern and the numbers written in it
/// may multiply to.
pub const PATTERN_BOUND: u64 = 2147483647;

/// The number that a run of digits counts as in a pattern: its value, and
/// one where that is zero.
pub open spec fn count_of(run: Seq<char>) -> nat {
    if digits_value(run) == 0 {
        1
    } else {
        digits_value(run)
    }
}

/// Whether `acc`, multiplied by each number written in the pattern from
/// position `i` on, stays within the bound. A number is a longest run of
/// decimal digits.
pub open spec fn counts_within(s: Seq<char>, i: int, acc: nat) -> bool
    decreases s.len() - i,
{
    if acc > PATTERN_BOUND {
        false
    } else if !(0 <= i < s.len()) {
        true
    } else if is_digit(s[i]) {
        let e = digits_end(s, i);
        if i < e <= s.len() {
            counts_within(s, e, acc * count_of(s.subrange(i, e)))
        } else {
            false
        }
    } else {
        counts_within(s, i + 1, acc)
    }
}

/// Whether a pattern is handed to `fancy_regex`: its length plus one,
/// multiplied by every number written behind its first `{`, stays within
/// `PATTERN_BOUND`. `fancy_regex` multiplies the least length of a
/// repeated piece by its count, and adds such lengths up, without a check.
/// Every count is a number that stands behind a `{`, with white space or
/// comments between them at most, and every piece takes a character of
/// the pattern; so no such product or sum of a pattern within the bound
/// leaves 32 bits. A number before the first `{` is no count.
pub open spec fn pattern_ok(pattern: Seq<char>) -> bool {
    counts_within(pattern, find_from(pattern, '{', 0), pattern.len() + 1)
}

/// Says whether a pattern is within the bound.
pub fn safe_pattern(pattern: &[char]) -> (r: bool)
    ensures
        r == pattern_ok(pattern@),
{
    if pattern.len() >= PATTERN_BOUND as usize {
        return false;
    }
    let mut acc: u64 = pattern.len() as u64 + 1;
    let mut i: usize = find_char_from(pattern, '{', 0);
    loop
        invariant
            i <= pattern.len(),
            1 <= acc <= PATTERN_BOUND,
            pattern_ok(pattern@) == counts_within(pattern@, i as int, acc as nat),
        decreases pattern.len() - i,
    {
        if i >= pattern.len() {
            return true;
        }
        if is_ascii_digit(pattern[i]) {
            let e = skip_digits(pattern, i);
            assert(i < e) by {
                assert(digits_end(pattern@, i as int) == digits_end(pattern@, i + 1));
                crate::parsing::imap::lemma_digits_end(pattern@, i + 1);
            }
            let run = copy_range(pattern, i, e);
            let ghost count = count_of(pattern@.subrange(i as int, e as int));
            assert(run@ == pattern@.subrange(i as int, e as int));
            assert(counts_within(pattern@, i as int, acc as nat) == counts_within(
                pattern@,
                e as int,
                acc as nat * count,
            ));
            match parse_nat(run.as_slice(), PATTERN_BOUND) {
                None => {
                    proof {
                        assert(digits_value(run@) > PATTERN_BOUND);
                        assert(acc * count >= count) by (nonlinear_arith)
                            requires
                                acc >= 1,
                                count >= 0,
                        ;
                        assert(!counts_within(pattern@, e as int, acc as nat * count));
                    }
                    return false;
                },
                Some(v) => {
                    let factor: u64 = if v == 0 {
                        1
                    } else {
                        v
                    };
                    assert(factor == count);
                    assert(acc * factor <= PATTERN_BOUND * PATTERN_BOUND) by (nonlinear_arith)
                        requires
                            acc <= PATTERN_BOUND,
                            factor <= PATTERN_BOUND,
                    ;
                    let next: u64 = acc * factor;
                    if next > PATTERN_BOUND {
                        assert(!counts_within(pattern@, e as int, acc as nat * count));
                        return false;
                    }
                    assert(next >= 1) by (nonlinear_arith)
                        requires
                            next == acc * factor,
                            acc >= 1,
                            factor >= 1,
                    ;
                    acc = next;
                    i = e;
                },
            }
        } else {
            i += 1;
        }
    }
}

/// Whether `fancy_regex` finds the pattern somewhere in the text; nothing
/// where it cannot compile the pattern or gives up the search.
pub uninterp spec fn regex_found(pattern: Seq<char>, text: Seq<char>) -> Option<bool>;

/// The text of capture group `group` of the first match that `fancy_regex`
/// finds of the pattern in the text; nothing where the pattern does not
/// compile, the search is given up, nothing matches, or the group took no
/// part in the match.
pub uninterp spec fn regex_group(pattern: Seq<char>, text: Seq<char>, group: int) -> Option<
    Seq<char>,
>;

/// Calls `fancy_regex::Regex::new` and `Regex::is_match`, on a pattern
/// within the bound only. The contract only names the result.
#[verifier::external_body]
fn regex_is_match(pattern: &str, text: &str) -> (r: Option<bool>)
    requires
        pattern_ok(pattern@),
    ensures
        r == regex_found(pattern@, text@),
{
    match fancy_regex::Regex::new(pattern) {
        Ok(re) => match re.is_match(text) {
            Ok(b) => Some(b),
            Err(_) => None,
        },
        Err(_) => None,
    }
}

/// Calls `fancy_regex::Regex::new`, `Regex::captures` and `Captures::get`,
/// on a pattern within the bound only. The contract only names the
/// result.
#[verifier::external_body]
fn regex_capture_group(pattern: &str, text: &str, group: usize) -> (r: Option<String>)
    requires
        pattern_ok(pattern@),
        group <= i32::MAX,
    ensures
        r is Some <==> regex_group(pattern@, text@, group as int) is Some,
        r is Some ==> r->0@ == regex_group(pattern@, text@, group as int)->0,
{
    let re = fancy_regex::Regex::new(pattern).ok()?;
    match re.captures(text) {
        Ok(Some(found)) => found.get(group).map(|m| m.as_str().to_string()),
        _ => None,
    }
}

/// Whether the pattern is found in the text; nothing where the pattern is
/// not within the bound, and so is not tried.
pub open spec fn searched(pattern: Seq<char>, text: Seq<char>) -> Option<bool> {
    if pattern_ok(pattern) {
        regex_found(pattern, text)
    } else {
        None
    }
}

/// Looks for the pattern in the text, where the pattern is within the
/// bound.
pub fn search_pattern(pattern: &str, text: &str) -> (r: Option<bool>)
    ensures
        r == searched(pattern@, text@),
{
    let p = str_to_chars(pattern);
    if safe_pattern(p.as_slice()) {
        regex_is_match(pattern, text)
    } else {
        None
    }
}

/// The capture that `regex_capture` gives for a group index, which may be
/// negative: no group has a negative index, and a pattern that is not
/// within the bound is not tried.
pub open spec fn captured(pattern: Seq<char>, text: Seq<char>, capture_idx: i32) -> Option<
    Seq<char>,
> {
    if capture_idx < 0 || !pattern_ok(pattern) {
        None
    } else {
        regex_group(pattern, text, capture_idx as int)
    }
}

/// The text that capture group `capture_idx` of the pattern takes in the
/// first match in the text.
pub fn regex_capture(pattern: &str, text: &str, capture_idx: i32) -> (r: Option<String>)
    ensures
        r is Some <==> captured(pattern@, text@, capture_idx) is Some,
        r is Some ==> r->0@ == captured(pattern@, text@, capture_idx)->0,
{
    let p = str_to_chars(pattern);
    if capture_idx < 0 || !safe_pattern(p.as_slice()) {
        None
    } else {
        regex_capture_group(pattern, text, capture_idx as usize)
    }
}

/// The calendar date at the start of a `Date:` header value, in the form
/// that the store compares.
pub open spec fn header_date(input: Seq<char>) -> Option<Seq<char>> {
    match date_in(input, MAIL_NAIVE_DATE_FMT@) {
        Some(d) => Some(d.canonical),
        None => None,
    }
}

/// Reads the calendar date of a `Date:` header value, written as day,
/// month name and year, and writes it as the store compares it.
pub fn rfc2822_to_date(input: &str) -> (r: Option<String>)
    ensures
        r is Some <==> header_date(input@) is Some,
        r is Some ==> r->0@ == header_date(input@)->0,
{
    match Date::parse(input, MAIL_NAIVE_DATE_FMT) {
        Some(d) => Some(d.canonical),
        None => None,
    }
}

/// The value that a message's `Date:` header has in a comparison: its
/// calendar date, or the empty text where the message has no such header
/// or its date cannot be read.
pub open spec fn sent_date(data: Seq<char>) -> Seq<char> {
    match captured(DATE_HEADER_REGEX@, data, 1) {
        Some(found) => match header_date(found) {
            Some(d) => d,
            None => seq![],
        },
        None => seq![],
    }
}

pub fn sent_date_of(data: &str) -> (r: String)
    ensures
        r@ == sent_date(data@),
{
    match regex_capture(DATE_HEADER_REGEX, data, 1) {
        Some(found) => match rfc2822_to_date(found.as_str()) {
            Some(d) => d,
            None => String::new(),
        },
        None => String::new(),
    }
}

/// Whether `a` sorts before `b`: at the first place where they differ `a`
/// has the smaller character, or `a` ends there and `b` goes on.
pub open spec fn text_less(a: Seq<char>, b: Seq<char>) -> bool
    decreases a.len(),
{
    if b.len() == 0 {
        false
    } else if a.len() == 0 {
        true
    } else if a[0] != b[0] {
        (a[0] as u32) < (b[0] as u32)
    } else {
        text_less(a.skip(1), b.skip(1))
    }
}

pub fn is_text_less(a: &[char], b: &[char]) -> (r: bool)
    ensures
        r == text_less(a@, b@),
{
    let mut i: usize = 0;
    assert(a@.skip(0) =~= a@);
    assert(b@.skip(0) =~= b@);
    loop
        invariant
            i <= a.len(),
            i <= b.len(),
            text_less(a@, b@) == text_less(a@.skip(i as int), b@.skip(i as int)),
        decreases a.len() - i,
    {
        if i >= b.len() {
            return false;
        }
        if i >= a.len() {
            return true;
        }
        if a[i] != b[i] {
            return (a[i] as u32) < (b[i] as u32);
        }
        assert(a@.skip(i as int).skip(1) =~= a@.skip(i + 1));
        assert(b@.skip(i as int).skip(1) =~= b@.skip(i + 1));
        i += 1;
    }
}

/// SQL `LIKE` from place `i` of the pattern and place `j` of the text:
/// `%` stands for any run of characters, `_` for any one character, and
/// any other character for itself, ASCII letters in either case.
pub open spec fn like_at(p: Seq<char>, t: Seq<char>, i: int, j: int) -> bool
    decreases p.len() - i, t.len() - j,
{
    if i < 0 || j < 0 || j > t.len() {
        false
    } else if i >= p.len() {
        j == t.len()
    } else if p[i] == '%' {
        like_at(p, t, i + 1, j) || (j < t.len() && like_at(p, t, i, j + 1))
    } else if j < t.len() && (p[i] == '_' || lower(p[i]) == lower(t[j])) {
        like_at(p, t, i + 1, j + 1)
    } else {
        false
    }
}

/// Whether the text is `LIKE` the pattern.
pub open spec fn like(pattern: Seq<char>, text: Seq<char>) -> bool {
    like_at(pattern, text, 0, 0)
}

/// The row of the table for place `j` of the text, from the row for place
/// `j + 1`.
fn like_row(p: &[char], t: &[char], j: usize, next: &Vec<bool>) -> (cur: Vec<bool>)
    requires
        j <= t.len(),
        p.len() < usize::MAX,
        next.len() == p.len() + 1,
        j < t.len() ==> forall|i: int| 0 <= i <= p.len() ==> next@[i] == like_at(p@, t@, i, j + 1),
    ensures
        cur.len() == p.len() + 1,
        forall|i: int| 0 <= i <= p.len() ==> cur@[i] == like_at(p@, t@, i, j as int),
{
    // built from the last place of the pattern to the first, then turned
    let n = p.len();
    let mut rev: Vec<bool> = Vec::new();
    rev.push(j == t.len());
    let mut k: usize = 0;
    while k < n
        invariant
            k <= n,
            n == p.len(),
            j <= t.len(),
            next.len() == n + 1,
            rev.len() == k + 1,
            j < t.len() ==> forall|i: int| 0 <= i <= n ==> next@[i] == like_at(p@, t@, i, j + 1),
            forall|m: int| 0 <= m <= k ==> rev@[m] == like_at(p@, t@, n - m, j as int),
        decreases n - k,
    {
        let i = n - 1 - k;
        let v = if p[i] == '%' {
            rev[k] || (j < t.len() && next[i])
        } else if j < t.len() && (p[i] == '_' || to_lower(p[i]) == to_lower(t[j])) {
            next[i + 1]
        } else {
            false
        };
        assert(v == like_at(p@, t@, i as int, j as int));
        rev.push(v);
        k += 1;
    }
    let mut cur: Vec<bool> = Vec::new();
    let mut i: usize = 0;
    while i <= n
        invariant
            i <= n + 1,
            n == p.len(),
            n < usize::MAX,
            rev.len() == n + 1,
            cur.len() == i,
            forall|m: int| 0 <= m <= n ==> rev@[m] == like_at(p@, t@, n - m, j as int),
            forall|m: int| 0 <= m < i ==> cur@[m] == like_at(p@, t@, m, j as int),
        decreases n + 1 - i,
    {
        cur.push(rev[n - i]);
        i += 1;
    }
    cur
}

/// SQL `LIKE`.
pub fn is_like(pattern: &[char], text: &[char]) -> (r: bool)
    ensures
        r == like(pattern@, text@),
{
    if pattern.len() == usize::MAX {
        // no slice of characters is this long
        return slow_like(pattern, text, 0, 0);
    }
    let mut row: Vec<bool> = Vec::new();
    let mut f: usize = 0;
    while f <= pattern.len()
        invariant
            f <= pattern.len() + 1,
            pattern.len() < usize::MAX,
            row.len() == f,
        decreases pattern.len() + 1 - f,
    {
        row.push(false);
        f += 1;
    }
    let mut j: usize = text.len();
    row = like_row(pattern, text, j, &row);
    while j > 0
        invariant
            j <= text.len(),
            pattern.len() < usize::MAX,
            row.len() == pattern.len() + 1,
            forall|i: int| 0 <= i <= pattern.len() ==> row@[i] == like_at(pattern@, text@, i, j as int),
        decreases j,
    {
        j -= 1;
        row = like_row(pattern, text, j, &row);
    }
    row[0]
}

/// SQL `LIKE` by the definition.
fn slow_like(p: &[char], t: &[char], i: usize, j: usize) -> (r: bool)
    requires
        i <= p.len(),
        j <= t.len(),
    ensures
        r == like_at(p@, t@, i as int, j as int),
    decreases p.len() - i, t.len() - j,
{
    if i >= p.len() {
        j == t.len()
    } else if p[i] == '%' {
        slow_like(p, t, i + 1, j) || (j < t.len() && slow_like(p, t, i, j + 1))
    } else if j < t.len() && (p[i] == '_' || to_lower(p[i]) == to_lower(t[j])) {
        slow_like(p, t, i + 1, j + 1)
    } else {
        false
    }
}

/// Whether a regular expression was found, a failed search counting as
/// not found.
pub open spec fn found_is(verdict: Option<bool>) -> bool {
    verdict == Some(true)
}

pub fn is_found(verdict: Option<bool>) -> (r: bool)
    ensures
        r == found_is(verdict),
{
    match verdict {
        Some(true) => true,
        _ => false,
    }
}

/// Whether the message matches the key.
pub open spec fn key_matches(key: KeyView, row: MailView) -> bool
    decreases key,
{
    match key {
        KeyView::All => true,
        KeyView::Text(s) => like(text_pattern(s), row.data),
        KeyView::Header(h, v) => found_is(searched(header_regex(h, v), row.data)),
        KeyView::Body(s) => found_is(searched(body_regex(s), row.data)),
        KeyView::Bcc(s) => found_is(searched(header_regex("Bcc"@, s), row.data)),
        KeyView::Cc(s) => found_is(searched(header_regex("Cc"@, s), row.data)),
        KeyView::From(s) => found_is(searched(header_regex("From"@, s), row.data)),
        KeyView::Subject(s) => found_is(searched(header_regex("Subject"@, s), row.data)),
        KeyView::To(s) => found_is(searched(header_regex("To"@, s), row.data)),
        KeyView::Answered => fits(row.flags, IMAPFlags::Answered.pattern('1')),
        KeyView::Flagged => fits(row.flags, IMAPFlags::Flagged.pattern('1')),
        KeyView::Deleted => fits(row.flags, IMAPFlags::Deleted.pattern('1')),
        KeyView::Seen => fits(row.flags, IMAPFlags::Seen.pattern('1')),
        KeyView::Draft => fits(row.flags, IMAPFlags::Draft.pattern('1')),
        KeyView::Unanswered => fits(row.flags, IMAPFlags::Answered.pattern('0')),
        KeyView::Unflagged => fits(row.flags, IMAPFlags::Flagged.pattern('0')),
        KeyView::Undeleted => fits(row.flags, IMAPFlags::Deleted.pattern('0')),
        KeyView::Unseen => fits(row.flags, IMAPFlags::Seen.pattern('0')),
        KeyView::Undraft => fits(row.flags, IMAPFlags::Draft.pattern('0')),
        KeyView::Keyword(f) => fits(row.flags, f.pattern('1')),
        KeyView::Unkeyword(f) => !fits(row.flags, f.pattern('1')),
        KeyView::Larger(n) => row.data.len() > n,
        KeyView::Smaller(n) => row.data.len() < n,
        KeyView::Before(d) => row.date.unix_seconds < d.unix_seconds,
        KeyView::On(d) => row.date.unix_seconds == d.unix_seconds,
        KeyView::Since(d) => row.date.unix_seconds > d.unix_seconds,
        KeyView::SentBefore(d) => text_less(sent_date(row.data), d.canonical),
        KeyView::SentOn(d) => sent_date(row.data) == d.canonical,
        KeyView::SentSince(d) => text_less(d.canonical, sent_date(row.data)),
        KeyView::Not(k) => !key_matches(*k, row),
        KeyView::Or(a, b) => key_matches(*a, row) || key_matches(*b, row),
        KeyView::SequenceSet(s) => set_holds(s, id_number(row.seqnum)),
        KeyView::Uid(s) => set_holds(s, id_number(row.uid)),
    }
}

/// The key with `*` taken as the largest number in use: `seqs` among the
/// sequence numbers, `uids` among the UIDs.
pub open spec fn resolved_key(key: KeyView, seqs: u32, uids: u32) -> KeyView
    decreases key,
{
    match key {
        KeyView::Not(k) => KeyView::Not(Box::new(resolved_key(*k, seqs, uids))),
        KeyView::Or(a, b) => KeyView::Or(
            Box::new(resolved_key(*a, seqs, uids)),
            Box::new(resolved_key(*b, seqs, uids)),
        ),
        KeyView::SequenceSet(s) => KeyView::SequenceSet(resolved_items(s, seqs)),
        KeyView::Uid(s) => KeyView::Uid(resolved_items(s, uids)),
        _ => key,
    }
}

/// The keys with `*` taken as the largest number in use.
pub open spec fn resolved_keys(keys: Seq<KeyView>, seqs: u32, uids: u32) -> Seq<KeyView> {
    Seq::new(keys.len(), |i: int| resolved_key(keys[i], seqs, uids))
}

/// Whether the message matches every one of the keys.
pub open spec fn keys_match(keys: Seq<KeyView>, row: MailView) -> bool {
    forall|i: int| 0 <= i < keys.len() ==> key_matches(#[trigger] keys[i], row)
}


/// Whether the text is `LIKE` `%needle%`.
fn text_contains(needle: &str, data: &str) -> (r: bool)
    ensures
        r == like(text_pattern(needle@), data@),
{
    let mut p: Vec<char> = Vec::new();
    push_str(&mut p, "%");
    push_str(&mut p, needle);
    push_str(&mut p, "%");
    assert(p@ =~= text_pattern(needle@));
    let t = str_to_chars(data);
    is_like(p.as_slice(), t.as_slice())
}

/// Whether the text holds `needle` in the value of the header `name`.
fn header_holds(name: &str, needle: &str, data: &str) -> (r: bool)
    ensures
        r == found_is(searched(header_regex(name@, needle@), data@)),
{
    let mut p: Vec<char> = Vec::new();
    push_str(&mut p, ".*");
    push_str(&mut p, name);
    push_str(&mut p, ": .*");
    push_str(&mut p, needle);
    push_str(&mut p, ".*");
    assert(p@ =~= header_regex(name@, needle@));
    let pattern = chars_to_string(p.as_slice());
    is_found(search_pattern(pattern.as_str(), data))
}

/// Whether the text holds `needle` on a line without a colon.
fn body_holds(needle: &str, data: &str) -> (r: bool)
    ensures
        r == found_is(searched(body_regex(needle@), data@)),
{
    let mut p: Vec<char> = Vec::new();
    push_str(&mut p, "^(?!.*:).*");
    push_str(&mut p, needle);
    push_str(&mut p, ".*");
    assert(p@ =~= body_regex(needle@));
    let pattern = chars_to_string(p.as_slice());
    is_found(search_pattern(pattern.as_str(), data))
}

/// Whether the bitmap has `mark` at the flag's place.
fn flag_is(flags: &str, flag: IMAPFlags, mark: char) -> (r: bool)
    ensures
        r == fits(flags@, flag.pattern(mark)),
{
    let bits = str_to_chars(flags);
    let p = flag.pattern_with(mark);
    fits_pattern(bits.as_slice(), p.as_slice())
}

/// Whether the message matches the key, with `*` taken as the largest
/// number in use: `seqs` among the sequence numbers, `uids` among the
/// UIDs.
pub fn matches_key(key: &SearchKeys, row: &MailRow, seqs: u32, uids: u32) -> (r: bool)
    ensures
        r == key_matches(resolved_key(key@, seqs, uids), row@),
    decreases key,
{
    match key {
        SearchKeys::All => true,
        SearchKeys::Text(s) => text_contains(s.as_str(), row.data.as_str()),
        SearchKeys::Header(h, v) => header_holds(h.as_str(), v.as_str(), row.data.as_str()),
        SearchKeys::Body(s) => body_holds(s.as_str(), row.data.as_str()),
        SearchKeys::Bcc(s) => header_holds("Bcc", s.as_str(), row.data.as_str()),
        SearchKeys::Cc(s) => header_holds("Cc", s.as_str(), row.data.as_str()),
        SearchKeys::From(s) => header_holds("From", s.as_str(), row.data.as_str()),
        SearchKeys::Subject(s) => header_holds("Subject", s.as_str(), row.data.as_str()),
        SearchKeys::To(s) => header_holds("To", s.as_str(), row.data.as_str()),
        SearchKeys::Answered => flag_is(row.flags.as_str(), IMAPFlags::Answered, '1'),
        SearchKeys::Flagged => flag_is(row.flags.as_str(), IMAPFlags::Flagged, '1'),
        SearchKeys::Deleted => flag_is(row.flags.as_str(), IMAPFlags::Deleted, '1'),
        SearchKeys::Seen => flag_is(row.flags.as_str(), IMAPFlags::Seen, '1'),
        SearchKeys::Draft => flag_is(row.flags.as_str(), IMAPFlags::Draft, '1'),
        SearchKeys::Unanswered => flag_is(row.flags.as_str(), IMAPFlags::Answered, '0'),
        SearchKeys::Unflagged => flag_is(row.flags.as_str(), IMAPFlags::Flagged, '0'),
        SearchKeys::Undeleted => flag_is(row.flags.as_str(), IMAPFlags::Deleted, '0'),
        SearchKeys::Unseen => flag_is(row.flags.as_str(), IMAPFlags::Seen, '0'),
        SearchKeys::Undraft => flag_is(row.flags.as_str(), IMAPFlags::Draft, '0'),
        SearchKeys::Keyword(f) => flag_is(row.flags.as_str(), *f, '1'),
        SearchKeys::Unkeyword(f) => !flag_is(row.flags.as_str(), *f, '1'),
        SearchKeys::Larger(n) => {
            let len = row.data.as_str().unicode_len();
            *n < 0 || len as u64 > *n as u64
        },
        SearchKeys::Smaller(n) => {
            let len = row.data.as_str().unicode_len();
            *n >= 0 && (len as u64) < *n as u64
        },
        SearchKeys::Before(d) => row.date.unix_seconds < d.unix_seconds,
        SearchKeys::On(d) => row.date.unix_seconds == d.unix_seconds,
        SearchKeys::Since(d) => row.date.unix_seconds > d.unix_seconds,
        SearchKeys::SentBefore(d) => {
            let sent = str_to_chars(sent_date_of(row.data.as_str()).as_str());
            let day = str_to_chars(d.canonical.as_str());
            is_text_less(sent.as_slice(), day.as_slice())
        },
        SearchKeys::SentOn(d) => {
            let sent = sent_date_of(row.data.as_str());
            crate::database::str_eq(sent.as_str(), d.canonical.as_str())
        },
        SearchKeys::SentSince(d) => {
            let sent = str_to_chars(sent_date_of(row.data.as_str()).as_str());
            let day = str_to_chars(d.canonical.as_str());
            is_text_less(day.as_slice(), sent.as_slice())
        },
        SearchKeys::Not(k) => !matches_key(k, row, seqs, uids),
        SearchKeys::Or(a, b) => matches_key(a, row, seqs, uids) || matches_key(
            b,
            row,
            seqs,
            uids,
        ),
        SearchKeys::SequenceSet(s) => s.resolve(seqs).contains(to_id_number(row.seqnum)),
        SearchKeys::Uid(s) => s.resolve(uids).contains(to_id_number(row.uid)),
    }
}

/// Whether the message matches every one of the keys, with `*` taken as
/// the largest number in use.
pub fn matches_all(keys: &Vec<SearchKeys>, row: &MailRow, seqs: u32, uids: u32) -> (r: bool)
    ensures
        r == keys_match(resolved_keys(key_views(keys@), seqs, uids), row@),
{
    let ghost meant = resolved_keys(key_views(keys@), seqs, uids);
    let mut i: usize = 0;
    while i < keys.len()
        invariant
            i <= keys.len(),
            meant == resolved_keys(key_views(keys@), seqs, uids),
            forall|j: int| 0 <= j < i ==> key_matches(#[trigger] meant[j], row@),
        decreases keys.len() - i,
    {
        assert(meant[i as int] == resolved_key(keys@[i as int]@, seqs, uids));
        if !matches_key(&keys[i], row, seqs, uids) {
            assert(!key_matches(meant[i as int], row@));
            return false;
        }
        i += 1;
    }
    true
}

} // verus!
