//! Helpers shared by the handlers: login payloads and sequence sets in SQL.

use vstd::prelude::*;
use vstd::utf8::{decode_utf8, valid_utf8};
use crate::database::{param_views, SqlParam, SqlValue};
use crate::imap_op::search::{greater, lesser, Sequence, SequenceSet};
use crate::text::{chars_to_string, push_chars, push_str, str_to_chars};

verus! {

/// The SQL expression for `*`: the largest value of the column among the
/// rows of the mailbox of the row at hand.
pub open spec fn largest_sql(column: Seq<char>) -> Seq<char> {
    "(SELECT MAX(m."@ + column + ") FROM mail m WHERE m.mailbox_id = mail.mailbox_id)"@
}

/// The condition that holds of the numbers between a bound value and the
/// largest in use, whichever is the smaller.
pub open spec fn star_range_sql(column: Seq<char>) -> Seq<char> {
    column + " BETWEEN min(?, "@ + largest_sql(column) + ") AND max(?, "@ + largest_sql(column)
        + ")"@
}

/// The condition that one item of a sequence set puts on a column.
pub open spec fn sequence_sql(item: Sequence, column: Seq<char>) -> Seq<char> {
    match item {
        Sequence::Int(_) => column + " = ?"@,
        Sequence::RangeFull => column + " = "@ + largest_sql(column),
        Sequence::RangeTo(_) => star_range_sql(column),
        Sequence::RangeFrom(_) => star_range_sql(column),
        Sequence::Range(_, _) => column + " BETWEEN ? AND ?"@,
    }
}

/// The values bound by one item of a sequence set: the ends of a range in
/// rising order, and the number beside `*` twice.
pub open spec fn sequence_params(item: Sequence) -> Seq<SqlParam> {
    match item {
        Sequence::Int(n) => seq![SqlParam::Integer(n as i64)],
        Sequence::RangeFull => seq![],
        Sequence::RangeTo(n) => seq![SqlParam::Integer(n as i64), SqlParam::Integer(n as i64)],
        Sequence::RangeFrom(n) => seq![SqlParam::Integer(n as i64), SqlParam::Integer(n as i64)],
        Sequence::Range(a, b) => seq![
            SqlParam::Integer(lesser(a, b) as i64),
            SqlParam::Integer(greater(a, b) as i64),
        ],
    }
}

/// Appends the SQL expression for `*`.
fn push_largest_sql(column: &[char], out: &mut Vec<char>)
    ensures
        final(out)@ == old(out)@ + largest_sql(column@),
{
    push_str(out, "(SELECT MAX(m.");
    push_chars(out, column);
    push_str(out, ") FROM mail m WHERE m.mailbox_id = mail.mailbox_id)");
    assert(out@ =~= old(out)@ + largest_sql(column@));
}

/// Appends the condition of a range that `*` ends, and binds the number
/// beside it twice.
fn push_star_range(n: u32, column: &[char], out: &mut Vec<char>, params: &mut Vec<SqlValue>)
    ensures
        final(out)@ == old(out)@ + star_range_sql(column@),
        param_views(final(params)@) == param_views(old(params)@) + seq![
            SqlParam::Integer(n as i64),
            SqlParam::Integer(n as i64),
        ],
{
    let ghost bound = param_views(params@);
    let ghost start = out@;
    push_chars(out, column);
    push_str(out, " BETWEEN min(?, ");
    push_largest_sql(column, out);
    push_str(out, ") AND max(?, ");
    push_largest_sql(column, out);
    push_str(out, ")");
    params.push(SqlValue::Integer(n as i64));
    params.push(SqlValue::Integer(n as i64));
    assert(out@ =~= start + star_range_sql(column@));
    assert(param_views(params@) =~= bound + seq![
        SqlParam::Integer(n as i64),
        SqlParam::Integer(n as i64),
    ]);
}

/// The conditions of the items, joined by `OR`.
pub open spec fn sequences_sql(items: Seq<Sequence>, column: Seq<char>) -> Seq<char>
    decreases items.len(),
{
    if items.len() == 0 {
        seq![]
    } else if items.len() == 1 {
        sequence_sql(items[0], column)
    } else {
        sequences_sql(items.drop_last(), column) + " OR "@ + sequence_sql(items.last(), column)
    }
}

/// The values bound by the items, in order.
pub open spec fn sequences_params(items: Seq<Sequence>) -> Seq<SqlParam>
    decreases items.len(),
{
    if items.len() == 0 {
        seq![]
    } else {
        sequences_params(items.drop_last()) + sequence_params(items.last())
    }
}

/// The parenthesised condition that a sequence set puts on a column. A set
/// without items holds no number, and its condition holds of no row.
pub open spec fn set_sql(items: Seq<Sequence>, column: Seq<char>) -> Seq<char> {
    if items.len() == 0 {
        "( 1 = 0 )"@
    } else {
        "( "@ + sequences_sql(items, column) + " )"@
    }
}

/// Appends the condition and the bound values of one item.
pub fn push_sequence_sql(
    item: &Sequence,
    column: &[char],
    out: &mut Vec<char>,
    params: &mut Vec<SqlValue>,
)
    ensures
        final(out)@ == old(out)@ + sequence_sql(*item, column@),
        param_views(final(params)@) == param_views(old(params)@) + sequence_params(*item),
{
    let ghost bound = param_views(params@);
    match item {
        Sequence::Int(n) => {
            push_chars(out, column);
            push_str(out, " = ?");
            params.push(SqlValue::Integer(*n as i64));
            assert(out@ =~= old(out)@ + (column@ + " = ?"@));
            assert(param_views(params@) =~= bound + sequence_params(*item));
        },
        Sequence::RangeFull => {
            push_chars(out, column);
            push_str(out, " = ");
            push_largest_sql(column, out);
            assert(out@ =~= old(out)@ + (column@ + " = "@ + largest_sql(column@)));
            assert(param_views(params@) =~= bound + sequence_params(*item));
        },
        Sequence::RangeTo(n) => {
            push_star_range(*n, column, out, params);
        },
        Sequence::RangeFrom(n) => {
            push_star_range(*n, column, out, params);
        },
        Sequence::Range(a, b) => {
            push_chars(out, column);
            push_str(out, " BETWEEN ? AND ?");
            let (low, high) = if *a < *b {
                (*a, *b)
            } else {
                (*b, *a)
            };
            params.push(SqlValue::Integer(low as i64));
            params.push(SqlValue::Integer(high as i64));
            assert(out@ =~= old(out)@ + (column@ + " BETWEEN ? AND ?"@));
            assert(param_views(params@) =~= bound + sequence_params(*item));
        },
    }
}

/// Appends the condition and the bound values of a whole set.
pub fn push_set_sql(
    items: &Vec<Sequence>,
    column: &[char],
    out: &mut Vec<char>,
    params: &mut Vec<SqlValue>,
)
    ensures
        final(out)@ == old(out)@ + set_sql(items@, column@),
        param_views(final(params)@) == param_views(old(params)@) + sequences_params(items@),
{
    let ghost bound = param_views(params@);
    if items.len() == 0 {
        push_str(out, "( 1 = 0 )");
        assert(param_views(params@) =~= bound + sequences_params(items@));
        return ;
    }
    push_str(out, "( ");
    let mut i: usize = 0;
    while i < items.len()
        invariant
            i <= items.len(),
            out@ == old(out)@ + "( "@ + sequences_sql(items@.subrange(0, i as int), column@),
            param_views(params@) == bound + sequences_params(items@.subrange(0, i as int)),
        decreases items.len() - i,
    {
        let ghost prev = items@.subrange(0, i as int);
        let ghost next = items@.subrange(0, i + 1);
        assert(next.drop_last() =~= prev);
        assert(next.last() == items@[i as int]);
        if i > 0 {
            push_str(out, " OR ");
        }
        push_sequence_sql(&items[i], column, out, params);
        assert(out@ =~= old(out)@ + "( "@ + sequences_sql(next, column@));
        assert(param_views(params@) =~= bound + sequences_params(next));
        i += 1;
    }
    assert(items@.subrange(0, i as int) =~= items@);
    push_str(out, " )");
    assert(out@ =~= old(out)@ + set_sql(items@, column@));
}

/// The SQL condition that holds of the rows whose `column_name` lies in the
/// set, with the numbers it binds.
pub fn sequence_set_to_sql(input: SequenceSet, column_name: &str) -> (r: (String, Vec<SqlValue>))
    ensures
        r.0@ == set_sql(input.sequences@, column_name@),
        param_views(r.1@) == sequences_params(input.sequences@),
{
    let column = str_to_chars(column_name);
    let mut out: Vec<char> = Vec::new();
    let mut params: Vec<SqlValue> = Vec::new();
    push_set_sql(&input.sequences, column.as_slice(), &mut out, &mut params);
    assert(param_views(params@) =~= sequences_params(input.sequences@));
    assert(out@ =~= set_sql(input.sequences@, column_name@));
    (chars_to_string(out.as_slice()), params)
}


/// The bytes that `base64` decodes from a text in the standard alphabet
/// with padding; nothing where it reports an error.
pub uninterp spec fn base64_decoded(input: Seq<char>) -> Option<Seq<u8>>;

/// Calls `base64::Engine::decode` on the engine
/// `base64::engine::general_purpose::STANDARD`. The contract only names
/// the result.
#[verifier::external_body]
pub(crate) fn base64_decode(input: &str) -> (r: Option<Vec<u8>>)
    ensures
        r is Some <==> base64_decoded(input@) is Some,
        r is Some ==> r->0@ == base64_decoded(input@)->0,
{
    match base64::Engine::decode(&base64::engine::general_purpose::STANDARD, input) {
        Ok(bytes) => Some(bytes),
        Err(_) => None,
    }
}

/// `String::from_utf8` gives the text that the bytes write in UTF-8, and
/// an error where they write none.
#[verifier::external_body]
pub(crate) fn string_from_utf8(bytes: Vec<u8>) -> (r: Option<String>)
    ensures
        r is Some <==> valid_utf8(bytes@),
        r is Some ==> r->0@ == decode_utf8(bytes@),
{
    match String::from_utf8(bytes) {
        Ok(s) => Some(s),
        Err(_) => None,
    }
}

/// The first position at or after `i` that holds a zero byte; the length
/// where there is none.
pub open spec fn zero_from(b: Seq<u8>, i: int) -> int
    decreases b.len() - i,
{
    if 0 <= i < b.len() && b[i] != 0 {
        zero_from(b, i + 1)
    } else {
        i
    }
}

/// The byte strings of user name and password in a PLAIN payload, which
/// is a zero byte, the user name, a zero byte, and the password up to the
/// end or to a further zero byte.
pub open spec fn login_fields(b: Seq<u8>) -> Option<(Seq<u8>, Seq<u8>)> {
    if b.len() > 0 && b[0] == 0 {
        let a = zero_from(b, 1);
        if a < b.len() {
            Some((b.subrange(1, a), b.subrange(a + 1, zero_from(b, a + 1))))
        } else {
            None
        }
    } else {
        None
    }
}

/// The user name and the password of a PLAIN payload; nothing where the
/// payload is not of that form or a field is not UTF-8.
pub open spec fn login_in(b: Seq<u8>) -> Option<(Seq<char>, Seq<char>)> {
    match login_fields(b) {
        Some((user, password)) => if valid_utf8(user) && valid_utf8(password) {
            Some((decode_utf8(user), decode_utf8(password)))
        } else {
            None
        },
        None => None,
    }
}

fn find_zero(b: &Vec<u8>, i: usize) -> (r: usize)
    requires
        i <= b.len(),
    ensures
        r == zero_from(b@, i as int),
        i <= r <= b.len(),
{
    let mut k: usize = i;
    while k < b.len() && b[k] != 0
        invariant
            i <= k <= b.len(),
            zero_from(b@, i as int) == zero_from(b@, k as int),
        decreases b.len() - k,
    {
        k += 1;
    }
    k
}

fn copy_bytes(b: &Vec<u8>, from: usize, to: usize) -> (r: Vec<u8>)
    requires
        from <= to <= b.len(),
    ensures
        r@ == b@.subrange(from as int, to as int),
{
    let mut out: Vec<u8> = Vec::new();
    let mut i: usize = from;
    while i < to
        invariant
            from <= i <= to <= b.len(),
            out@ == b@.subrange(from as int, i as int),
        decreases to - i,
    {
        out.push(b[i]);
        assert(out@ =~= b@.subrange(from as int, i + 1));
        i += 1;
    }
    out
}

/// Takes user name and password out of a decoded PLAIN payload.
pub fn seperate_login(input: Vec<u8>) -> (r: Option<(String, String)>)
    ensures
        match (r, login_in(input@)) {
            (Some(p), Some(q)) => p.0@ == q.0 && p.1@ == q.1,
            (None, None) => true,
            _ => false,
        },
{
    if input.len() == 0 || input[0] != 0 {
        return None;
    }
    let a = find_zero(&input, 1);
    if a >= input.len() {
        return None;
    }
    let b = find_zero(&input, a + 1);
    let user = copy_bytes(&input, 1, a);
    let password = copy_bytes(&input, a + 1, b);
    match (string_from_utf8(user), string_from_utf8(password)) {
        (Some(u), Some(p)) => Some((u, p)),
        _ => None,
    }
}

} // verus!
