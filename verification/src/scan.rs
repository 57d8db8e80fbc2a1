//! Searching and splitting character sequences.

use vstd::prelude::*;
use crate::text::{
    copy_range, is_whitespace, is_ws, lower_seq, push_chars, push_str, str_to_chars, views,
};

verus! {

/// The first position at or after `i` that holds `c`; the length if none
/// does.
pub open spec fn find_from(s: Seq<char>, c: char, i: int) -> int
    decreases s.len() - i,
{
    if 0 <= i < s.len() && s[i] != c {
        find_from(s, c, i + 1)
    } else {
        i
    }
}

pub proof fn lemma_find_from(s: Seq<char>, c: char, i: int)
    requires
        0 <= i <= s.len(),
    ensures
        i <= find_from(s, c, i) <= s.len(),
        find_from(s, c, i) < s.len() ==> s[find_from(s, c, i)] == c,
        forall|j: int| i <= j < find_from(s, c, i) ==> s[j] != c,
    decreases s.len() - i,
{
    if i < s.len() && s[i] != c {
        lemma_find_from(s, c, i + 1);
    }
}

pub fn find_char_from(s: &[char], c: char, i: usize) -> (r: usize)
    requires
        i <= s.len(),
    ensures
        r == find_from(s@, c, i as int),
        i <= r <= s.len(),
{
    let mut k: usize = i;
    while k < s.len() && s[k] != c
        invariant
            i <= k <= s.len(),
            find_from(s@, c, i as int) == find_from(s@, c, k as int),
        decreases s.len() - k,
    {
        k += 1;
    }
    k
}

/// Whether `pat` stands in `s` at position `i`.
pub open spec fn occurs_at(s: Seq<char>, pat: Seq<char>, i: int) -> bool {
    0 <= i && i + pat.len() <= s.len() && s.subrange(i, i + pat.len()) == pat
}

pub fn matches_at(s: &[char], pat: &[char], i: usize) -> (r: bool)
    ensures
        r == occurs_at(s@, pat@, i as int),
{
    if i > s.len() || pat.len() > s.len() - i {
        return false;
    }
    let mut k: usize = 0;
    while k < pat.len()
        invariant
            k <= pat.len(),
            i + pat.len() <= s.len(),
            s@.subrange(i as int, i + k) == pat@.subrange(0, k as int),
        decreases pat.len() - k,
    {
        if s[i + k] != pat[k] {
            assert(s@.subrange(i as int, i + pat.len())[k as int] != pat@[k as int]);
            return false;
        }
        assert(s@.subrange(i as int, i + k + 1) =~= s@.subrange(i as int, i + k).push(
            s@[i + k],
        ));
        assert(pat@.subrange(0, k + 1) =~= pat@.subrange(0, k as int).push(pat@[k as int]));
        k += 1;
    }
    assert(pat@.subrange(0, k as int) == pat@);
    true
}

pub open spec fn starts_with(s: Seq<char>, pat: Seq<char>) -> bool {
    occurs_at(s, pat, 0)
}

pub open spec fn ends_with(s: Seq<char>, pat: Seq<char>) -> bool {
    occurs_at(s, pat, s.len() - pat.len())
}

pub fn has_prefix(s: &[char], pat: &str) -> (r: bool)
    ensures
        r == starts_with(s@, pat@),
{
    let p = str_to_chars(pat);
    matches_at(s, p.as_slice(), 0)
}

pub fn has_suffix(s: &[char], pat: &str) -> (r: bool)
    ensures
        r == ends_with(s@, pat@),
{
    let p = str_to_chars(pat);
    if p.len() > s.len() {
        return false;
    }
    matches_at(s, p.as_slice(), s.len() - p.len())
}

/// The first position at or after `i` where `pat` stands; a position past
/// `s.len() - pat.len()` if there is none.
pub open spec fn find_sub_from(s: Seq<char>, pat: Seq<char>, i: int) -> int
    decreases s.len() - i,
{
    if 0 <= i < s.len() && i + pat.len() <= s.len() && !occurs_at(s, pat, i) {
        find_sub_from(s, pat, i + 1)
    } else {
        i
    }
}

/// The first position where `pat` stands in `s`, if it stands anywhere.
pub open spec fn position_of(s: Seq<char>, pat: Seq<char>) -> Option<int> {
    let k = find_sub_from(s, pat, 0);
    if occurs_at(s, pat, k) {
        Some(k)
    } else {
        None
    }
}

pub proof fn lemma_find_sub_from(s: Seq<char>, pat: Seq<char>, i: int)
    requires
        0 <= i,
    ensures
        i <= find_sub_from(s, pat, i),
        forall|j: int| i <= j < find_sub_from(s, pat, i) ==> !occurs_at(s, pat, j),
        !occurs_at(s, pat, find_sub_from(s, pat, i)) ==> forall|j: int|
            i <= j ==> !occurs_at(s, pat, j),
    decreases s.len() - i,
{
    if i < s.len() && i + pat.len() <= s.len() && !occurs_at(s, pat, i) {
        lemma_find_sub_from(s, pat, i + 1);
    }
}

pub fn find_sub(s: &[char], pat: &[char]) -> (r: Option<usize>)
    ensures
        r is Some <==> position_of(s@, pat@) is Some,
        r is Some ==> r->0 as int == position_of(s@, pat@)->0,
        r is Some ==> r->0 + pat.len() <= s.len(),
        r is Some ==> occurs_at(s@, pat@, r->0 as int) && forall|j: int|
            0 <= j < r->0 ==> !occurs_at(s@, pat@, j),
        r is None ==> forall|j: int| 0 <= j ==> !occurs_at(s@, pat@, j),
{
    let mut k: usize = 0;
    while k < s.len() && pat.len() <= s.len() - k
        invariant
            k <= s.len(),
            find_sub_from(s@, pat@, 0) == find_sub_from(s@, pat@, k as int),
        decreases s.len() - k,
    {
        if matches_at(s, pat, k) {
            proof {
                lemma_find_sub_from(s@, pat@, 0);
            }
            return Some(k);
        }
        k += 1;
    }
    proof {
        lemma_find_sub_from(s@, pat@, 0);
    }
    if matches_at(s, pat, k) {
        Some(k)
    } else {
        None
    }
}

/// Whether `pat` stands somewhere in `s`.
pub open spec fn contains_sub(s: Seq<char>, pat: Seq<char>) -> bool {
    position_of(s, pat) is Some
}

pub fn has_sub(s: &[char], pat: &str) -> (r: bool)
    ensures
        r == contains_sub(s@, pat@),
{
    let p = str_to_chars(pat);
    find_sub(s, p.as_slice()).is_some()
}

/// The two parts around the first `c`, as `str::split_once` gives them.
pub open spec fn split_once(s: Seq<char>, c: char) -> Option<(Seq<char>, Seq<char>)> {
    let k = find_from(s, c, 0);
    if k < s.len() {
        Some((s.subrange(0, k), s.subrange(k + 1, s.len() as int)))
    } else {
        None
    }
}

pub fn split_once_char(s: &[char], c: char) -> (r: Option<(Vec<char>, Vec<char>)>)
    ensures
        r is Some <==> split_once(s@, c) is Some,
        r matches Some(p) ==> (p.0@, p.1@) == split_once(s@, c)->0,
{
    let k = find_char_from(s, c, 0);
    if k < s.len() {
        Some((copy_range(s, 0, k), copy_range(s, k + 1, s.len())))
    } else {
        None
    }
}

/// The two parts around the first occurrence of `pat`.
pub open spec fn split_once_at(s: Seq<char>, pat: Seq<char>) -> Option<(Seq<char>, Seq<char>)> {
    match position_of(s, pat) {
        Some(k) => Some((s.subrange(0, k), s.subrange(k + pat.len(), s.len() as int))),
        None => None,
    }
}

pub fn split_once_str(s: &[char], pat: &str) -> (r: Option<(Vec<char>, Vec<char>)>)
    ensures
        r is Some <==> split_once_at(s@, pat@) is Some,
        r matches Some(p) ==> (p.0@, p.1@) == split_once_at(s@, pat@)->0,
{
    let p = str_to_chars(pat);
    match find_sub(s, p.as_slice()) {
        Some(k) => Some((copy_range(s, 0, k), copy_range(s, k + p.len(), s.len()))),
        None => None,
    }
}

/// The pieces between the occurrences of `c` from position `i` on, empty
/// pieces included, as `str::split` gives them.
pub open spec fn split_from(s: Seq<char>, c: char, i: int) -> Seq<Seq<char>>
    decreases s.len() - i,
{
    let k = find_from(s, c, i);
    if i <= k < s.len() {
        seq![s.subrange(i, k)] + split_from(s, c, k + 1)
    } else {
        seq![s.subrange(i, s.len() as int)]
    }
}

pub open spec fn split(s: Seq<char>, c: char) -> Seq<Seq<char>> {
    split_from(s, c, 0)
}

pub fn split_char(s: &[char], c: char) -> (r: Vec<Vec<char>>)
    ensures
        views(r@) == split(s@, c),
{
    let mut out: Vec<Vec<char>> = Vec::new();
    let mut i: usize = 0;
    loop
        invariant
            i <= s.len(),
            split(s@, c) == views(out@) + split_from(s@, c, i as int),
        decreases s.len() - i,
    {
        let k = find_char_from(s, c, i);
        let piece = copy_range(s, i, k);
        let ghost before = views(out@);
        out.push(piece);
        assert(views(out@) =~= before.push(s@.subrange(i as int, k as int)));
        if k < s.len() {
            assert(views(out@) + split_from(s@, c, k + 1) =~= before + split_from(s@, c, i as int));
            i = k + 1;
        } else {
            assert(views(out@) =~= before + split_from(s@, c, i as int));
            return out;
        }
    }
}

/// The first position at or after `i` that holds no white space.
pub open spec fn ws_end(s: Seq<char>, i: int) -> int
    decreases s.len() - i,
{
    if 0 <= i < s.len() && is_ws(s[i]) {
        ws_end(s, i + 1)
    } else {
        i
    }
}

/// The first position at or after `i` that holds white space.
pub open spec fn word_end(s: Seq<char>, i: int) -> int
    decreases s.len() - i,
{
    if 0 <= i < s.len() && !is_ws(s[i]) {
        word_end(s, i + 1)
    } else {
        i
    }
}

pub proof fn lemma_ws_end(s: Seq<char>, i: int)
    requires
        0 <= i <= s.len(),
    ensures
        i <= ws_end(s, i) <= s.len(),
        ws_end(s, i) < s.len() ==> !is_ws(s[ws_end(s, i)]),
    decreases s.len() - i,
{
    if i < s.len() && is_ws(s[i]) {
        lemma_ws_end(s, i + 1);
    }
}

pub proof fn lemma_word_end(s: Seq<char>, i: int)
    requires
        0 <= i <= s.len(),
    ensures
        i <= word_end(s, i) <= s.len(),
        i < s.len() && !is_ws(s[i]) ==> i < word_end(s, i),
        forall|j: int| i <= j < word_end(s, i) ==> !is_ws(s[j]),
    decreases s.len() - i,
{
    if i < s.len() && !is_ws(s[i]) {
        lemma_word_end(s, i + 1);
    }
}

pub fn skip_ws(s: &[char], i: usize) -> (r: usize)
    requires
        i <= s.len(),
    ensures
        r == ws_end(s@, i as int),
        i <= r <= s.len(),
{
    let mut k: usize = i;
    while k < s.len() && is_whitespace(s[k])
        invariant
            i <= k <= s.len(),
            ws_end(s@, i as int) == ws_end(s@, k as int),
        decreases s.len() - k,
    {
        k += 1;
    }
    k
}

pub fn skip_word(s: &[char], i: usize) -> (r: usize)
    requires
        i <= s.len(),
    ensures
        r == word_end(s@, i as int),
        i <= r <= s.len(),
{
    let mut k: usize = i;
    while k < s.len() && !is_whitespace(s[k])
        invariant
            i <= k <= s.len(),
            word_end(s@, i as int) == word_end(s@, k as int),
        decreases s.len() - k,
    {
        k += 1;
    }
    k
}

/// The maximal runs without white space from position `i` on, as
/// `str::split_whitespace` gives them.
pub open spec fn words_from(s: Seq<char>, i: int) -> Seq<Seq<char>>
    decreases s.len() - i,
{
    let a = ws_end(s, i);
    let b = word_end(s, a);
    if i <= a < b <= s.len() {
        seq![s.subrange(a, b)] + words_from(s, b)
    } else {
        seq![]
    }
}

pub open spec fn words(s: Seq<char>) -> Seq<Seq<char>> {
    words_from(s, 0)
}

pub fn split_words(s: &[char]) -> (r: Vec<Vec<char>>)
    ensures
        views(r@) == words(s@),
{
    let mut out: Vec<Vec<char>> = Vec::new();
    let mut i: usize = 0;
    loop
        invariant
            i <= s.len(),
            words(s@) == views(out@) + words_from(s@, i as int),
        decreases s.len() - i,
    {
        let a = skip_ws(s, i);
        let b = skip_word(s, a);
        if a < b {
            let ghost before = views(out@);
            out.push(copy_range(s, a, b));
            assert(views(out@) =~= before.push(s@.subrange(a as int, b as int)));
            assert(views(out@) + words_from(s@, b as int) =~= before + words_from(s@, i as int));
            i = b;
        } else {
            assert(words_from(s@, i as int) =~= seq![]);
            assert(views(out@) + words_from(s@, i as int) =~= views(out@));
            return out;
        }
    }
}

/// The pieces joined with `sep` between them.
pub open spec fn join(parts: Seq<Seq<char>>, sep: Seq<char>) -> Seq<char>
    decreases parts.len(),
{
    if parts.len() == 0 {
        seq![]
    } else if parts.len() == 1 {
        parts[0]
    } else {
        join(parts.drop_last(), sep) + sep + parts.last()
    }
}

pub fn join_chars(parts: &Vec<Vec<char>>, sep: &str) -> (r: Vec<char>)
    ensures
        r@ == join(views(parts@), sep@),
{
    let mut out: Vec<char> = Vec::new();
    let mut i: usize = 0;
    while i < parts.len()
        invariant
            i <= parts.len(),
            out@ == join(views(parts@).subrange(0, i as int), sep@),
        decreases parts.len() - i,
    {
        let ghost prev = views(parts@).subrange(0, i as int);
        let ghost next = views(parts@).subrange(0, i + 1);
        assert(next.drop_last() =~= prev);
        assert(next.last() == parts@[i as int]@);
        if i > 0 {
            push_str(&mut out, sep);
        }
        push_chars(&mut out, parts[i].as_slice());
        i += 1;
    }
    assert(views(parts@).subrange(0, i as int) =~= views(parts@));
    out
}

/// The text without white space at its end.
pub open spec fn trimmed_end(s: Seq<char>) -> Seq<char>
    decreases s.len(),
{
    if s.len() > 0 && is_ws(s.last()) {
        trimmed_end(s.drop_last())
    } else {
        s
    }
}

pub fn trim_end(s: &[char]) -> (r: Vec<char>)
    ensures
        r@ == trimmed_end(s@),
{
    let mut n: usize = s.len();
    assert(s@.subrange(0, n as int) =~= s@);
    while n > 0 && is_whitespace(s[n - 1])
        invariant
            n <= s.len(),
            trimmed_end(s@) == trimmed_end(s@.subrange(0, n as int)),
        decreases n,
    {
        assert(s@.subrange(0, n as int).drop_last() =~= s@.subrange(0, n - 1));
        n -= 1;
    }
    copy_range(s, 0, n)
}


/// The text without white space at its start and at its end.
pub open spec fn trimmed(s: Seq<char>) -> Seq<char> {
    trimmed_end(s.subrange(ws_end(s, 0), s.len() as int))
}

pub fn trim(s: &[char]) -> (r: Vec<char>)
    ensures
        r@ == trimmed(s@),
{
    let a = skip_ws(s, 0);
    let rest = copy_range(s, a, s.len());
    trim_end(rest.as_slice())
}

/// The first position at or after `i` that does not hold `c`.
pub open spec fn run_end_of(s: Seq<char>, c: char, i: int) -> int
    decreases s.len() - i,
{
    if 0 <= i < s.len() && s[i] == c {
        run_end_of(s, c, i + 1)
    } else {
        i
    }
}

/// The text without the characters `c` at its end.
pub open spec fn without_trailing(s: Seq<char>, c: char) -> Seq<char>
    decreases s.len(),
{
    if s.len() > 0 && s.last() == c {
        without_trailing(s.drop_last(), c)
    } else {
        s
    }
}

/// The text without the characters `c` at its start and at its end, as
/// `str::trim_matches` gives it.
pub open spec fn without_around(s: Seq<char>, c: char) -> Seq<char> {
    without_trailing(s.subrange(run_end_of(s, c, 0), s.len() as int), c)
}

pub fn trim_char(s: &[char], c: char) -> (r: Vec<char>)
    ensures
        r@ == without_around(s@, c),
{
    let mut a: usize = 0;
    while a < s.len() && s[a] == c
        invariant
            a <= s.len(),
            run_end_of(s@, c, 0) == run_end_of(s@, c, a as int),
        decreases s.len() - a,
    {
        a += 1;
    }
    let rest = copy_range(s, a, s.len());
    let mut n: usize = rest.len();
    assert(rest@.subrange(0, n as int) =~= rest@);
    while n > 0 && rest[n - 1] == c
        invariant
            n <= rest.len(),
            without_trailing(rest@, c) == without_trailing(rest@.subrange(0, n as int), c),
        decreases n,
    {
        assert(rest@.subrange(0, n as int).drop_last() =~= rest@.subrange(0, n - 1));
        n -= 1;
    }
    copy_range(rest.as_slice(), 0, n)
}

/// How many of the first `n` characters are `c`.
pub open spec fn count_char(s: Seq<char>, c: char, n: int) -> nat
    decreases n,
{
    if n <= 0 || n > s.len() {
        0
    } else if s[n - 1] == c {
        count_char(s, c, n - 1) + 1
    } else {
        count_char(s, c, n - 1)
    }
}

pub fn count_chars(s: &[char], c: char) -> (r: usize)
    ensures
        r == count_char(s@, c, s@.len() as int),
        r <= s.len(),
{
    let mut k: usize = 0;
    let mut i: usize = 0;
    while i < s.len()
        invariant
            i <= s.len(),
            k == count_char(s@, c, i as int),
            k <= i,
        decreases s.len() - i,
    {
        if s[i] == c {
            k += 1;
        }
        i += 1;
    }
    k
}

/// The position of the first pair whose name is `key`, ASCII letter case
/// aside, among the pairs from `i` on; the number of pairs where there
/// is none.
pub open spec fn header_from(headers: Seq<(Seq<char>, Seq<char>)>, key: Seq<char>, i: int) -> int
    decreases headers.len() - i,
{
    if 0 <= i < headers.len() && lower_seq(headers[i].0) != lower_seq(key) {
        header_from(headers, key, i + 1)
    } else {
        i
    }
}

/// The value of the first header of the given name.
pub open spec fn first_value(headers: Seq<(Seq<char>, Seq<char>)>, key: Seq<char>) -> Option<
    Seq<char>,
> {
    let i = header_from(headers, key, 0);
    if 0 <= i < headers.len() {
        Some(headers[i].1)
    } else {
        None
    }
}

} // verus!
