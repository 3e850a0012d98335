//! Character-level helpers shared by the whole library: conversion between
//! `str`/`String` and character vectors, Unicode whitespace, and the
//! trusted wrappers around the few `char`/`str` methods of std that have no
//! specification in vstd.

use vstd::prelude::*;
use vstd::string::*;

verus! {

/// Copies the characters of `s` into a vector.
pub fn chars_of(s: &str) -> (r: Vec<char>)
    ensures
        r@ == s@,
{
    let mut r: Vec<char> = Vec::new();
    for c in iter: s.chars()
        invariant
            r@ == iter.seq().take(iter.index() as int),
            iter.seq() == s@,
    {
        r.push(c);
    }
    r
}

/// `String::push` (std): appends one character.
#[verifier::external_body]
pub(crate) fn push_char(s: &mut String, c: char)
    ensures
        final(s)@ == old(s)@.push(c),
{
    s.push(c);
}

/// Builds a `String` holding exactly the characters of `v`.
pub fn string_of(v: &Vec<char>) -> (r: String)
    ensures
        r@ == v@,
{
    let mut r = String::new();
    let n = v.len();
    let mut i: usize = 0;
    while i < n
        invariant
            n == v@.len(),
            i <= n,
            r@ == v@.take(i as int),
        decreases n - i,
    {
        push_char(&mut r, v[i]);
        assert(v@.take(i + 1) == v@.take(i as int).push(v@[i as int]));
        i += 1;
    }
    assert(v@.take(n as int) == v@);
    r
}

} // verus!

verus! {

/// Unicode `White_Space` property, the definition used by
/// `char::is_whitespace` and `str::split_whitespace`.
pub open spec fn is_ws(c: char) -> bool {
    ||| ('\u{9}' <= c && c <= '\u{d}')
    ||| c == ' '
    ||| c == '\u{85}'
    ||| c == '\u{a0}'
    ||| c == '\u{1680}'
    ||| ('\u{2000}' <= c && c <= '\u{200a}')
    ||| c == '\u{2028}'
    ||| c == '\u{2029}'
    ||| c == '\u{202f}'
    ||| c == '\u{205f}'
    ||| c == '\u{3000}'
}

/// Whether `c` is Unicode whitespace.
pub fn is_whitespace(c: char) -> (r: bool)
    ensures
        r == is_ws(c),
{
    ('\u{9}' <= c && c <= '\u{d}') || c == ' ' || c == '\u{85}' || c == '\u{a0}' || c
        == '\u{1680}' || ('\u{2000}' <= c && c <= '\u{200a}') || c == '\u{2028}' || c
        == '\u{2029}' || c == '\u{202f}' || c == '\u{205f}' || c == '\u{3000}'
}

/// Words of `s` in the sense of `str::split_whitespace`, computed from
/// position `i` with the word `cur` in progress and the finished words `acc`.
pub open spec fn words_from(s: Seq<char>, i: int, cur: Seq<char>, acc: Seq<Seq<char>>) -> Seq<
    Seq<char>,
>
    decreases s.len() - i,
{
    if i >= s.len() {
        if cur.len() > 0 {
            acc.push(cur)
        } else {
            acc
        }
    } else if is_ws(s[i]) {
        words_from(s, i + 1, Seq::empty(), if cur.len() > 0 { acc.push(cur) } else { acc })
    } else {
        words_from(s, i + 1, cur.push(s[i]), acc)
    }
}

/// The maximal runs of non-whitespace characters of `s`, in order.
pub open spec fn words(s: Seq<char>) -> Seq<Seq<char>> {
    words_from(s, 0, Seq::empty(), Seq::empty())
}

/// Views of a vector of character vectors.
pub open spec fn seqs_of(v: Seq<Vec<char>>) -> Seq<Seq<char>> {
    v.map_values(|x: Vec<char>| x@)
}

/// Splits `s` into its whitespace-separated words.
pub fn split_words(s: &Vec<char>) -> (r: Vec<Vec<char>>)
    ensures
        seqs_of(r@) == words(s@),
{
    let mut acc: Vec<Vec<char>> = Vec::new();
    let mut cur: Vec<char> = Vec::new();
    let n = s.len();
    let mut i: usize = 0;
    assert(seqs_of(acc@) =~= Seq::<Seq<char>>::empty());
    assert(cur@ =~= Seq::<char>::empty());
    while i < n
        invariant
            n == s@.len(),
            i <= n,
            words(s@) == words_from(s@, i as int, cur@, seqs_of(acc@)),
        decreases n - i,
    {
        let c = s[i];
        let ghost pre_cur = cur@;
        let ghost pre_acc = seqs_of(acc@);
        assert(words_from(s@, i as int, pre_cur, pre_acc) == if is_ws(c) {
            words_from(s@, i + 1, Seq::empty(), if pre_cur.len() > 0 { pre_acc.push(pre_cur) } else { pre_acc })
        } else {
            words_from(s@, i + 1, pre_cur.push(c), pre_acc)
        });
        if is_whitespace(c) {
            if cur.len() > 0 {
                let ghost old_acc = seqs_of(acc@);
                let w = cur;
                acc.push(w);
                assert(seqs_of(acc@) =~= old_acc.push(w@));
                cur = Vec::new();
            }
            assert(cur@ =~= Seq::<char>::empty());
        } else {
            cur.push(c);
        }
        i += 1;
    }
    if cur.len() > 0 {
        let ghost old_acc = seqs_of(acc@);
        let w = cur;
        acc.push(w);
        assert(seqs_of(acc@) =~= old_acc.push(w@));
    }
    acc
}

/// Index of the first non-whitespace character at or after `i`.
pub open spec fn skip_ws(s: Seq<char>, i: int) -> int
    decreases s.len() - i,
{
    if 0 <= i < s.len() && is_ws(s[i]) {
        skip_ws(s, i + 1)
    } else {
        i
    }
}

/// End of `s.take(j)` once its trailing whitespace is removed.
pub open spec fn trim_end_idx(s: Seq<char>, j: int) -> int
    decreases j,
{
    if 0 < j <= s.len() && is_ws(s[j - 1]) {
        trim_end_idx(s, j - 1)
    } else {
        j
    }
}

/// `str::trim_start`.
pub open spec fn trim_start(s: Seq<char>) -> Seq<char> {
    s.subrange(skip_ws(s, 0), s.len() as int)
}

/// `str::trim_end`.
pub open spec fn trim_end(s: Seq<char>) -> Seq<char> {
    s.subrange(0, trim_end_idx(s, s.len() as int))
}

/// `str::trim`.
pub open spec fn trim(s: Seq<char>) -> Seq<char> {
    trim_end(trim_start(s))
}

pub proof fn lemma_skip_ws_bounds(s: Seq<char>, i: int)
    requires
        0 <= i <= s.len(),
    ensures
        i <= skip_ws(s, i) <= s.len(),
        skip_ws(s, i) < s.len() ==> !is_ws(s[skip_ws(s, i)]),
    decreases s.len() - i,
{
    if i < s.len() && is_ws(s[i]) {
        lemma_skip_ws_bounds(s, i + 1);
    }
}

pub proof fn lemma_trim_end_bounds(s: Seq<char>, j: int)
    requires
        0 <= j <= s.len(),
    ensures
        0 <= trim_end_idx(s, j) <= j,
        trim_end_idx(s, j) > 0 ==> !is_ws(s[trim_end_idx(s, j) - 1]),
    decreases j,
{
    if 0 < j && is_ws(s[j - 1]) {
        lemma_trim_end_bounds(s, j - 1);
    }
}

/// Copies `s[from..to]`.
pub fn slice_chars(s: &Vec<char>, from: usize, to: usize) -> (r: Vec<char>)
    requires
        from <= to <= s@.len(),
    ensures
        r@ == s@.subrange(from as int, to as int),
{
    let mut r: Vec<char> = Vec::new();
    let mut i = from;
    while i < to
        invariant
            from <= i <= to,
            to <= s@.len(),
            r@ == s@.subrange(from as int, i as int),
        decreases to - i,
    {
        r.push(s[i]);
        assert(s@.subrange(from as int, i + 1) == s@.subrange(from as int, i as int).push(
            s@[i as int],
        ));
        i += 1;
    }
    r
}

/// Index of the first non-whitespace character at or after `i`.
pub fn skip_whitespace(s: &Vec<char>, i: usize) -> (r: usize)
    requires
        i <= s@.len(),
    ensures
        r == skip_ws(s@, i as int),
        i <= r <= s@.len(),
{
    proof {
        lemma_skip_ws_bounds(s@, i as int);
    }
    let mut k = i;
    while k < s.len() && is_whitespace(s[k])
        invariant
            i <= k <= s@.len(),
            skip_ws(s@, k as int) == skip_ws(s@, i as int),
        decreases s@.len() - k,
    {
        k += 1;
    }
    k
}

/// End index of `s.take(j)` without its trailing whitespace.
pub fn trim_end_index(s: &Vec<char>, j: usize) -> (r: usize)
    requires
        j <= s@.len(),
    ensures
        r == trim_end_idx(s@, j as int),
        r <= j,
{
    proof {
        lemma_trim_end_bounds(s@, j as int);
    }
    let mut k = j;
    while k > 0 && is_whitespace(s[k - 1])
        invariant
            0 <= k <= j <= s@.len(),
            trim_end_idx(s@, k as int) == trim_end_idx(s@, j as int),
        decreases k,
    {
        k -= 1;
    }
    k
}

/// `str::trim` on a character vector.
pub fn trim_chars(s: &Vec<char>) -> (r: Vec<char>)
    ensures
        r@ == trim(s@),
{
    let a = skip_whitespace(s, 0);
    let t = slice_chars(s, a, s.len());
    let b = trim_end_index(&t, t.len());
    slice_chars(&t, 0, b)
}

/// `str::trim_end` on a character vector.
pub fn trim_end_chars(s: &Vec<char>) -> (r: Vec<char>)
    ensures
        r@ == trim_end(s@),
{
    let b = trim_end_index(s, s.len());
    slice_chars(s, 0, b)
}

/// `str::trim_start` on a character vector.
pub fn trim_start_chars(s: &Vec<char>) -> (r: Vec<char>)
    ensures
        r@ == trim_start(s@),
{
    let a = skip_whitespace(s, 0);
    slice_chars(s, a, s.len())
}

} // verus!

verus! {

/// Pieces of `s[i..]` separated by `sep` (`str::split`), with the piece in
/// progress `cur` and the finished pieces `acc`.
pub open spec fn split_from(s: Seq<char>, sep: char, i: int, cur: Seq<char>, acc: Seq<Seq<char>>) -> Seq<
    Seq<char>,
>
    decreases s.len() - i,
{
    if i >= s.len() {
        acc.push(cur)
    } else if s[i] == sep {
        split_from(s, sep, i + 1, Seq::empty(), acc.push(cur))
    } else {
        split_from(s, sep, i + 1, cur.push(s[i]), acc)
    }
}

/// `str::split(sep)`: always at least one piece.
pub open spec fn split_on(s: Seq<char>, sep: char) -> Seq<Seq<char>> {
    split_from(s, sep, 0, Seq::empty(), Seq::empty())
}

/// Splits `s` at every `sep`.
pub fn split_chars(s: &Vec<char>, sep: char) -> (r: Vec<Vec<char>>)
    ensures
        seqs_of(r@) == split_on(s@, sep),
{
    let mut acc: Vec<Vec<char>> = Vec::new();
    let mut cur: Vec<char> = Vec::new();
    let n = s.len();
    let mut i: usize = 0;
    assert(seqs_of(acc@) =~= Seq::<Seq<char>>::empty());
    assert(cur@ =~= Seq::<char>::empty());
    while i < n
        invariant
            n == s@.len(),
            i <= n,
            split_on(s@, sep) == split_from(s@, sep, i as int, cur@, seqs_of(acc@)),
        decreases n - i,
    {
        let c = s[i];
        if c == sep {
            let ghost pre = seqs_of(acc@);
            let w = cur;
            acc.push(w);
            assert(seqs_of(acc@) =~= pre.push(w@));
            cur = Vec::new();
            assert(cur@ =~= Seq::<char>::empty());
        } else {
            cur.push(c);
        }
        i += 1;
    }
    let ghost pre = seqs_of(acc@);
    let w = cur;
    acc.push(w);
    assert(seqs_of(acc@) =~= pre.push(w@));
    acc
}

/// Views of a vector of strings.
pub open spec fn views_of(v: Seq<String>) -> Seq<Seq<char>> {
    v.map_values(|x: String| x@)
}

/// Converts each character vector into a `String`.
pub fn strings_of(v: &Vec<Vec<char>>) -> (r: Vec<String>)
    ensures
        views_of(r@) == seqs_of(v@),
{
    let mut r: Vec<String> = Vec::new();
    let n = v.len();
    let mut i: usize = 0;
    while i < n
        invariant
            n == v@.len(),
            i <= n,
            views_of(r@) == seqs_of(v@).take(i as int),
        decreases n - i,
    {
        let ghost pre = views_of(r@);
        assert(seqs_of(v@)[i as int] == v@[i as int]@);
        let x = string_of(&v[i]);
        r.push(x);
        assert(views_of(r@) =~= pre.push(x@));
        assert(views_of(r@) =~= seqs_of(v@).take(i + 1));
        i += 1;
    }
    assert(seqs_of(v@).take(n as int) =~= seqs_of(v@));
    r
}

} // verus!

verus! {

/// Unicode `Lowercase` property of a character (`char::is_lowercase`).
pub uninterp spec fn unicode_lowercase(c: char) -> bool;

/// Unicode `Uppercase` property of a character (`char::is_uppercase`).
pub uninterp spec fn unicode_uppercase(c: char) -> bool;

/// Unicode `Alphabetic` property of a character (`char::is_alphabetic`).
pub uninterp spec fn unicode_alphabetic(c: char) -> bool;

/// `Alphabetic` or a numeric general category (`char::is_alphanumeric`).
pub uninterp spec fn unicode_alphanumeric(c: char) -> bool;

/// Numeric general categories `Nd`, `Nl`, `No` (`char::is_numeric`).
pub uninterp spec fn unicode_numeric(c: char) -> bool;

/// Lowercase mapping of a whole string (`str::to_lowercase`).
pub uninterp spec fn str_lowercase(s: Seq<char>) -> Seq<char>;

/// Uppercase mapping of one character, possibly several characters long
/// (`char::to_uppercase`).
pub uninterp spec fn char_uppercase(c: char) -> Seq<char>;

/// Uppercase mapping of a whole string (`str::to_uppercase`).
pub uninterp spec fn str_uppercase(s: Seq<char>) -> Seq<char>;

/// `char::is_ascii`.
pub open spec fn is_ascii_char(c: char) -> bool {
    (c as u32) < 128
}

/// Every character is ASCII.
pub open spec fn all_ascii(s: Seq<char>) -> bool {
    forall|i: int| 0 <= i < s.len() ==> is_ascii_char(#[trigger] s[i])
}

/// `char::to_ascii_lowercase`.
pub open spec fn ascii_lower(c: char) -> char {
    if 'A' <= c && c <= 'Z' {
        ((c as u32) + 32) as char
    } else {
        c
    }
}

/// ASCII lowercase of every character.
pub open spec fn ascii_lower_seq(s: Seq<char>) -> Seq<char> {
    s.map_values(|c: char| ascii_lower(c))
}

/// `char::to_ascii_uppercase`.
pub open spec fn ascii_upper(c: char) -> char {
    if 'a' <= c && c <= 'z' {
        ((c as u32) - 32) as char
    } else {
        c
    }
}

/// ASCII uppercase of every character.
pub open spec fn ascii_upper_seq(s: Seq<char>) -> Seq<char> {
    s.map_values(|c: char| ascii_upper(c))
}

pub open spec fn is_ascii_lower(c: char) -> bool {
    'a' <= c && c <= 'z'
}

pub open spec fn is_ascii_upper(c: char) -> bool {
    'A' <= c && c <= 'Z'
}

pub open spec fn is_ascii_digit(c: char) -> bool {
    '0' <= c && c <= '9'
}

/// `char::is_lowercase` (std): whether `c` has the Unicode `Lowercase`
/// property; among ASCII characters exactly `a` to `z` have it.
#[verifier::external_body]
pub(crate) fn is_lowercase(c: char) -> (r: bool)
    ensures
        r == unicode_lowercase(c),
        is_ascii_char(c) ==> (r <==> is_ascii_lower(c)),
{
    c.is_lowercase()
}

/// `char::is_uppercase` (std): whether `c` has the Unicode `Uppercase`
/// property; among ASCII characters exactly `A` to `Z` have it.
#[verifier::external_body]
pub(crate) fn is_uppercase(c: char) -> (r: bool)
    ensures
        r == unicode_uppercase(c),
        is_ascii_char(c) ==> (r <==> is_ascii_upper(c)),
{
    c.is_uppercase()
}

/// `char::is_alphabetic` (std): the Unicode `Alphabetic` property; among
/// ASCII characters the letters have it.
#[verifier::external_body]
pub(crate) fn is_alphabetic(c: char) -> (r: bool)
    ensures
        r == unicode_alphabetic(c),
        is_ascii_char(c) ==> (r <==> is_ascii_lower(c) || is_ascii_upper(c)),
{
    c.is_alphabetic()
}

/// `char::is_alphanumeric` (std): `Alphabetic` or numeric; among ASCII
/// characters the letters and the digits.
#[verifier::external_body]
pub(crate) fn is_alphanumeric(c: char) -> (r: bool)
    ensures
        r == unicode_alphanumeric(c),
        is_ascii_char(c) ==> (r <==> is_ascii_lower(c) || is_ascii_upper(c) || is_ascii_digit(c)),
{
    c.is_alphanumeric()
}

/// `char::is_numeric` (std): general category `Nd`, `Nl` or `No`; among
/// ASCII characters the digits.
#[verifier::external_body]
pub(crate) fn is_numeric(c: char) -> (r: bool)
    ensures
        r == unicode_numeric(c),
        is_ascii_char(c) ==> (r <==> is_ascii_digit(c)),
{
    c.is_numeric()
}

/// `str::to_lowercase` (std): a function of the characters of `s`; on
/// ASCII text the ASCII lowercase of every character. The mapping of other
/// characters (the final-sigma rule among them) is not written out here.
#[verifier::external_body]
pub(crate) fn lowercase(s: &str) -> (r: String)
    ensures
        r@ == str_lowercase(s@),
        all_ascii(s@) ==> r@ == ascii_lower_seq(s@),
{
    s.to_lowercase()
}

/// `str::to_uppercase` (std): a function of the characters of `s`; on
/// ASCII text the ASCII uppercase of every character. The mapping of other
/// characters is not written out here.
#[verifier::external_body]
pub(crate) fn uppercase(s: &str) -> (r: String)
    ensures
        r@ == str_uppercase(s@),
        all_ascii(s@) ==> r@ == ascii_upper_seq(s@),
{
    s.to_uppercase()
}

/// `char::to_uppercase` (std), collected into a `String`: a function of
/// `c`; for an ASCII character its ASCII uppercase alone. The mapping of
/// other characters is not written out here.
#[verifier::external_body]
pub(crate) fn uppercase_char(c: char) -> (r: String)
    ensures
        r@ == char_uppercase(c),
        is_ascii_char(c) ==> r@ == seq![ascii_upper(c)],
{
    c.to_uppercase().collect::<String>()
}

/// Lowercase of a character vector (`str::to_lowercase`).
pub fn lowercase_chars(s: &Vec<char>) -> (r: Vec<char>)
    ensures
        r@ == str_lowercase(s@),
        all_ascii(s@) ==> r@ == ascii_lower_seq(s@),
{
    let st = string_of(s);
    let l = lowercase(st.as_str());
    chars_of(l.as_str())
}

} // verus!

verus! {

/// `p` occurs in `s` at position `k`.
pub open spec fn matches_at(s: Seq<char>, p: Seq<char>, k: int) -> bool {
    0 <= k && k + p.len() <= s.len() && s.subrange(k, k + p.len()) == p
}

/// First occurrence of `p` in `s` at or after `i` (`str::find`).
pub open spec fn find_from(s: Seq<char>, p: Seq<char>, i: int) -> Option<int>
    decreases s.len() + 1 - i,
{
    if i < 0 || i + p.len() > s.len() {
        None
    } else if matches_at(s, p, i) {
        Some(i)
    } else {
        find_from(s, p, i + 1)
    }
}

/// Last occurrence of `p` in `s` starting at or before `i` (`str::rfind`).
pub open spec fn rfind_from(s: Seq<char>, p: Seq<char>, i: int) -> Option<int>
    decreases i + 1,
{
    if i < 0 {
        None
    } else if matches_at(s, p, i) {
        Some(i)
    } else {
        rfind_from(s, p, i - 1)
    }
}

/// `str::contains` with a string pattern.
pub open spec fn contains(s: Seq<char>, p: Seq<char>) -> bool {
    find_from(s, p, 0) is Some
}

pub proof fn lemma_find_from(s: Seq<char>, p: Seq<char>, i: int)
    requires
        0 <= i,
    ensures
        find_from(s, p, i) matches Some(k) ==> i <= k && matches_at(s, p, k),
        forall|k: int| i <= k && #[trigger] matches_at(s, p, k) ==> find_from(s, p, i) is Some,
    decreases s.len() + 1 - i,
{
    if i + p.len() <= s.len() && !matches_at(s, p, i) {
        lemma_find_from(s, p, i + 1);
        assert forall|k: int| i <= k && #[trigger] matches_at(s, p, k) implies find_from(s, p, i) is Some by {
            if k == i {
            } else {
                assert(i + 1 <= k);
            }
        }
    }
}

/// Whether `p` occurs in `s` at position `k`.
pub fn matches_at_exec(s: &Vec<char>, p: &Vec<char>, k: usize) -> (r: bool)
    ensures
        r == matches_at(s@, p@, k as int),
{
    if k > s.len() || p.len() > s.len() - k {
        return false;
    }
    let mut j: usize = 0;
    while j < p.len()
        invariant
            j <= p@.len(),
            k + p@.len() <= s@.len(),
            s@.len() <= usize::MAX,
            forall|t: int| 0 <= t < j ==> s@[k + t] == p@[t],
        decreases p@.len() - j,
    {
        if s[k + j] != p[j] {
            assert(s@.subrange(k as int, k + p@.len())[j as int] != p@[j as int]);
            return false;
        }
        j += 1;
    }
    assert(s@.subrange(k as int, k + p@.len()) =~= p@);
    true
}

/// First occurrence of `p` in `s` at or after `i`.
pub fn find_chars(s: &Vec<char>, p: &Vec<char>, i: usize) -> (r: Option<usize>)
    ensures
        match r {
            Some(k) => find_from(s@, p@, i as int) == Some(k as int),
            None => find_from(s@, p@, i as int) is None,
        },
{
    if p.len() > s.len() || i > s.len() - p.len() {
        return None;
    }
    let last = s.len() - p.len();
    let mut k = i;
    loop
        invariant
            i <= k <= last,
            last + p@.len() == s@.len(),
            find_from(s@, p@, i as int) == find_from(s@, p@, k as int),
        decreases last - k,
    {
        if matches_at_exec(s, p, k) {
            return Some(k);
        }
        if k == last {
            assert(find_from(s@, p@, k + 1) is None);
            return None;
        }
        k += 1;
    }
}

/// Last occurrence of `p` in `s`.
pub fn rfind_chars(s: &Vec<char>, p: &Vec<char>) -> (r: Option<usize>)
    ensures
        match r {
            Some(k) => rfind_from(s@, p@, s@.len() as int) == Some(k as int),
            None => rfind_from(s@, p@, s@.len() as int) is None,
        },
{
    let mut k: usize = s.len();
    loop
        invariant
            k <= s@.len(),
            rfind_from(s@, p@, s@.len() as int) == rfind_from(s@, p@, k as int),
        decreases k,
    {
        if matches_at_exec(s, p, k) {
            return Some(k);
        }
        if k == 0 {
            assert(rfind_from(s@, p@, -1) is None);
            return None;
        }
        k -= 1;
    }
}

/// Whether `p` occurs in `s`.
pub fn contains_chars(s: &Vec<char>, p: &Vec<char>) -> (r: bool)
    ensures
        r == contains(s@, p@),
{
    find_chars(s, p, 0).is_some()
}

/// `str::eq_ignore_ascii_case`.
pub open spec fn eq_ignore_ascii_case(a: Seq<char>, b: Seq<char>) -> bool {
    a.len() == b.len() && forall|i: int| 0 <= i < a.len() ==> ascii_lower(#[trigger] a[i])
        == ascii_lower(b[i])
}

pub fn to_ascii_lower(c: char) -> (r: char)
    ensures
        r == ascii_lower(c),
{
    if 'A' <= c && c <= 'Z' {
        let v = (c as u32) + 32;
        let b = v as u8;
        b as char
    } else {
        c
    }
}

pub fn eq_ignore_ascii_case_chars(a: &Vec<char>, b: &Vec<char>) -> (r: bool)
    ensures
        r == eq_ignore_ascii_case(a@, b@),
{
    if a.len() != b.len() {
        return false;
    }
    let mut i: usize = 0;
    while i < a.len()
        invariant
            a@.len() == b@.len(),
            i <= a@.len(),
            forall|t: int| 0 <= t < i ==> ascii_lower(#[trigger] a@[t]) == ascii_lower(b@[t]),
        decreases a@.len() - i,
    {
        if to_ascii_lower(a[i]) != to_ascii_lower(b[i]) {
            return false;
        }
        i += 1;
    }
    true
}

/// `pieces` joined with the separator `sep` (`[T]::join`).
pub open spec fn join(pieces: Seq<Seq<char>>, sep: Seq<char>) -> Seq<char>
    decreases pieces.len(),
{
    if pieces.len() == 0 {
        Seq::empty()
    } else if pieces.len() == 1 {
        pieces[0]
    } else {
        join(pieces.drop_last(), sep) + sep + pieces.last()
    }
}

/// Appends `s` to `out`.
pub fn push_all(out: &mut Vec<char>, s: &Vec<char>)
    ensures
        final(out)@ == old(out)@ + s@,
{
    let mut i: usize = 0;
    while i < s.len()
        invariant
            i <= s@.len(),
            out@ == old(out)@ + s@.take(i as int),
        decreases s@.len() - i,
    {
        out.push(s[i]);
        assert(out@ =~= old(out)@ + s@.take(i + 1));
        i += 1;
    }
    assert(s@.take(s@.len() as int) =~= s@);
}

/// Joins `pieces` with `sep`.
pub fn join_chars(pieces: &Vec<Vec<char>>, sep: &Vec<char>) -> (r: Vec<char>)
    ensures
        r@ == join(seqs_of(pieces@), sep@),
{
    let mut r: Vec<char> = Vec::new();
    let n = pieces.len();
    let mut i: usize = 0;
    while i < n
        invariant
            n == pieces@.len(),
            i <= n,
            r@ == join(seqs_of(pieces@).take(i as int), sep@),
        decreases n - i,
    {
        let ghost pv = seqs_of(pieces@);
        assert(pv[i as int] == pieces@[i as int]@);
        assert(pv.take(i + 1).drop_last() =~= pv.take(i as int));
        if i > 0 {
            push_all(&mut r, sep);
        } else {
            assert(r@ =~= Seq::<char>::empty());
        }
        push_all(&mut r, &pieces[i]);
        proof {
            if i == 0 {
                assert(r@ =~= pv.take(1)[0]);
            }
        }
        i += 1;
    }
    assert(seqs_of(pieces@).take(n as int) =~= seqs_of(pieces@));
    r
}

/// `s` with one trailing `\r` removed.
pub open spec fn strip_cr(s: Seq<char>) -> Seq<char> {
    if s.len() > 0 && s.last() == '\r' {
        s.drop_last()
    } else {
        s
    }
}

/// `str::lines`: pieces between `\n`, without a final empty piece, each
/// line that ended in `\n` losing one trailing `\r`.
pub open spec fn lines(s: Seq<char>) -> Seq<Seq<char>> {
    let p = split_on(s, '\n');
    let n: int = if p.last().len() == 0 { p.len() - 1 } else { p.len() as int };
    Seq::new(n as nat, |i: int| if i < p.len() - 1 { strip_cr(p[i]) } else { p[i] })
}

pub proof fn lemma_split_from_len(s: Seq<char>, sep: char, i: int, cur: Seq<char>, acc: Seq<Seq<char>>)
    ensures
        split_from(s, sep, i, cur, acc).len() >= acc.len() + 1,
        forall|k: int| 0 <= k < acc.len() ==> #[trigger] split_from(s, sep, i, cur, acc)[k] == acc[k],
    decreases s.len() - i,
{
    if i >= s.len() {
    } else if s[i] == sep {
        lemma_split_from_len(s, sep, i + 1, Seq::empty(), acc.push(cur));
        assert forall|k: int| 0 <= k < acc.len() implies #[trigger] split_from(s, sep, i, cur, acc)[k] == acc[k] by {
            assert(acc.push(cur)[k] == acc[k]);
        }
    } else {
        lemma_split_from_len(s, sep, i + 1, cur.push(s[i]), acc);
    }
}

/// `str::lines` on a character vector.
pub fn lines_of(s: &Vec<char>) -> (r: Vec<Vec<char>>)
    ensures
        seqs_of(r@) == lines(s@),
{
    let p = split_chars(s, '\n');
    proof {
        lemma_split_from_len(s@, '\n', 0, Seq::empty(), Seq::empty());
    }
    let ghost pv = seqs_of(p@);
    let np = p.len();
    assert(pv[np - 1] == p@[np - 1]@);
    let n: usize = if p[np - 1].len() == 0 { np - 1 } else { np };
    let mut r: Vec<Vec<char>> = Vec::new();
    let mut i: usize = 0;
    while i < n
        invariant
            n <= np,
            np == p@.len(),
            pv == seqs_of(p@),
            pv == split_on(s@, '\n'),
            n == if pv.last().len() == 0 { pv.len() - 1 } else { pv.len() as int },
            i <= n,
            seqs_of(r@) == lines(s@).take(i as int),
        decreases n - i,
    {
        let line = &p[i];
        assert(pv[i as int] == p@[i as int]@);
        let item = if i < np - 1 && line.len() > 0 && line[line.len() - 1] == '\r' {
            slice_chars(line, 0, line.len() - 1)
        } else {
            line.clone()
        };
        assert(item@ == lines(s@)[i as int]);
        let ghost pre = seqs_of(r@);
        r.push(item);
        assert(seqs_of(r@) =~= pre.push(item@));
        assert(lines(s@).take(i + 1) =~= lines(s@).take(i as int).push(lines(s@)[i as int]));
        i += 1;
    }
    assert(lines(s@).take(n as int) =~= lines(s@));
    r
}

/// Removes the characters of the set `set` from the start of `s`
/// (`str::trim_start_matches` with a character array).
pub open spec fn skip_set(s: Seq<char>, set: Seq<char>, i: int) -> int
    decreases s.len() - i,
{
    if 0 <= i < s.len() && set.contains(s[i]) {
        skip_set(s, set, i + 1)
    } else {
        i
    }
}

pub open spec fn trim_start_set(s: Seq<char>, set: Seq<char>) -> Seq<char> {
    s.subrange(skip_set(s, set, 0), s.len() as int)
}

pub open spec fn trim_end_set_idx(s: Seq<char>, set: Seq<char>, j: int) -> int
    decreases j,
{
    if 0 < j <= s.len() && set.contains(s[j - 1]) {
        trim_end_set_idx(s, set, j - 1)
    } else {
        j
    }
}

/// `str::trim_end_matches` with a character array.
pub open spec fn trim_end_set(s: Seq<char>, set: Seq<char>) -> Seq<char> {
    s.subrange(0, trim_end_set_idx(s, set, s.len() as int))
}

pub fn in_set(set: &Vec<char>, c: char) -> (r: bool)
    ensures
        r == set@.contains(c),
{
    let mut i: usize = 0;
    while i < set.len()
        invariant
            i <= set@.len(),
            forall|t: int| 0 <= t < i ==> set@[t] != c,
        decreases set@.len() - i,
    {
        if set[i] == c {
            return true;
        }
        i += 1;
    }
    false
}

pub proof fn lemma_skip_set_bounds(s: Seq<char>, set: Seq<char>, i: int)
    requires
        0 <= i <= s.len(),
    ensures
        i <= skip_set(s, set, i) <= s.len(),
    decreases s.len() - i,
{
    if i < s.len() && set.contains(s[i]) {
        lemma_skip_set_bounds(s, set, i + 1);
    }
}

pub proof fn lemma_trim_end_set_bounds(s: Seq<char>, set: Seq<char>, j: int)
    requires
        0 <= j <= s.len(),
    ensures
        0 <= trim_end_set_idx(s, set, j) <= j,
    decreases j,
{
    if 0 < j && set.contains(s[j - 1]) {
        lemma_trim_end_set_bounds(s, set, j - 1);
    }
}

pub fn trim_start_set_chars(s: &Vec<char>, set: &Vec<char>) -> (r: Vec<char>)
    ensures
        r@ == trim_start_set(s@, set@),
{
    proof {
        lemma_skip_set_bounds(s@, set@, 0);
    }
    let mut k: usize = 0;
    while k < s.len() && in_set(set, s[k])
        invariant
            k <= s@.len(),
            skip_set(s@, set@, k as int) == skip_set(s@, set@, 0),
        decreases s@.len() - k,
    {
        k += 1;
    }
    slice_chars(s, k, s.len())
}

pub fn trim_end_set_chars(s: &Vec<char>, set: &Vec<char>) -> (r: Vec<char>)
    ensures
        r@ == trim_end_set(s@, set@),
{
    proof {
        lemma_trim_end_set_bounds(s@, set@, s@.len() as int);
    }
    let mut k: usize = s.len();
    while k > 0 && in_set(set, s[k - 1])
        invariant
            k <= s@.len(),
            trim_end_set_idx(s@, set@, k as int) == trim_end_set_idx(s@, set@, s@.len() as int),
        decreases k,
    {
        k -= 1;
    }
    slice_chars(s, 0, k)
}

} // verus!

verus! {

/// The finished pieces only get appended to.
pub proof fn lemma_split_acc(s: Seq<char>, sep: char, i: int, cur: Seq<char>, acc: Seq<Seq<char>>)
    ensures
        split_from(s, sep, i, cur, acc) == acc + split_from(
            s,
            sep,
            i,
            cur,
            Seq::empty(),
        ),
    decreases s.len() - i,
{
    if i >= s.len() {
        assert(acc.push(cur) =~= acc + Seq::<Seq<char>>::empty().push(cur));
    } else if s[i] == sep {
        lemma_split_acc(s, sep, i + 1, Seq::empty(), acc.push(cur));
        lemma_split_acc(s, sep, i + 1, Seq::empty(), Seq::<Seq<char>>::empty().push(cur));
        assert(acc.push(cur) =~= acc + Seq::<Seq<char>>::empty().push(cur));
        assert((acc + Seq::<Seq<char>>::empty().push(cur)) + split_from(
            s,
            sep,
            i + 1,
            Seq::empty(),
            Seq::empty(),
        ) =~= acc + (Seq::<Seq<char>>::empty().push(cur) + split_from(
            s,
            sep,
            i + 1,
            Seq::empty(),
            Seq::empty(),
        )));
    } else {
        lemma_split_acc(s, sep, i + 1, cur.push(s[i]), acc);
        lemma_split_acc(s, sep, i + 1, cur.push(s[i]), Seq::empty());
    }
}

/// Without a separator ahead, the piece in progress runs to the end.
pub proof fn lemma_split_no_sep(s: Seq<char>, sep: char, i: int, cur: Seq<char>, acc: Seq<Seq<char>>)
    requires
        0 <= i <= s.len(),
        forall|j: int| i <= j < s.len() ==> s[j] != sep,
    ensures
        split_from(s, sep, i, cur, acc) == acc.push(cur + s.skip(i)),
    decreases s.len() - i,
{
    if i == s.len() {
        assert(cur + s.skip(i) =~= cur);
    } else {
        lemma_split_no_sep(s, sep, i + 1, cur.push(s[i]), acc);
        assert(cur.push(s[i]) + s.skip(i + 1) =~= cur + s.skip(i));
    }
}

/// Splitting a suffix of `s` is splitting `s` from where it starts.
pub proof fn lemma_split_shift(
    s: Seq<char>,
    b: Seq<char>,
    k: int,
    sep: char,
    j: int,
    cur: Seq<char>,
    acc: Seq<Seq<char>>,
)
    requires
        0 <= k,
        s.len() == k + b.len(),
        forall|t: int| 0 <= t < b.len() ==> s[k + t] == b[t],
        0 <= j <= b.len(),
    ensures
        split_from(s, sep, k + j, cur, acc) == split_from(
            b,
            sep,
            j,
            cur,
            acc,
        ),
    decreases b.len() - j,
{
    if j < b.len() {
        assert(s[k + j] == b[j]);
        if b[j] == sep {
            lemma_split_shift(s, b, k, sep, j + 1, Seq::empty(), acc.push(cur));
        } else {
            lemma_split_shift(s, b, k, sep, j + 1, cur.push(b[j]), acc);
        }
    }
}

/// Splitting `a`, a separator, then `b` gives the pieces of `a`, then
/// those of `b`.
pub proof fn lemma_split_concat(
    a: Seq<char>,
    b: Seq<char>,
    sep: char,
    i: int,
    cur: Seq<char>,
    acc: Seq<Seq<char>>,
)
    requires
        0 <= i <= a.len(),
    ensures
        split_from(a + seq![sep] + b, sep, i, cur, acc) == split_from(
            a,
            sep,
            i,
            cur,
            acc,
        ) + split_on(b, sep),
    decreases a.len() - i,
{
    let s = a + seq![sep] + b;
    if i == a.len() {
        assert(s[i] == sep);
        lemma_split_acc(s, sep, i + 1, Seq::empty(), acc.push(cur));
        lemma_split_shift(s, b, a.len() + 1 as int, sep, 0, Seq::empty(), Seq::empty());
    } else {
        assert(s[i] == a[i]);
        if a[i] == sep {
            lemma_split_concat(a, b, sep, i + 1, Seq::empty(), acc.push(cur));
        } else {
            lemma_split_concat(a, b, sep, i + 1, cur.push(a[i]), acc);
        }
    }
}

} // verus!
