//! Cleanup of wiki-scraped text before it is stored in the codex tables:
//! the line-based path for multi-line text with section headers.
//!
//! Trivial sections ("Behind the Scenes", "References", ...) are dropped,
//! fan-art / film artifacts are stripped, and recognized sections become
//! standalone `## Title` headers separated by blank lines.

use vstd::prelude::*;
use crate::text::{
    chars_of, contains, contains_chars, eq_ignore_ascii_case, eq_ignore_ascii_case_chars, join,
    is_numeric, join_chars, lines, lines_of, lowercase_chars, push_all, seqs_of, slice_chars, split_words, str_lowercase, string_of, trim,
    trim_chars, trim_end_set, trim_end_set_chars, trim_start, trim_start_chars, trim_start_set,
    trim_start_set_chars, unicode_numeric, uppercase_char, words,
};
#[allow(unused_imports)]
use crate::text::char_uppercase;
use crate::util::chars_equal;

verus! {

// ---------------------------------------------------------------------------
// Section names and keywords
// ---------------------------------------------------------------------------

/// Sections that are removed entirely (content skipped until next header).
pub open spec fn drop_sections() -> Seq<Seq<char>> {
    seq![
        "behind the scenes"@,
        "references"@,
        "external links"@,
        "see also"@,
        "notes"@,
        "gallery"@,
    ]
}

/// Sections that are kept but normalized into standalone headers.
pub open spec fn keep_sections() -> Seq<Seq<char>> {
    seq![
        "titles"@,
        "affiliation"@,
        "affiliations"@,
        "biography"@,
        "history"@,
        "early life"@,
        "later life"@,
        "physical characteristics"@,
        "physical description"@,
        "characteristics"@,
        "appearance"@,
        "appearances"@,
        "personality"@,
        "personality and traits"@,
        "skills"@,
        "abilities"@,
        "skills and abilities"@,
        "education"@,
        "relationships"@,
        "family"@,
        "etymology"@,
        "equipment"@,
        "weapons"@,
        "legacy"@,
        "role"@,
        "description"@,
        "overview"@,
    ]
}

/// Kept and dropped section names, longest first; names of equal length
/// keep their order (kept sections before dropped ones). A glued header is
/// matched against them in this order.
pub open spec fn header_candidates() -> Seq<Seq<char>> {
    seq![
        "physical characteristics"@,
        "personality and traits"@,
        "physical description"@,
        "skills and abilities"@,
        "behind the scenes"@,
        "characteristics"@,
        "external links"@,
        "relationships"@,
        "affiliations"@,
        "affiliation"@,
        "appearances"@,
        "personality"@,
        "description"@,
        "early life"@,
        "later life"@,
        "appearance"@,
        "references"@,
        "biography"@,
        "abilities"@,
        "education"@,
        "etymology"@,
        "equipment"@,
        "overview"@,
        "see also"@,
        "history"@,
        "weapons"@,
        "gallery"@,
        "titles"@,
        "skills"@,
        "family"@,
        "legacy"@,
        "notes"@,
        "role"@,
    ]
}

/// Parenthetical fragments that are pure scraping noise.
pub open spec fn paren_keywords() -> Seq<Seq<char>> {
    seq!["fanart"@, "fan art"@, "art by"@, "artist"@, "miniseries"@, "film"@, "movie"@]
}

/// Words that signal a sentence merely *starts* with a header-like word
/// instead of being a glued section header ("Titles are earned...").
pub open spec fn continuation_words() -> Seq<Seq<char>> {
    seq![
        "are"@,
        "is"@,
        "was"@,
        "were"@,
        "be"@,
        "been"@,
        "has"@,
        "have"@,
        "had"@,
        "of"@,
        "and"@,
        "or"@,
        "in"@,
        "on"@,
        "for"@,
        "to"@,
        "that"@,
        "this"@,
        "a"@,
        "an"@,
        "the"@,
    ]
}

fn drop_section_list() -> (r: Vec<Vec<char>>)
    ensures
        seqs_of(r@) == drop_sections(),
{
    let r = vec![
        chars_of("behind the scenes"),
        chars_of("references"),
        chars_of("external links"),
        chars_of("see also"),
        chars_of("notes"),
        chars_of("gallery"),
    ];
    assert(seqs_of(r@) =~= drop_sections());
    r
}

fn keep_section_list() -> (r: Vec<Vec<char>>)
    ensures
        seqs_of(r@) == keep_sections(),
{
    let r = vec![
        chars_of("titles"),
        chars_of("affiliation"),
        chars_of("affiliations"),
        chars_of("biography"),
        chars_of("history"),
        chars_of("early life"),
        chars_of("later life"),
        chars_of("physical characteristics"),
        chars_of("physical description"),
        chars_of("characteristics"),
        chars_of("appearance"),
        chars_of("appearances"),
        chars_of("personality"),
        chars_of("personality and traits"),
        chars_of("skills"),
        chars_of("abilities"),
        chars_of("skills and abilities"),
        chars_of("education"),
        chars_of("relationships"),
        chars_of("family"),
        chars_of("etymology"),
        chars_of("equipment"),
        chars_of("weapons"),
        chars_of("legacy"),
        chars_of("role"),
        chars_of("description"),
        chars_of("overview"),
    ];
    assert(seqs_of(r@) =~= keep_sections());
    r
}

fn header_candidate_list() -> (r: Vec<Vec<char>>)
    ensures
        seqs_of(r@) == header_candidates(),
{
    let r = vec![
        chars_of("physical characteristics"),
        chars_of("personality and traits"),
        chars_of("physical description"),
        chars_of("skills and abilities"),
        chars_of("behind the scenes"),
        chars_of("characteristics"),
        chars_of("external links"),
        chars_of("relationships"),
        chars_of("affiliations"),
        chars_of("affiliation"),
        chars_of("appearances"),
        chars_of("personality"),
        chars_of("description"),
        chars_of("early life"),
        chars_of("later life"),
        chars_of("appearance"),
        chars_of("references"),
        chars_of("biography"),
        chars_of("abilities"),
        chars_of("education"),
        chars_of("etymology"),
        chars_of("equipment"),
        chars_of("overview"),
        chars_of("see also"),
        chars_of("history"),
        chars_of("weapons"),
        chars_of("gallery"),
        chars_of("titles"),
        chars_of("skills"),
        chars_of("family"),
        chars_of("legacy"),
        chars_of("notes"),
        chars_of("role"),
    ];
    assert(seqs_of(r@) =~= header_candidates());
    r
}

fn paren_keyword_list() -> (r: Vec<Vec<char>>)
    ensures
        seqs_of(r@) == paren_keywords(),
{
    let r = vec![
        chars_of("fanart"),
        chars_of("fan art"),
        chars_of("art by"),
        chars_of("artist"),
        chars_of("miniseries"),
        chars_of("film"),
        chars_of("movie"),
    ];
    assert(seqs_of(r@) =~= paren_keywords());
    r
}

fn continuation_word_list() -> (r: Vec<Vec<char>>)
    ensures
        seqs_of(r@) == continuation_words(),
{
    let r = vec![
        chars_of("are"),
        chars_of("is"),
        chars_of("was"),
        chars_of("were"),
        chars_of("be"),
        chars_of("been"),
        chars_of("has"),
        chars_of("have"),
        chars_of("had"),
        chars_of("of"),
        chars_of("and"),
        chars_of("or"),
        chars_of("in"),
        chars_of("on"),
        chars_of("for"),
        chars_of("to"),
        chars_of("that"),
        chars_of("this"),
        chars_of("a"),
        chars_of("an"),
        chars_of("the"),
    ];
    assert(seqs_of(r@) =~= continuation_words());
    r
}

/// Whether `x` is one of `list`.
pub fn list_contains(list: &Vec<Vec<char>>, x: &Vec<char>) -> (r: bool)
    ensures
        r == seqs_of(list@).contains(x@),
{
    let mut i: usize = 0;
    while i < list.len()
        invariant
            i <= list@.len(),
            forall|t: int| 0 <= t < i ==> seqs_of(list@)[t] != x@,
        decreases list@.len() - i,
    {
        assert(seqs_of(list@)[i as int] == list@[i as int]@);
        if chars_equal(&list[i], x) {
            assert(seqs_of(list@)[i as int] == x@);
            return true;
        }
        i += 1;
    }
    false
}

/// Whether some element of `list` occurs in `s`.
pub fn contains_any(s: &Vec<char>, list: &Vec<Vec<char>>) -> (r: bool)
    ensures
        r == exists|k: int| 0 <= k < list@.len() && contains(s@, #[trigger] seqs_of(list@)[k]),
{
    let mut i: usize = 0;
    while i < list.len()
        invariant
            i <= list@.len(),
            forall|t: int| 0 <= t < i ==> !contains(s@, #[trigger] seqs_of(list@)[t]),
        decreases list@.len() - i,
    {
        assert(seqs_of(list@)[i as int] == list@[i as int]@);
        if contains_chars(s, &list[i]) {
            return true;
        }
        i += 1;
    }
    false
}

// ---------------------------------------------------------------------------
// Title case
// ---------------------------------------------------------------------------

/// First character uppercased (`char::to_uppercase`), the rest unchanged.
pub open spec fn capitalize(w: Seq<char>) -> Seq<char> {
    if w.len() == 0 {
        Seq::empty()
    } else {
        char_uppercase(w[0]) + w.skip(1)
    }
}

/// Every word capitalized, words joined by single spaces.
pub open spec fn title_case(s: Seq<char>) -> Seq<char> {
    join(words(s).map_values(|w: Seq<char>| capitalize(w)), seq![' '])
}

pub(crate) fn capitalize_chars(w: &Vec<char>) -> (r: Vec<char>)
    ensures
        r@ == capitalize(w@),
{
    if w.len() == 0 {
        return Vec::new();
    }
    let up = uppercase_char(w[0]);
    let mut r = chars_of(up.as_str());
    let rest = slice_chars(w, 1, w.len());
    push_all(&mut r, &rest);
    r
}

/// Capitalizes each word of a list.
fn capitalize_all(ws: &Vec<Vec<char>>) -> (r: Vec<Vec<char>>)
    ensures
        seqs_of(r@) == seqs_of(ws@).map_values(|w: Seq<char>| capitalize(w)),
{
    let mut r: Vec<Vec<char>> = Vec::new();
    let mut i: usize = 0;
    while i < ws.len()
        invariant
            i <= ws@.len(),
            seqs_of(r@) == seqs_of(ws@).take(i as int).map_values(|w: Seq<char>| capitalize(w)),
        decreases ws@.len() - i,
    {
        assert(seqs_of(ws@)[i as int] == ws@[i as int]@);
        let c = capitalize_chars(&ws[i]);
        let ghost pre = seqs_of(r@);
        r.push(c);
        assert(seqs_of(r@) =~= pre.push(c@));
        assert(seqs_of(ws@).take(i + 1).map_values(|w: Seq<char>| capitalize(w)) =~= seqs_of(
            ws@,
        ).take(i as int).map_values(|w: Seq<char>| capitalize(w)).push(
            capitalize(seqs_of(ws@)[i as int]),
        ));
        i += 1;
    }
    assert(seqs_of(ws@).take(ws@.len() as int) =~= seqs_of(ws@));
    r
}

/// Title-cases a section name.
pub fn title_case_chars(s: &Vec<char>) -> (r: Vec<char>)
    ensures
        r@ == title_case(s@),
{
    let ws = split_words(s);
    let caps = capitalize_all(&ws);
    let sep = vec![' '];
    assert(sep@ =~= seq![' ']);
    join_chars(&caps, &sep)
}

} // verus!

verus! {

// ---------------------------------------------------------------------------
// Line classification
// ---------------------------------------------------------------------------

/// How a line of the multi-line format is treated.
pub enum LineKind {
    Prose,
    Header(Vec<char>),
    Drop,
}

/// Spec counterpart of [`LineKind`].
pub enum LineClass {
    Prose,
    Header(Seq<char>),
    Drop,
}

impl View for LineKind {
    type V = LineClass;

    open spec fn view(&self) -> LineClass {
        match self {
            LineKind::Prose => LineClass::Prose,
            LineKind::Header(n) => LineClass::Header(n@),
            LineKind::Drop => LineClass::Drop,
        }
    }
}

/// The lowercased line without wiki header markers and trailing colons.
pub open spec fn header_candidate(line: Seq<char>) -> Seq<char> {
    trim_end_set(trim_start_set(str_lowercase(trim(line)), seq!['#', '=', ' ']), seq!['=', ':', ' '])
}

pub open spec fn spec_classify(line: Seq<char>) -> LineClass {
    let c = header_candidate(line);
    if drop_sections().contains(c) {
        LineClass::Drop
    } else if keep_sections().contains(c) {
        LineClass::Header(title_case(c))
    } else {
        LineClass::Prose
    }
}

fn classify(line: &Vec<char>) -> (r: LineKind)
    ensures
        r@ == spec_classify(line@),
{
    let t = trim_chars(line);
    let lower = lowercase_chars(&t);
    let s1 = vec!['#', '=', ' '];
    let s2 = vec!['=', ':', ' '];
    assert(s1@ =~= seq!['#', '=', ' ']);
    assert(s2@ =~= seq!['=', ':', ' ']);
    let a = trim_start_set_chars(&lower, &s1);
    let candidate = trim_end_set_chars(&a, &s2);
    assert(candidate@ == header_candidate(line@));
    if list_contains(&drop_section_list(), &candidate) {
        return LineKind::Drop;
    }
    if list_contains(&keep_section_list(), &candidate) {
        return LineKind::Header(title_case_chars(&candidate));
    }
    LineKind::Prose
}

// ---------------------------------------------------------------------------
// Glued headers
// ---------------------------------------------------------------------------

/// The outcome of matching `line` against one header name `h`: `None` when
/// the search goes on with the next name.
pub open spec fn header_split_at(line: Seq<char>, h: Seq<char>) -> Option<
    (bool, Seq<char>, Seq<char>),
> {
    if !(line.len() > h.len() && eq_ignore_ascii_case(line.take(h.len() as int), h)) {
        None
    } else if line[h.len() as int] != ' ' && line[h.len() as int] != ':' {
        None
    } else {
        let rest = trim_start(trim_start_set(line.skip(h.len() as int), seq![' ', ':']));
        let ws = words(rest);
        if ws.len() > 0 {
            if continuation_words().contains(str_lowercase(ws[0])) {
                None
            } else {
                Some((drop_sections().contains(h), title_case(h), rest))
            }
        } else {
            Some((drop_sections().contains(h), title_case(h), Seq::empty()))
        }
    }
}

/// Tries the header names from `k` on.
pub open spec fn split_header_from(line: Seq<char>, k: int) -> Option<(bool, Seq<char>, Seq<char>)>
    decreases header_candidates().len() - k,
{
    if k < 0 || k >= header_candidates().len() {
        None
    } else {
        match header_split_at(line, header_candidates()[k]) {
            Some(x) => Some(x),
            None => split_header_from(line, k + 1),
        }
    }
}

/// Detects a header glued to its content by the scraper
/// (`"Biography Paul was born..."`): `(is_drop_section, name, rest)`.
pub open spec fn spec_split_leading_header(line: Seq<char>) -> Option<(bool, Seq<char>, Seq<char>)> {
    split_header_from(line, 0)
}

fn split_header_at(line: &Vec<char>, h: &Vec<char>, conts: &Vec<Vec<char>>) -> (r: Option<
    (bool, Vec<char>, Vec<char>),
>)
    requires
        seqs_of(conts@) == continuation_words(),
    ensures
        match r {
            Some((d, n, rest)) => header_split_at(line@, h@) == Some((d, n@, rest@)),
            None => header_split_at(line@, h@) is None,
        },
{
    if line.len() <= h.len() {
        return None;
    }
    let prefix = slice_chars(line, 0, h.len());
    if !eq_ignore_ascii_case_chars(&prefix, h) {
        return None;
    }
    let next = line[h.len()];
    if next != ' ' && next != ':' {
        return None;
    }
    let tail = slice_chars(line, h.len(), line.len());
    let sep = vec![' ', ':'];
    assert(sep@ =~= seq![' ', ':']);
    let rest = trim_start_chars(&trim_start_set_chars(&tail, &sep));
    let ws = split_words(&rest);
    let is_drop = list_contains(&drop_section_list(), h);
    if ws.len() > 0 {
        assert(seqs_of(ws@)[0] == ws@[0]@);
        let first = lowercase_chars(&ws[0]);
        if list_contains(conts, &first) {
            return None;
        }
        Some((is_drop, title_case_chars(h), rest))
    } else {
        Some((is_drop, title_case_chars(h), Vec::new()))
    }
}

fn split_leading_header(line: &Vec<char>) -> (r: Option<(bool, Vec<char>, Vec<char>)>)
    ensures
        match r {
            Some((d, n, rest)) => spec_split_leading_header(line@) == Some((d, n@, rest@)),
            None => spec_split_leading_header(line@) is None,
        },
{
    let cands = header_candidate_list();
    let conts = continuation_word_list();
    let mut k: usize = 0;
    while k < cands.len()
        invariant
            k <= cands@.len(),
            seqs_of(cands@) == header_candidates(),
            seqs_of(conts@) == continuation_words(),
            spec_split_leading_header(line@) == split_header_from(line@, k as int),
        decreases cands@.len() - k,
    {
        assert(seqs_of(cands@)[k as int] == cands@[k as int]@);
        match split_header_at(line, &cands[k], &conts) {
            Some(x) => {
                return Some(x);
            },
            None => {},
        }
        k += 1;
    }
    None
}

// ---------------------------------------------------------------------------
// Blank-line bookkeeping
// ---------------------------------------------------------------------------

/// Appends a blank line unless the output already ends with one.
pub open spec fn push_blank(out: Seq<Seq<char>>) -> Seq<Seq<char>> {
    if out.len() == 0 || out.last().len() > 0 {
        out.push(Seq::empty())
    } else {
        out
    }
}

fn push_blank_exec(out: &mut Vec<Vec<char>>)
    ensures
        seqs_of(final(out)@) == push_blank(seqs_of(old(out)@)),
{
    let ghost pre = seqs_of(out@);
    if out.len() == 0 || out[out.len() - 1].len() > 0 {
        proof {
            if out@.len() > 0 {
                assert(pre.last() == out@[out@.len() - 1]@);
            }
        }
        out.push(Vec::new());
        assert(seqs_of(out@) =~= pre.push(Seq::empty()));
    } else {
        assert(pre.last() == out@[out@.len() - 1]@);
    }
}

/// Drops blank lines that follow a blank line or start the text, keeping
/// lines `lines[k..]` with the result so far `acc`.
pub open spec fn collapse_from(lines: Seq<Seq<char>>, k: int, acc: Seq<Seq<char>>) -> Seq<Seq<char>>
    decreases lines.len() - k,
{
    if k < 0 || k >= lines.len() {
        acc
    } else if lines[k].len() == 0 && (acc.len() == 0 || acc.last().len() == 0) {
        collapse_from(lines, k + 1, acc)
    } else {
        collapse_from(lines, k + 1, acc.push(lines[k]))
    }
}

/// Removes trailing blank lines.
pub open spec fn pop_blanks(acc: Seq<Seq<char>>) -> Seq<Seq<char>>
    decreases acc.len(),
{
    if acc.len() > 0 && acc.last().len() == 0 {
        pop_blanks(acc.drop_last())
    } else {
        acc
    }
}

pub open spec fn collapse_blanks(lines: Seq<Seq<char>>) -> Seq<Seq<char>> {
    pop_blanks(collapse_from(lines, 0, Seq::empty()))
}

fn collapse_blanks_exec(lines: Vec<Vec<char>>) -> (r: Vec<Vec<char>>)
    ensures
        seqs_of(r@) == collapse_blanks(seqs_of(lines@)),
{
    let mut result: Vec<Vec<char>> = Vec::new();
    let n = lines.len();
    let mut k: usize = 0;
    assert(seqs_of(result@) =~= Seq::<Seq<char>>::empty());
    while k < n
        invariant
            n == lines@.len(),
            k <= n,
            collapse_from(seqs_of(lines@), 0, Seq::empty()) == collapse_from(
                seqs_of(lines@),
                k as int,
                seqs_of(result@),
            ),
        decreases n - k,
    {
        assert(seqs_of(lines@)[k as int] == lines@[k as int]@);
        let ghost pre = seqs_of(result@);
        proof {
            if result@.len() > 0 {
                assert(pre.last() == result@[result@.len() - 1]@);
            }
        }
        if lines[k].len() == 0 && (result.len() == 0 || result[result.len() - 1].len() == 0) {
        } else {
            let line = lines[k].clone();
            result.push(line);
            assert(seqs_of(result@) =~= pre.push(line@));
        }
        k += 1;
    }
    while result.len() > 0 && result[result.len() - 1].len() == 0
        invariant
            collapse_blanks(seqs_of(lines@)) == pop_blanks(seqs_of(result@)),
        decreases result@.len(),
    {
        let ghost pre = seqs_of(result@);
        assert(pre.last() == result@[result@.len() - 1]@);
        result.pop();
        assert(seqs_of(result@) =~= pre.drop_last());
    }
    proof {
        if result@.len() > 0 {
            assert(seqs_of(result@).last() == result@[result@.len() - 1]@);
        }
    }
    result
}

} // verus!

verus! {

// ---------------------------------------------------------------------------
// Noise parentheticals
// ---------------------------------------------------------------------------

/// `/rks/` — IPA pronunciation guides.
pub open spec fn is_pronunciation(inner: Seq<char>) -> bool {
    let t = trim(inner);
    t.len() >= 2 && t[0] == '/' && t.last() == '/'
}

/// A four-digit `19xx`/`20xx` word.
pub open spec fn is_year_word(w: Seq<char>) -> bool {
    &&& w.len() == 4
    &&& forall|i: int| 0 <= i < w.len() ==> '0' <= #[trigger] w[i] && w[i] <= '9'
    &&& (w[0] == '1' && w[1] == '9') || (w[0] == '2' && w[1] == '0')
}

/// `(Dune, 2021)` — modern film-year references (Dune chronology uses AG
/// years in the 10xxx range, so 19xx/20xx are safe to treat as ours).
pub open spec fn is_film_year(inner: Seq<char>) -> bool {
    let t = trim(inner);
    if t.len() > 24 || !(exists|i: int| 0 <= i < t.len() && unicode_numeric(#[trigger] t[i])) {
        false
    } else {
        exists|k: int| 0 <= k < words(t).len() && is_year_word(#[trigger] words(t)[k])
    }
}

/// Whether a closed parenthetical group is scraping noise.
pub open spec fn is_noise_group(group: Seq<char>) -> bool {
    let inner = str_lowercase(trim(group));
    ||| exists|k: int| 0 <= k < paren_keywords().len() && contains(inner, #[trigger] paren_keywords()[k])
    ||| is_pronunciation(group)
    ||| is_film_year(inner)
}

/// `strip_noisy_parentheticals` of `s[i..]` with output `out`, nesting depth
/// `depth` and the text of the open group `group`.
pub open spec fn strip_parens_from(s: Seq<char>, i: int, out: Seq<char>, depth: nat, group: Seq<char>) -> Seq<char>
    decreases s.len() - i,
{
    if i < 0 || i >= s.len() {
        if depth > 0 {
            out.push('(') + group
        } else {
            out
        }
    } else {
        let ch = s[i];
        if ch == '(' {
            if depth + 1 == 1 {
                strip_parens_from(s, i + 1, out, depth + 1, Seq::empty())
            } else {
                strip_parens_from(s, i + 1, out, depth + 1, group.push(ch))
            }
        } else if ch == ')' {
            if depth == 0 {
                strip_parens_from(s, i + 1, out.push(ch), depth, group)
            } else if depth - 1 == 0 {
                if is_noise_group(group) {
                    strip_parens_from(s, i + 1, out, 0, group)
                } else {
                    strip_parens_from(s, i + 1, out.push('(') + group + seq![')'], 0, group)
                }
            } else {
                strip_parens_from(s, i + 1, out, (depth - 1) as nat, group.push(ch))
            }
        } else if depth == 0 {
            strip_parens_from(s, i + 1, out.push(ch), depth, group)
        } else {
            strip_parens_from(s, i + 1, out, depth, group.push(ch))
        }
    }
}

/// Removes `( ... )` groups whose content is fan-art / film noise.
pub open spec fn strip_noisy_parentheticals(line: Seq<char>) -> Seq<char> {
    strip_parens_from(line, 0, Seq::empty(), 0, Seq::empty())
}

fn is_pronunciation_exec(inner: &Vec<char>) -> (r: bool)
    ensures
        r == is_pronunciation(inner@),
{
    let t = trim_chars(inner);
    t.len() >= 2 && t[0] == '/' && t[t.len() - 1] == '/'
}

fn is_year_word_exec(w: &Vec<char>) -> (r: bool)
    ensures
        r == is_year_word(w@),
{
    if w.len() != 4 {
        return false;
    }
    let mut i: usize = 0;
    while i < 4
        invariant
            w@.len() == 4,
            i <= 4,
            forall|t: int| 0 <= t < i ==> '0' <= #[trigger] w@[t] && w@[t] <= '9',
        decreases 4 - i,
    {
        if !('0' <= w[i] && w[i] <= '9') {
            return false;
        }
        i += 1;
    }
    (w[0] == '1' && w[1] == '9') || (w[0] == '2' && w[1] == '0')
}

fn is_film_year_exec(inner: &Vec<char>) -> (r: bool)
    ensures
        r == is_film_year(inner@),
{
    let t = trim_chars(inner);
    if t.len() > 24 {
        return false;
    }
    let mut has_num = false;
    let mut i: usize = 0;
    while i < t.len()
        invariant
            i <= t@.len(),
            has_num == exists|j: int| 0 <= j < i && unicode_numeric(#[trigger] t@[j]),
        decreases t@.len() - i,
    {
        if is_numeric(t[i]) {
            has_num = true;
        }
        i += 1;
    }
    if !has_num {
        return false;
    }
    let ws = split_words(&t);
    let mut k: usize = 0;
    while k < ws.len()
        invariant
            k <= ws@.len(),
            seqs_of(ws@) == words(t@),
            t@ == trim(inner@),
            t@.len() <= 24,
            exists|j: int| 0 <= j < t@.len() && unicode_numeric(#[trigger] t@[j]),
            forall|j: int| 0 <= j < k ==> !is_year_word(#[trigger] words(t@)[j]),
        decreases ws@.len() - k,
    {
        assert(seqs_of(ws@)[k as int] == ws@[k as int]@);
        if is_year_word_exec(&ws[k]) {
            assert(is_year_word(words(t@)[k as int]));
            return true;
        }
        k += 1;
    }
    false
}

fn is_noise_group_exec(group: &Vec<char>, keywords: &Vec<Vec<char>>) -> (r: bool)
    requires
        seqs_of(keywords@) == paren_keywords(),
    ensures
        r == is_noise_group(group@),
{
    let inner = lowercase_chars(&trim_chars(group));
    contains_any(&inner, keywords) || is_pronunciation_exec(group) || is_film_year_exec(&inner)
}

pub(crate) fn strip_noisy_parentheticals_exec(line: &Vec<char>) -> (r: Vec<char>)
    ensures
        r@ == strip_noisy_parentheticals(line@),
{
    let keywords = paren_keyword_list();
    let mut out: Vec<char> = Vec::new();
    let mut depth: usize = 0;
    let mut group: Vec<char> = Vec::new();
    let n = line.len();
    let mut i: usize = 0;
    while i < n
        invariant
            n == line@.len(),
            i <= n,
            depth <= i,
            seqs_of(keywords@) == paren_keywords(),
            strip_noisy_parentheticals(line@) == strip_parens_from(
                line@,
                i as int,
                out@,
                depth as nat,
                group@,
            ),
        decreases n - i,
    {
        let ch = line[i];
        if ch == '(' {
            depth += 1;
            if depth == 1 {
                group = Vec::new();
                assert(group@ =~= Seq::<char>::empty());
            } else {
                group.push(ch);
            }
        } else if ch == ')' {
            if depth == 0 {
                out.push(ch);
            } else {
                depth -= 1;
                if depth == 0 {
                    if !is_noise_group_exec(&group, &keywords) {
                        let ghost pre = out@;
                        out.push('(');
                        push_all(&mut out, &group);
                        out.push(')');
                        assert(out@ =~= pre.push('(') + group@ + seq![')']);
                    }
                } else {
                    group.push(ch);
                }
            }
        } else if depth == 0 {
            out.push(ch);
        } else {
            group.push(ch);
        }
        i += 1;
    }
    if depth > 0 {
        out.push('(');
        push_all(&mut out, &group);
    }
    out
}

// ---------------------------------------------------------------------------
// Sentences
// ---------------------------------------------------------------------------

pub open spec fn is_terminator(c: char) -> bool {
    c == '.' || c == '!' || c == '?'
}

/// Sentences of `s[i..]` (each keeping its terminator), the current one
/// starting at `start`, the finished ones in `acc`.
pub open spec fn sentences_from(s: Seq<char>, i: int, start: int, acc: Seq<Seq<char>>) -> Seq<Seq<char>>
    decreases s.len() - i,
{
    if i < 0 || i >= s.len() {
        if start < s.len() {
            acc.push(s.subrange(start, s.len() as int))
        } else {
            acc
        }
    } else if is_terminator(s[i]) && (i + 1 == s.len() || s[i + 1] == ' ') {
        sentences_from(s, i + 1, i + 1, acc.push(s.subrange(start, i + 1)))
    } else {
        sentences_from(s, i + 1, start, acc)
    }
}

/// Splits after every `.`, `!` or `?` that ends the text or precedes a space.
pub open spec fn split_sentences(s: Seq<char>) -> Seq<Seq<char>> {
    sentences_from(s, 0, 0, Seq::empty())
}

pub(crate) fn split_sentences_exec(s: &Vec<char>) -> (r: Vec<Vec<char>>)
    ensures
        seqs_of(r@) == split_sentences(s@),
{
    let mut acc: Vec<Vec<char>> = Vec::new();
    let n = s.len();
    let mut start: usize = 0;
    let mut i: usize = 0;
    assert(seqs_of(acc@) =~= Seq::<Seq<char>>::empty());
    while i < n
        invariant
            n == s@.len(),
            start <= i <= n,
            split_sentences(s@) == sentences_from(s@, i as int, start as int, seqs_of(acc@)),
        decreases n - i,
    {
        let c = s[i];
        if (c == '.' || c == '!' || c == '?') && (i + 1 == n || s[i + 1] == ' ') {
            let piece = slice_chars(s, start, i + 1);
            let ghost pre = seqs_of(acc@);
            acc.push(piece);
            assert(seqs_of(acc@) =~= pre.push(piece@));
            start = i + 1;
        }
        i += 1;
    }
    if start < n {
        let piece = slice_chars(s, start, n);
        let ghost pre = seqs_of(acc@);
        acc.push(piece);
        assert(seqs_of(acc@) =~= pre.push(piece@));
    }
    acc
}

/// A sentence that is only film / adaptation trivia.
pub open spec fn is_trivial_sentence(sentence: Seq<char>) -> bool {
    let lower = str_lowercase(sentence);
    ||| contains(lower, "fanart"@)
    ||| contains(lower, "fan art"@)
    ||| contains(lower, "portrayed by"@)
    ||| contains(lower, "played by"@)
    ||| contains(lower, "miniseries"@)
    ||| (contains(lower, "film"@) || contains(lower, "movie"@)) && words(lower).len() <= 12
}

/// The sentences of `ss[k..]` that are not trivia, concatenated.
pub open spec fn keep_sentences_from(ss: Seq<Seq<char>>, k: int, acc: Seq<char>) -> Seq<char>
    decreases ss.len() - k,
{
    if k < 0 || k >= ss.len() {
        acc
    } else if is_trivial_sentence(ss[k]) {
        keep_sentences_from(ss, k + 1, acc)
    } else {
        keep_sentences_from(ss, k + 1, acc + ss[k])
    }
}

/// Drops the sentences that are only film / adaptation trivia.
pub open spec fn drop_trivial_sentences(line: Seq<char>) -> Seq<char> {
    keep_sentences_from(split_sentences(line), 0, Seq::empty())
}

fn is_trivial_sentence_exec(sentence: &Vec<char>) -> (r: bool)
    ensures
        r == is_trivial_sentence(sentence@),
{
    let lower = lowercase_chars(sentence);
    let n = split_words(&lower).len();
    contains_chars(&lower, &chars_of("fanart")) || contains_chars(&lower, &chars_of("fan art"))
        || contains_chars(&lower, &chars_of("portrayed by")) || contains_chars(
        &lower,
        &chars_of("played by"),
    ) || contains_chars(&lower, &chars_of("miniseries")) || ((contains_chars(
        &lower,
        &chars_of("film"),
    ) || contains_chars(&lower, &chars_of("movie"))) && n <= 12)
}

fn drop_trivial_sentences_exec(line: &Vec<char>) -> (r: Vec<char>)
    ensures
        r@ == drop_trivial_sentences(line@),
{
    let ss = split_sentences_exec(line);
    let mut rebuilt: Vec<char> = Vec::new();
    let mut k: usize = 0;
    while k < ss.len()
        invariant
            k <= ss@.len(),
            seqs_of(ss@) == split_sentences(line@),
            drop_trivial_sentences(line@) == keep_sentences_from(seqs_of(ss@), k as int, rebuilt@),
        decreases ss@.len() - k,
    {
        assert(seqs_of(ss@)[k as int] == ss@[k as int]@);
        if !is_trivial_sentence_exec(&ss[k]) {
            push_all(&mut rebuilt, &ss[k]);
        }
        k += 1;
    }
    rebuilt
}

/// Runs of whitespace collapsed to single spaces, ends trimmed.
pub open spec fn collapse_spaces(s: Seq<char>) -> Seq<char> {
    join(words(s), seq![' '])
}

pub(crate) fn collapse_spaces_exec(s: &Vec<char>) -> (r: Vec<char>)
    ensures
        r@ == collapse_spaces(s@),
{
    let ws = split_words(s);
    let sep = vec![' '];
    assert(sep@ =~= seq![' ']);
    join_chars(&ws, &sep)
}

/// Removes noise from a single prose line; `None` if nothing remains.
pub open spec fn clean_prose_line(line: Seq<char>) -> Option<Seq<char>> {
    let collapsed = collapse_spaces(trim(drop_trivial_sentences(strip_noisy_parentheticals(line))));
    if collapsed.len() == 0 {
        None
    } else {
        Some(collapsed)
    }
}

fn clean_prose_line_exec(line: &Vec<char>) -> (r: Option<Vec<char>>)
    ensures
        match r {
            Some(c) => clean_prose_line(line@) == Some(c@),
            None => clean_prose_line(line@) is None,
        },
{
    let without_parens = strip_noisy_parentheticals_exec(line);
    let without_trivia = drop_trivial_sentences_exec(&without_parens);
    let collapsed = collapse_spaces_exec(&trim_chars(&without_trivia));
    if collapsed.len() == 0 {
        None
    } else {
        Some(collapsed)
    }
}

} // verus!

verus! {

// ---------------------------------------------------------------------------
// clean_wiki_text
// ---------------------------------------------------------------------------

pub open spec fn header_line(name: Seq<char>) -> Seq<char> {
    seq!['#', '#', ' '] + name
}

/// One line of the multi-line format: the output lines so far `out` and
/// whether a dropped section is being skipped.
pub open spec fn wiki_step(out: Seq<Seq<char>>, dropping: bool, line: Seq<char>) -> (Seq<Seq<char>>, bool) {
    let trimmed = trim(line);
    match spec_classify(trimmed) {
        LineClass::Header(name) => (push_blank(push_blank(out).push(header_line(name))), false),
        LineClass::Drop => (out, true),
        LineClass::Prose => {
            if dropping {
                (out, dropping)
            } else if trimmed.len() == 0 {
                (push_blank(out), dropping)
            } else {
                match spec_split_leading_header(trimmed) {
                    Some((true, _name, _rest)) => (out, true),
                    Some((false, name, rest)) => {
                        let o = push_blank(push_blank(out).push(header_line(name)));
                        match clean_prose_line(trim(rest)) {
                            Some(c) => (o.push(c), dropping),
                            None => (o, dropping),
                        }
                    },
                    None => match clean_prose_line(trimmed) {
                        Some(c) => (out.push(c), dropping),
                        None => (out, dropping),
                    },
                }
            }
        },
    }
}

pub open spec fn wiki_from(ls: Seq<Seq<char>>, k: int, out: Seq<Seq<char>>, dropping: bool) -> Seq<Seq<char>>
    decreases ls.len() - k,
{
    if k < 0 || k >= ls.len() {
        out
    } else {
        let st = wiki_step(out, dropping, ls[k]);
        wiki_from(ls, k + 1, st.0, st.1)
    }
}

/// The lines of the cleaned text.
pub open spec fn cleaned_wiki_lines(raw: Seq<char>) -> Seq<Seq<char>> {
    collapse_blanks(wiki_from(lines(raw), 0, Seq::empty(), false))
}

pub open spec fn spec_clean_wiki_text(raw: Seq<char>) -> Seq<char> {
    join(cleaned_wiki_lines(raw), seq!['\n'])
}

fn push_line(out: &mut Vec<Vec<char>>, line: Vec<char>)
    ensures
        seqs_of(final(out)@) == seqs_of(old(out)@).push(line@),
{
    let ghost pre = seqs_of(out@);
    out.push(line);
    assert(seqs_of(out@) =~= pre.push(line@));
}

fn header_line_exec(name: &Vec<char>) -> (r: Vec<char>)
    ensures
        r@ == header_line(name@),
{
    let mut r = vec!['#', '#', ' '];
    push_all(&mut r, name);
    assert(r@ =~= header_line(name@));
    r
}

fn wiki_step_exec(out: &mut Vec<Vec<char>>, dropping: &mut bool, line: &Vec<char>)
    ensures
        (seqs_of(final(out)@), *final(dropping)) == wiki_step(seqs_of(old(out)@), *old(dropping), line@),
{
    let trimmed = trim_chars(line);
    match classify(&trimmed) {
        LineKind::Header(name) => {
            *dropping = false;
            push_blank_exec(out);
            push_line(out, header_line_exec(&name));
            push_blank_exec(out);
        },
        LineKind::Drop => {
            *dropping = true;
        },
        LineKind::Prose => {
            if *dropping {
                return;
            }
            if trimmed.len() == 0 {
                push_blank_exec(out);
                return;
            }
            match split_leading_header(&trimmed) {
                Some((true, _name, _rest)) => {
                    *dropping = true;
                },
                Some((false, name, rest)) => {
                    push_blank_exec(out);
                    push_line(out, header_line_exec(&name));
                    push_blank_exec(out);
                    if let Some(cleaned) = clean_prose_line_exec(&trim_chars(&rest)) {
                        push_line(out, cleaned);
                    }
                },
                None => {
                    if let Some(cleaned) = clean_prose_line_exec(&trimmed) {
                        push_line(out, cleaned);
                    }
                },
            }
        },
    }
}

/// Cleans a raw wiki description: drops trivial sections, strips film /
/// fan-art artifacts, separates recognized sections with blank lines and
/// marks them as `## Title` headers.
pub fn clean_wiki_text(raw: &str) -> (r: String)
    ensures
        r@ == spec_clean_wiki_text(raw@),
{
    let chars = chars_of(raw);
    let r = clean_wiki_chars(&chars);
    string_of(&r)
}

/// [`clean_wiki_text`] on characters.
pub fn clean_wiki_chars(raw: &Vec<char>) -> (r: Vec<char>)
    ensures
        r@ == spec_clean_wiki_text(raw@),
{
    let ls = lines_of(raw);
    let mut out: Vec<Vec<char>> = Vec::new();
    let mut dropping = false;
    let mut k: usize = 0;
    assert(seqs_of(out@) =~= Seq::<Seq<char>>::empty());
    while k < ls.len()
        invariant
            k <= ls@.len(),
            seqs_of(ls@) == lines(raw@),
            wiki_from(lines(raw@), 0, Seq::empty(), false) == wiki_from(
                seqs_of(ls@),
                k as int,
                seqs_of(out@),
                dropping,
            ),
        decreases ls@.len() - k,
    {
        assert(seqs_of(ls@)[k as int] == ls@[k as int]@);
        wiki_step_exec(&mut out, &mut dropping, &ls[k]);
        k += 1;
    }
    let collapsed = collapse_blanks_exec(out);
    let sep = vec!['\n'];
    assert(sep@ =~= seq!['\n']);
    join_chars(&collapsed, &sep)
}

} // verus!

verus! {

/// No blank line starts the lines or follows another blank line.
pub open spec fn blanks_single(ls: Seq<Seq<char>>) -> bool {
    &&& (ls.len() > 0 ==> ls[0].len() > 0)
    &&& forall|i: int| 0 < i < ls.len() && ls[i].len() == 0 ==> #[trigger] ls[i - 1].len() > 0
}

proof fn lemma_collapse_from_single(lines: Seq<Seq<char>>, k: int, acc: Seq<Seq<char>>)
    requires
        blanks_single(acc),
    ensures
        blanks_single(collapse_from(lines, k, acc)),
    decreases lines.len() - k,
{
    if 0 <= k < lines.len() {
        if lines[k].len() == 0 && (acc.len() == 0 || acc.last().len() == 0) {
            lemma_collapse_from_single(lines, k + 1, acc);
        } else {
            let n = acc.push(lines[k]);
            assert forall|i: int| 0 < i < n.len() && n[i].len() == 0 implies #[trigger] n[i
                - 1].len() > 0 by {
                if i < acc.len() {
                    assert(n[i] == acc[i]);
                    assert(n[i - 1] == acc[i - 1]);
                } else {
                    assert(n[i - 1] == acc.last());
                }
            }
            lemma_collapse_from_single(lines, k + 1, n);
        }
    }
}

proof fn lemma_pop_blanks(acc: Seq<Seq<char>>)
    requires
        blanks_single(acc),
    ensures
        blanks_single(pop_blanks(acc)),
        pop_blanks(acc).len() > 0 ==> pop_blanks(acc).last().len() > 0,
    decreases acc.len(),
{
    if acc.len() > 0 && acc.last().len() == 0 {
        let d = acc.drop_last();
        assert forall|i: int| 0 < i < d.len() && d[i].len() == 0 implies #[trigger] d[i - 1].len()
            > 0 by {
            assert(d[i] == acc[i]);
            assert(d[i - 1] == acc[i - 1]);
        }
        lemma_pop_blanks(d);
    }
}

/// The cleaned lines never start or end with a blank line, and blank lines
/// come one at a time: sections are separated by exactly one blank line.
pub proof fn law_clean_wiki_lines_single_blanks(raw: Seq<char>)
    ensures
        blanks_single(cleaned_wiki_lines(raw)),
        cleaned_wiki_lines(raw).len() > 0 ==> cleaned_wiki_lines(raw).last().len() > 0,
        spec_clean_wiki_text(raw) == join(cleaned_wiki_lines(raw), seq!['\n']),
{
    let out = wiki_from(lines(raw), 0, Seq::empty(), false);
    lemma_collapse_from_single(out, 0, Seq::empty());
    lemma_pop_blanks(collapse_from(out, 0, Seq::empty()));
}

/// A kept-section header ends any dropped section: from a header line on,
/// the cleaned output is the same whether or not a dropped section (such as
/// `Notes` or `References`) was open before it, and after the header no
/// section is being dropped.
pub proof fn law_kept_header_ends_dropped_section(
    ls: Seq<Seq<char>>,
    k: int,
    out: Seq<Seq<char>>,
)
    requires
        0 <= k < ls.len(),
        spec_classify(trim(ls[k])) is Header,
    ensures
        wiki_from(ls, k, out, true) == wiki_from(ls, k, out, false),
        !wiki_step(out, true, ls[k]).1,
        !wiki_step(out, false, ls[k]).1,
{
}

} // verus!
