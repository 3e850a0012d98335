//! Book metadata guessed from a PDF's file name.

use vstd::prelude::*;
use std::path::Path;
use crate::clean::{capitalize, capitalize_chars};
use crate::text::{
    chars_of, join, join_chars, lowercase_chars, seqs_of, split_words, str_lowercase, string_of,
    words,
};

verus! {

#[verifier::external_type_specification]
#[verifier::external_body]
pub struct ExPath(Path);

/// The file name of `p` without its extension (`Path::file_stem`), as text
/// when it is valid Unicode (`OsStr::to_str`); `None` when the path has no
/// file name or it is not valid Unicode.
pub uninterp spec fn path_file_stem(p: &Path) -> Option<Seq<char>>;

/// `Path::file_stem` followed by `OsStr::to_str` (std). The contract ties
/// the result to the path through [`path_file_stem`]; which stem a given
/// path has (the last component, without the part from its last `.`,
/// unless the name starts with it) is left to std and not written out.
#[verifier::external_body]
fn file_stem_text(path: &Path) -> (r: Option<String>)
    ensures
        match r {
            Some(s) => path_file_stem(path) == Some(s@),
            None => path_file_stem(path) is None,
        },
{
    path.file_stem().and_then(|s| s.to_str()).map(|s| s.to_string())
}

/// Words kept lowercase in a title, except in first position.
pub open spec fn small_words() -> Seq<Seq<char>> {
    seq!["the"@, "a"@, "an"@, "of"@, "and"@, "in"@, "on"@, "at"@, "to"@, "for"@]
}

/// `_` and `-` read as spaces.
pub open spec fn dashes_to_spaces(s: Seq<char>) -> Seq<char> {
    s.map_values(|c: char| if c == '_' || c == '-' { ' ' } else { c })
}

/// The `i`-th word of a title: lowercased, then capitalized unless it is a
/// small word after the first position.
pub open spec fn title_word(i: int, w: Seq<char>) -> Seq<char> {
    let lower = str_lowercase(w);
    if i > 0 && small_words().contains(lower) {
        lower
    } else {
        capitalize(lower)
    }
}

/// A readable title from a file stem (`"Unknown"` without one).
pub open spec fn spec_book_title(stem: Option<Seq<char>>) -> Seq<char> {
    let s = match stem {
        Some(s) => s,
        None => "Unknown"@,
    };
    join(words(dashes_to_spaces(s)).map(|i: int, w: Seq<char>| title_word(i, w)), seq![' '])
}

fn small_word_list() -> (r: Vec<Vec<char>>)
    ensures
        seqs_of(r@) == small_words(),
{
    let r = vec![
        chars_of("the"),
        chars_of("a"),
        chars_of("an"),
        chars_of("of"),
        chars_of("and"),
        chars_of("in"),
        chars_of("on"),
        chars_of("at"),
        chars_of("to"),
        chars_of("for"),
    ];
    assert(seqs_of(r@) =~= small_words());
    r
}

/// Builds the title from a file stem: `_` and `-` become spaces, words are
/// lowercased and capitalized, except the small words (`the`, `of`, ...)
/// after the first; `None` gives `"Unknown"`.
pub fn book_title_from_stem(stem: Option<&str>) -> (r: String)
    ensures
        r@ == spec_book_title(
            match stem {
                Some(s) => Some(s@),
                None => None,
            },
        ),
{
    let s = match stem {
        Some(s) => chars_of(s),
        None => chars_of("Unknown"),
    };
    let mut cleaned: Vec<char> = Vec::new();
    let mut i: usize = 0;
    while i < s.len()
        invariant
            i <= s@.len(),
            cleaned@ == dashes_to_spaces(s@.take(i as int)),
        decreases s@.len() - i,
    {
        let c = s[i];
        cleaned.push(if c == '_' || c == '-' { ' ' } else { c });
        assert(cleaned@ =~= dashes_to_spaces(s@.take(i + 1)));
        i += 1;
    }
    assert(s@.take(s@.len() as int) =~= s@);
    let ws = split_words(&cleaned);
    let small = small_word_list();
    let mut out: Vec<Vec<char>> = Vec::new();
    let ghost wv = seqs_of(ws@);
    let mut k: usize = 0;
    while k < ws.len()
        invariant
            k <= ws@.len(),
            wv == seqs_of(ws@),
            seqs_of(small@) == small_words(),
            seqs_of(out@) == wv.take(k as int).map(|i: int, w: Seq<char>| title_word(i, w)),
        decreases ws@.len() - k,
    {
        assert(wv[k as int] == ws@[k as int]@);
        let lower = lowercase_chars(&ws[k]);
        let mut is_small = false;
        let mut j: usize = 0;
        while j < small.len()
            invariant
                j <= small@.len(),
                seqs_of(small@) == small_words(),
                is_small == exists|t: int| 0 <= t < j && small_words()[t] == lower@,
            decreases small@.len() - j,
        {
            assert(seqs_of(small@)[j as int] == small@[j as int]@);
            if crate::util::chars_equal(&small[j], &lower) {
                is_small = true;
            }
            j += 1;
        }
        let word = if k > 0 && is_small {
            lower
        } else {
            capitalize_chars(&lower)
        };
        let ghost pre = seqs_of(out@);
        out.push(word);
        assert(seqs_of(out@) =~= pre.push(word@));
        assert(wv.take(k + 1).map(|i: int, w: Seq<char>| title_word(i, w)) =~= wv.take(
            k as int,
        ).map(|i: int, w: Seq<char>| title_word(i, w)).push(title_word(k as int, wv[k as int])));
        k += 1;
    }
    assert(wv.take(ws@.len() as int) =~= wv);
    let sep = vec![' '];
    assert(sep@ =~= seq![' ']);
    string_of(&join_chars(&out, &sep))
}

/// A readable title guessed from a PDF path's file name (see
/// [`book_title_from_stem`]); `"Unknown"` when the path has no file stem in
/// valid Unicode.
pub fn guess_book_title(path: &Path) -> (r: String)
    ensures
        r@ == spec_book_title(path_file_stem(path)),
{
    let stem = file_stem_text(path);
    match stem {
        Some(s) => book_title_from_stem(Some(s.as_str())),
        None => book_title_from_stem(None),
    }
}

} // verus!
