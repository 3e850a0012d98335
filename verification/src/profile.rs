//! Cleanup of the single-line wiki format.
//!
//! The upstream wiki API sometimes returns a **single line** gluing together
//! the infobox caption, labeled fields ("Aliases Muad'Dib, Usul", "Born
//! 10176 AG Place of birth Caladan"), a "Behind the Scenes" block with actor
//! names, and the biography with paragraph breaks lost ("...Leto Atreides
//! II.House Atreides was..."). [`clean_entity_text`] extracts the profile
//! fields into a compact `## Profile` block, drops the noise, and reflows
//! the biography into readable paragraphs.

use vstd::prelude::*;
use vstd::string::*;
use vstd::utf8::encode_utf8;
use crate::clean::{
    collapse_spaces, collapse_spaces_exec, is_terminator, spec_clean_wiki_text,
    split_sentences, split_sentences_exec, strip_noisy_parentheticals_exec,
    strip_noisy_parentheticals,
};
use crate::text::{
    all_ascii, chars_of, contains, eq_ignore_ascii_case,
    eq_ignore_ascii_case_chars, find_from, is_alphabetic, is_alphanumeric, is_lowercase,
    is_uppercase, join, join_chars, lowercase_chars, matches_at, matches_at_exec, push_all,
    rfind_from, seqs_of, slice_chars, str_lowercase, string_of, trim, trim_chars, trim_end,
    trim_end_chars, trim_end_set, trim_end_set_chars, trim_start, trim_start_chars,
    trim_start_set, trim_start_set_chars, unicode_alphabetic, unicode_alphanumeric,
    unicode_lowercase, unicode_uppercase, words, find_chars, rfind_chars, contains_chars,
    split_words,
};
use crate::util::is_ascii_alnum;

verus! {

// ---------------------------------------------------------------------------
// Labels
// ---------------------------------------------------------------------------

/// Infobox labels worth keeping, as they appear in the payload.
#[verifier::opaque]
pub open spec fn profile_labels() -> Seq<Seq<char>> {
    seq![
        "Aliases"@,
        "Titles"@,
        "Great House"@,
        "Status"@,
        "Symbol"@,
        "Army"@,
        "Uniform"@,
        "Colors"@,
        "Homeworld"@,
        "Ruling Title"@,
        "Loyalty"@,
        "Family members"@,
        "Romances"@,
        "Affiliation"@,
        "Born"@,
        "Place of birth"@,
        "Died"@,
        "Place of death"@,
        "Eyes"@,
        "Hair"@,
        "Height"@,
    ]
}

/// Display names of the [`profile_labels`], position by position.
#[verifier::opaque]
pub open spec fn profile_display() -> Seq<Seq<char>> {
    seq![
        "Aliases"@,
        "Titles"@,
        "Great House"@,
        "Status"@,
        "Symbol"@,
        "Army"@,
        "Uniform"@,
        "Colors"@,
        "Homeworld"@,
        "Ruling Title"@,
        "Loyalty"@,
        "Family"@,
        "Romances"@,
        "Affiliation"@,
        "Born"@,
        "Place of birth"@,
        "Died"@,
        "Place of death"@,
        "Eyes"@,
        "Hair"@,
        "Height"@,
    ]
}

/// Labels whose content is dropped entirely: wiki navigation tabs, the
/// Behind-the-scenes / actor block and the (always empty) group headers.
#[verifier::opaque]
pub open spec fn noise_labels() -> Seq<Seq<char>> {
    seq![
        "Film series"@,
        "Miniseries"@,
        "Encyclopedia"@,
        "Novels"@,
        "Behind the Scenes"@,
        "First appearance"@,
        "Portrayed by"@,
        "Political Information"@,
        "Affiliation and Relationships"@,
        "Biographical Information"@,
        "Physical Characteristics"@,
    ]
}

/// Leading image-caption artifacts glued before the first word.
pub open spec fn leading_noise() -> Seq<Seq<char>> {
    seq!["Artist's portrayal"@, "Artist portrayal"@]
}

fn profile_label_list() -> (r: Vec<Vec<char>>)
    ensures
        seqs_of(r@) == profile_labels(),
        r@.len() == 21,
{
    let r = vec![
        chars_of("Aliases"),
        chars_of("Titles"),
        chars_of("Great House"),
        chars_of("Status"),
        chars_of("Symbol"),
        chars_of("Army"),
        chars_of("Uniform"),
        chars_of("Colors"),
        chars_of("Homeworld"),
        chars_of("Ruling Title"),
        chars_of("Loyalty"),
        chars_of("Family members"),
        chars_of("Romances"),
        chars_of("Affiliation"),
        chars_of("Born"),
        chars_of("Place of birth"),
        chars_of("Died"),
        chars_of("Place of death"),
        chars_of("Eyes"),
        chars_of("Hair"),
        chars_of("Height"),
    ];
    reveal(profile_labels);
    assert(seqs_of(r@) =~= profile_labels());
    r
}

fn profile_display_list() -> (r: Vec<Vec<char>>)
    ensures
        seqs_of(r@) == profile_display(),
        r@.len() == 21,
{
    let r = vec![
        chars_of("Aliases"),
        chars_of("Titles"),
        chars_of("Great House"),
        chars_of("Status"),
        chars_of("Symbol"),
        chars_of("Army"),
        chars_of("Uniform"),
        chars_of("Colors"),
        chars_of("Homeworld"),
        chars_of("Ruling Title"),
        chars_of("Loyalty"),
        chars_of("Family"),
        chars_of("Romances"),
        chars_of("Affiliation"),
        chars_of("Born"),
        chars_of("Place of birth"),
        chars_of("Died"),
        chars_of("Place of death"),
        chars_of("Eyes"),
        chars_of("Hair"),
        chars_of("Height"),
    ];
    reveal(profile_display);
    assert(seqs_of(r@) =~= profile_display());
    r
}

fn noise_label_list() -> (r: Vec<Vec<char>>)
    ensures
        seqs_of(r@) == noise_labels(),
{
    let r = vec![
        chars_of("Film series"),
        chars_of("Miniseries"),
        chars_of("Encyclopedia"),
        chars_of("Novels"),
        chars_of("Behind the Scenes"),
        chars_of("First appearance"),
        chars_of("Portrayed by"),
        chars_of("Political Information"),
        chars_of("Affiliation and Relationships"),
        chars_of("Biographical Information"),
        chars_of("Physical Characteristics"),
    ];
    reveal(noise_labels);
    assert(seqs_of(r@) =~= noise_labels());
    r
}

fn leading_noise_list() -> (r: Vec<Vec<char>>)
    ensures
        seqs_of(r@) == leading_noise(),
{
    let r = vec![chars_of("Artist's portrayal"), chars_of("Artist portrayal")];
    assert(seqs_of(r@) =~= leading_noise());
    r
}

// ---------------------------------------------------------------------------
// Marks
// ---------------------------------------------------------------------------

/// A recognized label: a profile field (index into [`profile_labels`]) or
/// a noise label.
#[derive(Clone, Copy)]
pub enum Mark {
    Field(usize),
    Noise,
}

/// The longest label starting at `text[i..]` among the profile labels from
/// `k` on, given the best so far (ties keep the earlier label).
pub open spec fn best_field(text: Seq<char>, i: int, k: int, best: Option<(nat, Mark)>) -> Option<(nat, Mark)>
    decreases profile_labels().len() - k,
{
    if k < 0 || k >= profile_labels().len() {
        best
    } else {
        let raw = profile_labels()[k];
        let better = matches_at(text, raw, i) && match best {
            None => true,
            Some((l, _)) => l < raw.len(),
        };
        best_field(text, i, k + 1, if better { Some((raw.len(), Mark::Field(k as usize))) } else { best })
    }
}

/// Same over the noise labels.
pub open spec fn best_noise(text: Seq<char>, i: int, k: int, best: Option<(nat, Mark)>) -> Option<(nat, Mark)>
    decreases noise_labels().len() - k,
{
    if k < 0 || k >= noise_labels().len() {
        best
    } else {
        let raw = noise_labels()[k];
        let better = matches_at(text, raw, i) && match best {
            None => true,
            Some((l, _)) => l < raw.len(),
        };
        best_noise(text, i, k + 1, if better { Some((raw.len(), Mark::Noise)) } else { best })
    }
}

/// The label starting at `text[i..]`, with its length.
#[verifier::opaque]
pub open spec fn match_mark(text: Seq<char>, i: int) -> Option<(nat, Mark)> {
    best_noise(text, i, 0, best_field(text, i, 0, None))
}

/// Length of the label at `pos` (0 when there is none).
pub open spec fn label_len_at(text: Seq<char>, pos: int) -> nat {
    match match_mark(text, pos) {
        Some((l, _)) => l,
        None => 0,
    }
}

pub open spec fn is_ascii_alpha(c: char) -> bool {
    ('a' <= c && c <= 'z') || ('A' <= c && c <= 'Z')
}

/// Labels found in `text[i..]`, each starting a word and followed by a
/// space or the end of the text, with the marks found so far `acc`.
pub open spec fn marks_from(text: Seq<char>, i: int, acc: Seq<(usize, Mark)>) -> Seq<(usize, Mark)>
    decreases text.len() - i,
{
    if i < 0 || i >= text.len() {
        acc
    } else if i > 0 && is_ascii_alpha(text[i - 1]) {
        marks_from(text, i + 1, acc)
    } else {
        match match_mark(text, i) {
            Some((l, kind)) => {
                let end = i + l;
                if l > 0 && (end == text.len() || (end < text.len() && text[end] == ' ')) {
                    marks_from(text, end, acc.push((i as usize, kind)))
                } else {
                    marks_from(text, i + 1, acc)
                }
            },
            None => marks_from(text, i + 1, acc),
        }
    }
}

pub open spec fn find_marks(text: Seq<char>) -> Seq<(usize, Mark)> {
    marks_from(text, 0, Seq::empty())
}

/// Where the value of mark `idx` ends: the next mark or the end of text.
pub open spec fn value_end(text: Seq<char>, marks: Seq<(usize, Mark)>, idx: int) -> int {
    if idx + 1 < marks.len() {
        marks[idx + 1].0 as int
    } else {
        text.len() as int
    }
}

/// Marks are in order and never overlap their labels.
pub open spec fn marks_wf(text: Seq<char>, marks: Seq<(usize, Mark)>) -> bool {
    forall|idx: int|
        0 <= idx < marks.len() ==> {
            &&& #[trigger] marks[idx].0 + label_len_at(text, marks[idx].0 as int) <= value_end(
                text,
                marks,
                idx,
            )
            &&& value_end(text, marks, idx) <= text.len()
            &&& match_mark(text, marks[idx].0 as int) matches Some((_, kind)) && kind == marks[idx].1
        }
}

pub open spec fn marks_kinds_ok(marks: Seq<(usize, Mark)>) -> bool {
    forall|idx: int| 0 <= idx < marks.len() ==> match #[trigger] marks[idx].1 {
        Mark::Field(d) => d < 21,
        Mark::Noise => true,
    }
}

} // verus!

verus! {

/// A label result fits in the text and names a known label.
pub open spec fn mark_ok(text: Seq<char>, i: int, r: Option<(nat, Mark)>) -> bool {
    r matches Some((l, m)) ==> {
        &&& i + l <= text.len()
        &&& match m {
            Mark::Field(d) => d < 21,
            Mark::Noise => true,
        }
    }
}

fn match_mark_exec(
    text: &Vec<char>,
    i: usize,
    fields: &Vec<Vec<char>>,
    noise: &Vec<Vec<char>>,
) -> (r: Option<(usize, Mark)>)
    requires
        seqs_of(fields@) == profile_labels(),
        fields@.len() == 21,
        seqs_of(noise@) == noise_labels(),
        i <= text@.len(),
    ensures
        match r {
            Some((l, m)) => match_mark(text@, i as int) == Some((l as nat, m)),
            None => match_mark(text@, i as int) is None,
        },
        mark_ok(text@, i as int, match_mark(text@, i as int)),
{
    reveal(match_mark);
    let mut best: Option<(usize, Mark)> = None;
    let mut k: usize = 0;
    while k < fields.len()
        invariant
            k <= fields@.len(),
            fields@.len() == 21,
            seqs_of(fields@) == profile_labels(),
            i <= text@.len(),
            best_field(text@, i as int, 0, None) == best_field(
                text@,
                i as int,
                k as int,
                match best {
                    Some((l, m)) => Some((l as nat, m)),
                    None => None,
                },
            ),
            mark_ok(
                text@,
                i as int,
                match best {
                    Some((l, m)) => Some((l as nat, m)),
                    None => None,
                },
            ),
        decreases fields@.len() - k,
    {
        assert(seqs_of(fields@)[k as int] == fields@[k as int]@);
        if matches_at_exec(text, &fields[k], i) {
            let longer = match best {
                None => true,
                Some((l, _)) => l < fields[k].len(),
            };
            if longer {
                best = Some((fields[k].len(), Mark::Field(k)));
            }
        }
        k += 1;
    }
    let ghost mid = match best {
        Some((l, m)) => Some((l as nat, m)),
        None => None,
    };
    assert(mid == best_field(text@, i as int, 0, None));
    let mut k: usize = 0;
    while k < noise.len()
        invariant
            k <= noise@.len(),
            seqs_of(noise@) == noise_labels(),
            i <= text@.len(),
            match_mark(text@, i as int) == best_noise(
                text@,
                i as int,
                k as int,
                match best {
                    Some((l, m)) => Some((l as nat, m)),
                    None => None,
                },
            ),
            mark_ok(
                text@,
                i as int,
                match best {
                    Some((l, m)) => Some((l as nat, m)),
                    None => None,
                },
            ),
        decreases noise@.len() - k,
    {
        assert(seqs_of(noise@)[k as int] == noise@[k as int]@);
        if matches_at_exec(text, &noise[k], i) {
            let longer = match best {
                None => true,
                Some((l, _)) => l < noise[k].len(),
            };
            if longer {
                best = Some((noise[k].len(), Mark::Noise));
            }
        }
        k += 1;
    }
    best
}

/// Marks found so far are ordered, each label ending before `limit`.
pub open spec fn acc_wf(text: Seq<char>, acc: Seq<(usize, Mark)>, limit: int) -> bool {
    &&& forall|idx: int|
        0 <= idx < acc.len() ==> {
            &&& #[trigger] acc[idx].0 + label_len_at(text, acc[idx].0 as int) <= (if idx + 1
                < acc.len() {
                acc[idx + 1].0 as int
            } else {
                limit
            })
            &&& match_mark(text, acc[idx].0 as int) matches Some((_, kind)) && kind == acc[idx].1
        }
    &&& marks_kinds_ok(acc)
}

proof fn lemma_acc_push(text: Seq<char>, pre: Seq<(usize, Mark)>, i: usize, kind: Mark, len: nat)
    requires
        acc_wf(text, pre, i as int),
        match_mark(text, i as int) == Some((len, kind)),
        mark_ok(text, i as int, match_mark(text, i as int)),
    ensures
        acc_wf(text, pre.push((i, kind)), i + len),
{
    let m = pre.push((i, kind));
    assert forall|idx: int| 0 <= idx < m.len() implies {
        &&& #[trigger] m[idx].0 + label_len_at(text, m[idx].0 as int) <= (if idx + 1 < m.len() {
            m[idx + 1].0 as int
        } else {
            i + len
        })
        &&& match_mark(text, m[idx].0 as int) matches Some((_, k)) && k == m[idx].1
    } by {
        if idx < pre.len() {
            assert(m[idx] == pre[idx]);
        }
    }
    assert forall|idx: int| 0 <= idx < m.len() implies match #[trigger] m[idx].1 {
        Mark::Field(d) => d < 21,
        Mark::Noise => true,
    } by {
        if idx < pre.len() {
            assert(m[idx] == pre[idx]);
        }
    }
}

proof fn lemma_acc_final(text: Seq<char>, marks: Seq<(usize, Mark)>)
    requires
        acc_wf(text, marks, text.len() as int),
    ensures
        marks_wf(text, marks),
{
    assert forall|idx: int| 0 <= idx < marks.len() implies {
        &&& #[trigger] marks[idx].0 + label_len_at(text, marks[idx].0 as int) <= value_end(
            text,
            marks,
            idx,
        )
        &&& value_end(text, marks, idx) <= text.len()
        &&& match_mark(text, marks[idx].0 as int) matches Some((_, kind)) && kind == marks[idx].1
    } by {
        if idx + 1 < marks.len() {
            let j = idx + 1;
            assert(marks[j].0 + label_len_at(text, marks[j].0 as int) <= (if j + 1 < marks.len() {
                marks[j + 1].0 as int
            } else {
                text.len() as int
            }));
            lemma_value_end_le(text, marks, j);
        }
    }
}

proof fn lemma_value_end_le(text: Seq<char>, marks: Seq<(usize, Mark)>, j: int)
    requires
        acc_wf(text, marks, text.len() as int),
        0 <= j < marks.len(),
    ensures
        marks[j].0 <= text.len(),
    decreases marks.len() - j,
{
    if j + 1 < marks.len() {
        lemma_value_end_le(text, marks, j + 1);
        assert(marks[j + 1].0 + label_len_at(text, marks[j + 1].0 as int) <= (if j + 2 < marks.len() {
            marks[j + 2].0 as int
        } else {
            text.len() as int
        }));
        assert(marks[j].0 + label_len_at(text, marks[j].0 as int) <= marks[j + 1].0);
    } else {
        assert(marks[j].0 + label_len_at(text, marks[j].0 as int) <= text.len());
    }
}

fn find_marks_exec(text: &Vec<char>) -> (r: Vec<(usize, Mark)>)
    ensures
        r@ == find_marks(text@),
        marks_wf(text@, r@),
        marks_kinds_ok(r@),
{
    let fields = profile_label_list();
    let noise = noise_label_list();
    let n = text.len();
    let mut marks: Vec<(usize, Mark)> = Vec::new();
    let mut i: usize = 0;
    while i < n
        invariant
            n == text@.len(),
            i <= n,
            seqs_of(fields@) == profile_labels(),
            fields@.len() == 21,
            seqs_of(noise@) == noise_labels(),
            find_marks(text@) == marks_from(text@, i as int, marks@),
            acc_wf(text@, marks@, i as int),
        decreases n - i,
    {
        if i > 0 && (('a' <= text[i - 1] && text[i - 1] <= 'z') || ('A' <= text[i - 1] && text[i
            - 1] <= 'Z')) {
            i += 1;
            continue;
        }
        match match_mark_exec(text, i, &fields, &noise) {
            Some((len, kind)) => {
                let end = i + len;
                if len > 0 && (end == n || (end < n && text[end] == ' ')) {
                    proof {
                        lemma_acc_push(text@, marks@, i, kind, len as nat);
                    }
                    marks.push((i, kind));
                    i = end;
                    continue;
                }
            },
            None => {},
        }
        i += 1;
    }
    proof {
        lemma_acc_final(text@, marks@);
    }
    marks
}

} // verus!

verus! {

// ---------------------------------------------------------------------------
// Repeated payloads
// ---------------------------------------------------------------------------

/// Length of the kept prefix: the API sometimes serves the description
/// concatenated twice; a repetition of the first 96 characters that leaves
/// at least a third of the text (in UTF-8 bytes) after it marks the cut.
pub open spec fn dedupe_cut(text: Seq<char>) -> int {
    if text.len() <= 96 {
        text.len() as int
    } else {
        match find_from(text, text.take(96), 96) {
            Some(pos) => if encode_utf8(text.skip(pos)).len() >= encode_utf8(text).len() / 3 {
                pos
            } else {
                text.len() as int
            },
            None => text.len() as int,
        }
    }
}

pub open spec fn dedupe_repeated(text: Seq<char>) -> Seq<char> {
    text.take(dedupe_cut(text))
}

fn dedupe_repeated_exec(raw: &str) -> (r: Vec<char>)
    ensures
        r@ == dedupe_repeated(raw@),
{
    let text = chars_of(raw);
    if text.len() <= 96 {
        assert(text@.take(text@.len() as int) =~= text@);
        return text;
    }
    let head = slice_chars(&text, 0, 96);
    assert(head@ =~= text@.take(96));
    match find_chars(&text, &head, 96) {
        Some(pos) => {
            proof {
                crate::text::lemma_find_from(text@, head@, 96);
            }
            let n = text.len();
            let tail = raw.substring_char(pos, n);
            let tail_bytes = tail.as_bytes().len();
            let total_bytes = raw.as_bytes().len();
            assert(raw@.subrange(pos as int, n as int) =~= raw@.skip(pos as int));
            if tail_bytes >= total_bytes / 3 {
                slice_chars(&text, 0, pos)
            } else {
                assert(text@.take(text@.len() as int) =~= text@);
                text
            }
        },
        None => {
            assert(text@.take(text@.len() as int) =~= text@);
            text
        },
    }
}

} // verus!

verus! {

// ---------------------------------------------------------------------------
// Where the biography starts
// ---------------------------------------------------------------------------

/// Searches `lower` (the lowercase of `value`) for `hint` from `from` on:
/// the first mention of the entity, not glued inside a larger word on both
/// sides, whose suffix reads like narrative text.
pub open spec fn swallow_from(hint: Seq<char>, value: Seq<char>, lower: Seq<char>, from: int) -> Option<int>
    decreases lower.len() + 1 - from,
{
    if hint.len() == 0 || from < 0 {
        None
    } else {
        proof {
            crate::text::lemma_find_from(lower, hint, from);
        }
        match find_from(lower, hint, from) {
            None => None,
            Some(idx) => {
                if idx < from {
                    None
                } else {
                    let prev_alpha = idx > 0 && unicode_alphabetic(value[idx - 1]);
                    let next_alpha = idx + hint.len() < value.len() && unicode_alphabetic(
                        value[idx + hint.len()],
                    );
                    if prev_alpha && next_alpha {
                        swallow_from(hint, value, lower, idx + hint.len())
                    } else if contains(value.skip(idx), seq!['.', ' ']) || value.len() - idx > 250 {
                        Some(idx)
                    } else {
                        swallow_from(hint, value, lower, idx + hint.len())
                    }
                }
            },
        }
    }
}

/// Index where a field value stops being infobox data and has swallowed
/// running prose.
pub open spec fn find_bio_swallow(hint_lower: Seq<char>, value: Seq<char>) -> Option<int> {
    if hint_lower.len() == 0 {
        None
    } else {
        swallow_from(hint_lower, value, str_lowercase(value), 0)
    }
}

fn find_bio_swallow_exec(hint: &Vec<char>, value: &Vec<char>) -> (r: Option<usize>)
    requires
        all_ascii(value@),
    ensures
        match r {
            Some(k) => find_bio_swallow(hint@, value@) == Some(k as int) && k <= value@.len(),
            None => find_bio_swallow(hint@, value@) is None,
        },
{
    if hint.len() == 0 {
        return None;
    }
    let lower = lowercase_chars(value);
    let dot_space = vec!['.', ' '];
    assert(dot_space@ =~= seq!['.', ' ']);
    let mut from: usize = 0;
    loop
        invariant
            hint@.len() > 0,
            lower@ == str_lowercase(value@),
            lower@.len() == value@.len(),
            dot_space@ == seq!['.', ' '],
            from <= lower@.len() + 1,
            find_bio_swallow(hint@, value@) == swallow_from(hint@, value@, lower@, from as int),
        decreases lower@.len() + 1 - from,
    {
        let found = if from <= lower.len() { find_chars(&lower, hint, from) } else { None };
        match found {
            None => {
                assert(swallow_from(hint@, value@, lower@, from as int) is None);
                return None;
            },
            Some(idx) => {
                proof {
                    crate::text::lemma_find_from(lower@, hint@, from as int);
                }
                let hlen = hint.len();
                let prev_alpha = idx > 0 && is_alphabetic(value[idx - 1]);
                let next_alpha = idx + hlen < value.len() && is_alphabetic(value[idx + hlen]);
                if prev_alpha && next_alpha {
                    from = idx + hlen;
                    continue;
                }
                let suffix = slice_chars(value, idx, value.len());
                assert(suffix@ =~= value@.skip(idx as int));
                if contains_chars(&suffix, &dot_space) || value.len() - idx > 250 {
                    return Some(idx);
                }
                from = idx + hlen;
            },
        }
    }
}

/// Drops a bare trailing caption repeat ("...Ghanima Atreides.Chani Kynes"
/// → "...Ghanima Atreides."): a short punctuation-less suffix starting with
/// the entity's own name after a space or a period.
pub open spec fn strip_trailing_caption(text: Seq<char>, hint_lower: Seq<char>) -> Seq<char> {
    let t = trim_end(text);
    if hint_lower.len() == 0 {
        t
    } else {
        let lower = str_lowercase(t);
        match rfind_from(lower, hint_lower, lower.len() as int) {
            Some(pos) => if pos > 0 && (t[pos - 1] == ' ' || t[pos - 1] == '.') && words(
                t.skip(pos),
            ).len() <= 4 && !t.skip(pos).contains('.') {
                trim_end(t.take(pos))
            } else {
                t
            },
            None => t,
        }
    }
}

pub proof fn lemma_rfind_from(s: Seq<char>, p: Seq<char>, i: int)
    ensures
        rfind_from(s, p, i) matches Some(k) ==> k <= i && matches_at(s, p, k),
    decreases i + 1,
{
    if i >= 0 && !matches_at(s, p, i) {
        lemma_rfind_from(s, p, i - 1);
    }
}

fn has_char(s: &Vec<char>, c: char) -> (r: bool)
    ensures
        r == s@.contains(c),
{
    let mut i: usize = 0;
    while i < s.len()
        invariant
            i <= s@.len(),
            forall|t: int| 0 <= t < i ==> s@[t] != c,
        decreases s@.len() - i,
    {
        if s[i] == c {
            return true;
        }
        i += 1;
    }
    false
}

fn strip_trailing_caption_exec(text: &Vec<char>, hint: &Vec<char>) -> (r: Vec<char>)
    requires
        all_ascii(text@),
    ensures
        r@ == strip_trailing_caption(text@, hint@),
        all_ascii(r@),
{
    let t = trim_end_chars(text);
    assert(all_ascii(t@)) by {
        crate::text::lemma_trim_end_bounds(text@, text@.len() as int);
        assert forall|i: int| 0 <= i < t@.len() implies crate::text::is_ascii_char(#[trigger] t@[i]) by {
            assert(t@[i] == text@[i]);
        }
    }
    if hint.len() == 0 {
        return t;
    }
    let lower = lowercase_chars(&t);
    match rfind_chars(&lower, hint) {
        Some(pos) => {
            proof {
                lemma_rfind_from(lower@, hint@, lower@.len() as int);
            }
            if pos > 0 && (t[pos - 1] == ' ' || t[pos - 1] == '.') {
                let tail = slice_chars(&t, pos, t.len());
                assert(tail@ =~= t@.skip(pos as int));
                if split_words(&tail).len() <= 4 && !has_char(&tail, '.') {
                    let head = slice_chars(&t, 0, pos);
                    assert(head@ =~= t@.take(pos as int));
                    let r = trim_end_chars(&head);
                    proof {
                        crate::text::lemma_trim_end_bounds(head@, head@.len() as int);
                        assert forall|i: int| 0 <= i < r@.len() implies crate::text::is_ascii_char(#[trigger] r@[i]) by {
                            assert(r@[i] == t@[i]);
                        }
                    }
                    return r;
                }
            }
            t
        },
        None => t,
    }
}

/// Splits the chunk after the final mark into `(residual value, bio)`: the
/// bio begins at the first mention of the entity's own name.
pub open spec fn split_trailing(name_hint: Seq<char>, trailing: Seq<char>) -> (Option<Seq<char>>, Seq<char>) {
    let lower_hint = str_lowercase(trim(name_hint));
    if lower_hint.len() == 0 {
        (None, trailing)
    } else {
        match find_from(str_lowercase(trailing), lower_hint, 0) {
            Some(idx) => if idx > 0 {
                (Some(trim_end_set(trailing.take(idx), seq![' ', ',', ';'])), trailing.skip(idx))
            } else {
                (None, trailing)
            },
            None => (None, trailing),
        }
    }
}

fn split_trailing_exec(name_hint: &Vec<char>, trailing: &Vec<char>) -> (r: (Option<Vec<char>>, Vec<char>))
    requires
        all_ascii(trailing@),
    ensures
        split_trailing(name_hint@, trailing@) == (match r.0 {
            Some(x) => Some(x@),
            None => None,
        }, r.1@),
        all_ascii(r.1@),
        r.0 matches Some(x) ==> all_ascii(x@),
{
    let lower_hint = lowercase_chars(&trim_chars(name_hint));
    if lower_hint.len() == 0 {
        return (None, trailing.clone());
    }
    let lower = lowercase_chars(trailing);
    match find_chars(&lower, &lower_hint, 0) {
        Some(idx) => {
            proof {
                crate::text::lemma_find_from(lower@, lower_hint@, 0);
            }
            if idx > 0 {
                let before = slice_chars(trailing, 0, idx);
                let after = slice_chars(trailing, idx, trailing.len());
                assert(before@ =~= trailing@.take(idx as int));
                assert(after@ =~= trailing@.skip(idx as int));
                let set = vec![' ', ',', ';'];
                assert(set@ =~= seq![' ', ',', ';']);
                let res = trim_end_set_chars(&before, &set);
                proof {
                    crate::text::lemma_trim_end_set_bounds(before@, set@, before@.len() as int);
                    assert forall|i: int| 0 <= i < res@.len() implies crate::text::is_ascii_char(#[trigger] res@[i]) by {
                        assert(res@[i] == trailing@[i]);
                    }
                    assert forall|i: int| 0 <= i < after@.len() implies crate::text::is_ascii_char(#[trigger] after@[i]) by {
                        assert(after@[i] == trailing@[i + idx]);
                    }
                }
                (Some(res), after)
            } else {
                (None, trailing.clone())
            }
        },
        None => (None, trailing.clone()),
    }
}

} // verus!

verus! {

// ---------------------------------------------------------------------------
// Spacing repairs
// ---------------------------------------------------------------------------

/// What goes between two glued characters `p` and `c`: a space at a
/// lower→upper case change (except "cK"), a space before a parenthesis that
/// follows a letter or digit, and " · " between a closing parenthesis and
/// an uppercase letter or an opening parenthesis.
pub open spec fn glue_gap(p: char, c: char) -> Seq<char> {
    if (unicode_lowercase(p) && unicode_uppercase(c) && !(p == 'c' && c == 'K')) || (
    is_ascii_alnum(p) && c == '(') {
        seq![' ']
    } else if p == ')' && (unicode_uppercase(c) || c == '(') {
        seq![' ', '·', ' ']
    } else {
        Seq::empty()
    }
}

/// `text` with the [`glue_gap`] inserted between every pair of neighbours.
pub open spec fn glue_spaced(text: Seq<char>) -> Seq<char>
    decreases text.len(),
{
    if text.len() <= 1 {
        text
    } else {
        glue_spaced(text.drop_last()) + glue_gap(text[text.len() - 2], text.last()) + seq![
            text.last(),
        ]
    }
}

pub(crate) fn insert_glue_spaces_exec(text: &Vec<char>) -> (r: Vec<char>)
    ensures
        r@ == glue_spaced(text@),
{
    let mut out: Vec<char> = Vec::new();
    let n = text.len();
    let mut i: usize = 0;
    while i < n
        invariant
            n == text@.len(),
            i <= n,
            out@ == glue_spaced(text@.take(i as int)),
        decreases n - i,
    {
        let ch = text[i];
        let ghost before = out@;
        if i > 0 {
            let p = text[i - 1];
            if (is_lowercase(p) && is_uppercase(ch) && !(p == 'c' && ch == 'K')) || ((('0' <= p
                && p <= '9') || ('a' <= p && p <= 'z') || ('A' <= p && p <= 'Z')) && ch == '(') {
                out.push(' ');
            } else if p == ')' && (is_uppercase(ch) || ch == '(') {
                out.push(' ');
                out.push('·');
                out.push(' ');
            }
        }
        out.push(ch);
        proof {
            let t = text@.take(i + 1);
            assert(t.drop_last() =~= text@.take(i as int));
            if i > 0 {
                assert(t[t.len() - 2] == text@[i - 1]);
                assert(out@ =~= before + glue_gap(text@[i - 1], ch) + seq![ch]);
            } else {
                assert(out@ =~= t);
            }
        }
        i += 1;
    }
    assert(text@.take(n as int) =~= text@);
    out
}

/// A space owed after the terminator at `k`: it is followed by an
/// uppercase character and preceded by a letter or digit.
pub open spec fn boundary_gap(s: Seq<char>, k: int) -> Seq<char> {
    if is_terminator(s[k]) && k + 1 < s.len() && unicode_uppercase(s[k + 1]) && s[k + 1] != ' '
        && k > 0 && s[k - 1] != ' ' && unicode_alphanumeric(s[k - 1]) {
        seq![' ']
    } else {
        Seq::empty()
    }
}

/// The first `k` characters of `s`, each followed by its [`boundary_gap`].
pub open spec fn repair_upto(s: Seq<char>, k: int) -> Seq<char>
    decreases k,
{
    if k <= 0 {
        Seq::empty()
    } else {
        repair_upto(s, k - 1) + seq![s[k - 1]] + boundary_gap(s, k - 1)
    }
}

/// `"...Atreides II.House Atreides..."` → `"...II. House Atreides..."`.
pub open spec fn repair_sentence_boundaries(s: Seq<char>) -> Seq<char> {
    repair_upto(s, s.len() as int)
}

pub(crate) fn repair_sentence_boundaries_exec(s: &Vec<char>) -> (r: Vec<char>)
    ensures
        r@ == repair_sentence_boundaries(s@),
{
    let mut out: Vec<char> = Vec::new();
    let n = s.len();
    let mut i: usize = 0;
    while i < n
        invariant
            n == s@.len(),
            i <= n,
            out@ == repair_upto(s@, i as int),
        decreases n - i,
    {
        let ch = s[i];
        let ghost before = out@;
        out.push(ch);
        if ch == '.' || ch == '!' || ch == '?' {
            if i + 1 < n && i > 0 {
                let nx = s[i + 1];
                let pv = s[i - 1];
                if is_uppercase(nx) && nx != ' ' && pv != ' ' && is_alphanumeric(pv) {
                    out.push(' ');
                }
            }
        }
        assert(out@ =~= before + seq![ch] + boundary_gap(s@, i as int));
        i += 1;
    }
    out
}

/// `s` with every " ," from `i` on replaced by "," (left to right), after
/// the output `acc` of the part before `i`.
pub open spec fn comma_fix_from(s: Seq<char>, i: int, acc: Seq<char>) -> Seq<char>
    decreases s.len() - i,
{
    if i < 0 || i >= s.len() {
        acc
    } else if i + 1 < s.len() && s[i] == ' ' && s[i + 1] == ',' {
        comma_fix_from(s, i + 2, acc.push(','))
    } else {
        comma_fix_from(s, i + 1, acc.push(s[i]))
    }
}

/// `str::replace(" ,", ",")`.
pub open spec fn drop_space_before_comma(s: Seq<char>) -> Seq<char> {
    comma_fix_from(s, 0, Seq::empty())
}

fn drop_space_before_comma_exec(s: &Vec<char>) -> (r: Vec<char>)
    ensures
        r@ == drop_space_before_comma(s@),
{
    let mut out: Vec<char> = Vec::new();
    let n = s.len();
    let mut i: usize = 0;
    while i < n
        invariant
            n == s@.len(),
            i <= n + 1,
            drop_space_before_comma(s@) == comma_fix_from(s@, i as int, out@),
        decreases n + 1 - i,
    {
        if i + 1 < n && s[i] == ' ' && s[i + 1] == ',' {
            out.push(',');
            i += 2;
        } else {
            out.push(s[i]);
            i += 1;
        }
    }
    out
}

/// Repairs an infobox value: glue spacing, then whitespace collapsed.
pub open spec fn value_spaced(value: Seq<char>) -> Seq<char> {
    collapse_spaces(trim(glue_spaced(value)))
}

fn fix_value_spacing_exec(value: &Vec<char>) -> (r: Vec<char>)
    ensures
        r@ == value_spaced(value@),
{
    let spaced = insert_glue_spaces_exec(value);
    collapse_spaces_exec(&trim_chars(&spaced))
}

/// Repairs prose: noise parentheticals dropped, glue spacing, sentence
/// boundaries, no space before commas.
pub open spec fn fix_prose_spacing(text: Seq<char>) -> Seq<char> {
    drop_space_before_comma(
        repair_sentence_boundaries(glue_spaced(strip_noisy_parentheticals(text))),
    )
}

fn fix_prose_spacing_exec(text: &Vec<char>) -> (r: Vec<char>)
    ensures
        r@ == fix_prose_spacing(text@),
{
    let no_parens = strip_noisy_parentheticals_exec(text);
    let spaced = insert_glue_spaces_exec(&no_parens);
    let repaired = repair_sentence_boundaries_exec(&spaced);
    drop_space_before_comma_exec(&repaired)
}

} // verus!

verus! {

// ---------------------------------------------------------------------------
// Biography paragraphs
// ---------------------------------------------------------------------------

/// What follows a leading caption `prefix` (compared ignoring ASCII case)
/// in `t`, with separators and whitespace stripped; `None` when `t` does not
/// start with it or is no longer than it.
pub open spec fn after_noise_prefix(t: Seq<char>, prefix: Seq<char>) -> Option<Seq<char>> {
    if t.len() > prefix.len() && eq_ignore_ascii_case(t.take(prefix.len() as int), prefix) {
        Some(trim_start(trim_start_set(t.skip(prefix.len() as int), seq![' ', ',', '-'])))
    } else {
        None
    }
}

/// `text` trimmed, without a leading image caption.
pub open spec fn strip_leading_noise(text: Seq<char>) -> Seq<char> {
    let t = trim(text);
    match after_noise_prefix(t, leading_noise()[0]) {
        Some(rest) => rest,
        None => match after_noise_prefix(t, leading_noise()[1]) {
            Some(rest) => rest,
            None => t,
        },
    }
}

fn strip_leading_noise_exec(text: &Vec<char>) -> (r: Vec<char>)
    ensures
        r@ == strip_leading_noise(text@),
{
    let t = trim_chars(text);
    let prefixes = leading_noise_list();
    let seps = vec![' ', ',', '-'];
    assert(seps@ =~= seq![' ', ',', '-']);
    assert(seqs_of(prefixes@).len() == 2);
    let mut k: usize = 0;
    while k < prefixes.len()
        invariant
            k <= prefixes@.len(),
            seqs_of(prefixes@) == leading_noise(),
            prefixes@.len() == 2,
            seps@ == seq![' ', ',', '-'],
            t@ == trim(text@),
            forall|j: int| 0 <= j < k ==> after_noise_prefix(t@, #[trigger] leading_noise()[j]) is None,
        decreases prefixes@.len() - k,
    {
        let p = &prefixes[k];
        assert(seqs_of(prefixes@)[k as int] == p@);
        if t.len() > p.len() {
            let head = slice_chars(&t, 0, p.len());
            assert(head@ =~= t@.take(p@.len() as int));
            if eq_ignore_ascii_case_chars(&head, p) {
                let rest = slice_chars(&t, p.len(), t.len());
                assert(rest@ =~= t@.skip(p@.len() as int));
                let r = trim_start_chars(&trim_start_set_chars(&rest, &seps));
                assert(after_noise_prefix(t@, leading_noise()[k as int]) == Some(r@));
                assert(k == 0 || after_noise_prefix(t@, leading_noise()[0]) is None);
                return r;
            }
        }
        assert(after_noise_prefix(t@, leading_noise()[k as int]) is None);
        k += 1;
    }
    assert(after_noise_prefix(t@, leading_noise()[0]) is None);
    assert(after_noise_prefix(t@, leading_noise()[1]) is None);
    t
}

/// All pieces concatenated, in order.
pub open spec fn concat_pieces(ps: Seq<Seq<char>>) -> Seq<char>
    decreases ps.len(),
{
    if ps.len() == 0 {
        Seq::empty()
    } else {
        concat_pieces(ps.drop_last()) + ps.last()
    }
}

/// The sentences from `k` on in groups of five (the last may be shorter),
/// each group concatenated.
pub open spec fn group_sentences(ss: Seq<Seq<char>>, k: int) -> Seq<Seq<char>>
    decreases ss.len() - k,
{
    if k < 0 || k >= ss.len() {
        Seq::empty()
    } else {
        let e = if k + 5 < ss.len() { k + 5 } else { ss.len() as int };
        seq![concat_pieces(ss.subrange(k, e))] + group_sentences(ss, e)
    }
}

/// Paragraphs with whitespace collapsed, the empty ones dropped.
pub open spec fn kept_paragraphs(ps: Seq<Seq<char>>) -> Seq<Seq<char>>
    decreases ps.len(),
{
    if ps.len() == 0 {
        Seq::empty()
    } else {
        let rest = kept_paragraphs(ps.drop_last());
        let c = collapse_spaces(ps.last());
        if c.len() == 0 {
            rest
        } else {
            rest.push(c)
        }
    }
}

/// The paragraphs of the intro and the biography before clean-up: the
/// intro (if any) as one, then the biography's sentences by fives.
pub open spec fn raw_paragraphs(intro: Seq<char>, bio: Seq<char>) -> Seq<Seq<char>> {
    let intro_trim = strip_leading_noise(trim(intro));
    let first: Seq<Seq<char>> = if intro_trim.len() > 0 {
        seq![fix_prose_spacing(intro_trim)]
    } else {
        Seq::empty()
    };
    let cleaned = fix_prose_spacing(strip_leading_noise(trim(bio)));
    if cleaned.len() > 0 {
        first + group_sentences(split_sentences(cleaned), 0)
    } else {
        first
    }
}

/// Intro and biography as one block of paragraphs separated by blank
/// lines, or nothing when no text remains.
pub open spec fn render_bio(intro: Seq<char>, bio: Seq<char>) -> Seq<Seq<char>> {
    let joined = kept_paragraphs(raw_paragraphs(intro, bio));
    if joined.len() == 0 {
        Seq::empty()
    } else {
        seq![join(joined, seq!['\n', '\n'])]
    }
}

fn concat_range(ss: &Vec<Vec<char>>, k: usize, e: usize) -> (r: Vec<char>)
    requires
        k <= e <= ss@.len(),
    ensures
        r@ == concat_pieces(seqs_of(ss@).subrange(k as int, e as int)),
{
    let mut cur: Vec<char> = Vec::new();
    let mut j: usize = k;
    assert(seqs_of(ss@).subrange(k as int, k as int) =~= Seq::<Seq<char>>::empty());
    while j < e
        invariant
            k <= j <= e <= ss@.len(),
            cur@ == concat_pieces(seqs_of(ss@).subrange(k as int, j as int)),
        decreases e - j,
    {
        let ghost sv = seqs_of(ss@);
        assert(sv.subrange(k as int, j + 1).drop_last() =~= sv.subrange(k as int, j as int));
        assert(sv[j as int] == ss@[j as int]@);
        push_all(&mut cur, &ss[j]);
        j += 1;
    }
    cur
}

fn group_sentences_exec(ss: &Vec<Vec<char>>) -> (r: Vec<Vec<char>>)
    ensures
        seqs_of(r@) == group_sentences(seqs_of(ss@), 0),
{
    let mut out: Vec<Vec<char>> = Vec::new();
    let n = ss.len();
    let mut k: usize = 0;
    assert(seqs_of(out@) =~= Seq::<Seq<char>>::empty());
    while k < n
        invariant
            n == ss@.len(),
            k <= n,
            seqs_of(out@) + group_sentences(seqs_of(ss@), k as int) == group_sentences(
                seqs_of(ss@),
                0,
            ),
        decreases n - k,
    {
        let e = if n - k > 5 { k + 5 } else { n };
        let piece = concat_range(ss, k, e);
        let ghost pre = seqs_of(out@);
        let ghost rest = group_sentences(seqs_of(ss@), e as int);
        assert(group_sentences(seqs_of(ss@), k as int) == seq![piece@] + rest);
        out.push(piece);
        assert(seqs_of(out@) =~= pre.push(piece@));
        assert(pre + (seq![piece@] + rest) =~= pre.push(piece@) + rest);
        k = e;
    }
    assert(seqs_of(out@) + group_sentences(seqs_of(ss@), n as int) =~= seqs_of(out@));
    out
}

fn kept_paragraphs_exec(ps: &Vec<Vec<char>>) -> (r: Vec<Vec<char>>)
    ensures
        seqs_of(r@) == kept_paragraphs(seqs_of(ps@)),
{
    let mut out: Vec<Vec<char>> = Vec::new();
    let n = ps.len();
    let mut i: usize = 0;
    assert(seqs_of(out@) =~= Seq::<Seq<char>>::empty());
    while i < n
        invariant
            n == ps@.len(),
            i <= n,
            seqs_of(out@) == kept_paragraphs(seqs_of(ps@).take(i as int)),
        decreases n - i,
    {
        let ghost pv = seqs_of(ps@);
        assert(pv.take(i + 1).drop_last() =~= pv.take(i as int));
        assert(pv[i as int] == ps@[i as int]@);
        let c = collapse_spaces_exec(&ps[i]);
        if c.len() > 0 {
            let ghost pre = seqs_of(out@);
            out.push(c);
            assert(seqs_of(out@) =~= pre.push(c@));
        }
        i += 1;
    }
    assert(seqs_of(ps@).take(n as int) =~= seqs_of(ps@));
    out
}

fn render_bio_exec(intro: &Vec<char>, bio: &Vec<char>) -> (r: Vec<Vec<char>>)
    ensures
        seqs_of(r@) == render_bio(intro@, bio@),
{
    let mut paragraphs: Vec<Vec<char>> = Vec::new();
    let intro_trim = strip_leading_noise_exec(&trim_chars(intro));
    if intro_trim.len() > 0 {
        paragraphs.push(fix_prose_spacing_exec(&intro_trim));
    }
    let ghost first = seqs_of(paragraphs@);
    let cleaned = fix_prose_spacing_exec(&strip_leading_noise_exec(&trim_chars(bio)));
    if cleaned.len() > 0 {
        let sentences = split_sentences_exec(&cleaned);
        let mut groups = group_sentences_exec(&sentences);
        let ghost gvec = groups@;
        let ghost pv = paragraphs@;
        paragraphs.append(&mut groups);
        assert(paragraphs@ == pv + gvec);
        assert(seqs_of(paragraphs@) =~= first + seqs_of(gvec));
    } else {
        assert(seqs_of(paragraphs@) =~= first);
    }
    assert(seqs_of(paragraphs@) == raw_paragraphs(intro@, bio@));
    let joined = kept_paragraphs_exec(&paragraphs);
    if joined.len() == 0 {
        let r: Vec<Vec<char>> = Vec::new();
        assert(seqs_of(r@) =~= Seq::<Seq<char>>::empty());
        r
    } else {
        let sep = vec!['\n', '\n'];
        assert(sep@ =~= seq!['\n', '\n']);
        let one = join_chars(&joined, &sep);
        let r = vec![one];
        assert(seqs_of(r@) =~= seq![join(seqs_of(joined@), seq!['\n', '\n'])]);
        r
    }
}

} // verus!

verus! {

// ---------------------------------------------------------------------------
// Profile fields
// ---------------------------------------------------------------------------

/// Profile fields as (index into [`profile_display`], value).
pub open spec fn fields_view(v: Seq<(usize, Vec<char>)>) -> Seq<(usize, Seq<char>)> {
    v.map_values(|f: (usize, Vec<char>)| (f.0, f.1@))
}

/// Every field names a known label.
pub open spec fn fields_ok(f: Seq<(usize, Seq<char>)>) -> bool {
    forall|i: int| 0 <= i < f.len() ==> (#[trigger] f[i]).0 < 21
}

/// "Place of birth" joins the "Born" line, "Place of death" the "Died" line.
pub open spec fn place_anchor(k: usize) -> Option<usize> {
    if k == 15 {
        Some(14)
    } else if k == 17 {
        Some(16)
    } else {
        None
    }
}

/// Index of the first field from `i` on with label `label`.
pub open spec fn first_field(f: Seq<(usize, Seq<char>)>, label: usize, i: int) -> Option<int>
    decreases f.len() - i,
{
    if i < 0 || i >= f.len() {
        None
    } else if f[i].0 == label {
        Some(i)
    } else {
        first_field(f, label, i + 1)
    }
}

/// Adds a non-empty field value, merging a place into the line of its date.
pub open spec fn push_field(f: Seq<(usize, Seq<char>)>, k: usize, value: Seq<char>) -> Seq<
    (usize, Seq<char>),
> {
    if value.len() == 0 {
        f
    } else {
        match place_anchor(k) {
            Some(a) => match first_field(f, a, 0) {
                Some(j) => f.update(j, (a, f[j].1 + seq![' ', '·', ' '] + value)),
                None => f.push((k, value)),
            },
            None => f.push((k, value)),
        }
    }
}

proof fn lemma_first_field(f: Seq<(usize, Seq<char>)>, label: usize, i: int)
    ensures
        first_field(f, label, i) matches Some(j) ==> 0 <= j < f.len() && f[j].0 == label,
    decreases f.len() - i,
{
    if 0 <= i < f.len() && f[i].0 != label {
        lemma_first_field(f, label, i + 1);
    }
}

fn push_field_exec(fields: &mut Vec<(usize, Vec<char>)>, k: usize, value: Vec<char>)
    requires
        k < 21,
        fields_ok(fields_view(old(fields)@)),
    ensures
        fields_view(final(fields)@) == push_field(fields_view(old(fields)@), k, value@),
        fields_ok(fields_view(final(fields)@)),
{
    if value.len() == 0 {
        return;
    }
    let anchor: Option<usize> = if k == 15 {
        Some(14)
    } else if k == 17 {
        Some(16)
    } else {
        None
    };
    match anchor {
        Some(a) => {
            let mut j: usize = 0;
            while j < fields.len()
                invariant
                    j <= fields@.len(),
                    fields@ == old(fields)@,
                    place_anchor(k) == Some(a),
                    a < 21,
                    value@.len() > 0,
                    fields_ok(fields_view(fields@)),
                    first_field(fields_view(fields@), a, 0) == first_field(
                        fields_view(fields@),
                        a,
                        j as int,
                    ),
                decreases fields@.len() - j,
            {
                if fields[j].0 == a {
                    let ghost fv = fields_view(fields@);
                    assert(fv[j as int].0 == a);
                    assert(first_field(fv, a, j as int) == Some(j as int));
                    let mut tmp: Vec<char> = Vec::new();
                    std::mem::swap(&mut tmp, &mut fields[j].1);
                    let dot = vec![' ', '·', ' '];
                    push_all(&mut tmp, &dot);
                    push_all(&mut tmp, &value);
                    let ghost joined = tmp@;
                    fields.set(j, (a, tmp));
                    assert(joined =~= fv[j as int].1 + seq![' ', '·', ' '] + value@);
                    assert(fields_view(fields@) =~= fv.update(
                        j as int,
                        (a, fv[j as int].1 + seq![' ', '·', ' '] + value@),
                    ));
                    assert(place_anchor(k) == Some(a));
                    assert(fields_ok(fields_view(fields@))) by {
                        assert forall|i: int| 0 <= i < fields_view(fields@).len() implies (
                        #[trigger] fields_view(fields@)[i]).0 < 21 by {
                            if i != j {
                                assert(fields_view(fields@)[i] == fv[i]);
                            }
                        }
                    }
                    return;
                }
                assert(fields_view(fields@)[j as int].0 != a);
                j += 1;
            }
            assert(first_field(fields_view(fields@), a, j as int) is None);
            let ghost fv = fields_view(fields@);
            fields.push((k, value));
            assert(fields_view(fields@) =~= fv.push((k, value@)));
        },
        None => {
            let ghost fv = fields_view(fields@);
            fields.push((k, value));
            assert(fields_view(fields@) =~= fv.push((k, value@)));
        },
    }
}

/// One `label: value` line.
pub open spec fn field_line(f: (usize, Seq<char>)) -> Seq<char> {
    profile_display()[f.0 as int] + ": "@ + f.1
}

/// The `## Profile` block: heading, one line per field, blank line; nothing
/// without fields.
pub open spec fn profile_lines(f: Seq<(usize, Seq<char>)>) -> Seq<Seq<char>> {
    if f.len() == 0 {
        Seq::empty()
    } else {
        seq!["## Profile"@] + f.map_values(|x: (usize, Seq<char>)| field_line(x)) + seq![
            Seq::<char>::empty(),
        ]
    }
}

fn profile_lines_exec(fields: &Vec<(usize, Vec<char>)>) -> (r: Vec<Vec<char>>)
    requires
        fields_ok(fields_view(fields@)),
    ensures
        seqs_of(r@) == profile_lines(fields_view(fields@)),
{
    let mut out: Vec<Vec<char>> = Vec::new();
    if fields.len() == 0 {
        assert(seqs_of(out@) =~= Seq::<Seq<char>>::empty());
        return out;
    }
    let display = profile_display_list();
    assert(display@.len() == 21);
    let colon = chars_of(": ");
    out.push(chars_of("## Profile"));
    let ghost fv = fields_view(fields@);
    let ghost lines = fv.map_values(|x: (usize, Seq<char>)| field_line(x));
    let mut i: usize = 0;
    assert(seqs_of(out@) =~= seq!["## Profile"@] + lines.take(0));
    while i < fields.len()
        invariant
            i <= fields@.len(),
            fv == fields_view(fields@),
            fields_ok(fv),
            lines == fv.map_values(|x: (usize, Seq<char>)| field_line(x)),
            seqs_of(display@) == profile_display(),
            display@.len() == 21,
            colon@ == ": "@,
            seqs_of(out@) == seq!["## Profile"@] + lines.take(i as int),
        decreases fields@.len() - i,
    {
        assert(fv[i as int].0 < 21);
        let label = fields[i].0;
        let mut line: Vec<char> = Vec::new();
        assert(seqs_of(display@)[label as int] == display@[label as int]@);
        push_all(&mut line, &display[label]);
        push_all(&mut line, &colon);
        push_all(&mut line, &fields[i].1);
        let ghost pre = seqs_of(out@);
        out.push(line);
        assert(line@ == field_line(fv[i as int]));
        assert(lines[i as int] == field_line(fv[i as int]));
        assert(seqs_of(out@) =~= pre.push(line@));
        assert(lines.take(i + 1) =~= lines.take(i as int).push(lines[i as int]));
        assert(seqs_of(out@) =~= seq!["## Profile"@] + lines.take(i + 1));
        i += 1;
    }
    let ghost pre = seqs_of(out@);
    out.push(Vec::new());
    assert(lines.take(fields@.len() as int) =~= lines);
    assert(seqs_of(out@) =~= pre.push(Seq::<char>::empty()));
    out
}

} // verus!

verus! {

// ---------------------------------------------------------------------------
// The single-line parse
// ---------------------------------------------------------------------------

/// The value of mark `idx`, between its label and the next mark, trimmed.
pub open spec fn mark_chunk(text: Seq<char>, marks: Seq<(usize, Mark)>, idx: int) -> Seq<char> {
    let pos = marks[idx].0 as int;
    trim(text.subrange(pos + label_len_at(text, pos), value_end(text, marks, idx)))
}

/// A leftover that reads as a sentence.
pub open spec fn reads_as_prose(t: Seq<char>) -> bool {
    contains(t, ". "@) || (t.len() > 0 && t.last() == '.')
}

/// Profile fields and biography chunks collected so far.
pub type ParseState = (Seq<(usize, Seq<char>)>, Seq<Seq<char>>);

/// What mark `idx` contributes. A noise mark contributes only when it is
/// the last one: the biography that resumes at the entity's own name. A
/// field contributes its value; a value that swallowed the biography is
/// cut where the entity is first mentioned in narrative, and the value of
/// the last field is split at the entity's name.
pub open spec fn mark_step(
    name_hint: Seq<char>,
    hint: Seq<char>,
    text: Seq<char>,
    marks: Seq<(usize, Mark)>,
    idx: int,
    st: ParseState,
) -> ParseState {
    let chunk = mark_chunk(text, marks, idx);
    let is_last = idx + 1 == marks.len();
    match marks[idx].1 {
        Mark::Noise => {
            let b = trim(split_trailing(name_hint, chunk).1);
            if is_last && reads_as_prose(b) {
                (st.0, st.1.push(b))
            } else {
                st
            }
        },
        Mark::Field(k) => {
            if chunk.len() == 0 {
                st
            } else {
                match find_bio_swallow(hint, chunk) {
                    Some(cut) => {
                        let head = trim(chunk.take(cut));
                        let f = if head.len() > 0 {
                            push_field(st.0, k, value_spaced(head))
                        } else {
                            st.0
                        };
                        let bio_head = strip_trailing_caption(trim(chunk.skip(cut)), hint);
                        (f, if bio_head.len() > 0 { st.1.push(bio_head) } else { st.1 })
                    },
                    None => if is_last {
                        let (residual, bio_text) = split_trailing(name_hint, chunk);
                        let f = match residual {
                            Some(res) => {
                                let cleaned = value_spaced(trim(res));
                                if cleaned.len() > 0 && !eq_ignore_ascii_case(
                                    cleaned,
                                    profile_display()[k as int],
                                ) {
                                    push_field(st.0, k, cleaned)
                                } else {
                                    st.0
                                }
                            },
                            None => st.0,
                        };
                        (f, st.1.push(trim(bio_text)))
                    } else {
                        (push_field(st.0, k, value_spaced(chunk)), st.1)
                    },
                }
            }
        },
    }
}

/// The marks from `idx` on applied to `st` in order.
pub open spec fn marks_fold(
    name_hint: Seq<char>,
    hint: Seq<char>,
    text: Seq<char>,
    marks: Seq<(usize, Mark)>,
    idx: int,
    st: ParseState,
) -> ParseState
    decreases marks.len() - idx,
{
    if idx < 0 || idx >= marks.len() {
        st
    } else {
        marks_fold(name_hint, hint, text, marks, idx + 1, mark_step(name_hint, hint, text, marks, idx, st))
    }
}

/// Number of field marks.
pub open spec fn field_count(marks: Seq<(usize, Mark)>) -> nat
    decreases marks.len(),
{
    if marks.len() == 0 {
        0
    } else {
        field_count(marks.drop_last()) + if marks.last().1 is Field {
            1nat
        } else {
            0nat
        }
    }
}

/// Position of the first noise mark from `i` on.
pub open spec fn first_noise(marks: Seq<(usize, Mark)>, i: int) -> Option<int>
    decreases marks.len() - i,
{
    if i < 0 || i >= marks.len() {
        None
    } else if marks[i].1 is Noise {
        Some(marks[i].0 as int)
    } else {
        first_noise(marks, i + 1)
    }
}

/// The single-line payload as a `## Profile` block followed by the intro
/// and biography paragraphs; with fewer than two profile fields, only the
/// prose before the first noise label, as paragraphs.
pub open spec fn parse_single_line(name_hint: Seq<char>, raw: Seq<char>) -> Seq<char> {
    let text = dedupe_repeated(raw);
    let marks = find_marks(text);
    if field_count(marks) < 2 {
        let body = match first_noise(marks, 0) {
            Some(pos) => text.take(pos),
            None => text,
        };
        join(render_bio(Seq::empty(), body), seq!['\n'])
    } else {
        let hint = str_lowercase(trim(name_hint));
        let caption = strip_trailing_caption(trim(text.take(marks[0].0 as int)), hint);
        let intro = if eq_ignore_ascii_case(caption, trim(name_hint)) {
            Seq::empty()
        } else {
            caption
        };
        let st = marks_fold(name_hint, hint, text, marks, 0, (Seq::empty(), Seq::empty()));
        join(profile_lines(st.0) + render_bio(intro, join(st.1, seq!['\n', '\n'])), seq!['\n'])
    }
}

/// Entity text in either shape the API returns: multi-line wiki text, or
/// the glued single-line format.
pub open spec fn spec_clean_entity_text(name_hint: Seq<char>, raw: Seq<char>) -> Seq<char> {
    if raw.contains('\n') {
        spec_clean_wiki_text(raw)
    } else {
        parse_single_line(name_hint, raw)
    }
}

} // verus!

verus! {

proof fn lemma_ascii_subrange(s: Seq<char>, i: int, j: int)
    requires
        all_ascii(s),
        0 <= i <= j <= s.len(),
    ensures
        all_ascii(s.subrange(i, j)),
{
    assert forall|t: int| 0 <= t < j - i implies crate::text::is_ascii_char(
        #[trigger] s.subrange(i, j)[t],
    ) by {
        assert(s.subrange(i, j)[t] == s[i + t]);
    }
}

proof fn lemma_ascii_trim(s: Seq<char>)
    requires
        all_ascii(s),
    ensures
        all_ascii(trim(s)),
{
    crate::text::lemma_skip_ws_bounds(s, 0);
    let a = crate::text::skip_ws(s, 0);
    lemma_ascii_subrange(s, a, s.len() as int);
    let t = trim_start(s);
    crate::text::lemma_trim_end_bounds(t, t.len() as int);
    lemma_ascii_subrange(t, 0, crate::text::trim_end_idx(t, t.len() as int));
}

fn mark_chunk_exec(text: &Vec<char>, marks: &Vec<(usize, Mark)>, idx: usize) -> (r: Vec<char>)
    requires
        all_ascii(text@),
        marks_wf(text@, marks@),
        idx < marks@.len(),
    ensures
        r@ == mark_chunk(text@, marks@, idx as int),
        all_ascii(r@),
{
    let fields = profile_label_list();
    let noise = noise_label_list();
    let pos = marks[idx].0;
    assert(marks@[idx as int].0 + label_len_at(text@, marks@[idx as int].0 as int) <= value_end(
        text@,
        marks@,
        idx as int,
    ));
    let len = match match_mark_exec(text, pos, &fields, &noise) {
        Some((l, _)) => l,
        None => 0,
    };
    let end = if idx < marks.len() - 1 {
        marks[idx + 1].0
    } else {
        text.len()
    };
    let raw = slice_chars(text, pos + len, end);
    proof {
        lemma_ascii_subrange(text@, pos + len, end as int);
        lemma_ascii_trim(raw@);
    }
    trim_chars(&raw)
}

fn mark_step_exec(
    name_hint: &Vec<char>,
    hint: &Vec<char>,
    text: &Vec<char>,
    marks: &Vec<(usize, Mark)>,
    idx: usize,
    fields: &mut Vec<(usize, Vec<char>)>,
    bio: &mut Vec<Vec<char>>,
)
    requires
        all_ascii(text@),
        marks_wf(text@, marks@),
        marks_kinds_ok(marks@),
        idx < marks@.len(),
        fields_ok(fields_view(old(fields)@)),
    ensures
        (fields_view(final(fields)@), seqs_of(final(bio)@)) == mark_step(
            name_hint@,
            hint@,
            text@,
            marks@,
            idx as int,
            (fields_view(old(fields)@), seqs_of(old(bio)@)),
        ),
        fields_ok(fields_view(final(fields)@)),
{
    let chunk = mark_chunk_exec(text, marks, idx);
    let is_last = idx == marks.len() - 1;
    let ghost b0 = seqs_of(bio@);
    match marks[idx].1 {
        Mark::Noise => {
            if is_last {
                let (_, bio_text) = split_trailing_exec(name_hint, &chunk);
                let trimmed = trim_chars(&bio_text);
                let dot_space = chars_of(". ");
                let n = trimmed.len();
                if contains_chars(&trimmed, &dot_space) || (n > 0 && trimmed[n - 1] == '.') {
                    bio.push(trimmed);
                    assert(seqs_of(bio@) =~= b0.push(trimmed@));
                }
            }
        },
        Mark::Field(k) => {
            assert(marks@[idx as int].1 == Mark::Field(k));
            if chunk.len() == 0 {
                return;
            }
            match find_bio_swallow_exec(hint, &chunk) {
                Some(cut) => {
                    let head = trim_chars(&slice_chars(&chunk, 0, cut));
                    assert(chunk@.subrange(0, cut as int) =~= chunk@.take(cut as int));
                    if head.len() > 0 {
                        push_field_exec(fields, k, fix_value_spacing_exec(&head));
                    }
                    let tail = slice_chars(&chunk, cut, chunk.len());
                    assert(tail@ =~= chunk@.skip(cut as int));
                    proof {
                        lemma_ascii_subrange(chunk@, cut as int, chunk@.len() as int);
                        lemma_ascii_trim(tail@);
                    }
                    let bio_head = strip_trailing_caption_exec(&trim_chars(&tail), hint);
                    if bio_head.len() > 0 {
                        bio.push(bio_head);
                        assert(seqs_of(bio@) =~= b0.push(bio_head@));
                    }
                },
                None => {
                    if is_last {
                        let (residual, bio_text) = split_trailing_exec(name_hint, &chunk);
                        match residual {
                            Some(res) => {
                                let cleaned = fix_value_spacing_exec(&trim_chars(&res));
                                let display = profile_display_list();
                                assert(display@.len() == 21);
                                assert(seqs_of(display@)[k as int] == display@[k as int]@);
                                if cleaned.len() > 0 && !eq_ignore_ascii_case_chars(
                                    &cleaned,
                                    &display[k],
                                ) {
                                    push_field_exec(fields, k, cleaned);
                                }
                            },
                            None => {},
                        }
                        let t = trim_chars(&bio_text);
                        let ghost b1 = seqs_of(bio@);
                        bio.push(t);
                        assert(seqs_of(bio@) =~= b1.push(t@));
                    } else {
                        push_field_exec(fields, k, fix_value_spacing_exec(&chunk));
                    }
                },
            }
        },
    }
}

} // verus!

verus! {

fn parse_single_line_exec(name_hint: &Vec<char>, raw: &str) -> (r: Vec<char>)
    requires
        all_ascii(dedupe_repeated(raw@)),
    ensures
        r@ == parse_single_line(name_hint@, raw@),
{
    let text = dedupe_repeated_exec(raw);
    let marks = find_marks_exec(&text);
    let n = marks.len();
    let mut count: usize = 0;
    let mut i: usize = 0;
    while i < n
        invariant
            n == marks@.len(),
            i <= n,
            count <= i,
            count == field_count(marks@.take(i as int)),
        decreases n - i,
    {
        assert(marks@.take(i + 1).drop_last() =~= marks@.take(i as int));
        if let Mark::Field(_) = marks[i].1 {
            count += 1;
        }
        i += 1;
    }
    assert(marks@.take(n as int) =~= marks@);
    let newline = vec!['\n'];
    assert(newline@ =~= seq!['\n']);
    if count < 2 {
        let mut j: usize = 0;
        let mut found = false;
        while j < n && !found
            invariant
                n == marks@.len(),
                j <= n,
                found ==> j < n && marks@[j as int].1 is Noise && first_noise(marks@, 0) == Some(
                    marks@[j as int].0 as int,
                ),
                !found ==> first_noise(marks@, 0) == first_noise(marks@, j as int),
            decreases n - j + if found { 0int } else { 1int },
        {
            if let Mark::Noise = marks[j].1 {
                found = true;
            } else {
                j += 1;
            }
        }
        let body = if found {
            assert(marks@[j as int].0 + label_len_at(text@, marks@[j as int].0 as int)
                <= value_end(text@, marks@, j as int));
            slice_chars(&text, 0, marks[j].0)
        } else {
            text
        };
        let empty: Vec<char> = Vec::new();
        assert(empty@ =~= Seq::<char>::empty());
        let paras = render_bio_exec(&empty, &body);
        return join_chars(&paras, &newline);
    }
    let hint = lowercase_chars(&trim_chars(name_hint));
    let name_trim = trim_chars(name_hint);
    assert(marks@[0].0 + label_len_at(text@, marks@[0].0 as int) <= value_end(text@, marks@, 0));
    let head = slice_chars(&text, 0, marks[0].0);
    proof {
        lemma_ascii_subrange(text@, 0, marks@[0].0 as int);
        lemma_ascii_trim(head@);
    }
    let caption = strip_trailing_caption_exec(&trim_chars(&head), &hint);
    let intro: Vec<char> = if eq_ignore_ascii_case_chars(&caption, &name_trim) {
        Vec::new()
    } else {
        caption
    };
    let mut fields: Vec<(usize, Vec<char>)> = Vec::new();
    let mut bio: Vec<Vec<char>> = Vec::new();
    let ghost init: ParseState = (Seq::empty(), Seq::empty());
    assert(fields_view(fields@) =~= init.0);
    assert(seqs_of(bio@) =~= init.1);
    let mut idx: usize = 0;
    while idx < n
        invariant
            n == marks@.len(),
            idx <= n,
            all_ascii(text@),
            marks_wf(text@, marks@),
            marks_kinds_ok(marks@),
            fields_ok(fields_view(fields@)),
            marks_fold(name_hint@, hint@, text@, marks@, 0, init) == marks_fold(
                name_hint@,
                hint@,
                text@,
                marks@,
                idx as int,
                (fields_view(fields@), seqs_of(bio@)),
            ),
        decreases n - idx,
    {
        mark_step_exec(name_hint, &hint, &text, &marks, idx, &mut fields, &mut bio);
        idx += 1;
    }
    let mut out = profile_lines_exec(&fields);
    let para_sep = vec!['\n', '\n'];
    assert(para_sep@ =~= seq!['\n', '\n']);
    let bio_text = join_chars(&bio, &para_sep);
    let mut paras = render_bio_exec(&intro, &bio_text);
    let ghost o1 = out@;
    let ghost p1 = paras@;
    out.append(&mut paras);
    assert(out@ == o1 + p1);
    assert(seqs_of(out@) =~= seqs_of(o1) + seqs_of(p1));
    join_chars(&out, &newline)
}

/// Cleans an entity description in either shape the API returns:
/// multi-line wiki text goes through [`crate::clean::clean_wiki_text`], the
/// glued single-line format is parsed into a `## Profile` block and
/// paragraphs. `name_hint` is the entity's display name, used to find where
/// the biography starts after the infobox. The single-line format is read
/// as ASCII text.
pub fn clean_entity_text(name_hint: &str, raw: &str) -> (r: String)
    requires
        raw@.contains('\n') || all_ascii(dedupe_repeated(raw@)),
    ensures
        r@ == spec_clean_entity_text(name_hint@, raw@),
{
    let chars = chars_of(raw);
    if has_char(&chars, '\n') {
        crate::clean::clean_wiki_text(raw)
    } else {
        let parsed = parse_single_line_exec(&chars_of(name_hint), raw);
        string_of(&parsed)
    }
}

/// Inserts the spaces and ` · ` separators missing where tokens were glued
/// together (see [`glue_gap`]).
pub fn insert_glue_spaces(text: &str) -> (r: String)
    ensures
        r@ == glue_spaced(text@),
{
    string_of(&insert_glue_spaces_exec(&chars_of(text)))
}

/// Repairs the spacing inside an infobox value: glued words and
/// parentheses separated, whitespace collapsed.
pub fn fix_value_spacing(value: &str) -> (r: String)
    ensures
        r@ == value_spaced(value@),
{
    string_of(&fix_value_spacing_exec(&chars_of(value)))
}

} // verus!

verus! {

/// Whether `raw` is multi-line or ASCII once a repeated copy is cut.
pub(crate) fn entity_text_readable_exec(raw: &str) -> (r: bool)
    ensures
        r == (raw@.contains('\n') || all_ascii(dedupe_repeated(raw@))),
{
    let chars = chars_of(raw);
    if has_char(&chars, '\n') {
        return true;
    }
    assert(chars@ == raw@);
    let text = dedupe_repeated_exec(raw);
    let mut i: usize = 0;
    while i < text.len()
        invariant
            i <= text@.len(),
            text@ == dedupe_repeated(raw@),
            !raw@.contains('\n'),
            forall|j: int| 0 <= j < i ==> crate::text::is_ascii_char(#[trigger] text@[j]),
        decreases text@.len() - i,
    {
        if (text[i] as u32) >= 128 {
            assert(!crate::text::is_ascii_char(text@[i as int]));
            return false;
        }
        i += 1;
    }
    true
}

} // verus!
