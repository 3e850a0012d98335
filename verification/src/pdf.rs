//! Text extracted from PDF pages: repair of line-break artifacts, word
//! counts, and the page count and title reported by `pdfinfo`.

use vstd::prelude::*;
use crate::text::{
    chars_of, is_lowercase, is_ws, join, join_chars, lines, lines_of, push_all, seqs_of,
    slice_chars, split_words, string_of, trim, trim_chars, trim_end, trim_end_chars,
    unicode_lowercase, words,
};

verus! {

// ---------------------------------------------------------------------------
// Line-break repair
// ---------------------------------------------------------------------------

/// `s` without its soft hyphens (U+00AD).
pub open spec fn remove_soft_hyphens(s: Seq<char>) -> Seq<char>
    decreases s.len(),
{
    if s.len() == 0 {
        Seq::empty()
    } else if s.last() == '\u{AD}' {
        remove_soft_hyphens(s.drop_last())
    } else {
        remove_soft_hyphens(s.drop_last()).push(s.last())
    }
}

/// An extracted line without its soft hyphens and then without trailing
/// whitespace (so that a space left in front of a soft hyphen goes too).
pub open spec fn clean_line(raw: Seq<char>) -> Seq<char> {
    trim_end(remove_soft_hyphens(raw))
}

/// The first character is lowercase (`char::is_lowercase`).
pub open spec fn starts_lowercase(s: Seq<char>) -> bool {
    s.len() > 0 && unicode_lowercase(s[0])
}

pub open spec fn ends_with_hyphen(s: Seq<char>) -> bool {
    s.len() > 0 && s.last() == '-'
}

/// `line` continues a word that `prev` broke with a hyphen.
pub open spec fn joinable(prev: Seq<char>, line: Seq<char>) -> bool {
    ends_with_hyphen(prev) && starts_lowercase(line)
}

/// Appends `line` to the repaired lines `out`: while the last of them ends
/// in `-` and `line` starts with a lowercase letter, that one loses its
/// hyphen and takes `line` on (a line that was a lone `-` passes the
/// joined text on to the line before it).
pub open spec fn absorb(out: Seq<Seq<char>>, line: Seq<char>) -> Seq<Seq<char>>
    decreases out.len(),
{
    if out.len() > 0 && joinable(out.last(), line) {
        absorb(out.drop_last(), out.last().drop_last() + line)
    } else {
        out.push(line)
    }
}

/// The cleaned lines, each absorbed in turn.
pub open spec fn merge_lines(raws: Seq<Seq<char>>) -> Seq<Seq<char>>
    decreases raws.len(),
{
    if raws.len() == 0 {
        Seq::empty()
    } else {
        absorb(merge_lines(raws.drop_last()), clean_line(raws.last()))
    }
}

/// `ls` without the empty lines at its end.
pub open spec fn drop_trailing_empty(ls: Seq<Seq<char>>) -> Seq<Seq<char>>
    decreases ls.len(),
{
    if ls.len() > 0 && ls.last().len() == 0 {
        drop_trailing_empty(ls.drop_last())
    } else {
        ls
    }
}

/// The lines of the repaired text.
pub open spec fn repaired_lines(text: Seq<char>) -> Seq<Seq<char>> {
    drop_trailing_empty(merge_lines(lines(text)))
}

pub open spec fn spec_fix_extracted_text(text: Seq<char>) -> Seq<char> {
    join(repaired_lines(text), seq!['\n'])
}

fn remove_soft_hyphens_exec(s: &Vec<char>) -> (r: Vec<char>)
    ensures
        r@ == remove_soft_hyphens(s@),
{
    let mut out: Vec<char> = Vec::new();
    let n = s.len();
    let mut i: usize = 0;
    while i < n
        invariant
            n == s@.len(),
            i <= n,
            out@ == remove_soft_hyphens(s@.take(i as int)),
        decreases n - i,
    {
        assert(s@.take(i + 1).drop_last() =~= s@.take(i as int));
        if s[i] != '\u{AD}' {
            out.push(s[i]);
        }
        i += 1;
    }
    assert(s@.take(n as int) =~= s@);
    out
}

fn absorb_exec(out: &mut Vec<Vec<char>>, line: Vec<char>)
    ensures
        seqs_of(final(out)@) == absorb(seqs_of(old(out)@), line@),
    decreases old(out)@.len(),
{
    let ghost pre = seqs_of(out@);
    let m = out.len();
    let join_it = m > 0 && out[m - 1].len() > 0 && out[m - 1][out[m - 1].len() - 1] == '-'
        && line.len() > 0 && is_lowercase(line[0]);
    proof {
        if m > 0 {
            assert(pre.last() == out@[m - 1]@);
        }
    }
    if join_it {
        let mut prev = out.pop().unwrap();
        assert(seqs_of(out@) =~= pre.drop_last());
        prev.pop();
        push_all(&mut prev, &line);
        absorb_exec(out, prev);
    } else {
        out.push(line);
        assert(seqs_of(out@) =~= pre.push(line@));
    }
}

/// Repairs artifacts introduced when page or line text is concatenated:
/// a line ending in `-` whose next line starts with a lowercase letter is
/// joined to it without the hyphen (`naviga-` + `tion` → `navigation`);
/// soft hyphens (U+00AD), trailing whitespace and empty lines at the end
/// are dropped. Repairing repaired text changes nothing.
pub fn fix_extracted_text(text: &str) -> (r: String)
    ensures
        r@ == spec_fix_extracted_text(text@),
{
    let chars = chars_of(text);
    let ls = lines_of(&chars);
    let mut out: Vec<Vec<char>> = Vec::new();
    let n = ls.len();
    let mut i: usize = 0;
    assert(seqs_of(out@) =~= Seq::<Seq<char>>::empty());
    while i < n
        invariant
            n == ls@.len(),
            i <= n,
            seqs_of(out@) == merge_lines(seqs_of(ls@).take(i as int)),
        decreases n - i,
    {
        let ghost lv = seqs_of(ls@);
        assert(lv.take(i + 1).drop_last() =~= lv.take(i as int));
        assert(lv[i as int] == ls@[i as int]@);
        let line = trim_end_chars(&remove_soft_hyphens_exec(&ls[i]));
        absorb_exec(&mut out, line);
        i += 1;
    }
    assert(seqs_of(ls@).take(n as int) =~= seqs_of(ls@));
    while out.len() > 0 && out[out.len() - 1].len() == 0
        invariant
            drop_trailing_empty(seqs_of(out@)) == repaired_lines(text@),
        decreases out.len(),
    {
        let ghost pre = seqs_of(out@);
        assert(pre.last() == out@[out.len() - 1]@);
        out.pop();
        assert(seqs_of(out@) =~= pre.drop_last());
    }
    proof {
        let v = seqs_of(out@);
        if v.len() > 0 {
            assert(v.last() == out@[out.len() - 1]@);
        }
    }
    let sep = vec!['\n'];
    assert(sep@ =~= seq!['\n']);
    string_of(&join_chars(&out, &sep))
}

/// Number of whitespace-separated words, as a `u32` (wrapping past
/// `u32::MAX` as the `as` conversion does).
pub fn word_count(text: &str) -> (r: u32)
    ensures
        r == words(text@).len() as u32,
{
    let n = split_words(&chars_of(text)).len();
    n as u32
}

} // verus!

verus! {

// ---------------------------------------------------------------------------
// Repairing twice changes nothing
// ---------------------------------------------------------------------------

pub open spec fn ends_with_ws(s: Seq<char>) -> bool {
    s.len() > 0 && is_ws(s.last())
}

pub open spec fn no_char(s: Seq<char>, c: char) -> bool {
    forall|i: int| 0 <= i < s.len() ==> s[i] != c
}

pub open spec fn pieces_without(ps: Seq<Seq<char>>, c: char) -> bool {
    forall|i: int| 0 <= i < ps.len() ==> no_char(#[trigger] ps[i], c)
}

proof fn lemma_split_join(ls: Seq<Seq<char>>, sep: char)
    requires
        ls.len() >= 1,
        pieces_without(ls, sep),
    ensures
        crate::text::split_on(join(ls, seq![sep]), sep) == ls,
    decreases ls.len(),
{
    if ls.len() == 1 {
        assert(no_char(ls[0], sep));
        crate::text::lemma_split_no_sep(ls[0], sep, 0, Seq::empty(), Seq::empty());
        assert(Seq::<char>::empty() + ls[0].skip(0) =~= ls[0]);
        assert(Seq::<Seq<char>>::empty().push(ls[0]) =~= ls);
    } else {
        let init = ls.drop_last();
        assert forall|i: int| 0 <= i < init.len() implies no_char(#[trigger] init[i], sep) by {
            assert(init[i] == ls[i]);
        }
        lemma_split_join(init, sep);
        crate::text::lemma_split_concat(join(init, seq![sep]), ls.last(), sep, 0, Seq::empty(), Seq::empty());
        assert(no_char(ls[ls.len() - 1], sep));
        crate::text::lemma_split_no_sep(ls.last(), sep, 0, Seq::empty(), Seq::empty());
        assert(Seq::<char>::empty() + ls.last().skip(0) =~= ls.last());
        assert(init + Seq::<Seq<char>>::empty().push(ls.last()) =~= ls);
    }
}

proof fn lemma_lines_join(ls: Seq<Seq<char>>)
    requires
        ls.len() >= 1,
        ls.last().len() > 0,
        pieces_without(ls, '\n'),
        forall|i: int| 0 <= i < ls.len() ==> !ends_with_ws(#[trigger] ls[i]),
    ensures
        lines(join(ls, seq!['\n'])) == ls,
{
    lemma_split_join(ls, '\n');
    let p = crate::text::split_on(join(ls, seq!['\n']), '\n');
    assert(p == ls);
    assert forall|i: int| 0 <= i < ls.len() implies #[trigger] lines(join(ls, seq!['\n']))[i]
        == ls[i] by {
        if i < ls.len() - 1 {
            assert(!ends_with_ws(ls[i]));
            assert(crate::text::strip_cr(ls[i]) == ls[i]);
        }
    }
    assert(lines(join(ls, seq!['\n'])) =~= ls);
}

proof fn lemma_remove_soft(s: Seq<char>, c: char)
    ensures
        no_char(remove_soft_hyphens(s), '\u{AD}'),
        no_char(s, c) ==> no_char(remove_soft_hyphens(s), c),
        no_char(s, '\u{AD}') ==> remove_soft_hyphens(s) == s,
    decreases s.len(),
{
    if s.len() > 0 {
        lemma_remove_soft(s.drop_last(), c);
        if no_char(s, c) {
            assert(no_char(s.drop_last(), c)) by {
                assert forall|i: int| 0 <= i < s.drop_last().len() implies s.drop_last()[i] != c by {
                    assert(s.drop_last()[i] == s[i]);
                }
            }
        }
        if no_char(s, '\u{AD}') {
            assert(no_char(s.drop_last(), '\u{AD}')) by {
                assert forall|i: int| 0 <= i < s.drop_last().len() implies s.drop_last()[i]
                    != '\u{AD}' by {
                    assert(s.drop_last()[i] == s[i]);
                }
            }
            assert(s.last() == s[s.len() - 1]);
            assert(s.drop_last().push(s.last()) =~= s);
        }
    }
}

/// What every repaired line satisfies: no line break, no soft hyphen, no
/// trailing whitespace.
pub open spec fn clean_piece(s: Seq<char>) -> bool {
    no_char(s, '\n') && no_char(s, '\u{AD}') && !ends_with_ws(s)
}

/// What the list of repaired lines satisfies: clean lines, and no line
/// that the next one would be joined to.
pub open spec fn settled(ls: Seq<Seq<char>>) -> bool {
    &&& forall|i: int| 0 <= i < ls.len() ==> clean_piece(#[trigger] ls[i])
    &&& forall|i: int| 1 <= i < ls.len() ==> !joinable(ls[i - 1], #[trigger] ls[i])
}

proof fn lemma_settled_prefix(ls: Seq<Seq<char>>, n: int)
    requires
        settled(ls),
        0 <= n <= ls.len(),
    ensures
        settled(ls.take(n)),
{
    let p = ls.take(n);
    assert forall|i: int| 0 <= i < p.len() implies clean_piece(#[trigger] p[i]) by {
        assert(p[i] == ls[i]);
    }
    assert forall|i: int| 1 <= i < p.len() implies !joinable(p[i - 1], #[trigger] p[i]) by {
        assert(p[i] == ls[i]);
        assert(p[i - 1] == ls[i - 1]);
    }
}

proof fn lemma_clean_line(raw: Seq<char>)
    ensures
        no_char(clean_line(raw), '\u{AD}'),
        !ends_with_ws(clean_line(raw)),
        no_char(raw, '\n') ==> no_char(clean_line(raw), '\n'),
        clean_piece(raw) ==> clean_line(raw) == raw,
{
    lemma_remove_soft(raw, '\n');
    let s = remove_soft_hyphens(raw);
    crate::text::lemma_trim_end_bounds(s, s.len() as int);
    let t = trim_end(s);
    assert forall|c: char| no_char(s, c) implies no_char(t, c) by {
        assert forall|i: int| 0 <= i < t.len() implies t[i] != c by {
            assert(t[i] == s[i]);
        }
    }
    if t.len() > 0 {
        assert(t.last() == s[t.len() - 1]);
    }
    if clean_piece(raw) {
        assert(s == raw);
        assert(t =~= raw);
    }
}

proof fn lemma_absorb_settled(out: Seq<Seq<char>>, line: Seq<char>)
    requires
        settled(out),
        clean_piece(line),
    ensures
        settled(absorb(out, line)),
    decreases out.len(),
{
    if out.len() > 0 && joinable(out.last(), line) {
        let prev = out.last();
        let m = prev.drop_last() + line;
        assert(clean_piece(out[out.len() - 1]));
        assert forall|c: char| no_char(prev, c) && no_char(line, c) implies no_char(m, c) by {
            assert forall|i: int| 0 <= i < m.len() implies m[i] != c by {
                if i < prev.len() - 1 {
                    assert(m[i] == prev[i]);
                } else {
                    assert(m[i] == line[i - (prev.len() - 1)]);
                }
            }
        }
        assert(m.last() == line.last());
        lemma_settled_prefix(out, out.len() - 1);
        assert(out.take(out.len() - 1) =~= out.drop_last());
        lemma_absorb_settled(out.drop_last(), m);
    } else {
        let r = out.push(line);
        assert forall|i: int| 0 <= i < r.len() implies clean_piece(#[trigger] r[i]) by {
            if i < out.len() {
                assert(r[i] == out[i]);
            }
        }
        assert forall|i: int| 1 <= i < r.len() implies !joinable(r[i - 1], #[trigger] r[i]) by {
            if i < out.len() {
                assert(r[i] == out[i]);
                assert(r[i - 1] == out[i - 1]);
            } else {
                assert(r[i - 1] == out.last());
            }
        }
    }
}

proof fn lemma_merge_settled(raws: Seq<Seq<char>>)
    requires
        pieces_without(raws, '\n'),
    ensures
        settled(merge_lines(raws)),
    decreases raws.len(),
{
    if raws.len() > 0 {
        let init = raws.drop_last();
        assert forall|i: int| 0 <= i < init.len() implies no_char(#[trigger] init[i], '\n') by {
            assert(init[i] == raws[i]);
        }
        lemma_merge_settled(init);
        assert(no_char(raws[raws.len() - 1], '\n'));
        lemma_clean_line(raws.last());
        lemma_absorb_settled(merge_lines(init), clean_line(raws.last()));
    }
}

proof fn lemma_drop_trailing_empty(ls: Seq<Seq<char>>)
    ensures
        drop_trailing_empty(ls).len() <= ls.len(),
        drop_trailing_empty(ls) == ls.take(drop_trailing_empty(ls).len() as int),
        drop_trailing_empty(ls).len() > 0 ==> drop_trailing_empty(ls).last().len() > 0,
    decreases ls.len(),
{
    if ls.len() > 0 && ls.last().len() == 0 {
        lemma_drop_trailing_empty(ls.drop_last());
        let d = drop_trailing_empty(ls.drop_last());
        assert(ls.drop_last().take(d.len() as int) =~= ls.take(d.len() as int));
    } else {
        assert(ls.take(ls.len() as int) =~= ls);
    }
}

proof fn lemma_merge_stable(ls: Seq<Seq<char>>)
    requires
        settled(ls),
    ensures
        merge_lines(ls) == ls,
    decreases ls.len(),
{
    if ls.len() > 0 {
        let init = ls.drop_last();
        lemma_settled_prefix(ls, ls.len() - 1);
        assert(ls.take(ls.len() - 1) =~= init);
        lemma_merge_stable(init);
        let last = ls[ls.len() - 1];
        assert(clean_piece(last));
        lemma_clean_line(last);
        if init.len() > 0 {
            assert(!joinable(ls[ls.len() - 2], ls[ls.len() - 1]));
        }
        assert(init.push(last) =~= ls);
    }
}

/// Repairing already repaired text changes nothing.
pub proof fn law_fix_extracted_text_idempotent(text: Seq<char>)
    ensures
        spec_fix_extracted_text(spec_fix_extracted_text(text)) == spec_fix_extracted_text(text),
{
    let raws = lines(text);
    let p = crate::text::split_on(text, '\n');
    assert(pieces_without(p, '\n')) by {
        lemma_split_pieces(text, '\n', 0, Seq::empty(), Seq::empty());
    }
    assert(pieces_without(raws, '\n')) by {
        crate::text::lemma_split_from_len(text, '\n', 0, Seq::empty(), Seq::empty());
        assert(raws.len() <= p.len());
        assert forall|i: int| 0 <= i < raws.len() implies no_char(#[trigger] raws[i], '\n') by {
            assert(no_char(p[i], '\n'));
            assert forall|j: int| 0 <= j < raws[i].len() implies raws[i][j] != '\n' by {
                assert(raws[i][j] == p[i][j]);
            }
        }
    }
    lemma_merge_settled(raws);
    let merged = merge_lines(raws);
    let ls = repaired_lines(text);
    lemma_drop_trailing_empty(merged);
    lemma_settled_prefix(merged, ls.len() as int);
    let once = join(ls, seq!['\n']);
    if ls.len() == 0 {
        assert(once =~= Seq::<char>::empty());
        assert(crate::text::split_on(once, '\n') =~= seq![Seq::<char>::empty()]);
        assert(lines(once) =~= Seq::<Seq<char>>::empty());
        assert(merge_lines(lines(once)) =~= Seq::<Seq<char>>::empty());
    } else {
        assert forall|i: int| 0 <= i < ls.len() implies no_char(#[trigger] ls[i], '\n')
            && !ends_with_ws(ls[i]) by {
            assert(clean_piece(ls[i]));
        }
        lemma_lines_join(ls);
        lemma_merge_stable(ls);
    }
}

proof fn lemma_split_pieces(s: Seq<char>, sep: char, i: int, cur: Seq<char>, acc: Seq<Seq<char>>)
    requires
        i >= 0,
        no_char(cur, sep),
        pieces_without(acc, sep),
    ensures
        pieces_without(crate::text::split_from(s, sep, i, cur, acc), sep),
    decreases s.len() - i,
{
    if i >= s.len() {
        assert forall|k: int| 0 <= k < acc.push(cur).len() implies no_char(
            #[trigger] acc.push(cur)[k],
            sep,
        ) by {
            if k < acc.len() {
                assert(acc.push(cur)[k] == acc[k]);
            }
        }
    } else if s[i] == sep {
        assert forall|k: int| 0 <= k < acc.push(cur).len() implies no_char(
            #[trigger] acc.push(cur)[k],
            sep,
        ) by {
            if k < acc.len() {
                assert(acc.push(cur)[k] == acc[k]);
            }
        }
        lemma_split_pieces(s, sep, i + 1, Seq::empty(), acc.push(cur));
    } else {
        assert forall|k: int| 0 <= k < cur.push(s[i]).len() implies cur.push(s[i])[k] != sep by {
            if k < cur.len() {
                assert(cur.push(s[i])[k] == cur[k]);
            }
        }
        lemma_split_pieces(s, sep, i + 1, cur.push(s[i]), acc);
    }
}

} // verus!

verus! {

// ---------------------------------------------------------------------------
// pdfinfo output
// ---------------------------------------------------------------------------

/// Page count and title of a PDF as reported by `pdfinfo`.
pub struct PdfInfo {
    pub page_count: u32,
    pub title: Option<String>,
}

/// The first of `ls[i..]` that starts with `prefix`.
pub open spec fn first_line_with(ls: Seq<Seq<char>>, prefix: Seq<char>, i: int) -> Option<Seq<char>>
    decreases ls.len() - i,
{
    if i < 0 || i >= ls.len() {
        None
    } else if ls[i].len() >= prefix.len() && ls[i].take(prefix.len() as int) == prefix {
        Some(ls[i])
    } else {
        first_line_with(ls, prefix, i + 1)
    }
}

pub open spec fn is_digit(c: char) -> bool {
    '0' <= c && c <= '9'
}

/// Value of a string of decimal digits.
pub open spec fn digits_value(s: Seq<char>) -> nat
    decreases s.len(),
{
    if s.len() == 0 {
        0
    } else {
        digits_value(s.drop_last()) * 10 + ((s.last() as u32) - ('0' as u32)) as nat
    }
}

/// `s` without a leading `+`.
pub open spec fn unsigned_digits(s: Seq<char>) -> Seq<char> {
    if s.len() > 0 && s[0] == '+' {
        s.skip(1)
    } else {
        s
    }
}

pub open spec fn all_digits(d: Seq<char>) -> bool {
    forall|i: int| 0 <= i < d.len() ==> is_digit(#[trigger] d[i])
}

/// `str::parse::<u32>`: an optional `+`, then one or more decimal digits
/// whose value fits in a `u32`.
pub open spec fn parse_u32(s: Seq<char>) -> Option<u32> {
    let d = unsigned_digits(s);
    if d.len() > 0 && all_digits(d) && digits_value(d) <= u32::MAX {
        Some(digits_value(d) as u32)
    } else {
        None
    }
}

/// The number after `Pages:` (the line's second word), or 0.
pub open spec fn info_page_count(stdout: Seq<char>) -> u32 {
    match first_line_with(lines(stdout), "Pages:"@, 0) {
        Some(l) => if words(l).len() >= 2 {
            match parse_u32(words(l)[1]) {
                Some(n) => n,
                None => 0,
            }
        } else {
            0
        },
        None => 0,
    }
}

/// The trimmed text after `Title:`, when not empty.
pub open spec fn info_title(stdout: Seq<char>) -> Option<Seq<char>> {
    match first_line_with(lines(stdout), "Title:"@, 0) {
        Some(l) => {
            let t = trim(l.skip(6));
            if t.len() > 0 {
                Some(t)
            } else {
                None
            }
        },
        None => None,
    }
}

fn first_line_with_exec(ls: &Vec<Vec<char>>, prefix: &Vec<char>) -> (r: Option<usize>)
    ensures
        match r {
            Some(i) => i < ls@.len() && first_line_with(seqs_of(ls@), prefix@, 0) == Some(
                ls@[i as int]@,
            ) && ls@[i as int]@.len() >= prefix@.len(),
            None => first_line_with(seqs_of(ls@), prefix@, 0) is None,
        },
{
    let mut i: usize = 0;
    while i < ls.len()
        invariant
            i <= ls@.len(),
            first_line_with(seqs_of(ls@), prefix@, 0) == first_line_with(
                seqs_of(ls@),
                prefix@,
                i as int,
            ),
        decreases ls@.len() - i,
    {
        assert(seqs_of(ls@)[i as int] == ls@[i as int]@);
        let l = &ls[i];
        if l.len() >= prefix.len() {
            let head = slice_chars(l, 0, prefix.len());
            if crate::util::chars_equal(&head, prefix) {
                assert(head@ == l@.take(prefix@.len() as int));
                return Some(i);
            }
            assert(head@ =~= l@.take(prefix@.len() as int));
        }
        i += 1;
    }
    None
}

/// `str::parse::<u32>` on characters.
pub fn parse_u32_chars(s: &Vec<char>) -> (r: Option<u32>)
    ensures
        r == parse_u32(s@),
{
    let start: usize = if s.len() > 0 && s[0] == '+' { 1 } else { 0 };
    let d = slice_chars(s, start, s.len());
    assert(d@ =~= unsigned_digits(s@));
    if d.len() == 0 {
        return None;
    }
    let mut v: u64 = 0;
    let mut i: usize = 0;
    while i < d.len()
        invariant
            d@ == unsigned_digits(s@),
            d@.len() > 0,
            i <= d@.len(),
            v == digits_value(d@.take(i as int)),
            v <= u32::MAX,
            forall|j: int| 0 <= j < i ==> is_digit(#[trigger] d@[j]),
        decreases d@.len() - i,
    {
        let c = d[i];
        assert(d@.take(i + 1).drop_last() =~= d@.take(i as int));
        if !('0' <= c && c <= '9') {
            assert(!is_digit(d@[i as int]));
            assert(!all_digits(d@));
            return None;
        }
        let digit = (c as u32 - '0' as u32) as u64;
        let next = v * 10 + digit;
        if next > 4294967295 {
            proof {
                assert(d@.take(i + 1).last() == c);
                assert(digits_value(d@.take(i + 1)) > u32::MAX);
                assert(d@.take(d@.len() as int) =~= d@);
                if all_digits(d@) {
                    lemma_prefix_value_bound(d@, i + 1, d@.len() as int);
                }
            }
            return None;
        }
        v = next;
        i += 1;
    }
    assert(d@.take(d@.len() as int) =~= d@);
    Some(v as u32)
}

proof fn lemma_prefix_value_bound(d: Seq<char>, a: int, k: int)
    requires
        0 <= a <= k <= d.len(),
        forall|j: int| a <= j < k ==> is_digit(#[trigger] d[j]),
    ensures
        digits_value(d.take(k)) >= digits_value(d.take(a)),
    decreases k - a,
{
    if k > a {
        lemma_prefix_value_bound(d, a, k - 1);
        assert(d.take(k).drop_last() =~= d.take(k - 1));
        assert(d.take(k).last() == d[k - 1]);
    }
}

/// Reads the page count and title out of the text `pdfinfo` prints: the
/// second word of the first `Pages:` line parsed as a number (0 when it is
/// missing or no number), and the trimmed rest of the first `Title:` line
/// (none when empty).
pub fn pdf_info_from_output(stdout: &str) -> (r: PdfInfo)
    ensures
        r.page_count == info_page_count(stdout@),
        match r.title {
            Some(t) => info_title(stdout@) == Some(t@),
            None => info_title(stdout@) is None,
        },
{
    let ls = lines_of(&chars_of(stdout));
    let page_count: u32 = match first_line_with_exec(&ls, &chars_of("Pages:")) {
        Some(i) => {
            let ws = split_words(&ls[i]);
            if ws.len() >= 2 {
                assert(seqs_of(ws@)[1] == ws@[1]@);
                match parse_u32_chars(&ws[1]) {
                    Some(n) => n,
                    None => 0,
                }
            } else {
                0
            }
        },
        None => 0,
    };
    let title: Option<String> = match first_line_with_exec(&ls, &chars_of("Title:")) {
        Some(i) => {
            let l = &ls[i];
            proof {
                reveal_strlit("Title:");
            }
            let rest = slice_chars(l, 6, l.len());
            assert(rest@ =~= l@.skip(6));
            let t = trim_chars(&rest);
            if t.len() > 0 {
                Some(string_of(&t))
            } else {
                None
            }
        },
        None => None,
    };
    PdfInfo { page_count, title }
}

} // verus!
