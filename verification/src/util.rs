//! Shared helpers used by both the CLI and the TUI: number formatting,
//! word wrap, truncation, FTS5 highlight markers, slugs and the Oracle box.

use vstd::prelude::*;
use crate::text::{ascii_lower, push_all, to_ascii_lower, chars_of, seqs_of, slice_chars, split_chars, split_on, split_words, string_of, strings_of, views_of, words};

verus! {

// ---------------------------------------------------------------------------
// format_number
// ---------------------------------------------------------------------------

/// The ASCII digit for `d` (`0 <= d < 10`).
pub open spec fn digit_char(d: int) -> char {
    if d == 0 { '0' }
    else if d == 1 { '1' }
    else if d == 2 { '2' }
    else if d == 3 { '3' }
    else if d == 4 { '4' }
    else if d == 5 { '5' }
    else if d == 6 { '6' }
    else if d == 7 { '7' }
    else if d == 8 { '8' }
    else { '9' }
}

/// Decimal representation of `n`, most significant digit first.
pub open spec fn dec_digits(n: nat) -> Seq<char>
    decreases n,
{
    if n < 10 {
        seq![digit_char(n as int)]
    } else {
        dec_digits(n / 10).push(digit_char((n % 10) as int))
    }
}

/// The first `i` characters of `d` with a `,` in front of every position
/// `q > 0` that has a positive multiple of three digits from `q` to the end.
pub open spec fn grouped(d: Seq<char>, i: int) -> Seq<char>
    decreases i,
{
    if i <= 0 {
        Seq::empty()
    } else {
        grouped(d, i - 1) + (if i - 1 > 0 && (d.len() - (i - 1)) % 3 == 0 {
            seq![',']
        } else {
            Seq::empty()
        }) + seq![d[i - 1]]
    }
}

/// `n` in decimal with thousands separators.
pub open spec fn spec_format_number(n: nat) -> Seq<char> {
    grouped(dec_digits(n), dec_digits(n).len() as int)
}

fn digit(d: u64) -> (c: char)
    requires
        d < 10,
    ensures
        c == digit_char(d as int),
{
    if d == 0 { '0' }
    else if d == 1 { '1' }
    else if d == 2 { '2' }
    else if d == 3 { '3' }
    else if d == 4 { '4' }
    else if d == 5 { '5' }
    else if d == 6 { '6' }
    else if d == 7 { '7' }
    else if d == 8 { '8' }
    else { '9' }
}

fn push_digits(n: u64, out: &mut Vec<char>)
    ensures
        final(out)@ == old(out)@ + dec_digits(n as nat),
    decreases n,
{
    if n >= 10 {
        push_digits(n / 10, out);
    }
    out.push(digit(n % 10));
    assert(final(out)@ =~= old(out)@ + dec_digits(n as nat));
}

/// Decimal digits of `n`.
pub fn decimal_digits(n: u64) -> (r: Vec<char>)
    ensures
        r@ == dec_digits(n as nat),
{
    let mut r: Vec<char> = Vec::new();
    push_digits(n, &mut r);
    assert(r@ =~= dec_digits(n as nat));
    r
}

/// Formats a number with thousands separators: `1174969 -> "1,174,969"`.
pub fn format_number(n: u64) -> (r: String)
    ensures
        r@ == spec_format_number(n as nat),
{
    let d = decimal_digits(n);
    let len = d.len();
    let mut out: Vec<char> = Vec::new();
    let mut i: usize = 0;
    while i < len
        invariant
            len == d@.len(),
            i <= len,
            out@ == grouped(d@, i as int),
        decreases len - i,
    {
        if i > 0 && (len - i) % 3 == 0 {
            out.push(',');
        }
        out.push(d[i]);
        assert(out@ =~= grouped(d@, i + 1));
        i += 1;
    }
    string_of(&out)
}

// ---------------------------------------------------------------------------
// truncate_ellipsis
// ---------------------------------------------------------------------------

/// `s` cut to at most `max` characters, the last one an ellipsis when
/// anything was cut.
pub open spec fn spec_truncate_ellipsis(s: Seq<char>, max: nat) -> Seq<char> {
    if max == 0 {
        Seq::empty()
    } else if s.len() <= max {
        s
    } else {
        s.take(max - 1).push('…')
    }
}

/// Truncates `s` to at most `max_chars` visible characters, ending with an
/// ellipsis (`…`) when anything was cut.
pub fn truncate_ellipsis(s: &str, max_chars: usize) -> (r: String)
    ensures
        r@ == spec_truncate_ellipsis(s@, max_chars as nat),
        r@.len() <= max_chars,
{
    if max_chars == 0 {
        return String::new();
    }
    let cs = chars_of(s);
    if cs.len() <= max_chars {
        return string_of(&cs);
    }
    let mut out = slice_chars(&cs, 0, max_chars - 1);
    out.push('…');
    string_of(&out)
}

// ---------------------------------------------------------------------------
// Highlight markers
// ---------------------------------------------------------------------------

pub open spec fn is_marker_char(c: char) -> bool {
    c == '>' || c == '<'
}

/// End of the run of `c` that starts at `j`.
pub open spec fn run_end(s: Seq<char>, j: int, c: char) -> int
    decreases s.len() - j,
{
    if 0 <= j < s.len() && s[j] == c {
        run_end(s, j + 1, c)
    } else {
        j
    }
}

pub proof fn lemma_run_end(s: Seq<char>, j: int, c: char)
    requires
        0 <= j <= s.len(),
    ensures
        j <= run_end(s, j, c) <= s.len(),
        j < s.len() && s[j] == c ==> j < run_end(s, j, c),
        forall|k: int| j <= k < run_end(s, j, c) ==> s[k] == c,
        run_end(s, j, c) < s.len() ==> s[run_end(s, j, c)] != c,
    decreases s.len() - j,
{
    if j < s.len() && s[j] == c {
        lemma_run_end(s, j + 1, c);
    }
}

/// Whether the marker run starting at `i` is dropped by `strip_markers`:
/// a full marker (three or more) or a partial one cut at the very end.
pub open spec fn dropped_run(s: Seq<char>, i: int) -> bool {
    is_marker_char(s[i]) && (run_end(s, i, s[i]) - i >= 3 || run_end(s, i, s[i]) == s.len())
}

/// `strip_markers` applied to `s[i..]`.
pub open spec fn strip_from(s: Seq<char>, i: int) -> Seq<char>
    decreases s.len() - i,
{
    if i < 0 || i >= s.len() {
        Seq::empty()
    } else if dropped_run(s, i) {
        proof {
            lemma_run_end(s, i, s[i]);
        }
        strip_from(s, run_end(s, i, s[i]))
    } else {
        seq![s[i]] + strip_from(s, i + 1)
    }
}

pub open spec fn spec_strip_markers(s: Seq<char>) -> Seq<char> {
    strip_from(s, 0)
}

/// Index where the run of `c` starting at `i` ends.
fn run_end_at(s: &Vec<char>, i: usize, c: char) -> (j: usize)
    requires
        i <= s@.len(),
    ensures
        j == run_end(s@, i as int, c),
        i <= j <= s@.len(),
{
    proof {
        lemma_run_end(s@, i as int, c);
    }
    let mut j = i;
    while j < s.len() && s[j] == c
        invariant
            i <= j <= s@.len(),
            run_end(s@, j as int, c) == run_end(s@, i as int, c),
        decreases s@.len() - j,
    {
        j += 1;
    }
    j
}

fn strip_marker_chars(chars: &Vec<char>) -> (out: Vec<char>)
    ensures
        out@ == spec_strip_markers(chars@),
{
    let n = chars.len();
    let mut out: Vec<char> = Vec::new();
    let mut i: usize = 0;
    while i < n
        invariant
            n == chars@.len(),
            i <= n,
            spec_strip_markers(chars@) == out@ + strip_from(chars@, i as int),
        decreases n - i,
    {
        let c = chars[i];
        if c == '>' || c == '<' {
            let j = run_end_at(chars, i, c);
            proof {
                lemma_run_end(chars@, i as int, c);
            }
            let run = j - i;
            if run >= 3 || j == n {
                i = j;
                continue;
            }
        }
        let ghost pre = out@;
        out.push(c);
        assert(pre + strip_from(chars@, i as int) == out@ + strip_from(chars@, i + 1));
        i += 1;
    }
    assert(out@ + strip_from(chars@, n as int) == out@);
    out
}

/// Removes FTS5 highlight markers (`>>>` and `<<<`) from `s`.
///
/// Standalone `>`/`<` runs shorter than 3 chars are kept, except for a
/// trailing run at the very end of the string: that is a marker cut by
/// truncation, and it is dropped so no dangling marker is shown.
pub fn strip_markers(s: &str) -> (r: String)
    ensures
        r@ == spec_strip_markers(s@),
{
    let chars = chars_of(s);
    let out = strip_marker_chars(&chars);
    string_of(&out)
}

pub open spec fn spec_truncate_snippet(h: Seq<char>, max: nat) -> Seq<char> {
    if max == 0 {
        Seq::empty()
    } else if h.len() > max {
        spec_strip_markers(h.take(max as int)).push('…')
    } else {
        spec_strip_markers(h)
    }
}

/// Truncates a highlighted snippet to at most `max_chars` characters, strips
/// the FTS5 markers, and appends `…` when anything was cut. A marker cut by
/// the truncation (a dangling `>`/`<` run) is dropped by [`strip_markers`].
pub fn truncate_snippet(highlighted: &str, max_chars: usize) -> (r: String)
    ensures
        r@ == spec_truncate_snippet(highlighted@, max_chars as nat),
{
    if max_chars == 0 {
        return String::new();
    }
    let chars = chars_of(highlighted);
    if chars.len() > max_chars {
        let head = slice_chars(&chars, 0, max_chars);
        let mut out = strip_marker_chars(&head);
        out.push('…');
        string_of(&out)
    } else {
        let out = strip_marker_chars(&chars);
        string_of(&out)
    }
}

/// A span of a search snippet: either plain text (`matched: false`) or a
/// highlighted match (`matched: true`), decoded from the FTS5 `>>>`/`<<<`
/// highlight markers.
#[derive(Debug, Clone, PartialEq, Eq)]
pub struct HighlightSegment {
    pub text: String,
    pub matched: bool,
}

impl View for HighlightSegment {
    type V = (Seq<char>, bool);

    open spec fn view(&self) -> (Seq<char>, bool) {
        (self.text@, self.matched)
    }
}

/// Segments so far plus the pending buffer, if it is non-empty.
pub open spec fn flush(segs: Seq<(Seq<char>, bool)>, buf: Seq<char>, matched: bool) -> Seq<
    (Seq<char>, bool),
> {
    if buf.len() > 0 {
        segs.push((buf, matched))
    } else {
        segs
    }
}

/// `marker_segments` of `s[i..]` with the finished segments `segs`, the
/// pending text `buf` and the current highlight state `matched`.
pub open spec fn segments_from(
    s: Seq<char>,
    i: int,
    segs: Seq<(Seq<char>, bool)>,
    buf: Seq<char>,
    matched: bool,
) -> Seq<(Seq<char>, bool)>
    decreases s.len() - i,
{
    if i < 0 || i >= s.len() {
        flush(segs, buf, matched)
    } else if is_marker_char(s[i]) {
        proof {
            lemma_run_end(s, i, s[i]);
        }
        let j = run_end(s, i, s[i]);
        if j - i >= 3 {
            segments_from(s, j, flush(segs, buf, matched), Seq::empty(), s[i] == '>')
        } else if j == s.len() {
            flush(segs, buf, matched)
        } else {
            segments_from(s, j, segs, buf + s.subrange(i, j), matched)
        }
    } else {
        segments_from(s, i + 1, segs, buf.push(s[i]), matched)
    }
}

pub open spec fn spec_marker_segments(s: Seq<char>) -> Seq<(Seq<char>, bool)> {
    segments_from(s, 0, Seq::empty(), Seq::empty(), false)
}

pub open spec fn segment_views(v: Seq<HighlightSegment>) -> Seq<(Seq<char>, bool)> {
    v.map_values(|x: HighlightSegment| x@)
}

fn push_segment(
    segments: &mut Vec<HighlightSegment>,
    buf: &Vec<char>,
    matched: bool,
)
    ensures
        segment_views(final(segments)@) == flush(segment_views(old(segments)@), buf@, matched),
{
    if buf.len() > 0 {
        let ghost pre = segment_views(segments@);
        let seg = HighlightSegment { text: string_of(buf), matched };
        segments.push(seg);
        assert(segment_views(segments@) =~= pre.push((buf@, matched)));
    }
}

/// Parses FTS5 highlight markers (`>>>` starts a match, `<<<` ends it) into
/// segments: plain text with `matched: false` and matches with `matched:
/// true`. A partial marker run at the end of the string (a truncation cut)
/// is dropped instead of becoming visible text.
pub fn marker_segments(s: &str) -> (r: Vec<HighlightSegment>)
    ensures
        segment_views(r@) == spec_marker_segments(s@),
{
    let chars = chars_of(s);
    let n = chars.len();
    let mut segments: Vec<HighlightSegment> = Vec::new();
    let mut buf: Vec<char> = Vec::new();
    let mut matched = false;
    let mut i: usize = 0;
    assert(segment_views(segments@) =~= Seq::<(Seq<char>, bool)>::empty());
    while i < n
        invariant
            n == chars@.len(),
            chars@ == s@,
            i <= n,
            spec_marker_segments(chars@) == segments_from(
                chars@,
                i as int,
                segment_views(segments@),
                buf@,
                matched,
            ),
        decreases n - i,
    {
        let c = chars[i];
        if c == '>' || c == '<' {
            let j = run_end_at(&chars, i, c);
            proof {
                lemma_run_end(chars@, i as int, c);
            }
            let run = j - i;
            if run >= 3 {
                push_segment(&mut segments, &buf, matched);
                buf = Vec::new();
                matched = c == '>';
                assert(buf@ =~= Seq::<char>::empty());
                i = j;
                continue;
            }
            if j == n {
                let ghost pre = segment_views(segments@);
                assert(segments_from(chars@, i as int, pre, buf@, matched)
                    == flush(pre, buf@, matched));
                push_segment(&mut segments, &buf, matched);
                return segments;
            }
            let ghost pre = buf@;
            let mut k = i;
            while k < j
                invariant
                    i <= k <= j,
                    j <= chars@.len(),
                    forall|t: int| i <= t < j ==> chars@[t] == c,
                    buf@ == pre + chars@.subrange(i as int, k as int),
                decreases j - k,
            {
                buf.push(c);
                assert(buf@ =~= pre + chars@.subrange(i as int, k + 1));
                k += 1;
            }
            i = j;
            continue;
        }
        buf.push(c);
        i += 1;
    }
    push_segment(&mut segments, &buf, matched);
    segments
}

// ---------------------------------------------------------------------------
// slugify
// ---------------------------------------------------------------------------

pub open spec fn is_ascii_alnum(c: char) -> bool {
    ('0' <= c && c <= '9') || ('a' <= c && c <= 'z') || ('A' <= c && c <= 'Z')
}

/// Lowercase ASCII alphanumerics of `s`, in order.
pub open spec fn spec_slugify(s: Seq<char>) -> Seq<char>
    decreases s.len(),
{
    if s.len() == 0 {
        Seq::empty()
    } else if is_ascii_alnum(s.last()) {
        spec_slugify(s.drop_last()).push(ascii_lower(s.last()))
    } else {
        spec_slugify(s.drop_last())
    }
}

fn slug_chars(s: &Vec<char>) -> (r: Vec<char>)
    ensures
        r@ == spec_slugify(s@),
{
    let mut r: Vec<char> = Vec::new();
    let n = s.len();
    let mut i: usize = 0;
    while i < n
        invariant
            n == s@.len(),
            i <= n,
            r@ == spec_slugify(s@.take(i as int)),
        decreases n - i,
    {
        let c = s[i];
        assert(s@.take(i + 1).drop_last() == s@.take(i as int));
        if ('0' <= c && c <= '9') || ('a' <= c && c <= 'z') || ('A' <= c && c <= 'Z') {
            r.push(to_ascii_lower(c));
        }
        i += 1;
    }
    assert(s@.take(n as int) == s@);
    r
}

/// Reduces a string to lowercase ASCII alphanumerics, so titles can be
/// compared against filename stems regardless of punctuation/spacing.
pub fn slugify(s: &str) -> (r: String)
    ensures
        r@ == spec_slugify(s@),
{
    let cs = chars_of(s);
    let r = slug_chars(&cs);
    string_of(&r)
}

/// Whether two character vectors are equal.
pub fn chars_equal(a: &Vec<char>, b: &Vec<char>) -> (r: bool)
    ensures
        r == (a@ == b@),
{
    if a.len() != b.len() {
        return false;
    }
    let mut i: usize = 0;
    while i < a.len()
        invariant
            a@.len() == b@.len(),
            i <= a@.len(),
            forall|k: int| 0 <= k < i ==> a@[k] == b@[k],
        decreases a@.len() - i,
    {
        if a[i] != b[i] {
            return false;
        }
        i += 1;
    }
    assert(a@ =~= b@);
    true
}

pub open spec fn spec_filename_derivable(title: Seq<char>, stem: Seq<char>) -> bool {
    spec_slugify(title).len() > 0 && spec_slugify(title) == spec_slugify(stem)
}

/// True when `title` and `filename_stem` carry the same information
/// (i.e., showing the filename next to the title adds nothing).
pub fn filename_derivable_from_title(title: &str, filename_stem: &str) -> (r: bool)
    ensures
        r == spec_filename_derivable(title@, filename_stem@),
{
    let t = slug_chars(&chars_of(title));
    let f = slug_chars(&chars_of(filename_stem));
    t.len() > 0 && chars_equal(&t, &f)
}

} // verus!

verus! {

// ---------------------------------------------------------------------------
// wrap_text
// ---------------------------------------------------------------------------

/// Places one word into the line in progress `cur` (greedy wrap at `w`
/// characters), emitting finished lines into `out`; a word longer than a
/// whole line is hard-split.
pub open spec fn place(out: Seq<Seq<char>>, cur: Seq<char>, word: Seq<char>, w: nat) -> (Seq<
    Seq<char>,
>, Seq<char>)
    decreases word.len(), cur.len(),
{
    let sep: nat = if cur.len() > 0 { 1 } else { 0 };
    if cur.len() + sep + word.len() <= w {
        (out, if sep == 1 { cur.push(' ') + word } else { cur + word })
    } else if cur.len() > 0 {
        place(out.push(cur), Seq::empty(), word, w)
    } else if w == 0 {
        (out, cur)
    } else {
        let k = if w < word.len() { w as int } else { word.len() as int };
        let out2 = out.push(word.take(k));
        let rest = word.skip(k);
        if rest.len() == 0 {
            (out2, cur)
        } else {
            place(out2, cur, rest, w)
        }
    }
}

/// Places the words `ws[k..]` one after the other.
pub open spec fn place_words(
    out: Seq<Seq<char>>,
    cur: Seq<char>,
    ws: Seq<Seq<char>>,
    k: int,
    w: nat,
) -> (Seq<Seq<char>>, Seq<char>)
    decreases ws.len() - k,
{
    if k < 0 || k >= ws.len() {
        (out, cur)
    } else {
        let p = place(out, cur, ws[k], w);
        place_words(p.0, p.1, ws, k + 1, w)
    }
}

/// Wraps one input line (no newline inside) and appends its display lines.
pub open spec fn wrap_line(out: Seq<Seq<char>>, line: Seq<char>, w: nat) -> Seq<Seq<char>> {
    let ws = words(line);
    if ws.len() == 0 {
        out.push(Seq::empty())
    } else {
        let p = place_words(out, Seq::empty(), ws, 0, w);
        p.0.push(p.1)
    }
}

/// Wraps the input lines `lines[k..]`.
pub open spec fn wrap_lines(out: Seq<Seq<char>>, lines: Seq<Seq<char>>, k: int, w: nat) -> Seq<
    Seq<char>,
>
    decreases lines.len() - k,
{
    if k < 0 || k >= lines.len() {
        out
    } else {
        wrap_lines(wrap_line(out, lines[k], w), lines, k + 1, w)
    }
}

pub open spec fn wrap_width(width: nat) -> nat {
    if width == 0 { 1 } else { width }
}

/// Greedy word wrap of every `\n`-separated line of `text`.
pub open spec fn spec_wrap_text(text: Seq<char>, width: nat) -> Seq<Seq<char>> {
    wrap_lines(Seq::empty(), split_on(text, '\n'), 0, wrap_width(width))
}

/// Every line of `out` has at most `w` characters.
pub open spec fn lines_fit(out: Seq<Seq<char>>, w: nat) -> bool {
    forall|i: int| 0 <= i < out.len() ==> #[trigger] out[i].len() <= w
}

pub proof fn lemma_place_fits(out: Seq<Seq<char>>, cur: Seq<char>, word: Seq<char>, w: nat)
    requires
        lines_fit(out, w),
        cur.len() <= w,
    ensures
        lines_fit(place(out, cur, word, w).0, w),
        place(out, cur, word, w).1.len() <= w,
    decreases word.len(), cur.len(),
{
    let sep: nat = if cur.len() > 0 { 1 } else { 0 };
    if cur.len() + sep + word.len() <= w {
    } else if cur.len() > 0 {
        assert(lines_fit(out.push(cur), w)) by {
            assert forall|i: int| 0 <= i < out.push(cur).len() implies #[trigger] out.push(cur)[i].len() <= w by {
                if i < out.len() {
                    assert(out.push(cur)[i] == out[i]);
                }
            }
        }
        lemma_place_fits(out.push(cur), Seq::empty(), word, w);
    } else if w == 0 {
    } else {
        let k = if w < word.len() { w as int } else { word.len() as int };
        let out2 = out.push(word.take(k));
        assert(lines_fit(out2, w)) by {
            assert forall|i: int| 0 <= i < out2.len() implies #[trigger] out2[i].len() <= w by {
                if i < out.len() {
                    assert(out2[i] == out[i]);
                }
            }
        }
        let rest = word.skip(k);
        if rest.len() != 0 {
            lemma_place_fits(out2, cur, rest, w);
        }
    }
}

pub proof fn lemma_place_words_fits(
    out: Seq<Seq<char>>,
    cur: Seq<char>,
    ws: Seq<Seq<char>>,
    k: int,
    w: nat,
)
    requires
        lines_fit(out, w),
        cur.len() <= w,
    ensures
        lines_fit(place_words(out, cur, ws, k, w).0, w),
        place_words(out, cur, ws, k, w).1.len() <= w,
    decreases ws.len() - k,
{
    if 0 <= k < ws.len() {
        lemma_place_fits(out, cur, ws[k], w);
        let p = place(out, cur, ws[k], w);
        lemma_place_words_fits(p.0, p.1, ws, k + 1, w);
    }
}

pub proof fn lemma_push_fits(out: Seq<Seq<char>>, line: Seq<char>, w: nat)
    requires
        lines_fit(out, w),
        line.len() <= w,
    ensures
        lines_fit(out.push(line), w),
{
    assert forall|i: int| 0 <= i < out.push(line).len() implies #[trigger] out.push(line)[i].len() <= w by {
        if i < out.len() {
            assert(out.push(line)[i] == out[i]);
        }
    }
}

pub proof fn lemma_wrap_lines_fits(out: Seq<Seq<char>>, lines: Seq<Seq<char>>, k: int, w: nat)
    requires
        lines_fit(out, w),
    ensures
        lines_fit(wrap_lines(out, lines, k, w), w),
    decreases lines.len() - k,
{
    if 0 <= k < lines.len() {
        let ws = words(lines[k]);
        if ws.len() == 0 {
            lemma_push_fits(out, Seq::empty(), w);
        } else {
            lemma_place_words_fits(out, Seq::empty(), ws, 0, w);
            let p = place_words(out, Seq::empty(), ws, 0, w);
            lemma_push_fits(p.0, p.1, w);
        }
        lemma_wrap_lines_fits(wrap_line(out, lines[k], w), lines, k + 1, w);
    }
}

/// Greedy wrap never produces a line wider than the requested width
/// (at least one character): long words are hard-split.
pub proof fn lemma_wrap_text_fits(text: Seq<char>, width: nat)
    ensures
        lines_fit(spec_wrap_text(text, width), wrap_width(width)),
{
    lemma_wrap_lines_fits(Seq::empty(), split_on(text, '\n'), 0, wrap_width(width));
}

fn place_word(out: &mut Vec<Vec<char>>, cur: &mut Vec<char>, word0: Vec<char>, w: usize)
    requires
        w >= 1,
    ensures
        (seqs_of(final(out)@), final(cur)@) == place(seqs_of(old(out)@), old(cur)@, word0@, w as nat),
{
    let ghost goal = place(seqs_of(out@), cur@, word0@, w as nat);
    let mut word = word0;
    loop
        invariant
            w >= 1,
            goal == place(seqs_of(old(out)@), old(cur)@, word0@, w as nat),
            goal == place(seqs_of(out@), cur@, word@, w as nat),
        decreases word@.len(), cur@.len(),
    {
        let sep: usize = if cur.len() > 0 { 1 } else { 0 };
        if cur.len() <= w && word.len() <= w - cur.len() && sep <= w - cur.len() - word.len() {
            let ghost cur0 = cur@;
            assert(place(seqs_of(out@), cur0, word@, w as nat) == (seqs_of(out@), if sep == 1 {
                cur0.push(' ') + word@
            } else {
                cur0 + word@
            }));
            if sep == 1 {
                cur.push(' ');
            }
            let ghost pre = cur@;
            let mut k: usize = 0;
            while k < word.len()
                invariant
                    k <= word@.len(),
                    cur@ == pre + word@.take(k as int),
                decreases word@.len() - k,
            {
                cur.push(word[k]);
                assert(cur@ =~= pre + word@.take(k + 1));
                k += 1;
            }
            assert(word@.take(word@.len() as int) =~= word@);
            assert(cur@ =~= if sep == 1 { cur0.push(' ') + word@ } else { cur0 + word@ });
            return;
        }
        if cur.len() > 0 {
            let ghost pre = seqs_of(out@);
            let mut line: Vec<char> = Vec::new();
            std::mem::swap(&mut line, cur);
            out.push(line);
            assert(seqs_of(out@) =~= pre.push(line@));
            assert(cur@ =~= Seq::<char>::empty());
            continue;
        }
        let k = if w < word.len() { w } else { word.len() };
        let head = slice_chars(&word, 0, k);
        let rest = slice_chars(&word, k, word.len());
        assert(head@ =~= word@.take(k as int));
        assert(rest@ =~= word@.skip(k as int));
        let ghost pre = seqs_of(out@);
        out.push(head);
        assert(seqs_of(out@) =~= pre.push(head@));
        if rest.len() == 0 {
            return;
        }
        word = rest;
    }
}

/// Greedy word-wrap: splits `text` into display lines of at most `width`
/// characters. Words longer than `width` are hard-split. Blank input lines
/// are preserved as blank output lines.
pub fn wrap_text(text: &str, width: usize) -> (r: Vec<String>)
    ensures
        views_of(r@) == spec_wrap_text(text@, width as nat),
        lines_fit(views_of(r@), wrap_width(width as nat)),
{
    let chars = chars_of(text);
    let out = wrap_chars(&chars, width);
    let r = strings_of(&out);
    proof {
        lemma_wrap_text_fits(text@, width as nat);
    }
    r
}

/// `wrap_text` on a character vector.
pub fn wrap_chars(chars: &Vec<char>, width: usize) -> (out: Vec<Vec<char>>)
    ensures
        seqs_of(out@) == spec_wrap_text(chars@, width as nat),
{
    let w: usize = if width == 0 { 1 } else { width };
    let ghost text = chars@;
    let lines = split_chars(&chars, '\n');
    let mut out: Vec<Vec<char>> = Vec::new();
    let nl = lines.len();
    let mut li: usize = 0;
    assert(seqs_of(out@) =~= Seq::<Seq<char>>::empty());
    while li < nl
        invariant
            nl == lines@.len(),
            li <= nl,
            w == wrap_width(width as nat),
            w >= 1,
            spec_wrap_text(text, width as nat) == wrap_lines(
                seqs_of(out@),
                seqs_of(lines@),
                li as int,
                w as nat,
            ),
            seqs_of(lines@) == split_on(chars@, '\n'),
            chars@ == text,
        decreases nl - li,
    {
        let ws = split_words(&lines[li]);
        assert(seqs_of(lines@)[li as int] == lines@[li as int]@);
        let ghost out0 = seqs_of(out@);
        if ws.len() == 0 {
            out.push(Vec::new());
            assert(seqs_of(out@) =~= out0.push(Seq::empty()));
        } else {
            let mut cur: Vec<char> = Vec::new();
            let nw = ws.len();
            let mut k: usize = 0;
            assert(cur@ =~= Seq::<char>::empty());
            while k < nw
                invariant
                    nw == ws@.len(),
                    k <= nw,
                    w >= 1,
                    place_words(out0, Seq::empty(), seqs_of(ws@), 0, w as nat) == place_words(
                        seqs_of(out@),
                        cur@,
                        seqs_of(ws@),
                        k as int,
                        w as nat,
                    ),
                decreases nw - k,
            {
                let word = ws[k].clone();
                assert(word@ == seqs_of(ws@)[k as int]);
                place_word(&mut out, &mut cur, word, w);
                k += 1;
            }
            let ghost pre = seqs_of(out@);
            let last = cur;
            out.push(last);
            assert(seqs_of(out@) =~= pre.push(last@));
        }
        li += 1;
    }
    out
}

} // verus!

verus! {

// ---------------------------------------------------------------------------
// oracle_box
// ---------------------------------------------------------------------------

pub open spec fn repeat_char(c: char, n: nat) -> Seq<char> {
    Seq::new(n, |i: int| c)
}

pub open spec fn quote_line(l: Seq<char>) -> Seq<char> {
    seq!['\u{201C}'] + l + seq!['\u{201D}']
}

pub open spec fn oracle_title() -> Seq<char> {
    seq!['O', 'R', 'A', 'C', 'L', 'E']
}

/// The text lines inside the Oracle box.
pub open spec fn oracle_content(wisdom: Seq<char>, source: Option<Seq<char>>) -> Seq<Seq<char>> {
    seq![oracle_title(), Seq::empty()] + spec_wrap_text(wisdom, 58).map_values(
        |l: Seq<char>| quote_line(l),
    ) + match source {
        Some(src) => seq![Seq::empty(), seq!['—', ' '] + src],
        None => Seq::empty(),
    }
}

/// Length of the longest line of `c` (0 when empty).
pub open spec fn max_len(c: Seq<Seq<char>>) -> nat
    decreases c.len(),
{
    if c.len() == 0 {
        0
    } else {
        let m = max_len(c.drop_last());
        if m < c.last().len() {
            c.last().len()
        } else {
            m
        }
    }
}

pub proof fn lemma_max_len(c: Seq<Seq<char>>)
    ensures
        forall|i: int| 0 <= i < c.len() ==> #[trigger] c[i].len() <= max_len(c),
    decreases c.len(),
{
    if c.len() > 0 {
        lemma_max_len(c.drop_last());
        assert forall|i: int| 0 <= i < c.len() implies #[trigger] c[i].len() <= max_len(c) by {
            if i < c.len() - 1 {
                assert(c[i] == c.drop_last()[i]);
            }
        }
    }
}

pub proof fn lemma_max_len_bound(c: Seq<Seq<char>>, b: nat)
    requires
        forall|i: int| 0 <= i < c.len() ==> #[trigger] c[i].len() <= b,
    ensures
        max_len(c) <= b,
    decreases c.len(),
{
    if c.len() > 0 {
        assert forall|i: int| 0 <= i < c.drop_last().len() implies #[trigger] c.drop_last()[i].len() <= b by {
            assert(c.drop_last()[i] == c[i]);
        }
        lemma_max_len_bound(c.drop_last(), b);
    }
}

pub open spec fn box_edge(left: char, right: char, inner: nat) -> Seq<char> {
    seq![' ', ' ', left] + repeat_char('─', inner + 2) + seq![right]
}

pub open spec fn box_row(l: Seq<char>, inner: nat) -> Seq<char> {
    seq![' ', ' ', '│', ' '] + l + repeat_char(' ', (inner - l.len()) as nat) + seq![' ', '│']
}

pub open spec fn spec_oracle_box(wisdom: Seq<char>, source: Option<Seq<char>>) -> Seq<Seq<char>> {
    let content = oracle_content(wisdom, source);
    let inner = max_len(content);
    seq![box_edge('╭', '╮', inner)] + content.map_values(|l: Seq<char>| box_row(l, inner))
        + seq![box_edge('╰', '╯', inner)]
}

pub open spec fn opt_view(o: Option<&str>) -> Option<Seq<char>> {
    match o {
        Some(s) => Some(s@),
        None => None,
    }
}

fn push_repeat(out: &mut Vec<char>, c: char, n: usize)
    ensures
        final(out)@ == old(out)@ + repeat_char(c, n as nat),
{
    let mut i: usize = 0;
    while i < n
        invariant
            i <= n,
            out@ == old(out)@ + repeat_char(c, i as nat),
        decreases n - i,
    {
        out.push(c);
        assert(out@ =~= old(out)@ + repeat_char(c, (i + 1) as nat));
        i += 1;
    }
}

fn box_edge_line(left: char, right: char, inner: usize) -> (r: Vec<char>)
    requires
        inner + 2 <= usize::MAX,
    ensures
        r@ == box_edge(left, right, inner as nat),
{
    let mut r: Vec<char> = Vec::new();
    r.push(' ');
    r.push(' ');
    r.push(left);
    push_repeat(&mut r, '─', inner + 2);
    r.push(right);
    assert(r@ =~= box_edge(left, right, inner as nat));
    r
}

/// Renders the CLI Oracle box: quote + author wrapped and padded so every
/// border line has exactly the same display width.
pub fn oracle_box(wisdom: &str, source: Option<&str>) -> (r: Vec<String>)
    requires
        opt_view(source) matches Some(src) ==> src.len() + 16 <= usize::MAX,
    ensures
        views_of(r@) == spec_oracle_box(wisdom@, opt_view(source)),
        forall|i: int|
            0 <= i < r@.len() ==> #[trigger] r@[i]@.len() == max_len(
                oracle_content(wisdom@, opt_view(source)),
            ) + 6,
{
    let ghost content_spec = oracle_content(wisdom@, opt_view(source));
    let mut content: Vec<Vec<char>> = Vec::new();
    content.push(vec!['O', 'R', 'A', 'C', 'L', 'E']);
    content.push(Vec::new());
    let wrapped = wrap_chars(&chars_of(wisdom), 58);
    let nw = wrapped.len();
    let mut k: usize = 0;
    let ghost head = seq![oracle_title(), Seq::<char>::empty()];
    assert(seqs_of(content@) =~= head);
    while k < nw
        invariant
            nw == wrapped@.len(),
            k <= nw,
            seqs_of(content@) == head + seqs_of(wrapped@).take(k as int).map_values(
                |l: Seq<char>| quote_line(l),
            ),
        decreases nw - k,
    {
        let mut line: Vec<char> = Vec::new();
        line.push('\u{201C}');
        push_all(&mut line, &wrapped[k]);
        line.push('\u{201D}');
        let ghost pre = seqs_of(content@);
        assert(seqs_of(wrapped@)[k as int] == wrapped@[k as int]@);
        assert(line@ == quote_line(wrapped@[k as int]@));
        content.push(line);
        assert(seqs_of(content@) =~= pre.push(line@));
        assert(seqs_of(wrapped@).take(k + 1).map_values(|l: Seq<char>| quote_line(l))
            =~= seqs_of(wrapped@).take(k as int).map_values(|l: Seq<char>| quote_line(l)).push(
            quote_line(seqs_of(wrapped@)[k as int]),
        ));
        k += 1;
    }
    assert(seqs_of(wrapped@).take(nw as int) =~= seqs_of(wrapped@));
    if let Some(src) = source {
        let ghost pre = seqs_of(content@);
        content.push(Vec::new());
        let ghost mid = seqs_of(content@);
        assert(mid =~= pre.push(Seq::<char>::empty()));
        let mut line: Vec<char> = Vec::new();
        line.push('—');
        line.push(' ');
        push_all(&mut line, &chars_of(src));
        assert(line@ =~= seq!['—', ' '] + src@);
        content.push(line);
        assert(seqs_of(content@) =~= mid.push(line@));
        assert(seqs_of(content@) =~= pre + seq![Seq::<char>::empty(), seq!['—', ' '] + src@]);
    } else {
        assert(seqs_of(content@) =~= seqs_of(content@) + Seq::<Seq<char>>::empty());
    }
    assert(seqs_of(content@) =~= content_spec);
    // longest content line
    let nc = content.len();
    let mut inner: usize = 0;
    let mut i: usize = 0;
    while i < nc
        invariant
            nc == content@.len(),
            i <= nc,
            inner == max_len(seqs_of(content@).take(i as int)),
        decreases nc - i,
    {
        assert(seqs_of(content@).take(i + 1).drop_last() =~= seqs_of(content@).take(i as int));
        assert(seqs_of(content@)[i as int] == content@[i as int]@);
        if inner < content[i].len() {
            inner = content[i].len();
        }
        i += 1;
    }
    assert(seqs_of(content@).take(nc as int) =~= seqs_of(content@));
    proof {
        lemma_max_len(content_spec);
        lemma_wrap_text_fits(wisdom@, 58);
        let bound: nat = match opt_view(source) {
            Some(src) => if src.len() + 2 > 60 { src.len() + 2 } else { 60 },
            None => 60,
        };
        let wl = spec_wrap_text(wisdom@, 58);
        assert forall|t: int| 0 <= t < content_spec.len() implies #[trigger] content_spec[t].len() <= bound by {
            if 2 <= t < 2 + wl.len() {
                assert(content_spec[t] == quote_line(wl[t - 2]));
                assert(wl[t - 2].len() <= 58);
            }
        }
        lemma_max_len_bound(content_spec, bound);
    }
    let mut out: Vec<Vec<char>> = Vec::new();
    out.push(box_edge_line('╭', '╮', inner));
    let mut j: usize = 0;
    while j < nc
        invariant
            nc == content@.len(),
            j <= nc,
            inner + 8 <= usize::MAX,
            inner == max_len(content_spec),
            content_spec == seqs_of(content@),
            forall|t: int| 0 <= t < content_spec.len() ==> #[trigger] content_spec[t].len() <= inner,
            seqs_of(out@) == seq![box_edge('╭', '╮', inner as nat)] + seqs_of(content@).take(
                j as int,
            ).map_values(|l: Seq<char>| box_row(l, inner as nat)),
        decreases nc - j,
    {
        let mut row: Vec<char> = Vec::new();
        row.push(' ');
        row.push(' ');
        row.push('│');
        row.push(' ');
        push_all(&mut row, &content[j]);
        let pad = if content[j].len() <= inner { inner - content[j].len() } else { 0 };
        push_repeat(&mut row, ' ', pad);
        row.push(' ');
        row.push('│');
        assert(seqs_of(content@)[j as int] == content@[j as int]@);
        assert(content_spec[j as int].len() <= inner);
        assert(row@ =~= box_row(content@[j as int]@, inner as nat));
        let ghost pre = seqs_of(out@);
        out.push(row);
        assert(seqs_of(out@) =~= pre.push(row@));
        assert(seqs_of(content@).take(j + 1).map_values(|l: Seq<char>| box_row(l, inner as nat))
            =~= seqs_of(content@).take(j as int).map_values(
            |l: Seq<char>| box_row(l, inner as nat),
        ).push(box_row(seqs_of(content@)[j as int], inner as nat)));
        j += 1;
    }
    let ghost pre = seqs_of(out@);
    let bottom = box_edge_line('╰', '╯', inner);
    out.push(bottom);
    assert(seqs_of(out@) =~= pre.push(bottom@));
    assert(seqs_of(content@).take(nc as int) =~= seqs_of(content@));
    let r = strings_of(&out);
    proof {
        let v = views_of(r@);
        assert(v =~= spec_oracle_box(wisdom@, opt_view(source)));
        assert forall|i: int| 0 <= i < r@.len() implies #[trigger] r@[i]@.len() == max_len(
            oracle_content(wisdom@, opt_view(source)),
        ) + 6 by {
            assert(v[i] == r@[i]@);
            if 1 <= i < r@.len() - 1 {
                assert(v[i] == box_row(content_spec[i - 1], inner as nat));
                assert(content_spec[i - 1].len() <= inner);
            }
        }
    }
    r
}

} // verus!

verus! {

/// The texts of the segments, concatenated in order.
pub open spec fn segment_texts(segs: Seq<(Seq<char>, bool)>) -> Seq<char>
    decreases segs.len(),
{
    if segs.len() == 0 {
        Seq::empty()
    } else {
        segment_texts(segs.drop_last()) + segs.last().0
    }
}

proof fn lemma_flush_texts(segs: Seq<(Seq<char>, bool)>, buf: Seq<char>, matched: bool)
    ensures
        segment_texts(flush(segs, buf, matched)) == segment_texts(segs) + buf,
{
    if buf.len() > 0 {
        assert(segs.push((buf, matched)).drop_last() =~= segs);
    } else {
        assert(segment_texts(segs) + buf =~= segment_texts(segs));
    }
}

proof fn lemma_run_end_same(s: Seq<char>, i: int, k: int, c: char)
    requires
        0 <= i <= k <= run_end(s, i, c),
        i <= s.len(),
    ensures
        run_end(s, k, c) == run_end(s, i, c),
    decreases k - i,
{
    if k > i {
        lemma_run_end(s, i, c);
        assert(s[i] == c);
        lemma_run_end_same(s, i + 1, k, c);
    }
}

proof fn lemma_strip_short_run(s: Seq<char>, i: int, k: int)
    requires
        0 <= i < s.len(),
        is_marker_char(s[i]),
        run_end(s, i, s[i]) - i < 3,
        run_end(s, i, s[i]) < s.len(),
        i <= k <= run_end(s, i, s[i]),
    ensures
        strip_from(s, k) == s.subrange(k, run_end(s, i, s[i])) + strip_from(
            s,
            run_end(s, i, s[i]),
        ),
    decreases run_end(s, i, s[i]) - k,
{
    let c = s[i];
    let j = run_end(s, i, c);
    lemma_run_end(s, i, c);
    if k == j {
        assert(s.subrange(k, j) =~= Seq::<char>::empty());
    } else {
        assert(s[k] == c);
        lemma_run_end_same(s, i, k, c);
        assert(!dropped_run(s, k));
        lemma_strip_short_run(s, i, k + 1);
        assert(seq![s[k]] + (s.subrange(k + 1, j) + strip_from(s, j)) =~= s.subrange(k, j)
            + strip_from(s, j));
    }
}

proof fn lemma_segments_texts(
    s: Seq<char>,
    i: int,
    segs: Seq<(Seq<char>, bool)>,
    buf: Seq<char>,
    matched: bool,
)
    requires
        0 <= i <= s.len(),
    ensures
        segment_texts(segments_from(s, i, segs, buf, matched)) == segment_texts(segs) + buf
            + strip_from(s, i),
    decreases s.len() - i,
{
    if i >= s.len() {
        lemma_flush_texts(segs, buf, matched);
        assert(segment_texts(segs) + buf + Seq::<char>::empty() =~= segment_texts(segs) + buf);
    } else if is_marker_char(s[i]) {
        lemma_run_end(s, i, s[i]);
        let j = run_end(s, i, s[i]);
        if j - i >= 3 {
            lemma_flush_texts(segs, buf, matched);
            lemma_segments_texts(s, j, flush(segs, buf, matched), Seq::empty(), s[i] == '>');
            assert(segment_texts(flush(segs, buf, matched)) + Seq::<char>::empty() =~= segment_texts(
                segs,
            ) + buf);
        } else if j == s.len() {
            lemma_flush_texts(segs, buf, matched);
            assert(strip_from(s, j) =~= Seq::<char>::empty());
            assert(segment_texts(segs) + buf + Seq::<char>::empty() =~= segment_texts(segs) + buf);
        } else {
            lemma_segments_texts(s, j, segs, buf + s.subrange(i, j), matched);
            lemma_strip_short_run(s, i, i);
            assert(segment_texts(segs) + (buf + s.subrange(i, j)) + strip_from(s, j)
                =~= segment_texts(segs) + buf + (s.subrange(i, j) + strip_from(s, j)));
        }
    } else {
        lemma_segments_texts(s, i + 1, segs, buf.push(s[i]), matched);
        assert(segment_texts(segs) + buf.push(s[i]) + strip_from(s, i + 1) =~= segment_texts(segs)
            + buf + (seq![s[i]] + strip_from(s, i + 1)));
    }
}

/// The segments of a highlighted text spell out exactly the text that
/// [`strip_markers`] leaves: decoding and stripping agree on every input.
pub proof fn law_segments_spell_stripped_text(s: Seq<char>)
    ensures
        segment_texts(spec_marker_segments(s)) == spec_strip_markers(s),
{
    lemma_segments_texts(s, 0, Seq::empty(), Seq::empty(), false);
    assert(segment_texts(Seq::<(Seq<char>, bool)>::empty()) + Seq::<char>::empty() + strip_from(
        s,
        0,
    ) =~= strip_from(s, 0));
}

} // verus!

verus! {

// ---------------------------------------------------------------------------
// Wrapping works line by line
// ---------------------------------------------------------------------------

proof fn lemma_place_prefix(out: Seq<Seq<char>>, cur: Seq<char>, word: Seq<char>, w: nat)
    ensures
        place(out, cur, word, w) == (out + place(Seq::empty(), cur, word, w).0, place(
            Seq::empty(),
            cur,
            word,
            w,
        ).1),
    decreases word.len(), cur.len(),
{
    let e = Seq::<Seq<char>>::empty();
    let sep: nat = if cur.len() > 0 { 1 } else { 0 };
    if cur.len() + sep + word.len() <= w {
        assert(out + e =~= out);
    } else if cur.len() > 0 {
        lemma_place_prefix(out.push(cur), Seq::empty(), word, w);
        lemma_place_prefix(e.push(cur), Seq::empty(), word, w);
        let p = place(e, Seq::empty(), word, w).0;
        assert(out + (e.push(cur) + p) =~= out.push(cur) + p);
    } else if w == 0 {
        assert(out + e =~= out);
    } else {
        let k = if w < word.len() { w as int } else { word.len() as int };
        let rest = word.skip(k);
        if rest.len() == 0 {
            assert(out + e.push(word.take(k)) =~= out.push(word.take(k)));
        } else {
            lemma_place_prefix(out.push(word.take(k)), cur, rest, w);
            lemma_place_prefix(e.push(word.take(k)), cur, rest, w);
            let p = place(e, cur, rest, w).0;
            assert(out + (e.push(word.take(k)) + p) =~= out.push(word.take(k)) + p);
        }
    }
}

proof fn lemma_place_words_prefix(
    out: Seq<Seq<char>>,
    cur: Seq<char>,
    ws: Seq<Seq<char>>,
    k: int,
    w: nat,
)
    ensures
        place_words(out, cur, ws, k, w) == (out + place_words(Seq::empty(), cur, ws, k, w).0,
        place_words(Seq::empty(), cur, ws, k, w).1),
    decreases ws.len() - k,
{
    let e = Seq::<Seq<char>>::empty();
    if k < 0 || k >= ws.len() {
        assert(out + e =~= out);
    } else {
        lemma_place_prefix(out, cur, ws[k], w);
        let p0 = place(e, cur, ws[k], w);
        lemma_place_words_prefix(out + p0.0, p0.1, ws, k + 1, w);
        lemma_place_words_prefix(p0.0, p0.1, ws, k + 1, w);
        let r = place_words(e, p0.1, ws, k + 1, w).0;
        assert(out + (p0.0 + r) =~= (out + p0.0) + r);
    }
}

proof fn lemma_wrap_line_prefix(out: Seq<Seq<char>>, line: Seq<char>, w: nat)
    ensures
        wrap_line(out, line, w) == out + wrap_line(Seq::empty(), line, w),
{
    let e = Seq::<Seq<char>>::empty();
    let ws = words(line);
    if ws.len() == 0 {
        assert(out.push(Seq::empty()) =~= out + e.push(Seq::empty()));
    } else {
        lemma_place_words_prefix(out, Seq::empty(), ws, 0, w);
        let p = place_words(e, Seq::empty(), ws, 0, w);
        assert((out + p.0).push(p.1) =~= out + p.0.push(p.1));
    }
}

proof fn lemma_wrap_lines_prefix(out: Seq<Seq<char>>, lines: Seq<Seq<char>>, k: int, w: nat)
    ensures
        wrap_lines(out, lines, k, w) == out + wrap_lines(Seq::empty(), lines, k, w),
    decreases lines.len() - k,
{
    let e = Seq::<Seq<char>>::empty();
    if k < 0 || k >= lines.len() {
        assert(out + e =~= out);
    } else {
        lemma_wrap_line_prefix(out, lines[k], w);
        let l = wrap_line(e, lines[k], w);
        lemma_wrap_lines_prefix(out + l, lines, k + 1, w);
        lemma_wrap_lines_prefix(l, lines, k + 1, w);
        let r = wrap_lines(e, lines, k + 1, w);
        assert(out + (l + r) =~= (out + l) + r);
    }
}

proof fn lemma_wrap_lines_shift(
    out: Seq<Seq<char>>,
    s: Seq<Seq<char>>,
    t: Seq<Seq<char>>,
    k: int,
    j: int,
    w: nat,
)
    requires
        0 <= k,
        0 <= j <= t.len(),
        s.len() == k + t.len(),
        forall|i: int| 0 <= i < t.len() ==> s[k + i] == t[i],
    ensures
        wrap_lines(out, s, k + j, w) == wrap_lines(out, t, j, w),
    decreases t.len() - j,
{
    if j < t.len() {
        assert(s[k + j] == t[j]);
        lemma_wrap_lines_shift(wrap_line(out, t[j], w), s, t, k, j + 1, w);
    }
}

proof fn lemma_wrap_lines_split(
    out: Seq<Seq<char>>,
    p1: Seq<Seq<char>>,
    p2: Seq<Seq<char>>,
    k: int,
    w: nat,
)
    requires
        0 <= k <= p1.len(),
    ensures
        wrap_lines(out, p1 + p2, k, w) == wrap_lines(wrap_lines(out, p1, k, w), p2, 0, w),
    decreases p1.len() - k,
{
    if k == p1.len() {
        lemma_wrap_lines_shift(out, p1 + p2, p2, p1.len() as int, 0, w);
    } else {
        assert((p1 + p2)[k] == p1[k]);
        lemma_wrap_lines_split(wrap_line(out, p1[k], w), p1, p2, k + 1, w);
    }
}

/// Wrapping works line by line: the display lines of two input lines
/// joined by a line break are those of the first followed by those of
/// the second.
pub proof fn law_wrap_text_line_by_line(a: Seq<char>, b: Seq<char>, width: nat)
    ensures
        spec_wrap_text(a + seq!['\n'] + b, width) == spec_wrap_text(a, width) + spec_wrap_text(
            b,
            width,
        ),
{
    let w = wrap_width(width);
    let e = Seq::<Seq<char>>::empty();
    crate::text::lemma_split_concat(a, b, '\n', 0, Seq::empty(), Seq::empty());
    let p1 = split_on(a, '\n');
    let p2 = split_on(b, '\n');
    lemma_wrap_lines_split(e, p1, p2, 0, w);
    lemma_wrap_lines_prefix(wrap_lines(e, p1, 0, w), p2, 0, w);
}

/// A blank input line (no words, no line break) becomes exactly one blank
/// display line.
pub proof fn law_wrap_text_keeps_blank_lines(line: Seq<char>, width: nat)
    requires
        words(line).len() == 0,
        !line.contains('\n'),
    ensures
        spec_wrap_text(line, width) == seq![Seq::<char>::empty()],
{
    crate::text::lemma_split_no_sep(line, '\n', 0, Seq::empty(), Seq::empty());
    assert(Seq::<char>::empty() + line.skip(0) =~= line);
    assert(split_on(line, '\n') =~= seq![line]);
    let w = wrap_width(width);
    let e = Seq::<Seq<char>>::empty();
    assert(wrap_line(e, line, w) =~= seq![Seq::<char>::empty()]);
    assert(wrap_lines(wrap_line(e, line, w), seq![line], 1, w) == wrap_line(e, line, w));
    assert(wrap_lines(e, seq![line], 0, w) == wrap_lines(wrap_line(e, line, w), seq![line], 1, w));
}

} // verus!

verus! {

// ---------------------------------------------------------------------------
// Number and slug laws
// ---------------------------------------------------------------------------

/// `s` without its commas.
pub open spec fn without_commas(s: Seq<char>) -> Seq<char>
    decreases s.len(),
{
    if s.len() == 0 {
        Seq::empty()
    } else if s.last() == ',' {
        without_commas(s.drop_last())
    } else {
        without_commas(s.drop_last()).push(s.last())
    }
}

proof fn lemma_without_commas_concat(x: Seq<char>, y: Seq<char>)
    ensures
        without_commas(x + y) == without_commas(x) + without_commas(y),
    decreases y.len(),
{
    if y.len() == 0 {
        assert(x + y =~= x);
        assert(without_commas(x) + without_commas(y) =~= without_commas(x));
    } else {
        assert((x + y).drop_last() =~= x + y.drop_last());
        lemma_without_commas_concat(x, y.drop_last());
        if y.last() != ',' {
            assert(without_commas(x) + without_commas(y.drop_last()).push(y.last()) =~= (
            without_commas(x) + without_commas(y.drop_last())).push(y.last()));
        }
    }
}

proof fn lemma_dec_digits_no_comma(n: nat)
    ensures
        !dec_digits(n).contains(','),
    decreases n,
{
    if n >= 10 {
        lemma_dec_digits_no_comma(n / 10);
        assert forall|i: int| 0 <= i < dec_digits(n).len() implies dec_digits(n)[i] != ',' by {
            if i < dec_digits(n / 10).len() {
                assert(dec_digits(n)[i] == dec_digits(n / 10)[i]);
            }
        }
    }
}

proof fn lemma_grouped_without_commas(d: Seq<char>, i: int)
    requires
        0 <= i <= d.len(),
        !d.contains(','),
    ensures
        without_commas(grouped(d, i)) == d.take(i),
    decreases i,
{
    if i > 0 {
        lemma_grouped_without_commas(d, i - 1);
        let sep: Seq<char> = if i - 1 > 0 && (d.len() - (i - 1)) % 3 == 0 {
            seq![',']
        } else {
            Seq::empty()
        };
        lemma_without_commas_concat(grouped(d, i - 1), sep);
        lemma_without_commas_concat(grouped(d, i - 1) + sep, seq![d[i - 1]]);
        assert(without_commas(Seq::<char>::empty()) =~= Seq::<char>::empty());
        if sep.len() > 0 {
            assert(sep.drop_last() =~= Seq::<char>::empty());
            assert(sep.last() == ',');
        }
        assert(without_commas(sep) =~= Seq::<char>::empty());
        assert(d[i - 1] != ',');
        assert(seq![d[i - 1]].drop_last() =~= Seq::<char>::empty());
        assert(without_commas(seq![d[i - 1]]) =~= seq![d[i - 1]]);
        assert(d.take(i) =~= d.take(i - 1).push(d[i - 1]));
    } else {
        assert(d.take(0) =~= Seq::<char>::empty());
    }
}

/// Dropping the thousands separators of a formatted number gives back its
/// decimal digits.
pub proof fn law_format_number_digits(n: nat)
    ensures
        without_commas(spec_format_number(n)) == dec_digits(n),
{
    lemma_dec_digits_no_comma(n);
    lemma_grouped_without_commas(dec_digits(n), dec_digits(n).len() as int);
    assert(dec_digits(n).take(dec_digits(n).len() as int) =~= dec_digits(n));
}

pub open spec fn is_slug_char(c: char) -> bool {
    ('0' <= c && c <= '9') || ('a' <= c && c <= 'z')
}

/// A slug holds only lowercase ASCII letters and digits, and slugging it
/// again changes nothing.
pub proof fn law_slugify_normal_form(s: Seq<char>)
    ensures
        forall|i: int| 0 <= i < spec_slugify(s).len() ==> is_slug_char(#[trigger] spec_slugify(s)[i]),
        spec_slugify(spec_slugify(s)) == spec_slugify(s),
    decreases s.len(),
{
    if s.len() > 0 {
        law_slugify_normal_form(s.drop_last());
        let prev = spec_slugify(s.drop_last());
        if is_ascii_alnum(s.last()) {
            let c = ascii_lower(s.last());
            assert(is_slug_char(c));
            assert forall|i: int| 0 <= i < prev.push(c).len() implies is_slug_char(
                #[trigger] prev.push(c)[i],
            ) by {
                if i < prev.len() {
                    assert(prev.push(c)[i] == prev[i]);
                }
            }
            let t = prev.push(c);
            assert(t.drop_last() =~= prev);
            assert(is_ascii_alnum(t.last()) && ascii_lower(t.last()) == c);
        }
    }
}

/// Whether a file name adds nothing to a title does not depend on which is
/// which.
pub proof fn law_filename_derivable_symmetric(a: Seq<char>, b: Seq<char>)
    ensures
        spec_filename_derivable(a, b) == spec_filename_derivable(b, a),
{
}

} // verus!

verus! {

proof fn lemma_strip_plain(s: Seq<char>, i: int)
    requires
        0 <= i <= s.len(),
        forall|j: int| 0 <= j < s.len() ==> !is_marker_char(#[trigger] s[j]),
    ensures
        strip_from(s, i) == s.skip(i),
    decreases s.len() - i,
{
    if i < s.len() {
        assert(!is_marker_char(s[i]));
        lemma_strip_plain(s, i + 1);
        assert(seq![s[i]] + s.skip(i + 1) =~= s.skip(i));
    } else {
        assert(s.skip(i) =~= Seq::<char>::empty());
    }
}

/// Text without `>` or `<` comes out of [`strip_markers`] unchanged.
pub proof fn law_strip_markers_keeps_plain_text(s: Seq<char>)
    requires
        !s.contains('>'),
        !s.contains('<'),
    ensures
        spec_strip_markers(s) == s,
{
    assert forall|j: int| 0 <= j < s.len() implies !is_marker_char(#[trigger] s[j]) by {
        assert(s[j] != '>' && s[j] != '<');
    }
    lemma_strip_plain(s, 0);
    assert(s.skip(0) =~= s);
}

/// No `>` or `<` in `s`.
pub open spec fn marker_free(s: Seq<char>) -> bool {
    !s.contains('>') && !s.contains('<')
}

/// `a`, a `>>>` marker, `b`, a `<<<` marker, then `c`.
pub open spec fn highlighted(a: Seq<char>, b: Seq<char>, c: Seq<char>) -> Seq<char> {
    a + seq!['>', '>', '>'] + b + seq!['<', '<', '<'] + c
}

proof fn lemma_strip_plain_span(s: Seq<char>, i: int, k: int)
    requires
        0 <= i <= k <= s.len(),
        forall|j: int| i <= j < k ==> !is_marker_char(#[trigger] s[j]),
    ensures
        strip_from(s, i) == s.subrange(i, k) + strip_from(s, k),
    decreases k - i,
{
    if i < k {
        assert(!is_marker_char(s[i]));
        lemma_strip_plain_span(s, i + 1, k);
        assert(seq![s[i]] + (s.subrange(i + 1, k) + strip_from(s, k)) =~= s.subrange(i, k)
            + strip_from(s, k));
    } else {
        assert(s.subrange(i, k) + strip_from(s, k) =~= strip_from(s, k));
    }
}

/// A run of exactly `n` copies of `c` at `i`, ending at the end of `s` or
/// before a different character.
proof fn lemma_run_exact(s: Seq<char>, i: int, n: int, c: char)
    requires
        0 <= i,
        i + n <= s.len(),
        n >= 1,
        forall|j: int| i <= j < i + n ==> s[j] == c,
        i + n < s.len() ==> s[i + n] != c,
    ensures
        run_end(s, i, c) == i + n,
{
    lemma_run_end(s, i, c);
    let e = run_end(s, i, c);
    if e < i + n {
        assert(s[e] == c);
    }
    if e > i + n {
        assert(s[i + n] == c);
    }
}

proof fn lemma_plain_parts(a: Seq<char>, b: Seq<char>, c: Seq<char>)
    requires
        marker_free(a),
        marker_free(b),
        marker_free(c),
    ensures
        ({
            let s = highlighted(a, b, c);
            let x = a.len() as int;
            let y = x + 3 + b.len();
            let z = y + 3;
            &&& s.len() == z + c.len()
            &&& s.subrange(0, x) == a
            &&& s.subrange(x + 3, y) == b
            &&& s.subrange(z, s.len() as int) == c
            &&& forall|j: int| 0 <= j < x ==> !is_marker_char(#[trigger] s[j])
            &&& forall|j: int| x + 3 <= j < y ==> !is_marker_char(#[trigger] s[j])
            &&& forall|j: int| z <= j < s.len() ==> !is_marker_char(#[trigger] s[j])
            &&& s[x] == '>' && s[x + 1] == '>' && s[x + 2] == '>'
            &&& s[y] == '<' && s[y + 1] == '<' && s[y + 2] == '<'
            &&& run_end(s, x, '>') == x + 3
            &&& run_end(s, y, '<') == y + 3
        }),
{
    let s = highlighted(a, b, c);
    let x = a.len() as int;
    let y = x + 3 + b.len();
    let z = y + 3;
    assert forall|j: int| 0 <= j < x implies !is_marker_char(#[trigger] s[j]) by {
        assert(s[j] == a[j]);
        assert(a.contains(a[j]));
    }
    assert forall|j: int| x + 3 <= j < y implies !is_marker_char(#[trigger] s[j]) by {
        assert(s[j] == b[j - x - 3]);
        assert(b.contains(b[j - x - 3]));
    }
    assert forall|j: int| z <= j < s.len() implies !is_marker_char(#[trigger] s[j]) by {
        assert(s[j] == c[j - z]);
        assert(c.contains(c[j - z]));
    }
    assert(s.subrange(0, x) =~= a);
    assert(s.subrange(x + 3, y) =~= b);
    assert(s.subrange(z, s.len() as int) =~= c);
    assert(s[x] == '>' && s[x + 1] == '>' && s[x + 2] == '>');
    assert(s[y] == '<' && s[y + 1] == '<' && s[y + 2] == '<');
    if x + 3 < s.len() {
        if b.len() > 0 {
            assert(!is_marker_char(s[x + 3]));
        }
    }
    lemma_run_exact(s, x, 3, '>');
    if z < s.len() {
        assert(!is_marker_char(s[z]));
    }
    lemma_run_exact(s, y, 3, '<');
}

/// Stripping a text with one highlighted span between `>>>` and `<<<`
/// leaves the three marker-free parts joined together.
pub proof fn law_strip_markers_highlight(a: Seq<char>, b: Seq<char>, c: Seq<char>)
    requires
        marker_free(a),
        marker_free(b),
        marker_free(c),
    ensures
        spec_strip_markers(highlighted(a, b, c)) == a + b + c,
{
    let s = highlighted(a, b, c);
    let x = a.len() as int;
    let y = x + 3 + b.len();
    let z = y + 3;
    lemma_plain_parts(a, b, c);
    lemma_strip_plain_span(s, 0, x);
    assert(dropped_run(s, x));
    lemma_strip_plain_span(s, x + 3, y);
    assert(dropped_run(s, y));
    lemma_strip_plain_span(s, z, s.len() as int);
    assert(strip_from(s, s.len() as int) =~= Seq::<char>::empty());
    assert(a + (b + (c + Seq::<char>::empty())) =~= a + b + c);
}

/// A marker-free text followed by a dangling run of `>` or `<` (a marker
/// cut by truncation) strips to the text alone.
pub proof fn law_strip_markers_drops_dangling_run(a: Seq<char>, m: char, n: nat)
    requires
        marker_free(a),
        is_marker_char(m),
        n >= 1,
    ensures
        spec_strip_markers(a + repeat_char(m, n)) == a,
{
    let s = a + repeat_char(m, n);
    let x = a.len() as int;
    assert forall|j: int| 0 <= j < x implies !is_marker_char(#[trigger] s[j]) by {
        assert(s[j] == a[j]);
        assert(a.contains(a[j]));
    }
    lemma_strip_plain_span(s, 0, x);
    assert(s.subrange(0, x) =~= a);
    assert(s[x] == m);
    lemma_run_exact(s, x, n as int, m);
    assert(dropped_run(s, x));
    assert(strip_from(s, s.len() as int) =~= Seq::<char>::empty());
    assert(a + Seq::<char>::empty() =~= a);
}

/// Every segment has some text.
pub open spec fn segments_non_empty(segs: Seq<(Seq<char>, bool)>) -> bool {
    forall|i: int| 0 <= i < segs.len() ==> (#[trigger] segs[i]).0.len() > 0
}

proof fn lemma_flush_non_empty(segs: Seq<(Seq<char>, bool)>, buf: Seq<char>, matched: bool)
    requires
        segments_non_empty(segs),
    ensures
        segments_non_empty(flush(segs, buf, matched)),
{
    if buf.len() > 0 {
        let r = segs.push((buf, matched));
        assert forall|i: int| 0 <= i < r.len() implies (#[trigger] r[i]).0.len() > 0 by {
            if i < segs.len() {
                assert(r[i] == segs[i]);
            }
        }
    }
}

proof fn lemma_segments_non_empty(
    s: Seq<char>,
    i: int,
    segs: Seq<(Seq<char>, bool)>,
    buf: Seq<char>,
    matched: bool,
)
    requires
        segments_non_empty(segs),
    ensures
        segments_non_empty(segments_from(s, i, segs, buf, matched)),
    decreases s.len() - i,
{
    lemma_flush_non_empty(segs, buf, matched);
    if 0 <= i < s.len() {
        if is_marker_char(s[i]) {
            lemma_run_end(s, i, s[i]);
            let j = run_end(s, i, s[i]);
            if j - i >= 3 {
                lemma_segments_non_empty(s, j, flush(segs, buf, matched), Seq::empty(), s[i] == '>');
            } else if j < s.len() {
                lemma_segments_non_empty(s, j, segs, buf + s.subrange(i, j), matched);
            }
        } else {
            lemma_segments_non_empty(s, i + 1, segs, buf.push(s[i]), matched);
        }
    }
}

/// No segment of a decoded highlight is empty.
pub proof fn law_marker_segments_non_empty(s: Seq<char>)
    ensures
        segments_non_empty(spec_marker_segments(s)),
{
    lemma_segments_non_empty(s, 0, Seq::empty(), Seq::empty(), false);
}

proof fn lemma_segments_plain_span(
    s: Seq<char>,
    i: int,
    k: int,
    segs: Seq<(Seq<char>, bool)>,
    buf: Seq<char>,
    matched: bool,
)
    requires
        0 <= i <= k <= s.len(),
        forall|j: int| i <= j < k ==> !is_marker_char(#[trigger] s[j]),
    ensures
        segments_from(s, i, segs, buf, matched) == segments_from(
            s,
            k,
            segs,
            buf + s.subrange(i, k),
            matched,
        ),
    decreases k - i,
{
    if i < k {
        assert(!is_marker_char(s[i]));
        lemma_segments_plain_span(s, i + 1, k, segs, buf.push(s[i]), matched);
        assert(buf.push(s[i]) + s.subrange(i + 1, k) =~= buf + s.subrange(i, k));
    } else {
        assert(buf + s.subrange(i, k) =~= buf);
    }
}

/// A text with one highlighted span, all three parts non-empty and
/// marker-free, decodes to three segments: the plain text before, the
/// match, and the plain text after.
pub proof fn law_marker_segments_highlight(a: Seq<char>, b: Seq<char>, c: Seq<char>)
    requires
        marker_free(a),
        marker_free(b),
        marker_free(c),
        a.len() > 0,
        b.len() > 0,
        c.len() > 0,
    ensures
        spec_marker_segments(highlighted(a, b, c)) == seq![(a, false), (b, true), (c, false)],
{
    let s = highlighted(a, b, c);
    let x = a.len() as int;
    let y = x + 3 + b.len();
    let z = y + 3;
    let e = Seq::<char>::empty();
    let none = Seq::<(Seq<char>, bool)>::empty();
    lemma_plain_parts(a, b, c);
    lemma_segments_plain_span(s, 0, x, none, e, false);
    assert(e + s.subrange(0, x) =~= a);
    let one = flush(none, a, false);
    lemma_segments_plain_span(s, x + 3, y, one, e, true);
    assert(e + s.subrange(x + 3, y) =~= b);
    let two = flush(one, b, true);
    lemma_segments_plain_span(s, z, s.len() as int, two, e, false);
    assert(e + s.subrange(z, s.len() as int) =~= c);
    assert(two.push((c, false)) =~= seq![(a, false), (b, true), (c, false)]);
}

/// Slugging a concatenation gives the concatenation of the slugs.
pub proof fn law_slugify_concat(a: Seq<char>, b: Seq<char>)
    ensures
        spec_slugify(a + b) == spec_slugify(a) + spec_slugify(b),
    decreases b.len(),
{
    if b.len() == 0 {
        assert(a + b =~= a);
        assert(spec_slugify(a) + spec_slugify(b) =~= spec_slugify(a));
    } else {
        law_slugify_concat(a, b.drop_last());
        assert((a + b).drop_last() =~= a + b.drop_last());
        assert((a + b).last() == b.last());
        if is_ascii_alnum(b.last()) {
            assert(spec_slugify(a) + spec_slugify(b.drop_last()).push(ascii_lower(b.last()))
                =~= (spec_slugify(a) + spec_slugify(b.drop_last())).push(ascii_lower(b.last())));
        }
    }
}

/// An attributed quote's Oracle box has two more rows than the same quote
/// without attribution: a blank row and, last before the bottom border, the
/// row that reads `— ` and the source.
pub proof fn law_oracle_box_shows_the_source(wisdom: Seq<char>, src: Seq<char>)
    ensures
        ({
            let b = spec_oracle_box(wisdom, Some(src));
            let row = b[b.len() - 2];
            let blank = b[b.len() - 3];
            &&& b.len() == spec_oracle_box(wisdom, None).len() + 2
            &&& row.subrange(4, 6 + src.len() as int) == seq!['—', ' '] + src
            &&& forall|j: int| 4 <= j < blank.len() - 2 ==> #[trigger] blank[j] == ' '
        }),
{
    let cs = oracle_content(wisdom, Some(src));
    let cn = oracle_content(wisdom, None);
    let base = seq![oracle_title(), Seq::<char>::empty()] + spec_wrap_text(wisdom, 58).map_values(
        |l: Seq<char>| quote_line(l),
    );
    assert(cs =~= base + seq![Seq::<char>::empty(), seq!['—', ' '] + src]);
    assert(cn =~= base);
    let inner = max_len(cs);
    let b = spec_oracle_box(wisdom, Some(src));
    assert(b.len() == cs.len() + 2);
    assert(spec_oracle_box(wisdom, None).len() == cn.len() + 2);
    let l = seq!['—', ' '] + src;
    assert(b[b.len() - 2] == box_row(cs[cs.len() - 1], inner));
    assert(cs[cs.len() - 1] == l);
    assert(box_row(l, inner).subrange(4, 6 + src.len() as int) =~= l);
    assert(b[b.len() - 3] == box_row(cs[cs.len() - 2], inner));
    assert(cs[cs.len() - 2] == Seq::<char>::empty());
    let blank = box_row(Seq::<char>::empty(), inner);
    assert forall|j: int| 4 <= j < blank.len() - 2 implies #[trigger] blank[j] == ' ' by {
        assert(blank[j] == repeat_char(' ', inner)[j - 4]);
    }
}

} // verus!
