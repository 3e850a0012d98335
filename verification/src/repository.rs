//! The pure parts of the database layer: the codex lookup tables, search
//! results, and the full-text query, SQL and filter pattern a search sends.

use vstd::prelude::*;
use crate::text::{
    chars_of, is_alphanumeric, join, join_chars, lowercase, push_all, seqs_of, split_words,
    str_lowercase, string_of, unicode_alphanumeric, words,
};

verus! {

/// One of the four codex lookup tables.
#[derive(Debug, Clone, Copy, PartialEq, Eq, Structural)]
pub enum LookupKind {
    Character,
    House,
    Planet,
    Glossary,
}

/// Table, name column and the SQL that renders a row as
/// `"name\n\ndescription"`.
pub open spec fn lookup_table_info(k: LookupKind) -> (Seq<char>, Seq<char>, Seq<char>) {
    match k {
        LookupKind::Character => (
            "characters"@,
            "name"@,
            "name || '\n\n' || COALESCE(description, 'No description available.')"@,
        ),
        LookupKind::House => (
            "houses"@,
            "name"@,
            "name || '\n\n' || COALESCE(description, 'No description available.')"@,
        ),
        LookupKind::Planet => (
            "planets"@,
            "name"@,
            "name || '\n\n' || COALESCE(description, 'No description available.')"@,
        ),
        LookupKind::Glossary => ("glossary"@, "term"@, "term || '\n\n' || definition"@),
    }
}

impl LookupKind {
    /// Returns `(table_name, name_column, display_sql)` where `display_sql`
    /// is an SQL fragment producing `"name\n\ndescription"` from the row.
    pub fn table_info(&self) -> (r: (&'static str, &'static str, &'static str))
        ensures
            (r.0@, r.1@, r.2@) == lookup_table_info(*self),
    {
        match self {
            LookupKind::Character => (
                "characters",
                "name",
                "name || '\n\n' || COALESCE(description, 'No description available.')",
            ),
            LookupKind::House => (
                "houses",
                "name",
                "name || '\n\n' || COALESCE(description, 'No description available.')",
            ),
            LookupKind::Planet => (
                "planets",
                "name",
                "name || '\n\n' || COALESCE(description, 'No description available.')",
            ),
            LookupKind::Glossary => ("glossary", "term", "term || '\n\n' || definition"),
        }
    }

    /// The column that holds the display name (`name` or `term`).
    pub fn name_column(&self) -> (r: &'static str)
        ensures
            r@ == lookup_table_info(*self).1,
    {
        self.table_info().1
    }
}

/// One full-text search hit.
pub struct SearchResult {
    pub book_id: i64,
    pub book_title: String,
    pub page_number: u32,
    pub content: String,
    pub highlighted: String,
}

/// `(text, attribution, book_title)` of a quote.
pub type QuoteRow = (String, Option<String>, Option<String>);

// ---------------------------------------------------------------------------
// Full-text query
// ---------------------------------------------------------------------------

/// The characters a search query keeps: alphanumerics, spaces and `_`.
pub open spec fn query_char(c: char) -> bool {
    unicode_alphanumeric(c) || c == ' ' || c == '_'
}

pub open spec fn sanitize_query(s: Seq<char>) -> Seq<char>
    decreases s.len(),
{
    if s.len() == 0 {
        Seq::empty()
    } else if query_char(s.last()) {
        sanitize_query(s.drop_last()).push(s.last())
    } else {
        sanitize_query(s.drop_last())
    }
}

/// `t` with every `"` doubled.
pub open spec fn double_quotes(t: Seq<char>) -> Seq<char>
    decreases t.len(),
{
    if t.len() == 0 {
        Seq::empty()
    } else if t.last() == '"' {
        double_quotes(t.drop_last()) + seq!['"', '"']
    } else {
        double_quotes(t.drop_last()).push(t.last())
    }
}

/// A term as an FTS phrase: in double quotes, inner quotes doubled.
pub open spec fn quoted_term(t: Seq<char>) -> Seq<char> {
    seq!['"'] + double_quotes(t) + seq!['"']
}

/// The FTS5 query for a user query: its sanitized words as phrases joined
/// by ` AND `; `None` when no word is left.
pub open spec fn spec_fts_query(query: Seq<char>) -> Option<Seq<char>> {
    let terms = words(sanitize_query(query));
    if terms.len() == 0 {
        None
    } else {
        Some(join(terms.map_values(|t: Seq<char>| quoted_term(t)), " AND "@))
    }
}

fn quote_term(t: &Vec<char>) -> (r: Vec<char>)
    ensures
        r@ == quoted_term(t@),
{
    let mut body: Vec<char> = Vec::new();
    let mut i: usize = 0;
    while i < t.len()
        invariant
            i <= t@.len(),
            body@ == double_quotes(t@.take(i as int)),
        decreases t@.len() - i,
    {
        assert(t@.take(i + 1).drop_last() =~= t@.take(i as int));
        if t[i] == '"' {
            body.push('"');
            body.push('"');
        } else {
            body.push(t[i]);
        }
        assert(body@ =~= double_quotes(t@.take(i + 1)));
        i += 1;
    }
    assert(t@.take(t@.len() as int) =~= t@);
    let mut r = vec!['"'];
    push_all(&mut r, &body);
    r.push('"');
    assert(r@ =~= quoted_term(t@));
    r
}

/// Builds the FTS5 `MATCH` expression for a search: characters other than
/// alphanumerics, spaces and `_` are dropped, and each remaining word
/// becomes a quoted phrase, the phrases joined by ` AND `. `None` when the
/// query has no word left (the search then returns nothing).
pub fn fts_query(query: &str) -> (r: Option<String>)
    ensures
        match r {
            Some(q) => spec_fts_query(query@) == Some(q@),
            None => spec_fts_query(query@) is None,
        },
{
    let chars = chars_of(query);
    let mut kept: Vec<char> = Vec::new();
    let mut i: usize = 0;
    while i < chars.len()
        invariant
            i <= chars@.len(),
            kept@ == sanitize_query(chars@.take(i as int)),
        decreases chars@.len() - i,
    {
        assert(chars@.take(i + 1).drop_last() =~= chars@.take(i as int));
        let c = chars[i];
        if is_alphanumeric(c) || c == ' ' || c == '_' {
            kept.push(c);
        }
        i += 1;
    }
    assert(chars@.take(chars@.len() as int) =~= chars@);
    let terms = split_words(&kept);
    if terms.len() == 0 {
        return None;
    }
    let mut quoted: Vec<Vec<char>> = Vec::new();
    let ghost tv = seqs_of(terms@);
    let mut k: usize = 0;
    while k < terms.len()
        invariant
            k <= terms@.len(),
            tv == seqs_of(terms@),
            seqs_of(quoted@) == tv.take(k as int).map_values(|t: Seq<char>| quoted_term(t)),
        decreases terms@.len() - k,
    {
        assert(tv[k as int] == terms@[k as int]@);
        let q = quote_term(&terms[k]);
        let ghost pre = seqs_of(quoted@);
        quoted.push(q);
        assert(seqs_of(quoted@) =~= pre.push(q@));
        assert(tv.take(k + 1).map_values(|t: Seq<char>| quoted_term(t)) =~= tv.take(
            k as int,
        ).map_values(|t: Seq<char>| quoted_term(t)).push(quoted_term(tv[k as int])));
        k += 1;
    }
    assert(tv.take(terms@.len() as int) =~= tv);
    let sep = chars_of(" AND ");
    Some(string_of(&join_chars(&quoted, &sep)))
}

/// The search statement; `?1` is the FTS query, `?2` the limit and, with
/// a book filter, `?3` the title pattern.
pub open spec fn spec_search_sql(filtered: bool) -> Seq<char> {
    "SELECT p.book_id, b.title, p.page_number, p.content,
                    highlight(pages_fts, 0, '>>>', '<<<') as highlighted
             FROM pages_fts
             JOIN pages p ON p.id = pages_fts.rowid
             JOIN books b ON b.id = p.book_id
             WHERE pages_fts MATCH ?1"@ + (if filtered {
        " AND LOWER(b.title) LIKE ?3"@
    } else {
        Seq::empty()
    }) + " ORDER BY rank LIMIT ?2"@
}

/// The SQL of a full-text search, ranked by relevance, with the title
/// filter clause when `filtered`.
pub fn search_sql(filtered: bool) -> (r: String)
    ensures
        r@ == spec_search_sql(filtered),
{
    let mut sql = chars_of(
        "SELECT p.book_id, b.title, p.page_number, p.content,
                    highlight(pages_fts, 0, '>>>', '<<<') as highlighted
             FROM pages_fts
             JOIN pages p ON p.id = pages_fts.rowid
             JOIN books b ON b.id = p.book_id
             WHERE pages_fts MATCH ?1",
    );
    let ghost base = sql@;
    if filtered {
        push_all(&mut sql, &chars_of(" AND LOWER(b.title) LIKE ?3"));
    } else {
        assert(sql@ =~= base + Seq::<char>::empty());
    }
    push_all(&mut sql, &chars_of(" ORDER BY rank LIMIT ?2"));
    string_of(&sql)
}

/// A case-insensitive `LIKE` pattern matching any text containing `s`.
pub open spec fn spec_like_pattern(s: Seq<char>) -> Seq<char> {
    seq!['%'] + str_lowercase(s) + seq!['%']
}

/// `%` + the lowercase of `s` + `%`.
pub fn like_pattern(s: &str) -> (r: String)
    ensures
        r@ == spec_like_pattern(s@),
{
    let lower = lowercase(s);
    let mut out = vec!['%'];
    push_all(&mut out, &chars_of(lower.as_str()));
    out.push('%');
    assert(out@ =~= spec_like_pattern(s@));
    string_of(&out)
}

/// The lookup statement of an entity: its display text, from its table,
/// where the lowercase name matches `?1`, first row only.
pub open spec fn spec_entity_sql(k: LookupKind) -> Seq<char> {
    "SELECT "@ + lookup_table_info(k).2 + " FROM "@ + lookup_table_info(k).0 + " WHERE LOWER("@
        + lookup_table_info(k).1 + ") LIKE ?1 LIMIT 1"@
}

pub fn entity_sql(kind: LookupKind) -> (r: String)
    ensures
        r@ == spec_entity_sql(kind),
{
    let (table, name_col, display) = kind.table_info();
    let mut out = chars_of("SELECT ");
    push_all(&mut out, &chars_of(display));
    push_all(&mut out, &chars_of(" FROM "));
    push_all(&mut out, &chars_of(table));
    push_all(&mut out, &chars_of(" WHERE LOWER("));
    push_all(&mut out, &chars_of(name_col));
    push_all(&mut out, &chars_of(") LIKE ?1 LIMIT 1"));
    string_of(&out)
}

/// All display names of a table, sorted by name.
pub open spec fn spec_list_names_sql(k: LookupKind) -> Seq<char> {
    "SELECT "@ + lookup_table_info(k).1 + " FROM "@ + lookup_table_info(k).0 + " ORDER BY "@
        + lookup_table_info(k).1
}

pub fn list_names_sql(kind: LookupKind) -> (r: String)
    ensures
        r@ == spec_list_names_sql(kind),
{
    let (table, name_col, _) = kind.table_info();
    let mut out = chars_of("SELECT ");
    push_all(&mut out, &chars_of(name_col));
    push_all(&mut out, &chars_of(" FROM "));
    push_all(&mut out, &chars_of(table));
    push_all(&mut out, &chars_of(" ORDER BY "));
    push_all(&mut out, &chars_of(name_col));
    string_of(&out)
}

// ---------------------------------------------------------------------------
// Laws of the full-text query
// ---------------------------------------------------------------------------

/// A search word as the user types it: letters and digits in the sense of
/// `char::is_alphanumeric`, no whitespace and no `"`.
pub open spec fn plain_search_word(w: Seq<char>) -> bool {
    &&& w.len() > 0
    &&& forall|i: int|
        0 <= i < w.len() ==> unicode_alphanumeric(#[trigger] w[i]) && !crate::text::is_ws(w[i])
            && w[i] != '"'
}

/// `w` between double quotes.
pub open spec fn in_quotes(w: Seq<char>) -> Seq<char> {
    seq!['"'] + w + seq!['"']
}

proof fn lemma_sanitize_keeps(s: Seq<char>)
    requires
        forall|i: int| 0 <= i < s.len() ==> query_char(#[trigger] s[i]),
    ensures
        sanitize_query(s) == s,
    decreases s.len(),
{
    if s.len() > 0 {
        assert forall|i: int| 0 <= i < s.drop_last().len() implies query_char(
            #[trigger] s.drop_last()[i],
        ) by {
            assert(s.drop_last()[i] == s[i]);
        }
        lemma_sanitize_keeps(s.drop_last());
        assert(query_char(s[s.len() - 1]));
        assert(s.drop_last().push(s.last()) =~= s);
    }
}

proof fn lemma_double_quotes_plain(t: Seq<char>)
    requires
        !t.contains('"'),
    ensures
        double_quotes(t) == t,
    decreases t.len(),
{
    if t.len() > 0 {
        assert(!t.drop_last().contains('"')) by {
            if t.drop_last().contains('"') {
                let k = choose|k: int| 0 <= k < t.drop_last().len() && t.drop_last()[k] == '"';
                assert(t[k] == '"');
            }
        }
        lemma_double_quotes_plain(t.drop_last());
        assert(t[t.len() - 1] != '"');
        assert(t.drop_last().push(t.last()) =~= t);
    }
}

/// `words_from` reads `s` from `k` on exactly as it reads `s.skip(...)`:
/// shifting the text shifts the scan.
proof fn lemma_words_shift(x: Seq<char>, y: Seq<char>, k: int, cur: Seq<char>, acc: Seq<Seq<char>>)
    requires
        0 <= k,
    ensures
        crate::text::words_from(x + y, x.len() + k, cur, acc) == crate::text::words_from(
            y,
            k,
            cur,
            acc,
        ),
    decreases y.len() - k,
{
    if k < y.len() {
        assert((x + y)[x.len() + k] == y[k]);
        if crate::text::is_ws(y[k]) {
            lemma_words_shift(x, y, k + 1, Seq::empty(), if cur.len() > 0 { acc.push(cur) } else { acc });
        } else {
            lemma_words_shift(x, y, k + 1, cur.push(y[k]), acc);
        }
    }
}

/// When `y` starts with whitespace, the words of `x + y` are the words of
/// `x` followed by those that the rest of `y` adds.
proof fn lemma_words_split(x: Seq<char>, y: Seq<char>, i: int, cur: Seq<char>, acc: Seq<Seq<char>>)
    requires
        0 <= i <= x.len(),
        y.len() > 0,
        crate::text::is_ws(y[0]),
    ensures
        crate::text::words_from(x + y, i, cur, acc) == crate::text::words_from(
            y,
            0,
            Seq::empty(),
            crate::text::words_from(x, i, cur, acc),
        ),
    decreases x.len() - i,
{
    if i < x.len() {
        assert((x + y)[i] == x[i]);
        if crate::text::is_ws(x[i]) {
            lemma_words_split(x, y, i + 1, Seq::empty(), if cur.len() > 0 { acc.push(cur) } else { acc });
        } else {
            lemma_words_split(x, y, i + 1, cur.push(x[i]), acc);
        }
    } else {
        assert((x + y)[x.len() as int] == y[0]);
        let f = if cur.len() > 0 { acc.push(cur) } else { acc };
        lemma_words_shift(x, y, 1, Seq::empty(), f);
    }
}

/// A stretch without whitespace from `k` to the end is one more word.
proof fn lemma_words_tail(s: Seq<char>, k: int, cur: Seq<char>, acc: Seq<Seq<char>>)
    requires
        0 <= k <= s.len(),
        forall|j: int| k <= j < s.len() ==> !crate::text::is_ws(#[trigger] s[j]),
        cur.len() + (s.len() - k) > 0,
    ensures
        crate::text::words_from(s, k, cur, acc) == acc.push(cur + s.skip(k)),
    decreases s.len() - k,
{
    if k < s.len() {
        lemma_words_tail(s, k + 1, cur.push(s[k]), acc);
        assert(cur.push(s[k]) + s.skip(k + 1) =~= cur + s.skip(k));
    } else {
        assert(cur + s.skip(k) =~= cur);
    }
}

proof fn lemma_words_of_spaced(ws: Seq<Seq<char>>)
    requires
        ws.len() > 0,
        forall|i: int| 0 <= i < ws.len() ==> plain_search_word(#[trigger] ws[i]),
    ensures
        crate::text::words(join(ws, seq![' '])) == ws,
        forall|i: int| 0 <= i < join(ws, seq![' ']).len() ==> query_char(#[trigger] join(ws, seq![' '])[i]),
    decreases ws.len(),
{
    let w = ws.last();
    assert(plain_search_word(ws[ws.len() - 1]));
    if ws.len() == 1 {
        lemma_words_tail(w, 0, Seq::empty(), Seq::empty());
        assert(Seq::<char>::empty() + w.skip(0) =~= w);
        assert(Seq::<Seq<char>>::empty().push(w) =~= ws);
    } else {
        let init = ws.drop_last();
        assert forall|i: int| 0 <= i < init.len() implies plain_search_word(#[trigger] init[i]) by {
            assert(init[i] == ws[i]);
        }
        lemma_words_of_spaced(init);
        let x = join(init, seq![' ']);
        let y = seq![' '] + w;
        assert(join(ws, seq![' ']) == x + seq![' '] + w);
        assert(x + seq![' '] + w =~= x + y);
        assert(y[0] == ' ');
        lemma_words_split(x, y, 0, Seq::empty(), Seq::empty());
        lemma_words_tail(y, 1, Seq::empty(), init);
        assert(Seq::<char>::empty() + y.skip(1) =~= w);
        assert(init.push(w) =~= ws);
        let j = x + y;
        assert forall|i: int| 0 <= i < j.len() implies query_char(#[trigger] j[i]) by {
            if i < x.len() {
                assert(j[i] == x[i]);
            } else if i > x.len() {
                assert(j[i] == w[i - x.len() - 1]);
            }
        }
    }
}

/// Words of letters and digits (`char::is_alphanumeric`), typed with single
/// spaces between them, all reach the full-text query, in order: each as a
/// quoted phrase, joined by `AND`. So `spice 10191` searches for
/// `"spice" AND "10191"`.
pub proof fn law_fts_query_keeps_alphanumeric_words(ws: Seq<Seq<char>>)
    requires
        ws.len() > 0,
        forall|i: int| 0 <= i < ws.len() ==> plain_search_word(#[trigger] ws[i]),
    ensures
        spec_fts_query(join(ws, seq![' '])) == Some(
            join(ws.map_values(|w: Seq<char>| in_quotes(w)), " AND "@),
        ),
{
    lemma_words_of_spaced(ws);
    lemma_sanitize_keeps(join(ws, seq![' ']));
    assert forall|i: int| 0 <= i < ws.len() implies #[trigger] quoted_term(ws[i]) == in_quotes(
        ws[i],
    ) by {
        assert(plain_search_word(ws[i]));
        assert(!ws[i].contains('"'));
        lemma_double_quotes_plain(ws[i]);
    }
    assert(ws.map_values(|t: Seq<char>| quoted_term(t)) =~= ws.map_values(
        |w: Seq<char>| in_quotes(w),
    ));
}

} // verus!
