//! Markdown export of the library and codex.
//!
//! The export data is a snapshot of every table; the markdown renderer is a
//! books table followed by one `- name — description` list per section.

use vstd::prelude::*;
use crate::text::{chars_of, push_all, string_of};
use crate::util::{dec_digits, decimal_digits};

verus! {

/// A snapshot of the whole library and codex, one section per table.
pub struct ExportData {
    pub books: Vec<BookExport>,
    pub characters: Vec<EntityExport>,
    pub houses: Vec<EntityExport>,
    pub planets: Vec<EntityExport>,
    pub glossary: Vec<GlossaryExport>,
    pub quotes: Vec<QuoteExport>,
}

pub struct BookExport {
    pub title: String,
    pub file_path: String,
    pub page_count: u32,
    pub word_count: u32,
}

/// The `name`/`description`/`source`/`source_url` shape shared by
/// characters, houses and planets.
pub struct EntityExport {
    pub name: String,
    pub description: Option<String>,
    pub source: Option<String>,
    pub source_url: Option<String>,
}

/// Glossary entries use `term`/`definition`.
pub struct GlossaryExport {
    pub term: String,
    pub definition: Option<String>,
    pub source: Option<String>,
    pub source_url: Option<String>,
}

pub struct QuoteExport {
    pub text: String,
    pub attribution: Option<String>,
    pub book_title: Option<String>,
    pub source: Option<String>,
}

/// The text of an optional field, empty when absent.
pub open spec fn opt_text(o: Option<String>) -> Seq<char> {
    match o {
        Some(s) => s@,
        None => Seq::empty(),
    }
}

pub open spec fn book_row(b: BookExport) -> Seq<char> {
    "| "@ + b.title@ + " | "@ + dec_digits(b.page_count as nat) + " | "@ + dec_digits(
        b.word_count as nat,
    ) + " |\n"@
}

pub open spec fn book_rows(rows: Seq<BookExport>) -> Seq<char>
    decreases rows.len(),
{
    if rows.len() == 0 {
        Seq::empty()
    } else {
        book_rows(rows.drop_last()) + book_row(rows.last())
    }
}

/// A `- name — text` list item.
pub open spec fn list_item(name: Seq<char>, text: Seq<char>) -> Seq<char> {
    "- "@ + name + " — "@ + text + "\n"@
}

pub open spec fn entity_rows(rows: Seq<EntityExport>) -> Seq<char>
    decreases rows.len(),
{
    if rows.len() == 0 {
        Seq::empty()
    } else {
        entity_rows(rows.drop_last()) + list_item(rows.last().name@, opt_text(rows.last().description))
    }
}

pub open spec fn glossary_rows(rows: Seq<GlossaryExport>) -> Seq<char>
    decreases rows.len(),
{
    if rows.len() == 0 {
        Seq::empty()
    } else {
        glossary_rows(rows.drop_last()) + list_item(
            rows.last().term@,
            opt_text(rows.last().definition),
        )
    }
}

/// `- "text" — attribution (book)`, the book part only when known.
pub open spec fn quote_row(q: QuoteExport) -> Seq<char> {
    match q.book_title {
        Some(book) => "- \""@ + q.text@ + "\" — "@ + opt_text(q.attribution) + " ("@ + book@
            + ")\n"@,
        None => "- \""@ + q.text@ + "\" — "@ + opt_text(q.attribution) + "\n"@,
    }
}

pub open spec fn quote_rows(rows: Seq<QuoteExport>) -> Seq<char>
    decreases rows.len(),
{
    if rows.len() == 0 {
        Seq::empty()
    } else {
        quote_rows(rows.drop_last()) + quote_row(rows.last())
    }
}

/// The markdown document for `d`.
pub open spec fn spec_render_markdown(d: ExportData) -> Seq<char> {
    "## Books\n"@ + "| Title | Pages | Words |\n"@ + "|---|---|---|\n"@ + book_rows(d.books@)
        + "\n## "@ + "Characters"@ + "\n"@ + entity_rows(d.characters@) + "\n## "@ + "Houses"@
        + "\n"@ + entity_rows(d.houses@) + "\n## "@ + "Planets"@ + "\n"@ + entity_rows(
        d.planets@,
    ) + "\n## Glossary\n"@ + glossary_rows(d.glossary@) + "\n## Quotes\n"@ + quote_rows(
        d.quotes@,
    )
}

fn push_str(out: &mut Vec<char>, s: &str)
    ensures
        final(out)@ == old(out)@ + s@,
{
    push_all(out, &chars_of(s));
}

fn push_opt(out: &mut Vec<char>, o: &Option<String>)
    ensures
        final(out)@ == old(out)@ + opt_text(*o),
{
    match o {
        Some(s) => push_str(out, s.as_str()),
        None => {
            assert(old(out)@ + Seq::<char>::empty() =~= old(out)@);
        },
    }
}

fn push_book_rows(out: &mut Vec<char>, rows: &Vec<BookExport>)
    ensures
        final(out)@ == old(out)@ + book_rows(rows@),
{
    let mut i: usize = 0;
    assert(rows@.take(0) =~= Seq::<BookExport>::empty());
    assert(old(out)@ + book_rows(Seq::<BookExport>::empty()) =~= old(out)@);
    while i < rows.len()
        invariant
            i <= rows@.len(),
            out@ == old(out)@ + book_rows(rows@.take(i as int)),
        decreases rows@.len() - i,
    {
        let ghost pre = out@;
        let b = &rows[i];
        push_str(out, "| ");
        push_str(out, b.title.as_str());
        push_str(out, " | ");
        push_all(out, &decimal_digits(b.page_count as u64));
        push_str(out, " | ");
        push_all(out, &decimal_digits(b.word_count as u64));
        push_str(out, " |\n");
        assert(rows@.take(i + 1).drop_last() =~= rows@.take(i as int));
        assert(out@ =~= pre + book_row(rows@[i as int]));
        i += 1;
    }
    assert(rows@.take(rows@.len() as int) =~= rows@);
}

fn push_item(out: &mut Vec<char>, name: &String, text: &Option<String>)
    ensures
        final(out)@ == old(out)@ + list_item(name@, opt_text(*text)),
{
    let ghost pre = out@;
    push_str(out, "- ");
    push_str(out, name.as_str());
    push_str(out, " — ");
    push_opt(out, text);
    push_str(out, "\n");
    assert(out@ =~= pre + list_item(name@, opt_text(*text)));
}

fn push_entity_rows(out: &mut Vec<char>, rows: &Vec<EntityExport>)
    ensures
        final(out)@ == old(out)@ + entity_rows(rows@),
{
    let mut i: usize = 0;
    assert(old(out)@ + entity_rows(rows@.take(0)) =~= old(out)@);
    while i < rows.len()
        invariant
            i <= rows@.len(),
            out@ == old(out)@ + entity_rows(rows@.take(i as int)),
        decreases rows@.len() - i,
    {
        let ghost pre = out@;
        push_item(out, &rows[i].name, &rows[i].description);
        assert(rows@.take(i + 1).drop_last() =~= rows@.take(i as int));
        assert(out@ =~= old(out)@ + entity_rows(rows@.take(i + 1)));
        i += 1;
    }
    assert(rows@.take(rows@.len() as int) =~= rows@);
}

fn push_glossary_rows(out: &mut Vec<char>, rows: &Vec<GlossaryExport>)
    ensures
        final(out)@ == old(out)@ + glossary_rows(rows@),
{
    let mut i: usize = 0;
    assert(old(out)@ + glossary_rows(rows@.take(0)) =~= old(out)@);
    while i < rows.len()
        invariant
            i <= rows@.len(),
            out@ == old(out)@ + glossary_rows(rows@.take(i as int)),
        decreases rows@.len() - i,
    {
        push_item(out, &rows[i].term, &rows[i].definition);
        assert(rows@.take(i + 1).drop_last() =~= rows@.take(i as int));
        assert(out@ =~= old(out)@ + glossary_rows(rows@.take(i + 1)));
        i += 1;
    }
    assert(rows@.take(rows@.len() as int) =~= rows@);
}

fn push_quote_rows(out: &mut Vec<char>, rows: &Vec<QuoteExport>)
    ensures
        final(out)@ == old(out)@ + quote_rows(rows@),
{
    let mut i: usize = 0;
    assert(old(out)@ + quote_rows(rows@.take(0)) =~= old(out)@);
    while i < rows.len()
        invariant
            i <= rows@.len(),
            out@ == old(out)@ + quote_rows(rows@.take(i as int)),
        decreases rows@.len() - i,
    {
        let ghost pre = out@;
        let q = &rows[i];
        push_str(out, "- \"");
        push_str(out, q.text.as_str());
        push_str(out, "\" — ");
        push_opt(out, &q.attribution);
        match &q.book_title {
            Some(book) => {
                push_str(out, " (");
                push_str(out, book.as_str());
                push_str(out, ")\n");
            },
            None => {
                push_str(out, "\n");
            },
        }
        assert(out@ =~= pre + quote_row(rows@[i as int]));
        assert(rows@.take(i + 1).drop_last() =~= rows@.take(i as int));
        i += 1;
    }
    assert(rows@.take(rows@.len() as int) =~= rows@);
}

fn push_section(out: &mut Vec<char>, heading: &str, rows: &Vec<EntityExport>)
    ensures
        final(out)@ == old(out)@ + "\n## "@ + heading@ + "\n"@ + entity_rows(rows@),
{
    push_str(out, "\n## ");
    push_str(out, heading);
    push_str(out, "\n");
    push_entity_rows(out, rows);
}

/// Renders the export as a markdown document: a books table, then one
/// `- name — description` list per codex section (characters, houses,
/// planets, glossary) and the quotes as `- "text" — attribution (book)`.
pub fn render_markdown(data: &ExportData) -> (r: String)
    ensures
        r@ == spec_render_markdown(*data),
{
    let mut out: Vec<char> = Vec::new();
    push_str(&mut out, "## Books\n");
    push_str(&mut out, "| Title | Pages | Words |\n");
    push_str(&mut out, "|---|---|---|\n");
    push_book_rows(&mut out, &data.books);
    push_section(&mut out, "Characters", &data.characters);
    push_section(&mut out, "Houses", &data.houses);
    push_section(&mut out, "Planets", &data.planets);
    push_str(&mut out, "\n## Glossary\n");
    push_glossary_rows(&mut out, &data.glossary);
    push_str(&mut out, "\n## Quotes\n");
    push_quote_rows(&mut out, &data.quotes);
    assert(out@ =~= spec_render_markdown(*data));
    string_of(&out)
}

/// The table row of one book: `| title | pages | words |` and a line break.
pub open spec fn book_table_row(b: BookExport) -> Seq<char> {
    "| "@ + b.title@ + " | "@ + dec_digits(b.page_count as nat) + " | "@ + dec_digits(
        b.word_count as nat,
    ) + " |\n"@
}

/// The books table holds one row per book, in order: the rows of two lists
/// of books one after the other are the rows of the first followed by the
/// rows of the second, and a single book gives its own row.
pub proof fn law_book_rows_one_per_book(xs: Seq<BookExport>, ys: Seq<BookExport>, b: BookExport)
    ensures
        book_rows(xs + ys) == book_rows(xs) + book_rows(ys),
        book_rows(seq![b]) == book_table_row(b),
    decreases ys.len(),
{
    assert(seq![b].drop_last() =~= Seq::<BookExport>::empty());
    assert(seq![b].last() == b);
    assert(book_rows(Seq::<BookExport>::empty()) == Seq::<char>::empty());
    assert(book_row(b) == book_table_row(b));
    assert(Seq::<char>::empty() + book_table_row(b) =~= book_table_row(b));
    if ys.len() == 0 {
        assert(xs + ys =~= xs);
        assert(book_rows(xs) + book_rows(ys) =~= book_rows(xs));
    } else {
        law_book_rows_one_per_book(xs, ys.drop_last(), b);
        assert((xs + ys).drop_last() =~= xs + ys.drop_last());
        assert((xs + ys).last() == ys.last());
        assert(book_rows(xs) + (book_rows(ys.drop_last()) + book_row(ys.last())) =~= (book_rows(xs)
            + book_rows(ys.drop_last())) + book_row(ys.last()));
    }
}

/// `x` followed by each of `ps` in turn.
pub open spec fn chain(x: Seq<char>, ps: Seq<Seq<char>>) -> Seq<char>
    decreases ps.len(),
{
    if ps.len() == 0 {
        x
    } else {
        chain(x, ps.drop_last()) + ps.last()
    }
}

proof fn lemma_chain(x: Seq<char>, ps: Seq<Seq<char>>)
    ensures
        chain(x, ps) == x + chain(Seq::empty(), ps),
    decreases ps.len(),
{
    if ps.len() == 0 {
        assert(x + Seq::<char>::empty() =~= x);
    } else {
        lemma_chain(x, ps.drop_last());
        assert(x + chain(Seq::empty(), ps.drop_last()) + ps.last() =~= x + (chain(
            Seq::empty(),
            ps.drop_last(),
        ) + ps.last()));
    }
}

/// The sections after the books table.
pub open spec fn after_books(d: ExportData) -> Seq<Seq<char>> {
    seq!["\n## "@,
        "Characters"@,
        "\n"@,
        entity_rows(d.characters@),
        "\n## "@,
        "Houses"@,
        "\n"@,
        entity_rows(d.houses@),
        "\n## "@,
        "Planets"@,
        "\n"@,
        entity_rows(d.planets@),
        "\n## Glossary\n"@,
        glossary_rows(d.glossary@),
        "\n## Quotes\n"@,
        quote_rows(d.quotes@)
    ]
}

proof fn lemma_markdown_parts(d: ExportData)
    ensures
        spec_render_markdown(d) == chain(
            "## Books\n"@ + "| Title | Pages | Words |\n"@ + "|---|---|---|\n"@ + book_rows(d.books@),
            after_books(d),
        ),
{
    reveal_with_fuel(chain, 17);
    let ps = after_books(d);
    assert(ps.take(16).drop_last() =~= ps.take(15));
    assert(ps.take(15).drop_last() =~= ps.take(14));
    assert(ps.take(14).drop_last() =~= ps.take(13));
    assert(ps.take(13).drop_last() =~= ps.take(12));
    assert(ps.take(12).drop_last() =~= ps.take(11));
    assert(ps.take(11).drop_last() =~= ps.take(10));
    assert(ps.take(10).drop_last() =~= ps.take(9));
    assert(ps.take(9).drop_last() =~= ps.take(8));
    assert(ps.take(8).drop_last() =~= ps.take(7));
    assert(ps.take(7).drop_last() =~= ps.take(6));
    assert(ps.take(6).drop_last() =~= ps.take(5));
    assert(ps.take(5).drop_last() =~= ps.take(4));
    assert(ps.take(4).drop_last() =~= ps.take(3));
    assert(ps.take(3).drop_last() =~= ps.take(2));
    assert(ps.take(2).drop_last() =~= ps.take(1));
    assert(ps.take(1).drop_last() =~= ps.take(0));
    assert(ps.take(16) =~= ps);
}

/// Adding one book to the exported data adds exactly its row to the
/// markdown, after the rows of the books before it, and changes nothing
/// else.
pub proof fn law_markdown_adds_a_row_per_book(d: ExportData, e: ExportData, b: BookExport)
    requires
        e.books@ == d.books@.push(b),
        e.characters@ == d.characters@,
        e.houses@ == d.houses@,
        e.planets@ == d.planets@,
        e.glossary@ == d.glossary@,
        e.quotes@ == d.quotes@,
    ensures
        exists|p: Seq<char>, q: Seq<char>|
            spec_render_markdown(d) == p + q && spec_render_markdown(e) == p + book_table_row(b)
                + q,
{
    law_book_rows_one_per_book(d.books@, seq![b], b);
    assert(d.books@ + seq![b] =~= e.books@);
    let head = "## Books\n"@ + "| Title | Pages | Words |\n"@ + "|---|---|---|\n"@;
    let p = head + book_rows(d.books@);
    let q = chain(Seq::empty(), after_books(d));
    lemma_markdown_parts(d);
    lemma_markdown_parts(e);
    assert(after_books(e) =~= after_books(d));
    lemma_chain(p, after_books(d));
    lemma_chain(head + book_rows(e.books@), after_books(d));
    assert(head + book_rows(e.books@) =~= p + book_table_row(b));
    assert(spec_render_markdown(d) == p + q);
    assert(spec_render_markdown(e) == p + book_table_row(b) + q);
}

} // verus!
