# Dune Terminal Codex

An encyclopedia of the Dune universe for the terminal: a full-text index of
your own PDF library, a codex of characters, houses, planets and glossary
terms imported from a Dune wiki, and an Oracle that hands out quotes.

The core is written in Verus and proved correct against its contracts:

| Module            | What it holds                                                    |
|-------------------|------------------------------------------------------------------|
| `src/text.rs`     | character-level string model: words, trimming, lines, searching  |
| `src/util.rs`     | number formatting, word wrap, snippets and highlight markers, the Oracle box |
| `src/clean.rs`    | cleanup of multi-line wiki text                                  |
| `src/profile.rs`  | parsing of the glued single-line wiki format into a profile and paragraphs |
| `src/pdf.rs`      | repair of text extracted from PDF pages, word counts, `pdfinfo` output |
| `src/metadata.rs` | book titles guessed from file names                              |
| `src/export.rs`   | the markdown export                                              |
| `src/config.rs`   | configuration and its defaults                                   |
| `src/repository.rs` | the full-text query, SQL statements and search results         |
| `src/tui.rs`      | the state of the terminal UI and its key handler                 |
| `src/views.rs`    | what each screen shows                                           |
| `src/wiki.rs`     | what the codex import fetches and stores                         |
| `src/oracle.rs`   | the Oracle's choice of wisdom                                    |
| `src/indexer.rs`  | tallies of an indexing run                                       |
| `src/events.rs`   | the poll interval of the terminal event loop                      |
| `src/resolver.rs` | folding of `.` and `..` out of a stored book path                 |

`app/` is the `dune` program around it: the command line, SQLite, the PDF
tools, the wiki client and the ratatui screens. `tests/` exercises the
library.
