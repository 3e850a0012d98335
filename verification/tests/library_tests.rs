use dune_codex::indexer::IndexResult;
use dune_codex::metadata::{book_title_from_stem, guess_book_title};
use dune_codex::pdf::{fix_extracted_text, parse_u32_chars, pdf_info_from_output, word_count};
use std::path::PathBuf;

#[test]
fn merges_hyphenated_line_breaks() {
    assert_eq!(
        fix_extracted_text("the navigation-\nmachines of the Guild"),
        "the navigationmachines of the Guild"
    );
}

#[test]
fn merges_chained_hyphen_breaks() {
    assert_eq!(fix_extracted_text("axlotl-\ntanks"), "axlotltanks");
}

#[test]
fn keeps_hyphen_when_next_line_starts_uppercase() {
    assert_eq!(fix_extracted_text("Dune-\nMessiah"), "Dune-\nMessiah");
}

#[test]
fn keeps_intra_line_hyphens_untouched() {
    assert_eq!(fix_extracted_text("mind-killer"), "mind-killer");
}

#[test]
fn removes_soft_hyphens() {
    assert_eq!(fix_extracted_text("naviga\u{AD}-\ntion"), "navigation");
}

#[test]
fn fix_is_idempotent() {
    let raw = "naviga-\ntion\nplain text stays-\nalone here";
    let once = fix_extracted_text(raw);
    assert_eq!(once, fix_extracted_text(&once));
}

#[test]
fn index_result_defaults() {
    let result = IndexResult { books_indexed: 0, pages_indexed: 0, errors: Vec::new() };
    assert_eq!(result.books_indexed, 0);
    assert!(result.errors.is_empty());
}

#[test]
fn guess_title_from_filename() {
    let path = PathBuf::from("/books/Dune.pdf");
    assert_eq!(guess_book_title(&path), "Dune");
}

#[test]
fn guess_title_with_subdirectory() {
    let path = PathBuf::from("/books/Dune Messiah.pdf");
    assert_eq!(guess_book_title(&path), "Dune Messiah");
}

#[test]
fn guess_title_with_underscores() {
    let path = PathBuf::from("/books/Children_of_Dune.pdf");
    assert_eq!(guess_book_title(&path), "Children of Dune");
}

#[test]
fn guess_title_preserves_articles() {
    let path = PathBuf::from("/books/The_Dune_Encyclopedia.pdf");
    assert_eq!(guess_book_title(&path), "The Dune Encyclopedia");
}

// -- further cases --------------------------------------------------------

#[test]
fn fix_trims_line_ends_and_keeps_line_breaks() {
    assert_eq!(fix_extracted_text("spice   \nflow\t"), "spice\nflow");
    assert_eq!(fix_extracted_text(""), "");
    assert_eq!(fix_extracted_text("a\r\nb"), "a\nb");
}

#[test]
fn fix_twice_changes_nothing_on_clean_text() {
    let raw = "He-\nretic of\nDune-\nMessiah";
    let once = fix_extracted_text(raw);
    assert_eq!(once, "Heretic of\nDune-\nMessiah");
    assert_eq!(fix_extracted_text(&once), once);
}

#[test]
fn fix_twice_changes_nothing_on_awkward_text() {
    for raw in ["a\n\n", "a \u{AD}", "a-\n-\nb", "spice \u{AD}\n\n\n", "x-\n-\n-\ny"] {
        let once = fix_extracted_text(raw);
        assert_eq!(fix_extracted_text(&once), once);
    }
}

#[test]
fn fix_drops_trailing_blank_lines_and_spaces_before_soft_hyphens() {
    assert_eq!(fix_extracted_text("a\n\n"), "a");
    assert_eq!(fix_extracted_text("a \u{AD}"), "a");
    assert_eq!(fix_extracted_text("a\n\nb"), "a\n\nb");
}

#[test]
fn fix_joins_through_a_line_that_is_a_lone_hyphen() {
    assert_eq!(fix_extracted_text("a-\n-\nb"), "ab");
}

#[test]
fn word_count_counts_whitespace_separated_words() {
    assert_eq!(word_count("The spice  must\nflow"), 4);
    assert_eq!(word_count("   "), 0);
}

#[test]
fn pdfinfo_output_gives_pages_and_title() {
    let out = "Title:          Dune\nAuthor:         Frank Herbert\nPages:          412\n";
    let info = pdf_info_from_output(out);
    assert_eq!(info.page_count, 412);
    assert_eq!(info.title.as_deref(), Some("Dune"));
}

#[test]
fn pdfinfo_output_without_fields_gives_defaults() {
    let info = pdf_info_from_output("Title:    \nPages: many\n");
    assert_eq!(info.page_count, 0);
    assert_eq!(info.title, None);
    let none = pdf_info_from_output("");
    assert_eq!(none.page_count, 0);
    assert_eq!(none.title, None);
}

#[test]
fn parse_u32_follows_str_parse() {
    for s in ["0", "+7", "4294967295", "4294967296", "", "+", "-1", "12a", "007"] {
        let chars: Vec<char> = s.chars().collect();
        assert_eq!(parse_u32_chars(&chars), s.parse::<u32>().ok(), "input {:?}", s);
    }
}

#[test]
fn title_from_missing_stem_is_unknown() {
    assert_eq!(book_title_from_stem(None), "Unknown");
    assert_eq!(book_title_from_stem(Some("the-god_emperor OF dune")), "The God Emperor of Dune");
    assert_eq!(guess_book_title(&PathBuf::from("/")), "Unknown");
}

#[test]
fn index_result_records_books_and_errors() {
    let mut r = IndexResult::new();
    r.record_book(10);
    r.record_book(5);
    r.record_error("missing".to_string());
    assert_eq!(r.books_indexed, 2);
    assert_eq!(r.pages_indexed, 15);
    assert_eq!(r.errors, vec!["missing".to_string()]);
}
