use dune_codex::config::Config;
use dune_codex::export::{
    render_markdown, BookExport, EntityExport, ExportData, GlossaryExport, QuoteExport,
};

fn empty_data() -> ExportData {
    ExportData {
        books: vec![],
        characters: vec![],
        houses: vec![],
        planets: vec![],
        glossary: vec![],
        quotes: vec![],
    }
}

fn populated_data() -> ExportData {
    ExportData {
        books: vec![BookExport {
            title: "Dune".to_string(),
            file_path: "/tmp/dune.pdf".to_string(),
            page_count: 412,
            word_count: 200000,
        }],
        characters: vec![EntityExport {
            name: "Paul Atreides".to_string(),
            description: Some("Duke of Arrakis".to_string()),
            source: Some("builtin".to_string()),
            source_url: None,
        }],
        houses: vec![],
        planets: vec![],
        glossary: vec![],
        quotes: vec![QuoteExport {
            text: "Fear is the mind-killer.".to_string(),
            attribution: Some("Paul Atreides".to_string()),
            book_title: Some("Dune".to_string()),
            source: Some("builtin".to_string()),
        }],
    }
}

#[test]
fn render_markdown_empty_data_produces_empty_sections() {
    let md = render_markdown(&empty_data());
    assert!(md.contains("## Books"));
    assert!(md.contains("| Title | Pages | Words |"));
    assert!(md.contains("## Characters"));
    assert!(md.contains("## Houses"));
    assert!(md.contains("## Planets"));
    assert!(md.contains("## Glossary"));
    assert!(md.contains("## Quotes"));
    assert!(!md.contains("| Dune |"));
    assert!(!md.contains("- Paul Atreides"));
    assert!(!md.contains("Fear is the mind-killer."));
}

#[test]
fn render_markdown_populated_data_renders_table_and_lists() {
    let md = render_markdown(&populated_data());
    assert!(md.contains("| Dune | 412 | 200000 |"));
    assert!(md.contains("- Paul Atreides — Duke of Arrakis"));
    assert!(md.contains("- \"Fear is the mind-killer.\" — Paul Atreides (Dune)"));
}

#[test]
fn default_config_is_valid() {
    let config = Config::default();
    assert_eq!(config.library.paths.len(), 1);
    assert_eq!(config.reader.command, "okular");
}

#[test]
fn resolve_library_paths_expands_tilde() {
    let mut config = Config::default();
    config.library.paths = vec!["~/Books/Dune".to_string()];
    let paths = config.resolve_library_paths();
    assert_eq!(paths.len(), 1);
    assert!(!paths[0].to_string_lossy().contains('~'));
}

// -- further cases --------------------------------------------------------

#[test]
fn render_markdown_exact_document() {
    let mut data = empty_data();
    data.glossary.push(GlossaryExport {
        term: "Melange".to_string(),
        definition: None,
        source: None,
        source_url: None,
    });
    data.quotes.push(QuoteExport {
        text: "Hope clouds observation.".to_string(),
        attribution: None,
        book_title: None,
        source: None,
    });
    assert_eq!(
        render_markdown(&data),
        "## Books\n| Title | Pages | Words |\n|---|---|---|\n\n## Characters\n\n## Houses\n\n\
         ## Planets\n\n## Glossary\n- Melange — \n\n## Quotes\n- \"Hope clouds observation.\" — \n"
    );
}

#[test]
fn default_config_values() {
    let config = Config::default();
    assert_eq!(config.library.paths, vec!["~/Books/Dune".to_string()]);
    assert!(config.reader.args.is_empty());
    assert_eq!(config.codex.wiki_url, "https://dune-api-production.up.railway.app");
}

#[test]
fn paths_without_a_leading_tilde_are_kept() {
    let mut config = Config::default();
    config.library.paths = vec!["/srv/books".to_string(), "~user/x".to_string(), "a~b".to_string()];
    assert_eq!(
        config.expanded_library_paths(),
        vec!["/srv/books".to_string(), "~user/x".to_string(), "a~b".to_string()]
    );
}

#[test]
fn home_relative_path_ends_with_its_rest() {
    let mut config = Config::default();
    config.library.paths = vec!["~/Books/Dune".to_string()];
    let expanded = config.expanded_library_paths();
    assert!(expanded[0].ends_with("/Books/Dune"));
}

#[test]
fn library_paths_keep_their_order_and_plain_text() {
    let mut config = Config::default();
    config.library.paths = vec!["/srv/books".to_string(), "relative/dir".to_string()];
    let paths = config.resolve_library_paths();
    assert_eq!(
        paths,
        vec![std::path::PathBuf::from("/srv/books"), std::path::PathBuf::from("relative/dir")]
    );
    let texts = vec!["x/y".to_string()];
    assert_eq!(
        dune_codex::config::paths_from_texts(&texts),
        vec![std::path::PathBuf::from("x/y")]
    );
}
