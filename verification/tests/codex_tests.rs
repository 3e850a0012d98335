use dune_codex::oracle::wisdom_from;
use dune_codex::repository::{
    entity_sql, fts_query, like_pattern, list_names_sql, search_sql, LookupKind,
};
use dune_codex::tui::{ActiveTab, CodexSubTab};
use dune_codex::views::{
    detail_line, footer_hint, search_snippet, split_profile_field, sub_tab_title, tab_bar_label,
    DetailLine,
};
use dune_codex::wiki::{
    builtin_quote_sql, builtin_quotes, character_terms, entity_text_supported, glossary_terms,
    house_terms, import_row, planet_terms, term_display_name, WikiKind, WikiResponse,
};

#[test]
fn fts_query_quotes_sanitized_words() {
    assert_eq!(fts_query("spice must-flow!").as_deref(), Some("\"spice\" AND \"mustflow\""));
    assert_eq!(fts_query("  ?! "), None);
    assert_eq!(fts_query("Muad_Dib  Ñandú").as_deref(), Some("\"Muad_Dib\" AND \"Ñandú\""));
}

#[test]
fn search_sql_has_the_filter_only_when_asked() {
    assert!(search_sql(true).contains(" AND LOWER(b.title) LIKE ?3 ORDER BY rank LIMIT ?2"));
    assert!(!search_sql(false).contains("LIKE"));
    assert!(search_sql(false).ends_with("WHERE pages_fts MATCH ?1 ORDER BY rank LIMIT ?2"));
}

#[test]
fn like_pattern_lowercases() {
    assert_eq!(like_pattern("Messiah"), "%messiah%");
}

#[test]
fn lookup_kinds_name_their_tables() {
    assert_eq!(LookupKind::Glossary.name_column(), "term");
    assert_eq!(LookupKind::House.table_info().0, "houses");
    assert_eq!(
        entity_sql(LookupKind::Glossary),
        "SELECT term || '\n\n' || definition FROM glossary WHERE LOWER(term) LIKE ?1 LIMIT 1"
    );
    assert_eq!(list_names_sql(LookupKind::Planet), "SELECT name FROM planets ORDER BY name");
}

#[test]
fn oracle_prefers_quotes_then_glossary() {
    let q = Some(("Fear".to_string(), Some("Paul".to_string()), Some("Dune".to_string())));
    let e = Some(("Melange".to_string(), "The spice of Arrakis".to_string()));
    assert_eq!(wisdom_from(q, e.clone()), Some(("Fear".to_string(), Some("Paul".to_string()))));
    assert_eq!(wisdom_from(None, e), Some(("Melange: The spice of Arrakis".to_string(), None)));
    assert_eq!(wisdom_from(None, None), None);
}

#[test]
fn profile_rows_split_into_label_and_value() {
    assert_eq!(
        split_profile_field("Born: 10176 AG · Caladan"),
        Some(("Born".to_string(), "10176 AG · Caladan".to_string()))
    );
    assert_eq!(split_profile_field("lower: case"), None);
    assert_eq!(split_profile_field(": x"), None);
    assert_eq!(split_profile_field("A very long label that goes on: x"), None);
    assert_eq!(split_profile_field("Note, see: this"), None);
    assert_eq!(split_profile_field("no separator"), None);
}

#[test]
fn detail_lines_are_classified() {
    match detail_line("## Profile") {
        DetailLine::Header(h) => assert_eq!(h, "PROFILE"),
        _ => panic!("expected a header"),
    }
    match detail_line("Aliases: Usul") {
        DetailLine::Field(l, v) => assert_eq!((l.as_str(), v.as_str()), ("Aliases", "Usul")),
        _ => panic!("expected a field"),
    }
    match detail_line("plain text") {
        DetailLine::Plain(t) => assert_eq!(t, "plain text"),
        _ => panic!("expected plain text"),
    }
}

#[test]
fn search_snippet_cuts_at_120_characters() {
    let (segs, cut) = search_snippet("  the >>>spice<<< flows  ");
    assert!(!cut);
    assert_eq!(segs.len(), 3);
    let long = "x".repeat(130);
    let (segs, cut) = search_snippet(&long);
    assert!(cut);
    assert_eq!(segs[0].text.chars().count(), 120);
}

#[test]
fn labels_and_hints() {
    assert_eq!(tab_bar_label(ActiveTab::Search), " 3:Search ");
    assert_eq!(sub_tab_title(CodexSubTab::Houses, CodexSubTab::Houses), " ● Houses ");
    assert_eq!(sub_tab_title(CodexSubTab::Planets, CodexSubTab::Houses), " ○ Planets ");
    assert_eq!(footer_hint(ActiveTab::Codex, true), "  [Esc/q] back  [j/k] scroll");
    assert_eq!(footer_hint(ActiveTab::Stats, false), "  [Tab] next  [q] home");
}

#[test]
fn wiki_kinds_and_terms() {
    assert_eq!(
        WikiKind::glossary().insert_sql(),
        "INSERT OR REPLACE INTO glossary (term, definition, source, source_url)\n                         VALUES (?1, ?2, 'wiki', ?3)"
    );
    assert_eq!(character_terms().len(), 30);
    assert_eq!(house_terms()[0], "house_atreides");
    assert_eq!(planet_terms().len(), 12);
    assert_eq!(glossary_terms()[14], "CHOAM");
    assert_eq!(builtin_quotes().len(), 17);
    assert!(builtin_quote_sql().starts_with("INSERT OR IGNORE INTO quotes"));
    assert_eq!(term_display_name(" paul_atreides "), "paul atreides");
}

#[test]
fn import_rows_skip_short_descriptions() {
    let short = WikiResponse { description: "short".to_string(), wiki: "u".to_string() };
    assert!(import_row("tiny", &short).is_none());
    let resp = WikiResponse {
        description: "A detailed entry about the term test_term_one.".to_string(),
        wiki: "https://stub.local/dune/test_term_one".to_string(),
    };
    let row = import_row("test_term_one", &resp).unwrap();
    assert_eq!(row.name, "test term one");
    assert_eq!(row.source_url, "https://stub.local/dune/test_term_one");
    assert!(row.description.contains("test_term_one"));
}

#[test]
fn entity_text_support_matches_the_cleanup() {
    assert!(entity_text_supported("plain ascii"));
    assert!(entity_text_supported("línea\ncon acentos"));
    assert!(!entity_text_supported("una línea"));
}
