use dune_codex::repository::{LookupKind, SearchResult};
use dune_codex::tui::{
    handle_key_event, ActiveTab, App, CodexCounts, CodexSubTab, KeyAction, KeyCode, KeyInput,
};

fn app() -> App {
    App::new(
        "okular".to_string(),
        Vec::new(),
        vec![
            ("Dune".to_string(), "/b/dune.pdf".to_string(), 412, 1),
            ("Messiah".to_string(), "/b/messiah.pdf".to_string(), 0, 1),
        ],
        CodexCounts::default(),
        None,
        vec!["Alia".to_string(), "Chani".to_string(), "Paul".to_string()],
    )
}

fn key(c: KeyCode) -> KeyInput {
    KeyInput { code: c, ctrl: false }
}

fn hit(id: i64, page: u32) -> SearchResult {
    SearchResult {
        book_id: id,
        book_title: "Dune".to_string(),
        page_number: page,
        content: String::new(),
        highlighted: String::new(),
    }
}

#[test]
fn new_app_starts_on_home_with_silent_oracle() {
    let a = app();
    assert!(a.running);
    assert_eq!(a.active_tab, ActiveTab::Home);
    assert_eq!(a.codex_sub_tab, CodexSubTab::Characters);
    assert_eq!(a.oracle_wisdom.as_deref(), Some("The Oracle is silent."));
    assert_eq!(a.oracle_source, None);
    assert_eq!(a.detail_page_size(), 1);
}

#[test]
fn tab_indices_round_trip() {
    for (i, t) in ActiveTab::all().iter().enumerate() {
        assert_eq!(t.index(), i);
        assert_eq!(ActiveTab::from_index(i), *t);
    }
    assert_eq!(ActiveTab::from_index(99), ActiveTab::Home);
    assert_eq!(ActiveTab::Codex.label(), "Codex");
    assert_eq!(ActiveTab::Stats.key_hint(), "6");
    assert_eq!(CodexSubTab::all().len(), 4);
    assert_eq!(CodexSubTab::Glossary.label(), "Glossary");
}

#[test]
fn next_and_prev_tab_undo_each_other_and_cycle() {
    let mut a = app();
    a.prev_tab();
    assert_eq!(a.active_tab, ActiveTab::Stats);
    a.next_tab();
    assert_eq!(a.active_tab, ActiveTab::Home);
    for _ in 0..6 {
        a.next_tab();
    }
    assert_eq!(a.active_tab, ActiveTab::Home);
}

#[test]
fn codex_sub_tabs_cycle() {
    let mut a = app();
    a.next_codex_sub_tab();
    assert_eq!(a.codex_sub_tab, CodexSubTab::Houses);
    for _ in 0..3 {
        a.next_codex_sub_tab();
    }
    assert_eq!(a.codex_sub_tab, CodexSubTab::Characters);
}

#[test]
fn selection_wraps_and_prev_undoes_next() {
    let mut a = app();
    a.set_tab(ActiveTab::Codex);
    a.select_prev();
    assert_eq!(a.selected_codex_item, 2);
    a.select_next();
    assert_eq!(a.selected_codex_item, 0);
    a.select_next();
    a.select_prev();
    assert_eq!(a.selected_codex_item, 0);
    a.go_to_bottom();
    assert_eq!(a.selected_codex_item, 2);
    a.go_to_top();
    assert_eq!(a.selected_codex_item, 0);
}

#[test]
fn selection_in_an_empty_list_stays() {
    let mut a = app();
    a.set_tab(ActiveTab::Search);
    a.select_next();
    a.go_to_bottom();
    assert_eq!(a.selected_result, 0);
}

#[test]
fn search_input_edits() {
    let mut a = app();
    a.append_search_char('s');
    a.append_search_char('é');
    assert_eq!(a.search_input, "sé");
    a.delete_search_char();
    assert_eq!(a.search_input, "s");
    a.delete_search_char();
    a.delete_search_char();
    assert_eq!(a.search_input, "");
}

#[test]
fn detail_scrolling_stays_in_range() {
    let mut a = app();
    let view = a.sync_detail_view(10, 4);
    assert_eq!((view.offset, view.max_offset, view.visible_end, view.current), (0, 6, 4, 1));
    a.scroll_detail_down(100);
    assert_eq!(a.codex_detail_scroll, 6);
    a.scroll_detail_up(2);
    assert_eq!(a.codex_detail_scroll, 4);
    a.scroll_detail_up(100);
    assert_eq!(a.codex_detail_scroll, 0);
    a.scroll_detail_bottom();
    assert_eq!(a.codex_detail_scroll, 6);
    let view = a.sync_detail_view(3, 0);
    assert_eq!((view.offset, view.max_offset, view.visible_end), (2, 2, 3));
    let empty = a.sync_detail_view(0, 5);
    assert_eq!(empty.current, 0);
    a.close_detail();
    assert_eq!(a.codex_detail_scroll, 0);
}

#[test]
fn keys_switch_tabs_and_quit() {
    let mut a = app();
    assert_eq!(handle_key_event(&mut a, key(KeyCode::Char('4'))), KeyAction::Nothing);
    assert_eq!(a.active_tab, ActiveTab::Codex);
    handle_key_event(&mut a, key(KeyCode::Tab));
    assert_eq!(a.active_tab, ActiveTab::Oracle);
    handle_key_event(&mut a, key(KeyCode::BackTab));
    assert_eq!(a.active_tab, ActiveTab::Codex);
    handle_key_event(&mut a, KeyInput { code: KeyCode::Char('x'), ctrl: true });
    assert!(a.running);
    handle_key_event(&mut a, KeyInput { code: KeyCode::Char('c'), ctrl: true });
    assert!(!a.running);
}

#[test]
fn enter_asks_for_the_right_work() {
    let mut a = app();
    assert_eq!(handle_key_event(&mut a, key(KeyCode::Enter)), KeyAction::Nothing);
    assert_eq!(a.active_tab, ActiveTab::Library);
    assert_eq!(handle_key_event(&mut a, key(KeyCode::Enter)), KeyAction::OpenSelectedBook);
    assert_eq!(a.selected_book_target(), Some(("/b/dune.pdf".to_string(), Some(412))));
    a.select_next();
    assert_eq!(a.selected_book_target(), Some(("/b/messiah.pdf".to_string(), None)));
    a.set_tab(ActiveTab::Codex);
    assert_eq!(handle_key_event(&mut a, key(KeyCode::Enter)), KeyAction::ShowCodexDetail);
    let (kind, name) = a.codex_lookup().unwrap();
    assert_eq!((kind, name.as_str()), (LookupKind::Character, "Alia"));
    a.set_codex_detail(None);
    assert_eq!(a.codex_detail.as_deref(), Some("No details available."));
    a.set_tab(ActiveTab::Oracle);
    assert_eq!(handle_key_event(&mut a, key(KeyCode::Enter)), KeyAction::RefreshOracle);
    assert_eq!(handle_key_event(&mut a, key(KeyCode::Char('r'))), KeyAction::RefreshOracle);
    a.set_oracle(Some(("Fear is the mind-killer.".to_string(), Some("Paul".to_string()))));
    assert_eq!(a.oracle_wisdom.as_deref(), Some("Fear is the mind-killer."));
}

#[test]
fn escape_closes_detail_then_clears_search_then_quits() {
    let mut a = app();
    a.set_tab(ActiveTab::Codex);
    a.set_codex_detail(Some("Alia\n\nSister".to_string()));
    handle_key_event(&mut a, key(KeyCode::Esc));
    assert_eq!(a.codex_detail, None);
    a.set_tab(ActiveTab::Search);
    handle_key_event(&mut a, key(KeyCode::Char('s')));
    assert_eq!(a.search_input, "s");
    handle_key_event(&mut a, key(KeyCode::Esc));
    assert_eq!(a.search_input, "");
    assert!(a.running);
    handle_key_event(&mut a, key(KeyCode::Char('q')));
    assert_eq!(a.active_tab, ActiveTab::Search);
    assert!(!a.running);
}

#[test]
fn typing_searches_and_backspace_clears() {
    let mut a = app();
    a.set_tab(ActiveTab::Search);
    assert_eq!(handle_key_event(&mut a, key(KeyCode::Char('s'))), KeyAction::Search);
    assert_eq!(handle_key_event(&mut a, key(KeyCode::Char('g'))), KeyAction::Search);
    assert_eq!(a.search_input, "sg");
    a.apply_search("sg", vec![hit(3, 7), hit(4, 0)]);
    assert_eq!(a.selected_result, 0);
    assert_eq!(handle_key_event(&mut a, key(KeyCode::Enter)), KeyAction::OpenSearchResult);
    assert_eq!(a.selected_result_target(), Some((3, Some(7))));
    assert_eq!(handle_key_event(&mut a, key(KeyCode::Backspace)), KeyAction::Search);
    assert_eq!(handle_key_event(&mut a, key(KeyCode::Backspace)), KeyAction::Nothing);
    assert_eq!(a.search_input, "");
    assert!(a.search_results.is_empty());
}

#[test]
fn codex_keys_switch_category_and_scroll_the_detail() {
    let mut a = app();
    a.set_tab(ActiveTab::Codex);
    assert_eq!(
        handle_key_event(&mut a, key(KeyCode::Char('c'))),
        KeyAction::LoadCodexItems(LookupKind::House)
    );
    assert!(a.codex_items.is_empty());
    a.set_codex_items(vec!["House Atreides".to_string()]);
    a.set_codex_detail(Some("text".to_string()));
    a.sync_detail_view(20, 5);
    handle_key_event(&mut a, key(KeyCode::Char('j')));
    assert_eq!(a.codex_detail_scroll, 1);
    handle_key_event(&mut a, key(KeyCode::PageDown));
    assert_eq!(a.codex_detail_scroll, 6);
    handle_key_event(&mut a, key(KeyCode::Char('G')));
    assert_eq!(a.codex_detail_scroll, 15);
    handle_key_event(&mut a, key(KeyCode::PageUp));
    assert_eq!(a.codex_detail_scroll, 10);
    handle_key_event(&mut a, key(KeyCode::Char('g')));
    assert_eq!(a.codex_detail_scroll, 0);
    assert_eq!(handle_key_event(&mut a, key(KeyCode::Char('c'))), KeyAction::Nothing);
}

#[test]
fn every_letter_of_a_search_can_be_typed() {
    let mut a = app();
    a.set_tab(ActiveTab::Search);
    for ch in "spice jk".chars() {
        assert_eq!(handle_key_event(&mut a, key(KeyCode::Char(ch))), KeyAction::Search);
    }
    assert_eq!(a.search_input, "spice jk");
    assert_eq!(handle_key_event(&mut a, key(KeyCode::Char('r'))), KeyAction::Search);
    assert_eq!(a.search_input, "spice jkr");
    assert_eq!(a.active_tab, ActiveTab::Search);
    assert!(a.running);
}

#[test]
fn c_and_r_keep_their_meaning_off_the_search_tab() {
    let mut a = app();
    a.set_tab(ActiveTab::Oracle);
    assert_eq!(handle_key_event(&mut a, key(KeyCode::Char('r'))), KeyAction::RefreshOracle);
    a.set_tab(ActiveTab::Library);
    assert_eq!(handle_key_event(&mut a, key(KeyCode::Char('c'))), KeyAction::Nothing);
    assert_eq!(a.search_input, "");
}

#[test]
fn arrows_move_through_search_results() {
    let mut a = app();
    a.set_tab(ActiveTab::Search);
    a.apply_search("spice", vec![hit(1, 1), hit(2, 2)]);
    assert_eq!(handle_key_event(&mut a, key(KeyCode::Down)), KeyAction::Nothing);
    assert_eq!(a.selected_result, 1);
    assert_eq!(handle_key_event(&mut a, key(KeyCode::Up)), KeyAction::Nothing);
    assert_eq!(a.selected_result, 0);
}
