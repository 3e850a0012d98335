//! The state of the terminal UI and its transitions: tabs, list
//! selections, the search box, the codex detail view and its scrolling,
//! and the key handler. Screen drawing and database work stay outside; the
//! key handler tells the caller which of that work a key asks for.

use vstd::prelude::*;
use std::path::PathBuf;
use crate::repository::{LookupKind, SearchResult};
use crate::text::{chars_of, push_char, slice_chars, string_of};

verus! {

#[verifier::external_type_specification]
#[verifier::external_body]
pub struct ExPathBuf(PathBuf);

// ---------------------------------------------------------------------------
// Tabs
// ---------------------------------------------------------------------------

#[derive(Debug, Clone, Copy, PartialEq, Eq, Structural)]
pub enum ActiveTab {
    Home,
    Library,
    Search,
    Codex,
    Oracle,
    Stats,
}

#[derive(Debug, Clone, Copy, PartialEq, Eq, Structural)]
pub enum CodexSubTab {
    Characters,
    Houses,
    Planets,
    Glossary,
}

/// The tabs in display order.
pub open spec fn all_tabs() -> Seq<ActiveTab> {
    seq![
        ActiveTab::Home,
        ActiveTab::Library,
        ActiveTab::Search,
        ActiveTab::Codex,
        ActiveTab::Oracle,
        ActiveTab::Stats,
    ]
}

/// Position of a tab in [`all_tabs`].
pub open spec fn tab_index(t: ActiveTab) -> nat {
    match t {
        ActiveTab::Home => 0,
        ActiveTab::Library => 1,
        ActiveTab::Search => 2,
        ActiveTab::Codex => 3,
        ActiveTab::Oracle => 4,
        ActiveTab::Stats => 5,
    }
}

/// The tab at position `i`; `Home` past the end.
pub open spec fn tab_at(i: int) -> ActiveTab {
    if 0 <= i < 6 {
        all_tabs()[i]
    } else {
        ActiveTab::Home
    }
}

pub open spec fn tab_label(t: ActiveTab) -> Seq<char> {
    match t {
        ActiveTab::Home => "Home"@,
        ActiveTab::Library => "Library"@,
        ActiveTab::Search => "Search"@,
        ActiveTab::Codex => "Codex"@,
        ActiveTab::Oracle => "Oracle"@,
        ActiveTab::Stats => "Stats"@,
    }
}

/// The key that selects a tab.
pub open spec fn tab_key(t: ActiveTab) -> Seq<char> {
    match t {
        ActiveTab::Home => "1"@,
        ActiveTab::Library => "2"@,
        ActiveTab::Search => "3"@,
        ActiveTab::Codex => "4"@,
        ActiveTab::Oracle => "5"@,
        ActiveTab::Stats => "6"@,
    }
}

impl ActiveTab {
    pub fn all() -> (r: &'static [ActiveTab])
        ensures
            r@ == all_tabs(),
    {
        let r: &'static [ActiveTab] = &[
            ActiveTab::Home,
            ActiveTab::Library,
            ActiveTab::Search,
            ActiveTab::Codex,
            ActiveTab::Oracle,
            ActiveTab::Stats,
        ];
        assert(r@ =~= all_tabs());
        r
    }

    pub fn index(&self) -> (r: usize)
        ensures
            r == tab_index(*self),
    {
        match self {
            ActiveTab::Home => 0,
            ActiveTab::Library => 1,
            ActiveTab::Search => 2,
            ActiveTab::Codex => 3,
            ActiveTab::Oracle => 4,
            ActiveTab::Stats => 5,
        }
    }

    pub fn from_index(i: usize) -> (r: ActiveTab)
        ensures
            r == tab_at(i as int),
    {
        match i {
            0 => ActiveTab::Home,
            1 => ActiveTab::Library,
            2 => ActiveTab::Search,
            3 => ActiveTab::Codex,
            4 => ActiveTab::Oracle,
            5 => ActiveTab::Stats,
            _ => ActiveTab::Home,
        }
    }

    pub fn label(&self) -> (r: &'static str)
        ensures
            r@ == tab_label(*self),
    {
        match self {
            ActiveTab::Home => "Home",
            ActiveTab::Library => "Library",
            ActiveTab::Search => "Search",
            ActiveTab::Codex => "Codex",
            ActiveTab::Oracle => "Oracle",
            ActiveTab::Stats => "Stats",
        }
    }

    pub fn key_hint(&self) -> (r: &'static str)
        ensures
            r@ == tab_key(*self),
    {
        match self {
            ActiveTab::Home => "1",
            ActiveTab::Library => "2",
            ActiveTab::Search => "3",
            ActiveTab::Codex => "4",
            ActiveTab::Oracle => "5",
            ActiveTab::Stats => "6",
        }
    }
}

/// The codex categories in display order.
pub open spec fn all_sub_tabs() -> Seq<CodexSubTab> {
    seq![CodexSubTab::Characters, CodexSubTab::Houses, CodexSubTab::Planets, CodexSubTab::Glossary]
}

pub open spec fn sub_tab_index(t: CodexSubTab) -> nat {
    match t {
        CodexSubTab::Characters => 0,
        CodexSubTab::Houses => 1,
        CodexSubTab::Planets => 2,
        CodexSubTab::Glossary => 3,
    }
}

pub open spec fn sub_tab_label(t: CodexSubTab) -> Seq<char> {
    match t {
        CodexSubTab::Characters => "Characters"@,
        CodexSubTab::Houses => "Houses"@,
        CodexSubTab::Planets => "Planets"@,
        CodexSubTab::Glossary => "Glossary"@,
    }
}

/// The lookup table behind a codex category.
pub open spec fn sub_tab_kind(t: CodexSubTab) -> LookupKind {
    match t {
        CodexSubTab::Characters => LookupKind::Character,
        CodexSubTab::Houses => LookupKind::House,
        CodexSubTab::Planets => LookupKind::Planet,
        CodexSubTab::Glossary => LookupKind::Glossary,
    }
}

impl CodexSubTab {
    pub fn all() -> (r: &'static [CodexSubTab])
        ensures
            r@ == all_sub_tabs(),
    {
        let r: &'static [CodexSubTab] = &[
            CodexSubTab::Characters,
            CodexSubTab::Houses,
            CodexSubTab::Planets,
            CodexSubTab::Glossary,
        ];
        assert(r@ =~= all_sub_tabs());
        r
    }

    pub fn label(&self) -> (r: &'static str)
        ensures
            r@ == sub_tab_label(*self),
    {
        match self {
            CodexSubTab::Characters => "Characters",
            CodexSubTab::Houses => "Houses",
            CodexSubTab::Planets => "Planets",
            CodexSubTab::Glossary => "Glossary",
        }
    }

    /// The lookup table whose names this category lists.
    pub fn lookup_kind(&self) -> (r: LookupKind)
        ensures
            r == sub_tab_kind(*self),
    {
        match self {
            CodexSubTab::Characters => LookupKind::Character,
            CodexSubTab::Houses => LookupKind::House,
            CodexSubTab::Planets => LookupKind::Planet,
            CodexSubTab::Glossary => LookupKind::Glossary,
        }
    }
}

/// Row counts of the codex tables.
#[derive(Debug, Clone, Copy, PartialEq, Eq, Default)]
pub struct CodexCounts {
    pub characters: u64,
    pub houses: u64,
    pub planets: u64,
    pub glossary: u64,
    pub quotes: u64,
}

} // verus!

verus! {

// ---------------------------------------------------------------------------
// Application state
// ---------------------------------------------------------------------------

pub struct App {
    pub running: bool,
    pub active_tab: ActiveTab,
    pub codex_sub_tab: CodexSubTab,
    /// PDF viewer command from `[reader]` in the config.
    pub reader_command: String,
    /// Folders where indexed PDFs live, from `[library] paths` in the config.
    pub library_paths: Vec<PathBuf>,
    /// `(title, file_path, page_count, word_count)` of every book.
    pub books: Vec<(String, String, u32, u32)>,
    pub selected_book: usize,
    pub search_input: String,
    pub search_results: Vec<SearchResult>,
    pub selected_result: usize,
    pub codex_items: Vec<String>,
    pub selected_codex_item: usize,
    pub codex_detail: Option<String>,
    pub codex_counts: CodexCounts,
    /// Scroll offset of the codex detail view (display lines).
    pub codex_detail_scroll: usize,
    /// Total wrapped display lines of the current detail.
    pub codex_detail_total: usize,
    /// Viewport height (inner rows) of the detail view.
    pub codex_viewport_height: u16,
    pub oracle_wisdom: Option<String>,
    pub oracle_source: Option<String>,
}

/// What the Oracle shows when it has nothing to say.
pub open spec fn silent_oracle() -> Seq<char> {
    "The Oracle is silent."@
}

/// Every selection in a non-empty list points into it, and the detail
/// scroll offset is within the scrollable range.
pub open spec fn app_wf(a: App) -> bool {
    &&& (a.books@.len() > 0 ==> a.selected_book < a.books@.len())
    &&& (a.search_results@.len() > 0 ==> a.selected_result < a.search_results@.len())
    &&& (a.codex_items@.len() > 0 ==> a.selected_codex_item < a.codex_items@.len())
    &&& a.codex_detail_scroll <= max_detail_offset(a)
}

/// Rows shown per page of the detail view (at least one).
pub open spec fn page_size(a: App) -> nat {
    if a.codex_viewport_height >= 1 {
        a.codex_viewport_height as nat
    } else {
        1
    }
}

/// Largest scroll offset: the lines that do not fit on one page.
pub open spec fn max_detail_offset(a: App) -> nat {
    if a.codex_detail_total >= page_size(a) {
        (a.codex_detail_total - page_size(a)) as nat
    } else {
        0
    }
}

/// The next position in a cyclic list of `len` items.
pub open spec fn cycle_next(sel: usize, len: nat) -> usize {
    ((sel + 1) % (len as int)) as usize
}

/// The previous position in a cyclic list of `len` items.
pub open spec fn cycle_prev(sel: usize, len: nat) -> usize {
    ((sel + len - 1) % (len as int)) as usize
}

pub open spec fn spec_next_tab(a: App) -> App {
    App { active_tab: tab_at(((tab_index(a.active_tab) + 1) % 6) as int), ..a }
}

pub open spec fn spec_prev_tab(a: App) -> App {
    App { active_tab: tab_at(((tab_index(a.active_tab) + 6 - 1) % 6) as int), ..a }
}

pub open spec fn spec_next_codex_sub_tab(a: App) -> App {
    App { codex_sub_tab: all_sub_tabs()[((sub_tab_index(a.codex_sub_tab) + 1) % 4) as int], ..a }
}

/// Moves the selection of the current tab's list one down, wrapping.
pub open spec fn spec_select_next(a: App) -> App {
    match a.active_tab {
        ActiveTab::Library => if a.books@.len() > 0 {
            App { selected_book: cycle_next(a.selected_book, a.books@.len()), ..a }
        } else {
            a
        },
        ActiveTab::Search => if a.search_results@.len() > 0 {
            App { selected_result: cycle_next(a.selected_result, a.search_results@.len()), ..a }
        } else {
            a
        },
        ActiveTab::Codex => if a.codex_items@.len() > 0 {
            App { selected_codex_item: cycle_next(a.selected_codex_item, a.codex_items@.len()), ..a }
        } else {
            a
        },
        _ => a,
    }
}

/// Moves the selection of the current tab's list one up, wrapping.
pub open spec fn spec_select_prev(a: App) -> App {
    match a.active_tab {
        ActiveTab::Library => if a.books@.len() > 0 {
            App { selected_book: cycle_prev(a.selected_book, a.books@.len()), ..a }
        } else {
            a
        },
        ActiveTab::Search => if a.search_results@.len() > 0 {
            App { selected_result: cycle_prev(a.selected_result, a.search_results@.len()), ..a }
        } else {
            a
        },
        ActiveTab::Codex => if a.codex_items@.len() > 0 {
            App { selected_codex_item: cycle_prev(a.selected_codex_item, a.codex_items@.len()), ..a }
        } else {
            a
        },
        _ => a,
    }
}

pub open spec fn spec_go_to_top(a: App) -> App {
    match a.active_tab {
        ActiveTab::Library => App { selected_book: 0, ..a },
        ActiveTab::Search => App { selected_result: 0, ..a },
        ActiveTab::Codex => App { selected_codex_item: 0, ..a },
        _ => a,
    }
}

pub open spec fn spec_go_to_bottom(a: App) -> App {
    match a.active_tab {
        ActiveTab::Library => if a.books@.len() > 0 {
            App { selected_book: (a.books@.len() - 1) as usize, ..a }
        } else {
            a
        },
        ActiveTab::Search => if a.search_results@.len() > 0 {
            App { selected_result: (a.search_results@.len() - 1) as usize, ..a }
        } else {
            a
        },
        ActiveTab::Codex => if a.codex_items@.len() > 0 {
            App { selected_codex_item: (a.codex_items@.len() - 1) as usize, ..a }
        } else {
            a
        },
        _ => a,
    }
}

pub open spec fn spec_scroll_detail_down(a: App, lines: usize) -> App {
    let sum = if a.codex_detail_scroll + lines > usize::MAX {
        usize::MAX as int
    } else {
        a.codex_detail_scroll + lines
    };
    let next = if sum < max_detail_offset(a) { sum } else { max_detail_offset(a) as int };
    App { codex_detail_scroll: next as usize, ..a }
}

pub open spec fn spec_scroll_detail_up(a: App, lines: usize) -> App {
    App {
        codex_detail_scroll: if a.codex_detail_scroll >= lines {
            (a.codex_detail_scroll - lines) as usize
        } else {
            0
        },
        ..a
    }
}

/// A position in a list of `len` items after one step down, computed
/// without overflow.
fn step_next(sel: usize, len: usize) -> (r: usize)
    requires
        len > 0,
    ensures
        r == cycle_next(sel, len as nat),
        r < len,
{
    let s = sel % len;
    proof {
        vstd::arithmetic::div_mod::lemma_add_mod_noop(sel as int, 1, len as int);
        vstd::arithmetic::div_mod::lemma_add_mod_noop(s as int, 1, len as int);
        vstd::arithmetic::div_mod::lemma_mod_twice(sel as int, len as int);
        assert((sel + 1) % (len as int) == (s + 1) % (len as int));
    }
    if s + 1 == len {
        proof {
            vstd::arithmetic::div_mod::lemma_mod_self_0(len as int);
        }
        0
    } else {
        assert((s + 1) % (len as int) == s + 1) by {
            vstd::arithmetic::div_mod::lemma_small_mod((s + 1) as nat, len as nat);
        }
        s + 1
    }
}

/// A position in a list of `len` items after one step up, computed
/// without overflow.
fn step_prev(sel: usize, len: usize) -> (r: usize)
    requires
        len > 0,
    ensures
        r == cycle_prev(sel, len as nat),
        r < len,
{
    let s = sel % len;
    proof {
        assert((sel + len - 1) % (len as int) == (s + len - 1) % (len as int)) by {
            vstd::arithmetic::div_mod::lemma_add_mod_noop(sel as int, len - 1, len as int);
            vstd::arithmetic::div_mod::lemma_add_mod_noop(s as int, len - 1, len as int);
            vstd::arithmetic::div_mod::lemma_mod_twice(sel as int, len as int);
        }
    }
    if s == 0 {
        assert((len - 1) % (len as int) == len - 1) by {
            vstd::arithmetic::div_mod::lemma_small_mod((len - 1) as nat, len as nat);
        }
        len - 1
    } else {
        assert((s + len - 1) % (len as int) == s - 1) by {
            vstd::arithmetic::div_mod::lemma_mod_add_multiples_vanish((s - 1) as int, len as int);
            vstd::arithmetic::div_mod::lemma_small_mod((s - 1) as nat, len as nat);
        }
        s - 1
    }
}

} // verus!

verus! {

/// Where the codex detail view is scrolled, as drawn: the first visible
/// line, the largest offset, the end of the visible range, and the 1-based
/// number of the first visible line (0 when there are no lines).
pub struct DetailView {
    pub offset: usize,
    pub max_offset: usize,
    pub visible_end: usize,
    pub current: usize,
}

impl App {
    /// The initial state: Home tab, Characters category, nothing selected,
    /// empty search, no detail open; the Oracle's wisdom, or the silent
    /// Oracle when it had none.
    pub fn new(
        reader_command: String,
        library_paths: Vec<PathBuf>,
        books: Vec<(String, String, u32, u32)>,
        codex_counts: CodexCounts,
        oracle: Option<(String, Option<String>)>,
        codex_items: Vec<String>,
    ) -> (r: App)
        ensures
            r.running,
            r.active_tab == ActiveTab::Home,
            r.codex_sub_tab == CodexSubTab::Characters,
            r.reader_command == reader_command,
            r.library_paths == library_paths,
            r.books == books,
            r.selected_book == 0,
            r.search_input@ == Seq::<char>::empty(),
            r.search_results@.len() == 0,
            r.selected_result == 0,
            r.codex_items == codex_items,
            r.selected_codex_item == 0,
            r.codex_detail is None,
            r.codex_counts == codex_counts,
            r.codex_detail_scroll == 0,
            r.codex_detail_total == 0,
            r.codex_viewport_height == 1,
            match oracle {
                Some((w, s)) => r.oracle_wisdom == Some(w) && r.oracle_source == s,
                None => r.oracle_wisdom matches Some(w) && w@ == silent_oracle()
                    && r.oracle_source is None,
            },
            app_wf(r),
    {
        let (oracle_wisdom, oracle_source) = match oracle {
            Some((w, s)) => (Some(w), s),
            None => (Some(String::from_str("The Oracle is silent.")), None),
        };
        App {
            running: true,
            active_tab: ActiveTab::Home,
            codex_sub_tab: CodexSubTab::Characters,
            reader_command,
            library_paths,
            books,
            selected_book: 0,
            search_input: String::new(),
            search_results: Vec::new(),
            selected_result: 0,
            codex_items,
            selected_codex_item: 0,
            codex_detail: None,
            codex_counts,
            codex_detail_scroll: 0,
            codex_detail_total: 0,
            codex_viewport_height: 1,
            oracle_wisdom,
            oracle_source,
        }
    }

    pub fn quit(&mut self)
        ensures
            *final(self) == (App { running: false, ..*old(self) }),
    {
        self.running = false;
    }

    /// Moves to the next tab, wrapping from Stats to Home.
    pub fn next_tab(&mut self)
        ensures
            *final(self) == spec_next_tab(*old(self)),
    {
        let i = self.active_tab.index();
        let total = ActiveTab::all().len();
        self.active_tab = ActiveTab::from_index((i + 1) % total);
    }

    /// Moves to the previous tab, wrapping from Home to Stats.
    pub fn prev_tab(&mut self)
        ensures
            *final(self) == spec_prev_tab(*old(self)),
    {
        let i = self.active_tab.index();
        let total = ActiveTab::all().len();
        self.active_tab = ActiveTab::from_index((i + total - 1) % total);
    }

    pub fn set_tab(&mut self, tab: ActiveTab)
        ensures
            *final(self) == (App { active_tab: tab, ..*old(self) }),
    {
        self.active_tab = tab;
    }

    /// Moves to the next codex category, wrapping from Glossary to
    /// Characters.
    pub fn next_codex_sub_tab(&mut self)
        ensures
            *final(self) == spec_next_codex_sub_tab(*old(self)),
    {
        let tabs = CodexSubTab::all();
        let mut current: usize = 0;
        let mut i: usize = 0;
        let mut found = false;
        while i < tabs.len()
            invariant
                tabs@ == all_sub_tabs(),
                i <= tabs@.len(),
                found ==> current == sub_tab_index(self.codex_sub_tab),
                !found ==> forall|j: int| 0 <= j < i ==> tabs@[j] != self.codex_sub_tab,
            decreases tabs@.len() - i,
        {
            if !found && tabs[i] == self.codex_sub_tab {
                current = i;
                found = true;
            }
            i += 1;
        }
        assert(found) by {
            assert(tabs@[sub_tab_index(self.codex_sub_tab) as int] == self.codex_sub_tab);
        }
        self.codex_sub_tab = tabs[(current + 1) % tabs.len()];
    }

    /// Moves the selection of the current tab's list one down, wrapping.
    pub fn select_next(&mut self)
        ensures
            *final(self) == spec_select_next(*old(self)),
    {
        match self.active_tab {
            ActiveTab::Library => {
                if self.books.len() > 0 {
                    self.selected_book = step_next(self.selected_book, self.books.len());
                }
            },
            ActiveTab::Search => {
                if self.search_results.len() > 0 {
                    self.selected_result = step_next(self.selected_result, self.search_results.len());
                }
            },
            ActiveTab::Codex => {
                if self.codex_items.len() > 0 {
                    self.selected_codex_item = step_next(
                        self.selected_codex_item,
                        self.codex_items.len(),
                    );
                }
            },
            _ => {},
        }
    }

    /// Moves the selection of the current tab's list one up, wrapping.
    pub fn select_prev(&mut self)
        ensures
            *final(self) == spec_select_prev(*old(self)),
    {
        match self.active_tab {
            ActiveTab::Library => {
                if self.books.len() > 0 {
                    self.selected_book = step_prev(self.selected_book, self.books.len());
                }
            },
            ActiveTab::Search => {
                if self.search_results.len() > 0 {
                    self.selected_result = step_prev(self.selected_result, self.search_results.len());
                }
            },
            ActiveTab::Codex => {
                if self.codex_items.len() > 0 {
                    self.selected_codex_item = step_prev(
                        self.selected_codex_item,
                        self.codex_items.len(),
                    );
                }
            },
            _ => {},
        }
    }

    pub fn go_to_top(&mut self)
        ensures
            *final(self) == spec_go_to_top(*old(self)),
    {
        match self.active_tab {
            ActiveTab::Library => self.selected_book = 0,
            ActiveTab::Search => self.selected_result = 0,
            ActiveTab::Codex => self.selected_codex_item = 0,
            _ => {},
        }
    }

    pub fn go_to_bottom(&mut self)
        ensures
            *final(self) == spec_go_to_bottom(*old(self)),
    {
        match self.active_tab {
            ActiveTab::Library => {
                if self.books.len() > 0 {
                    self.selected_book = self.books.len() - 1;
                }
            },
            ActiveTab::Search => {
                if self.search_results.len() > 0 {
                    self.selected_result = self.search_results.len() - 1;
                }
            },
            ActiveTab::Codex => {
                if self.codex_items.len() > 0 {
                    self.selected_codex_item = self.codex_items.len() - 1;
                }
            },
            _ => {},
        }
    }

    pub fn append_search_char(&mut self, c: char)
        ensures
            *final(self) == (App { search_input: final(self).search_input, ..*old(self) }),
            final(self).search_input@ == old(self).search_input@.push(c),
    {
        push_char(&mut self.search_input, c);
    }

    /// Removes the last character of the search input, if any.
    pub fn delete_search_char(&mut self)
        ensures
            *final(self) == (App { search_input: final(self).search_input, ..*old(self) }),
            final(self).search_input@ == (if old(self).search_input@.len() > 0 {
                old(self).search_input@.drop_last()
            } else {
                Seq::empty()
            }),
    {
        let chars = chars_of(self.search_input.as_str());
        if chars.len() > 0 {
            let kept = slice_chars(&chars, 0, chars.len() - 1);
            assert(kept@ =~= chars@.drop_last());
            self.search_input = string_of(&kept);
        }
    }

    /// Records a search: the query, its results, the first one selected.
    pub fn apply_search(&mut self, query: &str, results: Vec<SearchResult>)
        ensures
            *final(self) == (App {
                search_input: final(self).search_input,
                search_results: results,
                selected_result: 0,
                ..*old(self)
            }),
            final(self).search_input@ == query@,
    {
        self.search_input = query.to_string();
        self.search_results = results;
        self.selected_result = 0;
    }

    /// Shows the Oracle's new wisdom, or the silent Oracle when it had none.
    pub fn set_oracle(&mut self, wisdom: Option<(String, Option<String>)>)
        ensures
            *final(self) == (App {
                oracle_wisdom: final(self).oracle_wisdom,
                oracle_source: final(self).oracle_source,
                ..*old(self)
            }),
            match wisdom {
                Some((w, s)) => final(self).oracle_wisdom == Some(w) && final(self).oracle_source
                    == s,
                None => final(self).oracle_wisdom matches Some(w) && w@ == silent_oracle()
                    && final(self).oracle_source is None,
            },
    {
        match wisdom {
            Some((w, s)) => {
                self.oracle_wisdom = Some(w);
                self.oracle_source = s;
            },
            None => {
                self.oracle_wisdom = Some(String::from_str("The Oracle is silent."));
                self.oracle_source = None;
            },
        }
    }

    /// The table and name the detail of the selected codex item is looked
    /// up by; `None` when the list is empty.
    pub fn codex_lookup(&self) -> (r: Option<(LookupKind, String)>)
        requires
            self.codex_items@.len() > 0 ==> self.selected_codex_item < self.codex_items@.len(),
        ensures
            match r {
                Some((k, name)) => self.codex_items@.len() > 0 && k == sub_tab_kind(
                    self.codex_sub_tab,
                ) && name@ == self.codex_items@[self.selected_codex_item as int]@,
                None => self.codex_items@.len() == 0,
            },
    {
        if self.codex_items.len() == 0 {
            return None;
        }
        let name = self.codex_items[self.selected_codex_item].clone();
        Some((self.codex_sub_tab.lookup_kind(), name))
    }

    /// Opens the detail view on the looked-up text, or on "No details
    /// available." when the lookup found nothing.
    pub fn set_codex_detail(&mut self, found: Option<String>)
        ensures
            *final(self) == (App { codex_detail: final(self).codex_detail, ..*old(self) }),
            final(self).codex_detail matches Some(d) && d@ == (match found {
                Some(f) => f@,
                None => "No details available."@,
            }),
    {
        let detail = match found {
            Some(f) => f,
            None => String::from_str("No details available."),
        };
        self.codex_detail = Some(detail);
    }

    /// Replaces the codex list (after a category change): the detail view
    /// closes and the first item is selected.
    pub fn set_codex_items(&mut self, items: Vec<String>)
        ensures
            *final(self) == (App {
                codex_items: items,
                codex_detail: None,
                selected_codex_item: 0,
                ..*old(self)
            }),
    {
        self.codex_items = items;
        self.codex_detail = None;
        self.selected_codex_item = 0;
    }

    pub fn close_detail(&mut self)
        ensures
            *final(self) == (App { codex_detail: None, codex_detail_scroll: 0, ..*old(self) }),
    {
        self.codex_detail = None;
        self.codex_detail_scroll = 0;
    }

    /// Scrolls the detail down by `lines`, stopping at the last page.
    pub fn scroll_detail_down(&mut self, lines: usize)
        ensures
            *final(self) == spec_scroll_detail_down(*old(self), lines),
    {
        let sum = self.codex_detail_scroll.saturating_add(lines);
        let max = self.max_detail_offset();
        self.codex_detail_scroll = if sum < max { sum } else { max };
    }

    /// Scrolls the detail up by `lines`, stopping at the top.
    pub fn scroll_detail_up(&mut self, lines: usize)
        ensures
            *final(self) == spec_scroll_detail_up(*old(self), lines),
    {
        self.codex_detail_scroll = self.codex_detail_scroll.saturating_sub(lines);
    }

    pub fn scroll_detail_top(&mut self)
        ensures
            *final(self) == (App { codex_detail_scroll: 0, ..*old(self) }),
    {
        self.codex_detail_scroll = 0;
    }

    pub fn scroll_detail_bottom(&mut self)
        ensures
            *final(self) == (App {
                codex_detail_scroll: max_detail_offset(*old(self)) as usize,
                ..*old(self)
            }),
    {
        self.codex_detail_scroll = self.max_detail_offset();
    }

    /// Rows per page of the detail view: its height, at least one.
    pub fn detail_page_size(&self) -> (r: usize)
        ensures
            r == page_size(*self),
    {
        let h = self.codex_viewport_height as usize;
        if h >= 1 {
            h
        } else {
            1
        }
    }

    fn max_detail_offset(&self) -> (r: usize)
        ensures
            r == max_detail_offset(*self),
    {
        self.codex_detail_total.saturating_sub(self.detail_page_size())
    }

    /// Fits the detail scroll state to what is drawn: `total` wrapped lines
    /// in a viewport `inner_height` rows high (at least one). The offset is
    /// clamped to the last page; returns the visible range.
    pub fn sync_detail_view(&mut self, total: usize, inner_height: u16) -> (r: DetailView)
        ensures
            final(self).codex_detail_total == total,
            final(self).codex_viewport_height == (if inner_height >= 1 {
                inner_height
            } else {
                1
            }),
            *final(self) == (App {
                codex_detail_total: total,
                codex_viewport_height: final(self).codex_viewport_height,
                codex_detail_scroll: r.offset,
                ..*old(self)
            }),
            r.max_offset == max_detail_offset(*final(self)),
            r.offset == (if old(self).codex_detail_scroll < r.max_offset {
                old(self).codex_detail_scroll
            } else {
                r.max_offset
            }),
            r.visible_end == (if r.offset + page_size(*final(self)) < total {
                r.offset + page_size(*final(self))
            } else {
                total as int
            }),
            r.current == (if total == 0 {
                0
            } else {
                r.offset + 1
            }),
            r.offset <= r.visible_end <= total,
    {
        self.codex_detail_total = total;
        self.codex_viewport_height = if inner_height >= 1 {
            inner_height
        } else {
            1
        };
        let viewport = self.detail_page_size();
        let max_offset = self.max_detail_offset();
        let offset = if self.codex_detail_scroll < max_offset {
            self.codex_detail_scroll
        } else {
            max_offset
        };
        self.codex_detail_scroll = offset;
        let visible_end = if viewport < total - offset {
            offset + viewport
        } else {
            total
        };
        let current = if total == 0 {
            0
        } else {
            offset + 1
        };
        DetailView { offset, max_offset, visible_end, current }
    }

    /// The stored path and page (when positive) of the selected book, when
    /// the Library tab is active and has books.
    pub fn selected_book_target(&self) -> (r: Option<(String, Option<u32>)>)
        requires
            self.books@.len() > 0 ==> self.selected_book < self.books@.len(),
        ensures
            match r {
                Some((path, page)) => {
                    let b = self.books@[self.selected_book as int];
                    &&& self.active_tab == ActiveTab::Library
                    &&& self.books@.len() > 0
                    &&& path@ == b.1@
                    &&& page == (if b.2 > 0 { Some(b.2) } else { None })
                },
                None => self.active_tab != ActiveTab::Library || self.books@.len() == 0,
            },
    {
        if self.active_tab != ActiveTab::Library || self.books.len() == 0 {
            return None;
        }
        let b = &self.books[self.selected_book];
        let page = if b.2 > 0 {
            Some(b.2)
        } else {
            None
        };
        Some((b.1.clone(), page))
    }

    /// The book id and page (when positive) of the selected search result,
    /// when the Search tab is active and has results.
    pub fn selected_result_target(&self) -> (r: Option<(i64, Option<u32>)>)
        requires
            self.search_results@.len() > 0 ==> self.selected_result < self.search_results@.len(),
        ensures
            match r {
                Some((id, page)) => {
                    let s = self.search_results@[self.selected_result as int];
                    &&& self.active_tab == ActiveTab::Search
                    &&& self.search_results@.len() > 0
                    &&& id == s.book_id
                    &&& page == (if s.page_number > 0 { Some(s.page_number) } else { None })
                },
                None => self.active_tab != ActiveTab::Search || self.search_results@.len() == 0,
            },
    {
        if self.active_tab != ActiveTab::Search || self.search_results.len() == 0 {
            return None;
        }
        let s = &self.search_results[self.selected_result];
        let page = if s.page_number > 0 {
            Some(s.page_number)
        } else {
            None
        };
        Some((s.book_id, page))
    }
}

} // verus!

verus! {

// ---------------------------------------------------------------------------
// Keys
// ---------------------------------------------------------------------------

/// The keys the UI tells apart.
#[derive(Debug, Clone, Copy, PartialEq, Eq, Structural)]
pub enum KeyCode {
    Char(char),
    Esc,
    Tab,
    BackTab,
    Up,
    Down,
    PageUp,
    PageDown,
    Enter,
    Backspace,
    Other,
}

/// A key press, with whether Control was held.
#[derive(Debug, Clone, Copy, PartialEq, Eq, Structural)]
pub struct KeyInput {
    pub code: KeyCode,
    pub ctrl: bool,
}

/// Work a key asks of the caller, beyond the state change already made.
#[derive(Debug, Clone, Copy, PartialEq, Eq, Structural)]
pub enum KeyAction {
    Nothing,
    /// Look up the selected codex item ([`App::codex_lookup`]) and show it
    /// ([`App::set_codex_detail`]).
    ShowCodexDetail,
    /// Open the selected book ([`App::selected_book_target`]) in the reader.
    OpenSelectedBook,
    /// Open the selected search hit ([`App::selected_result_target`]).
    OpenSearchResult,
    /// Ask the Oracle again ([`App::set_oracle`]).
    RefreshOracle,
    /// Load the names of this table into the codex list
    /// ([`App::set_codex_items`]).
    LoadCodexItems(LookupKind),
    /// Run the search for the current input ([`App::apply_search`]).
    Search,
}

pub open spec fn is_back_key(c: KeyCode) -> bool {
    c == KeyCode::Esc || c == KeyCode::Char('q')
}

/// The tab a digit key selects.
pub open spec fn digit_tab(c: KeyCode) -> Option<ActiveTab> {
    if c == KeyCode::Char('1') {
        Some(ActiveTab::Home)
    } else if c == KeyCode::Char('2') {
        Some(ActiveTab::Library)
    } else if c == KeyCode::Char('3') {
        Some(ActiveTab::Search)
    } else if c == KeyCode::Char('4') {
        Some(ActiveTab::Codex)
    } else if c == KeyCode::Char('5') {
        Some(ActiveTab::Oracle)
    } else if c == KeyCode::Char('6') {
        Some(ActiveTab::Stats)
    } else {
        None
    }
}

pub open spec fn is_up_key(c: KeyCode) -> bool {
    c == KeyCode::Up || c == KeyCode::Char('k')
}

pub open spec fn is_down_key(c: KeyCode) -> bool {
    c == KeyCode::Down || c == KeyCode::Char('j')
}

/// A codex entry is open on the Codex tab.
pub open spec fn in_detail_view(a: App) -> bool {
    a.active_tab == ActiveTab::Codex && a.codex_detail is Some
}

/// `b` is `a` with only the search input changed, to `input`.
pub open spec fn only_input(a: App, b: App, input: Seq<char>) -> bool {
    b == (App { search_input: b.search_input, ..a }) && b.search_input@ == input
}

/// `b` is `a` with the search input and results both emptied.
pub open spec fn search_cleared(a: App, b: App) -> bool {
    &&& b == (App { search_input: b.search_input, search_results: b.search_results, ..a })
    &&& b.search_input@ == Seq::<char>::empty()
    &&& b.search_results@.len() == 0
}

/// The detail view's response to its scrolling keys: `j`/`k` (or the
/// arrows) by a line, PageDown/PageUp by a page, `g`/`G` to the top and
/// bottom; `None` for other keys.
pub open spec fn detail_scroll(a: App, c: KeyCode) -> Option<App> {
    if is_down_key(c) {
        Some(spec_scroll_detail_down(a, 1))
    } else if is_up_key(c) {
        Some(spec_scroll_detail_up(a, 1))
    } else if c == KeyCode::PageDown {
        Some(spec_scroll_detail_down(a, page_size(a) as usize))
    } else if c == KeyCode::PageUp {
        Some(spec_scroll_detail_up(a, page_size(a) as usize))
    } else if c == KeyCode::Char('g') {
        Some(App { codex_detail_scroll: 0, ..a })
    } else if c == KeyCode::Char('G') {
        Some(App { codex_detail_scroll: max_detail_offset(a) as usize, ..a })
    } else {
        None
    }
}

/// The list keys: `k`/Up and `j`/Down move the selection; `g` and `G`
/// jump to the first and last item. On the Search tab the letters are
/// typed and only the arrows move. `None` for other keys.
pub open spec fn list_move(a: App, c: KeyCode) -> Option<App> {
    let typing = a.active_tab == ActiveTab::Search;
    if c == KeyCode::Up || (c == KeyCode::Char('k') && !typing) {
        Some(spec_select_prev(a))
    } else if c == KeyCode::Down || (c == KeyCode::Char('j') && !typing) {
        Some(spec_select_next(a))
    } else if c == KeyCode::Char('g') && a.active_tab != ActiveTab::Search {
        Some(spec_go_to_top(a))
    } else if c == KeyCode::Char('G') && a.active_tab != ActiveTab::Search {
        Some(spec_go_to_bottom(a))
    } else {
        None
    }
}

/// What Enter does: opens the selected codex entry, book or search hit,
/// moves on from Home to the next tab, or asks the Oracle again.
pub open spec fn enter_outcome(a: App, b: App, act: KeyAction) -> bool {
    if a.active_tab == ActiveTab::Codex && a.codex_detail is None {
        b == a && act == KeyAction::ShowCodexDetail
    } else if a.active_tab == ActiveTab::Library {
        b == a && act == KeyAction::OpenSelectedBook
    } else if a.active_tab == ActiveTab::Search && a.search_results@.len() > 0 {
        b == a && act == KeyAction::OpenSearchResult
    } else if a.active_tab == ActiveTab::Home {
        b == spec_next_tab(a) && act == KeyAction::Nothing
    } else if a.active_tab == ActiveTab::Oracle {
        b == a && act == KeyAction::RefreshOracle
    } else {
        b == a && act == KeyAction::Nothing
    }
}

/// Typing and Backspace on the Search tab (other keys change nothing).
pub open spec fn typing_outcome(a: App, c: KeyCode, b: App, act: KeyAction) -> bool {
    if (c matches KeyCode::Char(_)) && a.active_tab == ActiveTab::Search {
        if a.codex_detail is Some {
            b == a && act == KeyAction::Nothing
        } else {
            only_input(a, b, a.search_input@.push(c->Char_0)) && act == KeyAction::Search
        }
    } else if c == KeyCode::Backspace && a.active_tab == ActiveTab::Search {
        let input = if a.search_input@.len() > 0 {
            a.search_input@.drop_last()
        } else {
            Seq::empty()
        };
        if input.len() == 0 {
            search_cleared(a, b) && act == KeyAction::Nothing
        } else {
            only_input(a, b, input) && act == KeyAction::Search
        }
    } else {
        b == a && act == KeyAction::Nothing
    }
}

/// The state after key `k` (`b`) and the work it asks for (`act`), from
/// state `a`: Ctrl-C quits; Esc or `q` closes the detail, else clears a
/// search, else quits; `1`-`6` pick a tab, Tab and BackTab cycle tabs; in
/// an open codex entry the scrolling keys scroll it, elsewhere the list
/// keys move the selection; Enter opens what is selected; `r` on the
/// Oracle asks again; `c` on the codex list switches category; on the
/// Search tab every other character (`c`, `r`, `j`, `k`, `g` and `G` among
/// them) and Backspace edit the search.
pub open spec fn key_outcome(a: App, k: KeyInput, b: App, act: KeyAction) -> bool {
    let c = k.code;
    if k.ctrl {
        act == KeyAction::Nothing && b == (if c == KeyCode::Char('c') {
            App { running: false, ..a }
        } else {
            a
        })
    } else if is_back_key(c) {
        act == KeyAction::Nothing && if a.codex_detail is Some {
            b == (App { codex_detail: None, codex_detail_scroll: 0, ..a })
        } else if a.active_tab == ActiveTab::Search && a.search_input@.len() > 0 {
            search_cleared(a, b)
        } else {
            b == (App { running: false, ..a })
        }
    } else if digit_tab(c) is Some {
        act == KeyAction::Nothing && b == (App { active_tab: digit_tab(c)->0, ..a })
    } else if c == KeyCode::Tab {
        act == KeyAction::Nothing && b == spec_next_tab(a)
    } else if c == KeyCode::BackTab {
        act == KeyAction::Nothing && b == spec_prev_tab(a)
    } else if in_detail_view(a) && detail_scroll(a, c) is Some {
        act == KeyAction::Nothing && b == detail_scroll(a, c)->0
    } else if !in_detail_view(a) && list_move(a, c) is Some {
        act == KeyAction::Nothing && b == list_move(a, c)->0
    } else if c == KeyCode::Enter {
        enter_outcome(a, b, act)
    } else if c == KeyCode::Char('r') && a.active_tab != ActiveTab::Search {
        b == a && act == (if a.active_tab == ActiveTab::Oracle {
            KeyAction::RefreshOracle
        } else {
            KeyAction::Nothing
        })
    } else if c == KeyCode::Char('c') && a.active_tab != ActiveTab::Search {
        if a.active_tab == ActiveTab::Codex && a.codex_detail is None {
            let n = spec_next_codex_sub_tab(a);
            &&& b == (App {
                codex_items: b.codex_items,
                codex_detail: None,
                selected_codex_item: 0,
                ..n
            })
            &&& b.codex_items@.len() == 0
            &&& act == KeyAction::LoadCodexItems(sub_tab_kind(n.codex_sub_tab))
        } else {
            b == a && act == KeyAction::Nothing
        }
    } else {
        typing_outcome(a, c, b, act)
    }
}

/// Applies a key press to the state and says what further work it asks
/// for (see [`key_outcome`]).
pub fn handle_key_event(app: &mut App, key: KeyInput) -> (r: KeyAction)
    ensures
        key_outcome(*old(app), key, *final(app), r),
{
    let c = key.code;
    if key.ctrl {
        if c == KeyCode::Char('c') {
            app.quit();
        }
        return KeyAction::Nothing;
    }
    if c == KeyCode::Esc || c == KeyCode::Char('q') {
        if app.codex_detail.is_some() {
            app.close_detail();
        } else if app.active_tab == ActiveTab::Search && !app.search_input.as_str().is_empty() {
            app.search_input = String::new();
            app.search_results = Vec::new();
        } else {
            app.quit();
        }
        return KeyAction::Nothing;
    }
    if let Some(tab) = digit_key_tab(c) {
        app.set_tab(tab);
        return KeyAction::Nothing;
    }
    if c == KeyCode::Tab {
        app.next_tab();
        return KeyAction::Nothing;
    }
    if c == KeyCode::BackTab {
        app.prev_tab();
        return KeyAction::Nothing;
    }
    let detail_view = app.active_tab == ActiveTab::Codex && app.codex_detail.is_some();
    if detail_view {
        if scroll_detail_key(app, c) {
            return KeyAction::Nothing;
        }
    } else if move_in_list(app, c) {
        return KeyAction::Nothing;
    }
    handle_other_key(app, c)
}

/// The detail view's scrolling keys; `false` (nothing changed) for others.
fn scroll_detail_key(app: &mut App, c: KeyCode) -> (handled: bool)
    ensures
        handled == detail_scroll(*old(app), c) is Some,
        handled ==> *final(app) == detail_scroll(*old(app), c)->0,
        !handled ==> *final(app) == *old(app),
{
    match c {
        KeyCode::Down | KeyCode::Char('j') => app.scroll_detail_down(1),
        KeyCode::Up | KeyCode::Char('k') => app.scroll_detail_up(1),
        KeyCode::PageDown => {
            let page = app.detail_page_size();
            app.scroll_detail_down(page);
        },
        KeyCode::PageUp => {
            let page = app.detail_page_size();
            app.scroll_detail_up(page);
        },
        KeyCode::Char('g') => app.scroll_detail_top(),
        KeyCode::Char('G') => app.scroll_detail_bottom(),
        _ => {
            return false;
        },
    }
    true
}

/// The list keys; `false` (nothing changed) for others.
fn move_in_list(app: &mut App, c: KeyCode) -> (handled: bool)
    ensures
        handled == list_move(*old(app), c) is Some,
        handled ==> *final(app) == list_move(*old(app), c)->0,
        !handled ==> *final(app) == *old(app),
{
    match c {
        KeyCode::Up => app.select_prev(),
        KeyCode::Down => app.select_next(),
        KeyCode::Char('k') if app.active_tab != ActiveTab::Search => app.select_prev(),
        KeyCode::Char('j') if app.active_tab != ActiveTab::Search => app.select_next(),
        KeyCode::Char('g') => {
            if app.active_tab == ActiveTab::Search {
                return false;
            }
            app.go_to_top();
        },
        KeyCode::Char('G') => {
            if app.active_tab == ActiveTab::Search {
                return false;
            }
            app.go_to_bottom();
        },
        _ => {
            return false;
        },
    }
    true
}

/// Enter, `r`, `c`, typing and Backspace.
fn handle_other_key(app: &mut App, c: KeyCode) -> (r: KeyAction)
    requires
        !is_back_key(c),
        digit_tab(c) is None,
        c != KeyCode::Tab,
        c != KeyCode::BackTab,
        !(in_detail_view(*old(app)) && detail_scroll(*old(app), c) is Some),
        !(!in_detail_view(*old(app)) && list_move(*old(app), c) is Some),
    ensures
        key_outcome(*old(app), KeyInput { code: c, ctrl: false }, *final(app), r),
{
    match c {
        KeyCode::Enter => {
            if app.active_tab == ActiveTab::Codex && app.codex_detail.is_none() {
                KeyAction::ShowCodexDetail
            } else if app.active_tab == ActiveTab::Library {
                KeyAction::OpenSelectedBook
            } else if app.active_tab == ActiveTab::Search && app.search_results.len() > 0 {
                KeyAction::OpenSearchResult
            } else if app.active_tab == ActiveTab::Home {
                app.next_tab();
                KeyAction::Nothing
            } else if app.active_tab == ActiveTab::Oracle {
                KeyAction::RefreshOracle
            } else {
                KeyAction::Nothing
            }
        },
        KeyCode::Char('r') if app.active_tab != ActiveTab::Search => {
            if app.active_tab == ActiveTab::Oracle {
                KeyAction::RefreshOracle
            } else {
                KeyAction::Nothing
            }
        },
        KeyCode::Char('c') if app.active_tab != ActiveTab::Search => {
            if app.active_tab == ActiveTab::Codex && app.codex_detail.is_none() {
                app.next_codex_sub_tab();
                app.set_codex_items(Vec::new());
                KeyAction::LoadCodexItems(app.codex_sub_tab.lookup_kind())
            } else {
                KeyAction::Nothing
            }
        },
        _ => handle_search_key(app, c),
    }
}

/// Typing and Backspace on the Search tab.
fn handle_search_key(app: &mut App, c: KeyCode) -> (r: KeyAction)
    ensures
        typing_outcome(*old(app), c, *final(app), r),
{
    match c {
        KeyCode::Char(ch) => {
            if app.active_tab != ActiveTab::Search || app.codex_detail.is_some() {
                return KeyAction::Nothing;
            }
            app.append_search_char(ch);
            KeyAction::Search
        },
        KeyCode::Backspace => {
            if app.active_tab != ActiveTab::Search {
                return KeyAction::Nothing;
            }
            app.delete_search_char();
            if app.search_input.as_str().is_empty() {
                app.search_results = Vec::new();
                assert(app.search_input@ =~= Seq::<char>::empty());
                KeyAction::Nothing
            } else {
                KeyAction::Search
            }
        },
        _ => KeyAction::Nothing,
    }
}

fn digit_key_tab(c: KeyCode) -> (r: Option<ActiveTab>)
    ensures
        r == digit_tab(c),
{
    match c {
        KeyCode::Char('1') => Some(ActiveTab::Home),
        KeyCode::Char('2') => Some(ActiveTab::Library),
        KeyCode::Char('3') => Some(ActiveTab::Search),
        KeyCode::Char('4') => Some(ActiveTab::Codex),
        KeyCode::Char('5') => Some(ActiveTab::Oracle),
        KeyCode::Char('6') => Some(ActiveTab::Stats),
        _ => None,
    }
}

} // verus!

verus! {

// ---------------------------------------------------------------------------
// Laws of the UI state
// ---------------------------------------------------------------------------

/// A tab's index names it again, and every index below six names the tab
/// at that position.
pub proof fn law_tab_index_round_trip(t: ActiveTab, i: int)
    ensures
        tab_at(tab_index(t) as int) == t,
        0 <= i < 6 ==> tab_index(tab_at(i)) == i,
{
}

/// Going to the previous tab undoes going to the next one, and the other
/// way round.
pub proof fn law_prev_tab_undoes_next_tab(a: App)
    ensures
        spec_prev_tab(spec_next_tab(a)) == a,
        spec_next_tab(spec_prev_tab(a)) == a,
{
}

/// Six steps to the next tab come back to the starting tab.
pub proof fn law_next_tab_cycles(a: App)
    ensures
        spec_next_tab(spec_next_tab(spec_next_tab(spec_next_tab(spec_next_tab(spec_next_tab(a))))))
            == a,
{
}

/// Four steps to the next codex category come back to the start.
pub proof fn law_next_codex_sub_tab_cycles(a: App)
    ensures
        spec_next_codex_sub_tab(
            spec_next_codex_sub_tab(spec_next_codex_sub_tab(spec_next_codex_sub_tab(a))),
        ) == a,
{
}

/// The lists of a real state: no longer than a `usize` can count.
pub open spec fn lists_fit(a: App) -> bool {
    &&& a.books@.len() <= usize::MAX
    &&& a.search_results@.len() <= usize::MAX
    &&& a.codex_items@.len() <= usize::MAX
}

proof fn lemma_cycle(sel: usize, len: nat)
    requires
        len > 0,
        sel < len,
        len <= usize::MAX,
    ensures
        cycle_next(sel, len) < len,
        cycle_prev(sel, len) < len,
        cycle_prev(cycle_next(sel, len), len) == sel,
        cycle_next(cycle_prev(sel, len), len) == sel,
{
    let l = len as int;
    if sel + 1 < l {
        vstd::arithmetic::div_mod::lemma_small_mod((sel + 1) as nat, len);
        vstd::arithmetic::div_mod::lemma_mod_add_multiples_vanish(sel as int, l);
        vstd::arithmetic::div_mod::lemma_small_mod(sel as nat, len);
    } else {
        vstd::arithmetic::div_mod::lemma_mod_self_0(l);
        vstd::arithmetic::div_mod::lemma_small_mod((l - 1) as nat, len);
    }
    if sel == 0 {
        vstd::arithmetic::div_mod::lemma_small_mod((l - 1) as nat, len);
        vstd::arithmetic::div_mod::lemma_mod_self_0(l);
    } else {
        vstd::arithmetic::div_mod::lemma_mod_add_multiples_vanish(sel - 1, l);
        vstd::arithmetic::div_mod::lemma_small_mod((sel - 1) as nat, len);
        vstd::arithmetic::div_mod::lemma_small_mod(sel as nat, len);
    }
}

/// With every selection inside its list, moving the selection up undoes
/// moving it down, and the other way round.
pub proof fn law_select_prev_undoes_select_next(a: App)
    requires
        app_wf(a),
        lists_fit(a),
    ensures
        spec_select_prev(spec_select_next(a)) == a,
        spec_select_next(spec_select_prev(a)) == a,
{
    if a.books@.len() > 0 {
        lemma_cycle(a.selected_book, a.books@.len());
    }
    if a.search_results@.len() > 0 {
        lemma_cycle(a.selected_result, a.search_results@.len());
    }
    if a.codex_items@.len() > 0 {
        lemma_cycle(a.selected_codex_item, a.codex_items@.len());
    }
}

proof fn lemma_list_move_wf(a: App, c: KeyCode)
    requires
        app_wf(a),
        lists_fit(a),
    ensures
        list_move(a, c) matches Some(b) ==> app_wf(b),
{
    if a.books@.len() > 0 {
        lemma_cycle(a.selected_book, a.books@.len());
    }
    if a.search_results@.len() > 0 {
        lemma_cycle(a.selected_result, a.search_results@.len());
    }
    if a.codex_items@.len() > 0 {
        lemma_cycle(a.selected_codex_item, a.codex_items@.len());
    }
}

proof fn lemma_detail_scroll_wf(a: App, c: KeyCode)
    requires
        app_wf(a),
    ensures
        detail_scroll(a, c) matches Some(b) ==> app_wf(b),
{
}

/// Every key keeps the selections inside their lists and the detail scroll
/// within range.
pub proof fn law_keys_keep_state_well_formed(a: App, k: KeyInput, b: App, act: KeyAction)
    requires
        app_wf(a),
        lists_fit(a),
        key_outcome(a, k, b, act),
    ensures
        app_wf(b),
{
    let c = k.code;
    if k.ctrl || is_back_key(c) || digit_tab(c) is Some {
    } else if c == KeyCode::Tab || c == KeyCode::BackTab {
    } else if in_detail_view(a) && detail_scroll(a, c) is Some {
        lemma_detail_scroll_wf(a, c);
    } else if !in_detail_view(a) && list_move(a, c) is Some {
        lemma_list_move_wf(a, c);
    }
}

/// Scrolling the detail never goes past its last page: down stops at the
/// largest offset and up never moves further down.
pub proof fn law_scroll_stays_in_range(a: App, lines: usize)
    requires
        app_wf(a),
    ensures
        app_wf(spec_scroll_detail_down(a, lines)),
        app_wf(spec_scroll_detail_up(a, lines)),
        spec_scroll_detail_down(a, lines).codex_detail_scroll <= max_detail_offset(a),
        spec_scroll_detail_up(a, lines).codex_detail_scroll <= a.codex_detail_scroll,
{
}

/// `G` (go to bottom) selects the last item of the current tab's list and
/// `g` (go to top) the first, whenever that list has items; through the key
/// handler, `G` on the Library tab or on the codex list does the same.
pub proof fn law_go_to_ends_select_first_and_last(a: App, b: App, act: KeyAction)
    ensures
        a.active_tab == ActiveTab::Library && a.books@.len() > 0 ==> spec_go_to_bottom(
            a,
        ).selected_book == a.books@.len() - 1 && spec_go_to_top(a).selected_book == 0,
        a.active_tab == ActiveTab::Search && a.search_results@.len() > 0 ==> spec_go_to_bottom(
            a,
        ).selected_result == a.search_results@.len() - 1 && spec_go_to_top(a).selected_result == 0,
        a.active_tab == ActiveTab::Codex && a.codex_items@.len() > 0 ==> spec_go_to_bottom(
            a,
        ).selected_codex_item == a.codex_items@.len() - 1 && spec_go_to_top(a).selected_codex_item
            == 0,
        a.active_tab == ActiveTab::Library && a.books@.len() > 0 && key_outcome(
            a,
            KeyInput { code: KeyCode::Char('G'), ctrl: false },
            b,
            act,
        ) ==> b.selected_book == a.books@.len() - 1 && act == KeyAction::Nothing,
        a.active_tab == ActiveTab::Codex && a.codex_detail is None && a.codex_items@.len() > 0
            && key_outcome(a, KeyInput { code: KeyCode::Char('G'), ctrl: false }, b, act)
            ==> b.selected_codex_item == a.codex_items@.len() - 1 && act == KeyAction::Nothing,
{
    assert(a.books.len() == a.books@.len());
    assert(a.search_results.len() == a.search_results@.len());
    assert(a.codex_items.len() == a.codex_items@.len());
}

} // verus!
