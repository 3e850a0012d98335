//! The decisions behind the screens: how a codex detail line is shown, the
//! snippet of a search hit, the tab bar labels and the footer hints.

use vstd::prelude::*;
use crate::text::{
    chars_of, find_chars, find_from, is_uppercase, push_all, slice_chars, str_uppercase,
    string_of, trim, trim_chars, unicode_uppercase, uppercase,
};
use crate::tui::{tab_key, tab_label, sub_tab_label, ActiveTab, CodexSubTab};
use crate::util::{
    is_ascii_alnum, marker_segments, segment_views, spec_marker_segments, HighlightSegment,
};

verus! {

/// Characters a profile label may hold.
pub open spec fn profile_label_char(c: char) -> bool {
    is_ascii_alnum(c) || c == ' ' || c == '-' || c == '\''
}

/// A `Label: value` row of the Profile block: a label of 1 to 24
/// characters before the first `": "`, starting uppercase, made of ASCII
/// letters, digits, spaces, `-` and `'`.
pub open spec fn spec_split_profile_field(line: Seq<char>) -> Option<(Seq<char>, Seq<char>)> {
    match find_from(line, ": "@, 0) {
        Some(k) => if k == 0 || k > 24 || !unicode_uppercase(line[0]) || !(forall|j: int|
            0 <= j < k ==> profile_label_char(#[trigger] line[j])) {
            None
        } else {
            Some((line.take(k), line.skip(k + 2)))
        },
        None => None,
    }
}

/// Splits a `Label: value` row of the Profile block into label and value.
pub fn split_profile_field(line: &str) -> (r: Option<(String, String)>)
    ensures
        match r {
            Some((label, value)) => spec_split_profile_field(line@) == Some((label@, value@)),
            None => spec_split_profile_field(line@) is None,
        },
{
    let chars = chars_of(line);
    let sep = chars_of(": ");
    let idx = match find_chars(&chars, &sep, 0) {
        Some(k) => k,
        None => return None,
    };
    proof {
        crate::text::lemma_find_from(chars@, sep@, 0);
        reveal_strlit(": ");
    }
    if idx == 0 || idx > 24 {
        return None;
    }
    if !is_uppercase(chars[0]) {
        return None;
    }
    let mut i: usize = 0;
    while i < idx
        invariant
            i <= idx,
            idx <= chars@.len(),
            chars@ == line@,
            find_from(line@, ": "@, 0) == Some(idx as int),
            forall|j: int| 0 <= j < i ==> profile_label_char(#[trigger] chars@[j]),
        decreases idx - i,
    {
        let c = chars[i];
        if !((('0' <= c && c <= '9') || ('a' <= c && c <= 'z') || ('A' <= c && c <= 'Z'))
            || c == ' ' || c == '-' || c == '\'') {
            assert(!profile_label_char(chars@[i as int]));
            return None;
        }
        i += 1;
    }
    let label = slice_chars(&chars, 0, idx);
    let value = slice_chars(&chars, idx + 2, chars.len());
    assert(label@ =~= chars@.take(idx as int));
    assert(value@ =~= chars@.skip(idx + 2));
    Some((string_of(&label), string_of(&value)))
}

/// How a line of the codex detail is drawn.
pub enum DetailLine {
    /// A `## ` header, shown uppercase.
    Header(String),
    /// A `Label: value` row of the Profile block.
    Field(String, String),
    /// Any other line, as it is.
    Plain(String),
}

/// Classifies a detail line: `## ` headers, then Profile rows, then text.
pub fn detail_line(line: &str) -> (r: DetailLine)
    ensures
        match r {
            DetailLine::Header(h) => line@.len() >= 3 && line@.take(3) == "## "@ && h@
                == str_uppercase(line@.skip(3)),
            DetailLine::Field(label, value) => !(line@.len() >= 3 && line@.take(3) == "## "@)
                && spec_split_profile_field(line@) == Some((label@, value@)),
            DetailLine::Plain(text) => !(line@.len() >= 3 && line@.take(3) == "## "@)
                && spec_split_profile_field(line@) is None && text@ == line@,
        },
{
    let chars = chars_of(line);
    let prefix = chars_of("## ");
    proof {
        reveal_strlit("## ");
    }
    if chars.len() >= 3 {
        let head = slice_chars(&chars, 0, 3);
        if crate::util::chars_equal(&head, &prefix) {
            assert(head@ == chars@.take(3));
            let rest = string_of(&slice_chars(&chars, 3, chars.len()));
            assert(rest@ =~= line@.skip(3));
            return DetailLine::Header(uppercase(rest.as_str()));
        }
        assert(head@ =~= chars@.take(3));
    }
    match split_profile_field(line) {
        Some((label, value)) => DetailLine::Field(label, value),
        None => DetailLine::Plain(string_of(&chars)),
    }
}

/// The snippet of a search hit: the trimmed highlighted text cut to 120
/// characters, as highlight segments, and whether it was cut (an ellipsis
/// follows then).
pub open spec fn spec_search_snippet(highlighted: Seq<char>) -> (Seq<(Seq<char>, bool)>, bool) {
    let base = trim(highlighted);
    let raw = if base.len() > 120 { base.take(120) } else { base };
    (spec_marker_segments(raw), base.len() > 120)
}

pub fn search_snippet(highlighted: &str) -> (r: (Vec<HighlightSegment>, bool))
    ensures
        (segment_views(r.0@), r.1) == spec_search_snippet(highlighted@),
{
    let base = trim_chars(&chars_of(highlighted));
    let cut = base.len() > 120;
    let raw = if cut {
        slice_chars(&base, 0, 120)
    } else {
        base
    };
    proof {
        if cut {
            assert(raw@ =~= trim(highlighted@).take(120));
        }
    }
    let segments = marker_segments(string_of(&raw).as_str());
    (segments, cut)
}

/// A tab in the tab bar: ` key:Label `.
pub open spec fn spec_tab_bar_label(t: ActiveTab) -> Seq<char> {
    " "@ + tab_key(t) + ":"@ + tab_label(t) + " "@
}

pub fn tab_bar_label(tab: ActiveTab) -> (r: String)
    ensures
        r@ == spec_tab_bar_label(tab),
{
    let mut out = chars_of(" ");
    push_all(&mut out, &chars_of(tab.key_hint()));
    push_all(&mut out, &chars_of(":"));
    push_all(&mut out, &chars_of(tab.label()));
    push_all(&mut out, &chars_of(" "));
    string_of(&out)
}

/// A codex category in its selector: ` ● Label ` when current, else
/// ` ○ Label `.
pub open spec fn spec_sub_tab_title(t: CodexSubTab, current: CodexSubTab) -> Seq<char> {
    " "@ + (if t == current { "●"@ } else { "○"@ }) + " "@ + sub_tab_label(t) + " "@
}

pub fn sub_tab_title(tab: CodexSubTab, current: CodexSubTab) -> (r: String)
    ensures
        r@ == spec_sub_tab_title(tab, current),
{
    let mut out = chars_of(" ");
    if tab == current {
        push_all(&mut out, &chars_of("●"));
    } else {
        push_all(&mut out, &chars_of("○"));
    }
    push_all(&mut out, &chars_of(" "));
    push_all(&mut out, &chars_of(tab.label()));
    push_all(&mut out, &chars_of(" "));
    string_of(&out)
}

/// The key hints under each tab; the codex shows others while a detail
/// is open.
pub open spec fn spec_footer_hint(tab: ActiveTab, detail_open: bool) -> Seq<char> {
    match tab {
        ActiveTab::Home => "  [1-6] tabs  [Enter] next  [q] quit"@,
        ActiveTab::Library => "  [j/k] nav  [PgUp/PgDn] scroll  [Enter] open  [Tab] next  [q] home"@,
        ActiveTab::Search => "  type to search  [Enter] open  [Esc] clear  [q] home"@,
        ActiveTab::Codex => if detail_open {
            "  [Esc/q] back  [j/k] scroll"@
        } else {
            "  [j/k] nav  [c] category  [Enter] details  [Tab] next  [q] home"@
        },
        ActiveTab::Oracle => "  [r/Enter] new wisdom  [Tab] next  [q] home"@,
        ActiveTab::Stats => "  [Tab] next  [q] home"@,
    }
}

pub fn footer_hint(tab: ActiveTab, detail_open: bool) -> (r: &'static str)
    ensures
        r@ == spec_footer_hint(tab, detail_open),
{
    match tab {
        ActiveTab::Home => "  [1-6] tabs  [Enter] next  [q] quit",
        ActiveTab::Library => "  [j/k] nav  [PgUp/PgDn] scroll  [Enter] open  [Tab] next  [q] home",
        ActiveTab::Search => "  type to search  [Enter] open  [Esc] clear  [q] home",
        ActiveTab::Codex => if detail_open {
            "  [Esc/q] back  [j/k] scroll"
        } else {
            "  [j/k] nav  [c] category  [Enter] details  [Tab] next  [q] home"
        },
        ActiveTab::Oracle => "  [r/Enter] new wisdom  [Tab] next  [q] home",
        ActiveTab::Stats => "  [Tab] next  [q] home",
    }
}

} // verus!
