use dune_codex::util::{
    filename_derivable_from_title, format_number, marker_segments, oracle_box, slugify,
    strip_markers, truncate_ellipsis, truncate_snippet, wrap_text, HighlightSegment,
};

#[test]
fn strip_markers_passthrough_without_markers() {
    assert_eq!(strip_markers("The spice must flow"), "The spice must flow");
    assert_eq!(strip_markers(""), "");
}

#[test]
fn strip_markers_removes_full_markers() {
    assert_eq!(strip_markers("the >>>spice<<< must flow"), "the spice must flow");
    assert_eq!(strip_markers(">>>spice<<<"), "spice");
}

#[test]
fn strip_markers_removes_multiple_markers() {
    assert_eq!(strip_markers(">>>one<<< and >>>two<<<"), "one and two");
}

#[test]
fn strip_markers_keeps_lone_marker_chars_inside_text() {
    assert_eq!(strip_markers("a > b and a < b"), "a > b and a < b");
    assert_eq!(strip_markers("arrow -> next"), "arrow -> next");
}

#[test]
fn strip_markers_drops_dangling_partial_marker_at_end() {
    assert_eq!(strip_markers("spice >>"), "spice ");
    assert_eq!(strip_markers("spice <<"), "spice ");
    assert_eq!(strip_markers("spice >"), "spice ");
    assert_eq!(strip_markers("spice <"), "spice ");
}

#[test]
fn truncate_snippet_passthrough_when_short_enough() {
    assert_eq!(truncate_snippet("spice >>>must flow<<<", 100), "spice must flow");
    assert_eq!(truncate_snippet("", 100), "");
}

#[test]
fn truncate_snippet_cuts_at_marker_boundary() {
    assert_eq!(truncate_snippet("spice >>>must flow<<<", 13), "spice must…");
}

#[test]
fn truncate_snippet_drops_dangling_marker_at_cut() {
    assert_eq!(truncate_snippet("spice >>>must flow<<<", 9), "spice …");
}

#[test]
fn truncate_snippet_zero_max_returns_empty() {
    assert_eq!(truncate_snippet("spice >>>must<<<", 0), "");
}

#[test]
fn marker_segments_single_plain_text() {
    assert_eq!(
        marker_segments("no markers here"),
        vec![HighlightSegment { text: "no markers here".to_string(), matched: false }]
    );
}

#[test]
fn marker_segments_empty_string() {
    assert_eq!(marker_segments(""), Vec::<HighlightSegment>::new());
}

#[test]
fn marker_segments_single_match() {
    assert_eq!(
        marker_segments("the >>>spice<<< must flow"),
        vec![
            HighlightSegment { text: "the ".to_string(), matched: false },
            HighlightSegment { text: "spice".to_string(), matched: true },
            HighlightSegment { text: " must flow".to_string(), matched: false },
        ]
    );
}

#[test]
fn marker_segments_multiple_matches() {
    assert_eq!(
        marker_segments("a >>>b<<< c >>>d<<< e"),
        vec![
            HighlightSegment { text: "a ".to_string(), matched: false },
            HighlightSegment { text: "b".to_string(), matched: true },
            HighlightSegment { text: " c ".to_string(), matched: false },
            HighlightSegment { text: "d".to_string(), matched: true },
            HighlightSegment { text: " e".to_string(), matched: false },
        ]
    );
}

#[test]
fn marker_segments_drops_dangling_marker_at_end() {
    assert_eq!(
        marker_segments("the >>"),
        vec![HighlightSegment { text: "the ".to_string(), matched: false }]
    );
    assert_eq!(
        marker_segments("the >>>spice<<"),
        vec![
            HighlightSegment { text: "the ".to_string(), matched: false },
            HighlightSegment { text: "spice".to_string(), matched: true },
        ]
    );
}

#[test]
fn marker_segments_unclosed_start_marker_marks_tail_as_matched() {
    assert_eq!(
        marker_segments("spice >>>must flow"),
        vec![
            HighlightSegment { text: "spice ".to_string(), matched: false },
            HighlightSegment { text: "must flow".to_string(), matched: true },
        ]
    );
}

#[test]
fn util_format_number_basic() {
    assert_eq!(format_number(0), "0");
    assert_eq!(format_number(1), "1");
    assert_eq!(format_number(100), "100");
    assert_eq!(format_number(1000), "1,000");
    assert_eq!(format_number(1234567), "1,234,567");
}

#[test]
fn main_format_number_basic() {
    assert_eq!(format_number(0), "0");
    assert_eq!(format_number(1), "1");
    assert_eq!(format_number(100), "100");
    assert_eq!(format_number(1000), "1,000");
    assert_eq!(format_number(1234567), "1,234,567");
}

#[test]
fn wrap_text_respects_width() {
    assert_eq!(wrap_text("hola mundo cruel", 11), vec!["hola mundo", "cruel"]);
}

#[test]
fn wrap_text_preserves_blank_lines() {
    assert_eq!(wrap_text("a\n\nb", 10), vec!["a", "", "b"]);
}

#[test]
fn wrap_text_hard_splits_long_words() {
    assert_eq!(wrap_text("abcdefghij", 4), vec!["abcd", "efgh", "ij"]);
}

#[test]
fn wrap_text_never_exceeds_width() {
    let text = "The spice must flow through the desert and the worms will come";
    for line in wrap_text(text, 12) {
        assert!(line.chars().count() <= 12, "line too long: {:?}", line);
    }
}

#[test]
fn truncate_ellipsis_short_strings_pass_through() {
    assert_eq!(truncate_ellipsis("short", 10), "short");
    assert_eq!(truncate_ellipsis("exact", 5), "exact");
}

#[test]
fn truncate_ellipsis_cuts_with_marker() {
    assert_eq!(truncate_ellipsis("abcdefghij", 6), "abcde…");
    assert_eq!(truncate_ellipsis("abc", 1), "…");
    assert_eq!(truncate_ellipsis("abc", 0), "");
}

#[test]
fn truncate_ellipsis_counts_unicode_chars() {
    assert_eq!(truncate_ellipsis("áéíóúñ", 4), "áéí…");
}

#[test]
fn filename_matches_slugified_title() {
    assert!(filename_derivable_from_title("1 Dune Frank Herbert", "1_Dune_-_Frank_Herbert"));
    assert!(!filename_derivable_from_title("Dune", "dune_reader_edition_v2"));
    assert!(!filename_derivable_from_title("", "anything"));
}

#[test]
fn oracle_box_lines_are_aligned() {
    let lines = oracle_box("Fear is the mind-killer.", Some("Paul Atreides — Dune"));
    let widths: Vec<usize> = lines.iter().map(|l| l.chars().count()).collect();
    assert!(widths.windows(2).all(|w| w[0] == w[1]));
    assert!(lines.iter().any(|l| l.contains('“') && !l.contains('"')));
    assert!(lines
        .iter()
        .all(|l| !l.contains("Fear") || (l.starts_with("  │") && l.ends_with('│'))));
}

#[test]
fn oracle_box_wraps_long_quotes() {
    let wisdom = "The mystery of life isn't a problem to solve, but a reality to \
                  experience, and the spice must flow across a very long horizon";
    for line in oracle_box(wisdom, None) {
        assert!(line.chars().count() <= 70, "box too wide: {:?}", line);
    }
}

// -- further cases --------------------------------------------------------

#[test]
fn segments_spell_the_stripped_text() {
    for s in ["the >>>spice<<< must flow", "a >>>b<<< c >>>d<<< e", "the >>>spice<<", "a > b <<", ""] {
        let joined: String = marker_segments(s).into_iter().map(|seg| seg.text).collect();
        assert_eq!(joined, strip_markers(s));
    }
}

#[test]
fn format_number_groups_every_three_digits() {
    assert_eq!(format_number(999), "999");
    assert_eq!(format_number(1174969), "1,174,969");
    assert_eq!(format_number(u64::MAX), "18,446,744,073,709,551,615");
}

#[test]
fn wrap_text_with_zero_width_counts_as_one() {
    assert_eq!(wrap_text("ab", 0), vec!["a", "b"]);
}

#[test]
fn slugify_keeps_lowercase_ascii_alphanumerics() {
    assert_eq!(slugify("Dune: Part Two (2024)"), "duneparttwo2024");
    assert_eq!(slugify("Ñandú"), "and");
}

#[test]
fn oracle_box_every_line_has_the_same_width() {
    let lines = oracle_box("Hope clouds observation.", Some("Unknown"));
    let w = lines[0].chars().count();
    assert!(lines.iter().all(|l| l.chars().count() == w));
}

#[test]
fn wrapping_two_lines_is_wrapping_each() {
    let a = "the spice must flow";
    let b = "   ";
    let c = "fear is the mind-killer";
    let joined = format!("{}\n{}\n{}", a, b, c);
    let mut expected = wrap_text(a, 8);
    expected.extend(wrap_text(b, 8));
    expected.extend(wrap_text(c, 8));
    assert_eq!(wrap_text(&joined, 8), expected);
    assert_eq!(wrap_text(b, 8), vec![""]);
}

#[test]
fn formatted_numbers_drop_back_to_their_digits() {
    for n in [0u64, 7, 1000, 999_999, 1_234_567, u64::MAX] {
        assert_eq!(format_number(n).replace(',', ""), n.to_string());
    }
}

#[test]
fn slugs_are_stable() {
    for s in ["Dune Messiah (1969)", "Children_of_Dune", "ÄÖÜ", ""] {
        let once = slugify(s);
        assert!(once.chars().all(|c| c.is_ascii_lowercase() || c.is_ascii_digit()));
        assert_eq!(slugify(&once), once);
    }
    assert_eq!(
        filename_derivable_from_title("Dune", "DUNE"),
        filename_derivable_from_title("DUNE", "Dune")
    );
}

#[test]
fn plain_text_passes_strip_markers_unchanged() {
    assert_eq!(strip_markers("no arrows at all"), "no arrows at all");
    // A short run kept next to a dropped marker can still read as a marker.
    assert_eq!(strip_markers(">><<<>x"), ">>>x");
}

#[test]
fn strip_markers_joins_the_parts_around_a_highlight() {
    assert_eq!(strip_markers("the >>>spice<<< flow"), "the spice flow");
    assert_eq!(strip_markers(">>><<<"), "");
    assert_eq!(strip_markers("melange>>"), "melange");
    assert_eq!(strip_markers("melange<"), "melange");
    assert_eq!(strip_markers("melange>>>>"), "melange");
}

#[test]
fn marker_segments_of_one_highlight_are_three_non_empty_parts() {
    let segs = marker_segments("the >>>spice<<< flow");
    let texts: Vec<(&str, bool)> = segs.iter().map(|g| (g.text.as_str(), g.matched)).collect();
    assert_eq!(texts, vec![("the ", false), ("spice", true), (" flow", false)]);
    for s in [">>><<<>>>x", ">>>", "a<<<<<<b", ""] {
        assert!(marker_segments(s).iter().all(|g| !g.text.is_empty()));
    }
}

#[test]
fn slugify_of_a_concatenation_is_the_concatenation_of_slugs() {
    let (a, b) = ("Children of", " Dune-2!");
    assert_eq!(slugify(&format!("{a}{b}")), format!("{}{}", slugify(a), slugify(b)));
    assert_eq!(slugify("Children of Dune-2!"), "childrenofdune2");
}
