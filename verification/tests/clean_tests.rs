use dune_codex::clean::clean_wiki_text;
use dune_codex::profile::{clean_entity_text, fix_value_spacing, insert_glue_spaces};

#[test]
fn removes_fanart_parenthetical() {
    let cleaned =
        clean_wiki_text("Paul Muad'Dib Atreides (fanart by Paul Hanley) is the son of Duke Leto.");
    assert_eq!(cleaned, "Paul Muad'Dib Atreides is the son of Duke Leto.");
}

#[test]
fn keeps_normal_parentheticals() {
    let cleaned = clean_wiki_text("He ruled as Duke (10191 AG) until his death.");
    assert_eq!(cleaned, "He ruled as Duke (10191 AG) until his death.");
}

#[test]
fn drops_trivial_film_fragments() {
    let cleaned =
        clean_wiki_text("Paul Atreides led the Fremen. Miniseries 1984 film. He became Emperor.");
    assert_eq!(cleaned, "Paul Atreides led the Fremen. He became Emperor.");
}

#[test]
fn drops_portrayed_by_references() {
    let cleaned = clean_wiki_text("Paul was portrayed by Timothe Chalamet in the 2021 adaptation.");
    assert_eq!(cleaned, "");
}

#[test]
fn separates_and_normalizes_sections() {
    let raw = "Titles\nDuke of House Atreides\nEmperor\nBiography Paul was born on \
               Caladan as the heir of House Atreides.";
    let cleaned = clean_wiki_text(raw);
    assert!(cleaned.contains("## Titles"));
    assert!(cleaned.contains("## Biography"));
    assert!(cleaned.contains("\n\n"));
    let titles_idx = cleaned.find("## Titles").unwrap();
    let bio_idx = cleaned.find("## Biography").unwrap();
    assert!(titles_idx < bio_idx);
}

#[test]
fn splits_glued_headers_from_content() {
    let cleaned = clean_wiki_text("Biography Paul was born on Caladan as the heir.");
    assert!(cleaned.contains("## Biography"));
    assert!(cleaned.contains("Paul was born on Caladan as the heir."));
}

#[test]
fn does_not_split_sentences_that_merely_start_like_headers() {
    let cleaned = clean_wiki_text("Titles are earned through service in the Imperium.");
    assert!(!cleaned.contains("## Titles"));
    assert_eq!(cleaned, "Titles are earned through service in the Imperium.");
}

#[test]
fn drops_glued_behind_the_scenes_header() {
    let cleaned = clean_wiki_text("Behind the Scenes Several actors played the character on screen.");
    assert_eq!(cleaned, "");
}

#[test]
fn keeps_long_biographical_sentences_mentioning_films() {
    let raw = "The 1984 film adaptation compressed the novel considerably, yet the \
               book remains the canonical version of Paul's story for most readers.";
    let cleaned = clean_wiki_text(raw);
    assert_eq!(cleaned, raw);
}

const PAUL: &str = "Paul Atreides Film series Miniseries 1984 film Novels Aliases \
Muad'Dib, Usul, The Preacher Political Information Titles Duke, Padishah Emperor Great House \
House Atreides Affiliation and Relationships Loyalty House AtreidesFremenSietch Tabr Family \
members Irulan Corrino (wife)Tanidia Nerus (maternal grandmother)Jessica Atreides (mother) \
Romances Irulan Corrino (wife)Chani Kynes (concubine) Biographical Information Born 10176 AG \
Place of birth Caladan Died 10219 AG Place of death Arrakeen, Arrakis Physical Characteristics \
Eyes Blue within blue(formerly green) Hair Black Height Short Behind the Scenes First \
appearance Portrayed by Dune(1965) Timothe Chalamet (film series)Kyle MacLachlan (1984 film)\
Paul Atreides (10176 AG - 10219 AG), predominantly known as Muad'Dib, was the last Duke of \
the noble House Atreides.He rose to power among the Fremen.Their victory led him to \
overthrow the Emperor Shaddam IV.He formed the Atreides Empire.";

#[test]
fn parses_profile_block_from_real_payload() {
    let cleaned = clean_entity_text("Paul Atreides", PAUL);
    assert!(cleaned.starts_with("## Profile"));
    assert!(cleaned.contains("Aliases: Muad'Dib, Usul, The Preacher"));
    assert!(cleaned.contains("Titles: Duke, Padishah Emperor"));
    assert!(cleaned.contains("Great House: House Atreides"));
    assert!(cleaned.contains("Loyalty: House Atreides Fremen Sietch Tabr"));
    assert!(cleaned.contains("Irulan Corrino (wife) · Tanidia Nerus (maternal grandmother)"));
    assert!(cleaned.contains("Born: 10176 AG · Caladan"));
    assert!(cleaned.contains("Died: 10219 AG · Arrakeen, Arrakis"));
    assert!(cleaned.contains("Blue within blue (formerly green)"));
    assert!(cleaned.contains("Height: Short"));
}

#[test]
fn strips_actors_and_behind_the_scenes() {
    let cleaned = clean_entity_text("Paul Atreides", PAUL);
    assert!(!cleaned.contains("Chalamet"));
    assert!(!cleaned.contains("MacLachlan"));
    assert!(!cleaned.contains("Portrayed by"));
    assert!(!cleaned.contains("Behind the Scenes"));
    assert!(!cleaned.contains("Film series"));
    assert!(!cleaned.contains("(1965)"));
}

#[test]
fn bio_starts_at_self_mention_and_repairs_boundaries() {
    let cleaned = clean_entity_text("Paul Atreides", PAUL);
    assert!(cleaned.contains("Paul Atreides (10176 AG - 10219 AG), predominantly known as Muad'Dib"));
    assert!(cleaned.contains("House Atreides. He rose to power among the Fremen."));
}

#[test]
fn house_bio_split_without_behind_the_scenes_marker() {
    let raw = "House Atreides Status House Major Homeworld Caladan Ruling Title Duke, \
Emperor, God-EmperorHouse Atreides was one of the Houses Major within the Galactic Padishah \
Empire.They were ruled by the patriarch of the Atreides family.";
    let cleaned = clean_entity_text("House Atreides", raw);
    assert!(cleaned.contains("Status: House Major"));
    assert!(cleaned.contains("Homeworld: Caladan"));
    assert!(cleaned.contains("Ruling Title: Duke, Emperor, God-Emperor"));
    assert!(cleaned.contains(
        "House Atreides was one of the Houses Major within the Galactic Padishah Empire."
    ));
}

#[test]
fn keeps_intro_paragraph_before_infobox() {
    let raw = "Chani Kynes [d. 10210 AG], also known by her intimate name Sihaya, was \
the Fremen bound concubine of Emperor Paul Atreides.Chani Kynes Encyclopedia Aliases Sihaya \
Romances Paul Atreides Behind the Scenes First appearance Portrayed by Dune(1965) Zendaya \
(film series)Sean Young (1984 film)Chani was described as skinny with an elfin face.";
    let cleaned = clean_entity_text("Chani", raw);
    assert!(cleaned.contains("also known by her intimate name Sihaya"));
    assert!(cleaned.contains("Aliases: Sihaya"));
    assert!(cleaned.contains("Romances: Paul Atreides"));
    assert!(!cleaned.contains("Zendaya"));
    assert!(!cleaned.contains("Sean Young"));
    assert!(cleaned.contains("Chani was described as skinny with an elfin face."));
}

#[test]
fn pure_prose_entry_gets_no_profile_block() {
    let raw = "Artist's portrayalArrakis (/rks/), also known as 'Dune', is a harsh \
desert planet located on the far edge of the Old Imperium.It later became the Imperium's \
center under Muad'Dib's empire.It was the original source of the Spice Melange.";
    let cleaned = clean_entity_text("Arrakis", raw);
    assert!(!cleaned.contains("## Profile"));
    assert!(!cleaned.contains("Artist's portrayal"));
    assert!(!cleaned.contains("/rks/"));
    assert!(cleaned.starts_with("Arrakis, also known as 'Dune'"));
    assert!(cleaned.contains("Imperium. It later became"));
}

#[test]
fn duplicated_payload_is_reduced_to_one_copy() {
    let base = "House Atreides Status House Major Homeworld Caladan Portrayed by \
Kyle MacLachlan House Atreides was an old and wealthy House Major. They ruled Caladan.";
    let cleaned = clean_entity_text("house atreides", &base.repeat(2));
    assert_eq!(cleaned.matches("## Profile").count(), 1);
    assert_eq!(cleaned.matches("Status:").count(), 1);
    assert_eq!(cleaned.matches("was an old and wealthy House Major.").count(), 1);
}

#[test]
fn field_that_swallowed_bio_is_split_at_entity_name() {
    let raw = "House Atreides Status House Major Ruling Title Duke, Emperor, \
God-EmperorHouse Atreides was one of the Houses Major of the Imperium. They ruled Caladan.";
    let cleaned = clean_entity_text("house atreides", raw);
    assert!(cleaned.contains("Ruling Title: Duke, Emperor, God-Emperor\n"));
    assert!(!cleaned.contains("Ruling Title: Duke, Emperor, God-Emperor House Atreides was"));
    assert_eq!(cleaned.matches("was one of the Houses Major of the Imperium.").count(), 1);
}

#[test]
fn glossary_drops_film_year_reference() {
    let raw = "A handful of the spice-rich sand from a spice field (Dune, 2021)The \
Spice Melange, commonly referred to simply as 'the spice', was a naturally produced \
awareness spectrum narcotic.";
    let cleaned = clean_entity_text("spice melange", raw);
    assert!(!cleaned.contains("(Dune, 2021)"));
    assert!(cleaned.contains("The Spice Melange, commonly referred to simply as 'the spice'"));
}

#[test]
fn long_bio_is_chunked_into_paragraphs() {
    let raw = "Entry Bio One.Two.Three.Four.Five.Six.Seven.";
    let cleaned = clean_entity_text("Entry", raw);
    assert!(cleaned.contains("\n\n"), "expected a paragraph break");
}

#[test]
fn preserves_ag_dates_when_splitting_values() {
    assert_eq!(fix_value_spacing("Blue within blue(formerly green)"), "Blue within blue (formerly green)");
    assert_eq!(fix_value_spacing("Caladan"), "Caladan");
    assert_eq!(insert_glue_spaces("McKie"), "McKie");
}

// -- further cases --------------------------------------------------------

#[test]
fn multi_line_text_goes_through_the_wiki_cleanup() {
    let raw = "Titles\nDuke of House Atreides";
    assert_eq!(clean_entity_text("Paul", raw), clean_wiki_text(raw));
}

#[test]
fn glue_spaces_separate_case_changes_and_lists() {
    assert_eq!(insert_glue_spaces("AtreidesFremen"), "Atreides Fremen");
    assert_eq!(insert_glue_spaces("(wife)Tanidia"), "(wife) · Tanidia");
    assert_eq!(insert_glue_spaces("blue(green)"), "blue (green)");
    assert_eq!(insert_glue_spaces(""), "");
}

#[test]
fn place_of_birth_joins_the_born_line() {
    let raw = "Someone Aliases X Born 10 AG Place of birth Caladan Eyes Blue";
    let cleaned = clean_entity_text("Someone", raw);
    assert!(cleaned.contains("Born: 10 AG · Caladan"));
    assert!(!cleaned.contains("Place of birth:"));
}

#[test]
fn empty_payload_cleans_to_nothing() {
    assert_eq!(clean_entity_text("Anyone", ""), "");
    assert_eq!(clean_wiki_text(""), "");
}

#[test]
fn cleaned_text_has_single_blank_lines() {
    let raw = "\n\nTitles\n\n\nDuke\n\n\nBiography\n\nPaul was born.\n\n";
    let cleaned = clean_wiki_text(raw);
    assert!(!cleaned.starts_with('\n'));
    assert!(!cleaned.ends_with('\n'));
    assert!(!cleaned.contains("\n\n\n"));
}
