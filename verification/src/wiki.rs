//! The decisions of the codex import from the Dune wiki API: which terms
//! are fetched for each table, what row a fetched entry becomes, and the
//! built-in quotes. Fetching, pacing and writing to the database are the
//! caller's.

use vstd::prelude::*;
use vstd::utf8::encode_utf8;
use crate::profile::{clean_entity_text, dedupe_repeated, spec_clean_entity_text};
use crate::text::{all_ascii, chars_of, push_all, string_of, trim, trim_chars};

verus! {

/// What the wiki API returns for a term.
pub struct WikiResponse {
    pub description: String,
    pub wiki: String,
}

/// One entity table of the import: its name, name column and text column.
#[derive(Debug, Clone, Copy)]
pub struct WikiKind {
    pub table: &'static str,
    pub name_col: &'static str,
    pub desc_col: &'static str,
}

impl WikiKind {
    pub fn characters() -> (r: WikiKind)
        ensures
            r.table@ == "characters"@,
            r.name_col@ == "name"@,
            r.desc_col@ == "description"@,
    {
        WikiKind { table: "characters", name_col: "name", desc_col: "description" }
    }

    pub fn houses() -> (r: WikiKind)
        ensures
            r.table@ == "houses"@,
            r.name_col@ == "name"@,
            r.desc_col@ == "description"@,
    {
        WikiKind { table: "houses", name_col: "name", desc_col: "description" }
    }

    pub fn planets() -> (r: WikiKind)
        ensures
            r.table@ == "planets"@,
            r.name_col@ == "name"@,
            r.desc_col@ == "description"@,
    {
        WikiKind { table: "planets", name_col: "name", desc_col: "description" }
    }

    pub fn glossary() -> (r: WikiKind)
        ensures
            r.table@ == "glossary"@,
            r.name_col@ == "term"@,
            r.desc_col@ == "definition"@,
    {
        WikiKind { table: "glossary", name_col: "term", desc_col: "definition" }
    }

    /// The upsert of one imported row: `?1` name, `?2` text, `?3` the wiki
    /// URL, the source recorded as `wiki`.
    pub fn insert_sql(&self) -> (r: String)
        ensures
            r@ == spec_insert_sql(*self),
    {
        let mut out = chars_of("INSERT OR REPLACE INTO ");
        push_all(&mut out, &chars_of(self.table));
        push_all(&mut out, &chars_of(" ("));
        push_all(&mut out, &chars_of(self.name_col));
        push_all(&mut out, &chars_of(", "));
        push_all(&mut out, &chars_of(self.desc_col));
        push_all(
            &mut out,
            &chars_of(", source, source_url)\n                         VALUES (?1, ?2, 'wiki', ?3)"),
        );
        string_of(&out)
    }
}

pub open spec fn spec_insert_sql(k: WikiKind) -> Seq<char> {
    "INSERT OR REPLACE INTO "@ + k.table@ + " ("@ + k.name_col@ + ", "@ + k.desc_col@
        + ", source, source_url)\n                         VALUES (?1, ?2, 'wiki', ?3)"@
}

/// A term's display name: trimmed, `_` read as a space.
pub open spec fn term_name(term: Seq<char>) -> Seq<char> {
    trim(term).map_values(|c: char| if c == '_' { ' ' } else { c })
}

/// Whether the entity-text cleanup reads `raw`: multi-line text always,
/// the single-line format when it is ASCII once a repeated copy is cut.
pub open spec fn entity_text_readable(raw: Seq<char>) -> bool {
    raw.contains('\n') || all_ascii(dedupe_repeated(raw))
}

/// A fetched entry worth keeping has more than ten bytes of description.
pub open spec fn worth_importing(desc: Seq<char>) -> bool {
    encode_utf8(desc).len() > 10
}

/// The row a fetched entry becomes.
pub struct ImportRow {
    pub name: String,
    pub description: String,
    pub source_url: String,
}

pub fn term_display_name(term: &str) -> (r: String)
    ensures
        r@ == term_name(term@),
{
    let t = trim_chars(&chars_of(term));
    let mut out: Vec<char> = Vec::new();
    let mut i: usize = 0;
    while i < t.len()
        invariant
            i <= t@.len(),
            out@ == t@.take(i as int).map_values(|c: char| if c == '_' { ' ' } else { c }),
        decreases t@.len() - i,
    {
        out.push(if t[i] == '_' { ' ' } else { t[i] });
        assert(out@ =~= t@.take(i + 1).map_values(|c: char| if c == '_' { ' ' } else { c }));
        i += 1;
    }
    assert(t@.take(t@.len() as int) =~= t@);
    string_of(&out)
}

/// Whether [`clean_entity_text`] can read `raw`.
pub fn entity_text_supported(raw: &str) -> (r: bool)
    ensures
        r == entity_text_readable(raw@),
{
    crate::profile::entity_text_readable_exec(raw)
}

/// What a fetched entry becomes: `None` when its description has ten bytes
/// or fewer; otherwise the term's display name, the cleaned description
/// (the name serving as the hint where the biography starts) and the wiki
/// URL.
pub fn import_row(term: &str, resp: &WikiResponse) -> (r: Option<ImportRow>)
    requires
        worth_importing(resp.description@) ==> entity_text_readable(resp.description@),
    ensures
        match r {
            Some(row) => {
                &&& worth_importing(resp.description@)
                &&& row.name@ == term_name(term@)
                &&& row.description@ == spec_clean_entity_text(term_name(term@), resp.description@)
                &&& row.source_url@ == resp.wiki@
            },
            None => !worth_importing(resp.description@),
        },
{
    if resp.description.as_str().as_bytes().len() > 10 {
        let name = term_display_name(term);
        let description = clean_entity_text(name.as_str(), resp.description.as_str());
        Some(ImportRow { name, description, source_url: resp.wiki.clone() })
    } else {
        None
    }
}

} // verus!

verus! {

/// Views of a list of string slices.
pub open spec fn str_views(v: Seq<&str>) -> Seq<Seq<char>> {
    v.map_values(|s: &str| s@)
}

/// The character pages fetched, in order.
pub open spec fn character_term_list() -> Seq<Seq<char>> {
    seq![
        "paul_atreides"@,
        "leto_atreides_i"@,
        "jessica_atreides"@,
        "alia_atreides"@,
        "leto_atreides_ii"@,
        "ghanima_atreides"@,
        "vladimir_harkonnen"@,
        "feyd-rautha_harkonnen"@,
        "glossu_rabban"@,
        "duncan_idaho"@,
        "thufir_hawat"@,
        "gurney_halleck"@,
        "chani"@,
        "stilgar"@,
        "liet_kynes"@,
        "irulan_corrino"@,
        "shaddam_corrino_iv"@,
        "gaius_helen_mohiam"@,
        "count_fenring"@,
        "hayt"@,
        "scytale"@,
        "siona_atreides"@,
        "moneo_atreides"@,
        "lucilla"@,
        "hwi_oreilly"@,
        "princess_wensicia"@,
        "edric"@,
        "malky"@,
        "dancing_bear"@,
        "wellington_yueh"@,
    ]
}

/// The character pages the import fetches.
pub fn character_terms() -> (r: &'static [&'static str])
    ensures
        str_views(r@) == character_term_list(),
{
    let r: &'static [&'static str] = &[
        "paul_atreides",
        "leto_atreides_i",
        "jessica_atreides",
        "alia_atreides",
        "leto_atreides_ii",
        "ghanima_atreides",
        "vladimir_harkonnen",
        "feyd-rautha_harkonnen",
        "glossu_rabban",
        "duncan_idaho",
        "thufir_hawat",
        "gurney_halleck",
        "chani",
        "stilgar",
        "liet_kynes",
        "irulan_corrino",
        "shaddam_corrino_iv",
        "gaius_helen_mohiam",
        "count_fenring",
        "hayt",
        "scytale",
        "siona_atreides",
        "moneo_atreides",
        "lucilla",
        "hwi_oreilly",
        "princess_wensicia",
        "edric",
        "malky",
        "dancing_bear",
        "wellington_yueh",
    ];
    assert(str_views(r@) =~= character_term_list());
    r
}

/// The house pages fetched, in order.
pub open spec fn house_term_list() -> Seq<Seq<char>> {
    seq![
        "house_atreides"@,
        "house_harkonnen"@,
        "house_corrino"@,
        "house_ix"@,
        "house_richese"@,
        "house_ginaz"@,
        "house_canopus"@,
        "house_ecaz"@,
        "house_vermillion"@,
    ]
}

/// The house pages the import fetches.
pub fn house_terms() -> (r: &'static [&'static str])
    ensures
        str_views(r@) == house_term_list(),
{
    let r: &'static [&'static str] = &[
        "house_atreides",
        "house_harkonnen",
        "house_corrino",
        "house_ix",
        "house_richese",
        "house_ginaz",
        "house_canopus",
        "house_ecaz",
        "house_vermillion",
    ];
    assert(str_views(r@) =~= house_term_list());
    r
}

/// The planet pages fetched, in order.
pub open spec fn planet_term_list() -> Seq<Seq<char>> {
    seq![
        "arrakis"@,
        "caladan"@,
        "giedi_prime"@,
        "kaitain"@,
        "salusa_secundus"@,
        "ix"@,
        "richese"@,
        "calmull"@,
        "poritrin"@,
        "bela_teguse"@,
        "lankiveil"@,
        "earth"@,
    ]
}

/// The planet pages the import fetches.
pub fn planet_terms() -> (r: &'static [&'static str])
    ensures
        str_views(r@) == planet_term_list(),
{
    let r: &'static [&'static str] = &[
        "arrakis",
        "caladan",
        "giedi_prime",
        "kaitain",
        "salusa_secundus",
        "ix",
        "richese",
        "calmull",
        "poritrin",
        "bela_teguse",
        "lankiveil",
        "earth",
    ];
    assert(str_views(r@) =~= planet_term_list());
    r
}

/// The glossary pages fetched, in order.
pub open spec fn glossary_term_list() -> Seq<Seq<char>> {
    seq![
        "spice_melange"@,
        "krisatz_haderach"@,
        "bene_gesserit"@,
        "mentat"@,
        "guild_navigator"@,
        "sandworm"@,
        "shai-hulud"@,
        "stillsuit"@,
        "crysknife"@,
        "gom_jabbar"@,
        "golden_path"@,
        "sardaukar"@,
        "imperium"@,
        "landsraad"@,
        "CHOAM"@,
        "spacing_guild"@,
        "melange"@,
        "spice"@,
        "nothink"@,
        "other_memory"@,
        "prana-bindu"@,
        "weirding_way"@,
        "kanly"@,
        "faufreluches"@,
        "sietch"@,
        "fremen"@,
        "ornithopter"@,
        "thumpers"@,
        "water_of_life"@,
        "butlerian_jihad"@,
    ]
}

/// The glossary pages the import fetches.
pub fn glossary_terms() -> (r: &'static [&'static str])
    ensures
        str_views(r@) == glossary_term_list(),
{
    let r: &'static [&'static str] = &[
        "spice_melange",
        "krisatz_haderach",
        "bene_gesserit",
        "mentat",
        "guild_navigator",
        "sandworm",
        "shai-hulud",
        "stillsuit",
        "crysknife",
        "gom_jabbar",
        "golden_path",
        "sardaukar",
        "imperium",
        "landsraad",
        "CHOAM",
        "spacing_guild",
        "melange",
        "spice",
        "nothink",
        "other_memory",
        "prana-bindu",
        "weirding_way",
        "kanly",
        "faufreluches",
        "sietch",
        "fremen",
        "ornithopter",
        "thumpers",
        "water_of_life",
        "butlerian_jihad",
    ];
    assert(str_views(r@) =~= glossary_term_list());
    r
}

/// The quotes every import adds: `(text, attribution, book)`.
pub open spec fn builtin_quote_list() -> Seq<(Seq<char>, Seq<char>, Seq<char>)> {
    seq![
        ("Fear is the mind-killer. Fear is the little-death that brings total obliteration. I will face my fear. I will permit it to pass over me and through me."@, "Paul Atreides"@, "Dune"@),
        ("He who controls the spice controls the universe."@, "Unknown"@, "Dune"@),
        ("The mystery of life isn't a problem to solve, but a reality to experience."@, "Paul Atreides"@, "Dune"@),
        ("A beginning is the time for taking the most delicate care."@, "Unknown"@, "Dune"@),
        ("Tell me of your homeworld Usul."@, "Stilgar"@, "Dune"@),
        ("The spice melange is the key to interstellar travel."@, "Unknown"@, "Dune"@),
        ("Only I will remain."@, "Paul Atreides"@, "Dune"@),
        ("He who can destroy a thing, controls a thing."@, "Paul Atreides"@, "Dune"@),
        ("The sleeper must awaken."@, "Paul Atreides"@, "Dune"@),
        ("Walk without rhythm, and you won't attract the worm."@, "Stilgar"@, "Dune"@),
        ("There is no escape, we pay for the violence of our ancestors."@, "Unknown"@, "Dune"@),
        ("God created Arrakis to train the faithful."@, "Unknown"@, "Dune"@),
        ("Hope clouds observation."@, "Unknown"@, "Dune"@),
        ("Surprise is the most dangerous weapon in the universe."@, "Leto Atreides I"@, "Dune"@),
        ("Train hard, fight easy."@, "Gurney Halleck"@, "Dune"@),
        ("The beginning of knowledge is the discovery of something we do not understand."@, "Unknown"@, "Dune"@),
        ("You don't get something for nothing. You can't have freedom without responsibility."@, "Unknown"@, "Dune"@),
    ]
}

pub open spec fn quote_views(v: Seq<(&str, &str, &str)>) -> Seq<(Seq<char>, Seq<char>, Seq<char>)> {
    v.map_values(|q: (&str, &str, &str)| (q.0@, q.1@, q.2@))
}

/// The built-in quotes, `(text, attribution, book)`, added by every
/// import.
pub fn builtin_quotes() -> (r: Vec<(&'static str, &'static str, &'static str)>)
    ensures
        quote_views(r@) == builtin_quote_list(),
{
    let r = vec![
        ("Fear is the mind-killer. Fear is the little-death that brings total obliteration. I will face my fear. I will permit it to pass over me and through me.", "Paul Atreides", "Dune"),
        ("He who controls the spice controls the universe.", "Unknown", "Dune"),
        ("The mystery of life isn't a problem to solve, but a reality to experience.", "Paul Atreides", "Dune"),
        ("A beginning is the time for taking the most delicate care.", "Unknown", "Dune"),
        ("Tell me of your homeworld Usul.", "Stilgar", "Dune"),
        ("The spice melange is the key to interstellar travel.", "Unknown", "Dune"),
        ("Only I will remain.", "Paul Atreides", "Dune"),
        ("He who can destroy a thing, controls a thing.", "Paul Atreides", "Dune"),
        ("The sleeper must awaken.", "Paul Atreides", "Dune"),
        ("Walk without rhythm, and you won't attract the worm.", "Stilgar", "Dune"),
        ("There is no escape, we pay for the violence of our ancestors.", "Unknown", "Dune"),
        ("God created Arrakis to train the faithful.", "Unknown", "Dune"),
        ("Hope clouds observation.", "Unknown", "Dune"),
        ("Surprise is the most dangerous weapon in the universe.", "Leto Atreides I", "Dune"),
        ("Train hard, fight easy.", "Gurney Halleck", "Dune"),
        ("The beginning of knowledge is the discovery of something we do not understand.", "Unknown", "Dune"),
        ("You don't get something for nothing. You can't have freedom without responsibility.", "Unknown", "Dune"),
    ];
    assert(quote_views(r@) =~= builtin_quote_list());
    r
}

/// The insert of a built-in quote: `?1` text, `?2` attribution, `?3`
/// book, the source recorded as `builtin`; a quote already there is kept.
pub fn builtin_quote_sql() -> (r: &'static str)
    ensures
        r@ == "INSERT OR IGNORE INTO quotes (text, attribution, book_title, source)
             VALUES (?1, ?2, ?3, 'builtin')"@,
{
    "INSERT OR IGNORE INTO quotes (text, attribution, book_title, source)
             VALUES (?1, ?2, ?3, 'builtin')"
}

} // verus!
