//! User configuration: where the PDF library lives, which reader opens a
//! book, and which wiki the codex is imported from.

use vstd::prelude::*;
use std::path::PathBuf;

verus! {

pub struct Config {
    pub library: LibraryConfig,
    pub reader: ReaderConfig,
    pub codex: CodexConfig,
}

pub struct LibraryConfig {
    pub paths: Vec<String>,
}

pub struct ReaderConfig {
    pub command: String,
    pub args: Vec<String>,
}

pub struct CodexConfig {
    pub wiki_url: String,
}

/// The library folder used when none is configured.
pub open spec fn default_library_path() -> Seq<char> {
    "~/Books/Dune"@
}

pub open spec fn default_reader() -> Seq<char> {
    "okular"@
}

pub open spec fn default_wiki() -> Seq<char> {
    "https://dune-api-production.up.railway.app"@
}

pub fn default_library_paths() -> (r: Vec<String>)
    ensures
        r@.len() == 1,
        r@[0]@ == default_library_path(),
{
    vec![String::from_str("~/Books/Dune")]
}

pub fn default_reader_command() -> (r: String)
    ensures
        r@ == default_reader(),
{
    String::from_str("okular")
}

pub fn default_wiki_url() -> (r: String)
    ensures
        r@ == default_wiki(),
{
    String::from_str("https://dune-api-production.up.railway.app")
}

impl Default for LibraryConfig {
    fn default() -> (r: Self)
        ensures
            r.paths@.len() == 1,
            r.paths@[0]@ == default_library_path(),
    {
        LibraryConfig { paths: default_library_paths() }
    }
}

impl Default for ReaderConfig {
    fn default() -> (r: Self)
        ensures
            r.command@ == default_reader(),
            r.args@.len() == 0,
    {
        ReaderConfig { command: default_reader_command(), args: Vec::new() }
    }
}

impl Default for CodexConfig {
    fn default() -> (r: Self)
        ensures
            r.wiki_url@ == default_wiki(),
    {
        CodexConfig { wiki_url: default_wiki_url() }
    }
}

impl Default for Config {
    fn default() -> (r: Self)
        ensures
            r.library.paths@.len() == 1,
            r.library.paths@[0]@ == default_library_path(),
            r.reader.command@ == default_reader(),
            r.reader.args@.len() == 0,
            r.codex.wiki_url@ == default_wiki(),
    {
        Config {
            library: LibraryConfig::default(),
            reader: ReaderConfig::default(),
            codex: CodexConfig::default(),
        }
    }
}

/// `~` or `~/...`: the forms whose `~` stands for the home directory.
pub open spec fn home_relative(s: Seq<char>) -> bool {
    s.len() > 0 && s[0] == '~' && (s.len() == 1 || s[1] == '/')
}

/// `shellexpand::tilde`: a leading `~` alone or before `/` is replaced by
/// the home directory. On Unix targets any other text comes back
/// unchanged, and a home-relative one comes back unchanged (no home
/// directory known) or as some directory followed by the text after `~`.
/// Which directory that is depends on the environment and is not stated.
/// (On Windows the function also expands `~\`, which this contract does not
/// cover.)
#[verifier::external_body]
fn expand_tilde(s: &str) -> (r: String)
    ensures
        !home_relative(s@) ==> r@ == s@,
        home_relative(s@) ==> r@ == s@ || exists|home: Seq<char>| r@ == home + s@.skip(1),
{
    shellexpand::tilde(s).into_owned()
}

/// The text of a path (`PathBuf::as_os_str`, read as text).
pub uninterp spec fn path_buf_text(p: PathBuf) -> Seq<char>;

/// `PathBuf::from` (std) on a `String`: the path holds exactly that text.
#[verifier::external_body]
fn path_from(s: String) -> (r: PathBuf)
    ensures
        path_buf_text(r) == s@,
{
    PathBuf::from(s)
}

/// `e` is what tilde expansion may make of the configured path `p`: `p`
/// itself when it is not home-relative, else `p` or some directory
/// followed by the text after `~`.
pub open spec fn expansion_of(p: Seq<char>, e: Seq<char>) -> bool {
    &&& !home_relative(p) ==> e == p
    &&& home_relative(p) ==> e == p || exists|home: Seq<char>| e == home + p.skip(1)
}

/// The paths with the given texts, in order.
pub fn paths_from_texts(texts: &Vec<String>) -> (r: Vec<PathBuf>)
    ensures
        r@.len() == texts@.len(),
        forall|i: int| 0 <= i < r@.len() ==> path_buf_text(#[trigger] r@[i]) == texts@[i]@,
{
    let mut out: Vec<PathBuf> = Vec::new();
    let mut i: usize = 0;
    while i < texts.len()
        invariant
            i <= texts@.len(),
            out@.len() == i,
            forall|j: int| 0 <= j < i ==> path_buf_text(#[trigger] out@[j]) == texts@[j]@,
        decreases texts@.len() - i,
    {
        let t = texts[i].clone();
        out.push(path_from(t));
        i += 1;
    }
    out
}

impl Config {
    /// The library paths with a leading `~` expanded to the home directory.
    pub fn expanded_library_paths(&self) -> (r: Vec<String>)
        ensures
            r@.len() == self.library.paths@.len(),
            forall|i: int|
                0 <= i < r@.len() ==> expansion_of(#[trigger] self.library.paths@[i]@, r@[i]@),
    {
        let mut out: Vec<String> = Vec::new();
        let mut i: usize = 0;
        while i < self.library.paths.len()
            invariant
                i <= self.library.paths@.len(),
                out@.len() == i,
                forall|j: int|
                    0 <= j < i ==> expansion_of(#[trigger] self.library.paths@[j]@, out@[j]@),
            decreases self.library.paths@.len() - i,
        {
            let e = expand_tilde(self.library.paths[i].as_str());
            out.push(e);
            i += 1;
        }
        out
    }

    /// The library folders as paths, `~` expanded (see
    /// [`Config::expanded_library_paths`]), one per configured path, in
    /// order.
    pub fn resolve_library_paths(&self) -> (r: Vec<PathBuf>)
        ensures
            r@.len() == self.library.paths@.len(),
            exists|texts: Seq<Seq<char>>|
                #[trigger] resolved_from(self.library.paths@, texts, r@),
    {
        let expanded = self.expanded_library_paths();
        let r = paths_from_texts(&expanded);
        assert(resolved_from(self.library.paths@, seqs_of_strings(expanded@), r@));
        r
    }
}

/// `paths` are the configured library paths; `texts` are what their
/// expansion gave, one for each, and `r` the paths with those texts.
pub open spec fn resolved_from(paths: Seq<String>, texts: Seq<Seq<char>>, r: Seq<PathBuf>) -> bool {
    &&& texts.len() == paths.len()
    &&& r.len() == paths.len()
    &&& forall|i: int|
        0 <= i < paths.len() ==> expansion_of(#[trigger] paths[i]@, texts[i]) && path_buf_text(r[i])
            == texts[i]
}

/// The texts of a sequence of strings.
pub open spec fn seqs_of_strings(v: Seq<String>) -> Seq<Seq<char>> {
    v.map_values(|x: String| x@)
}

} // verus!
