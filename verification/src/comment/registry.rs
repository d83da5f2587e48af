//! Which parser handles a file, and which extensions a language has.

use vstd::prelude::*;
use crate::text::{chars_of, has_prefix, has_suffix, lowercase, str_eq};
use crate::pathutil::{extension, extension_spec, file_name, file_name_spec};
use super::base::{items, Comment, Item, Parser};
use super::cstyle::{cstyle_items, CStyleParser};
use super::go::{go_items, GoParser};
use super::hash::{docker_items, hash_items, DockerfileParser, HashStyleParser};
use super::hcl::{hcl_items, HclParser};
use super::html::{html_items, HtmlParser};
use super::markdown::{markdown_items, MarkdownParser};
use super::python::{python_items, PythonParser};

verus! {

/// The parsers, in the order in which a file's extension is looked up.
#[derive(Debug, Clone, Copy, PartialEq, Eq, Structural)]
pub enum ParserKind {
    Go,
    /// JavaScript and TypeScript (C-style with template literals).
    Script,
    /// C family, JVM languages, C#, Swift, Rust, PHP.
    CFamily,
    Python,
    Dockerfile,
    Markdown,
    Ruby,
    Shell,
    Html,
    Hcl,
}

/// The extensions each parser handles.
pub open spec fn kind_exts(k: ParserKind) -> Seq<Seq<char>> {
    match k {
        ParserKind::Go => seq![".go"@],
        ParserKind::Script => seq![".ts"@, ".tsx"@, ".js"@, ".jsx"@, ".mjs"@, ".cjs"@],
        ParserKind::CFamily => seq![
            ".java"@,
            ".kt"@,
            ".kts"@,
            ".c"@,
            ".cpp"@,
            ".cc"@,
            ".cxx"@,
            ".h"@,
            ".hpp"@,
            ".cs"@,
            ".swift"@,
            ".rs"@,
            ".php"@,
            ".phtml"@,
        ],
        ParserKind::Python => seq![".py"@],
        ParserKind::Dockerfile => seq!["dockerfile"@],
        ParserKind::Markdown => seq![".md"@, ".markdown"@],
        ParserKind::Ruby => seq![".rb"@, ".rake"@, ".gemspec"@],
        ParserKind::Shell => seq![".sh"@, ".bash"@, ".zsh"@, ".fish"@, ".ksh"@],
        ParserKind::Html => seq![".html"@, ".htm"@, ".svg"@],
        ParserKind::Hcl => seq![".hcl"@, ".tf"@, ".tfvars"@],
    }
}

/// The first parser, in lookup order, that handles the extension.
pub open spec fn kind_for_ext(ext: Seq<char>) -> Option<ParserKind> {
    if kind_exts(ParserKind::Go).contains(ext) {
        Some(ParserKind::Go)
    } else if kind_exts(ParserKind::Script).contains(ext) {
        Some(ParserKind::Script)
    } else if kind_exts(ParserKind::CFamily).contains(ext) {
        Some(ParserKind::CFamily)
    } else if kind_exts(ParserKind::Python).contains(ext) {
        Some(ParserKind::Python)
    } else if kind_exts(ParserKind::Dockerfile).contains(ext) {
        Some(ParserKind::Dockerfile)
    } else if kind_exts(ParserKind::Markdown).contains(ext) {
        Some(ParserKind::Markdown)
    } else if kind_exts(ParserKind::Ruby).contains(ext) {
        Some(ParserKind::Ruby)
    } else if kind_exts(ParserKind::Shell).contains(ext) {
        Some(ParserKind::Shell)
    } else if kind_exts(ParserKind::Html).contains(ext) {
        Some(ParserKind::Html)
    } else if kind_exts(ParserKind::Hcl).contains(ext) {
        Some(ParserKind::Hcl)
    } else {
        None
    }
}

/// A Dockerfile: its lower-cased file name is `dockerfile`, starts with `dockerfile.` or
/// ends with `.dockerfile`.
pub open spec fn dockerfile_name(path: Seq<char>) -> bool {
    let base = match file_name_spec(path) {
        Some(b) => b,
        None => Seq::empty(),
    };
    let l = lowercase(base);
    l == "dockerfile"@ || has_prefix(l, "dockerfile."@) || has_suffix(l, ".dockerfile"@)
}

/// The parser for a path: Dockerfiles by name, the rest by extension.
pub open spec fn parser_for(path: Seq<char>) -> Option<ParserKind> {
    if dockerfile_name(path) {
        Some(ParserKind::Dockerfile)
    } else {
        match extension_spec(path) {
            None => None,
            Some(e) => kind_for_ext(seq!['.'] + e),
        }
    }
}

/// The items a parser extracts.
pub open spec fn kind_items(k: ParserKind, content: Seq<char>) -> Seq<Item> {
    match k {
        ParserKind::Go => go_items(content),
        ParserKind::Script => cstyle_items(content, true),
        ParserKind::CFamily => cstyle_items(content, false),
        ParserKind::Python => python_items(content),
        ParserKind::Dockerfile => docker_items(content),
        ParserKind::Markdown => markdown_items(content),
        ParserKind::Ruby => hash_items(content, true),
        ParserKind::Shell => hash_items(content, false),
        ParserKind::Html => html_items(content),
        ParserKind::Hcl => hcl_items(content),
    }
}

/// Whether the path names a Dockerfile (see `dockerfile_name`).
pub fn is_dockerfile_path(path: &str) -> (r: bool)
    ensures
        r == dockerfile_name(path@),
{
    let pc = chars_of(path);
    let base = match file_name(&pc) {
        Some(b) => b,
        None => Vec::new(),
    };
    assert(file_name_spec(path@) is None ==> base@ =~= Seq::<char>::empty());
    let l = crate::text::lower_chars(&base);
    crate::text::chars_eq_str(&l, "dockerfile") || crate::text::starts_with_str(&l, "dockerfile.")
        || crate::text::ends_with(&l, &chars_of(".dockerfile"))
}

/// One of the parsers.
pub enum AnyParser {
    Go(GoParser),
    CStyle(CStyleParser),
    Python(PythonParser),
    Dockerfile(DockerfileParser),
    Markdown(MarkdownParser),
    HashStyle(HashStyleParser),
    Html(HtmlParser),
    Hcl(HclParser),
}

impl AnyParser {
    /// Which parser this is, by what it extracts.
    pub open spec fn kind(&self) -> ParserKind {
        match self {
            AnyParser::Go(_) => ParserKind::Go,
            AnyParser::CStyle(p) => if p.template() {
                ParserKind::Script
            } else {
                ParserKind::CFamily
            },
            AnyParser::Python(_) => ParserKind::Python,
            AnyParser::Dockerfile(_) => ParserKind::Dockerfile,
            AnyParser::Markdown(_) => ParserKind::Markdown,
            AnyParser::HashStyle(p) => if p.ruby() {
                ParserKind::Ruby
            } else {
                ParserKind::Shell
            },
            AnyParser::Html(_) => ParserKind::Html,
            AnyParser::Hcl(_) => ParserKind::Hcl,
        }
    }

    /// The extensions a parser reports: fixed ones for most, those it was made with for the
    /// C-style and hash-style parsers.
    pub open spec fn ext_list(&self) -> Seq<Seq<char>> {
        match self {
            AnyParser::Go(_) => seq![".go"@],
            AnyParser::CStyle(p) => p.exts().map_values(|s: &str| s@),
            AnyParser::Python(_) => seq![".py"@],
            AnyParser::Dockerfile(_) => seq!["dockerfile"@],
            AnyParser::Markdown(_) => seq![".md"@, ".markdown"@],
            AnyParser::HashStyle(p) => p.exts().map_values(|s: &str| s@),
            AnyParser::Html(_) => seq![".html"@, ".htm"@, ".svg"@],
            AnyParser::Hcl(_) => seq![".hcl"@, ".tf"@, ".tfvars"@],
        }
    }

    /// The items of the text, as this parser extracts them (see `kind_items`).
    pub fn parse_file(&self, content: &str) -> (r: Result<Vec<Comment>, String>)
        ensures
            r matches Ok(v) && items(v@) == kind_items(self.kind(), content@),
    {
        match self {
            AnyParser::Go(p) => p.parse_file(content),
            AnyParser::CStyle(p) => p.parse_file(content),
            AnyParser::Python(p) => p.parse_file(content),
            AnyParser::Dockerfile(p) => p.parse_file(content),
            AnyParser::Markdown(p) => p.parse_file(content),
            AnyParser::HashStyle(p) => p.parse_file(content),
            AnyParser::Html(p) => p.parse_file(content),
            AnyParser::Hcl(p) => p.parse_file(content),
        }
    }

    /// The extensions this parser handles.
    pub fn supported_extensions(&self) -> (r: Vec<&'static str>)
        ensures
            r@.map_values(|s: &str| s@) == self.ext_list(),
    {
        match self {
            AnyParser::Go(p) => p.supported_extensions(),
            AnyParser::CStyle(p) => p.supported_extensions(),
            AnyParser::Python(p) => p.supported_extensions(),
            AnyParser::Dockerfile(p) => p.supported_extensions(),
            AnyParser::Markdown(p) => p.supported_extensions(),
            AnyParser::HashStyle(p) => p.supported_extensions(),
            AnyParser::Html(p) => p.supported_extensions(),
            AnyParser::Hcl(p) => p.supported_extensions(),
        }
    }
}

impl Parser for AnyParser {
    fn parse_file(&self, content: &str) -> Result<Vec<Comment>, String> {
        AnyParser::parse_file(self, content)
    }

    fn supported_extensions(&self) -> Vec<&'static str> {
        AnyParser::supported_extensions(self)
    }
}

/// The parser of the given kind.
pub fn make_parser(k: ParserKind) -> (p: AnyParser)
    ensures
        p.kind() == k,
{
    match k {
        ParserKind::Go => AnyParser::Go(GoParser),
        ParserKind::Script => AnyParser::CStyle(
            CStyleParser::new(vec![".ts", ".tsx", ".js", ".jsx", ".mjs", ".cjs"], true),
        ),
        ParserKind::CFamily => AnyParser::CStyle(
            CStyleParser::new(
                vec![
                    ".java",
                    ".kt",
                    ".kts",
                    ".c",
                    ".cpp",
                    ".cc",
                    ".cxx",
                    ".h",
                    ".hpp",
                    ".cs",
                    ".swift",
                    ".rs",
                    ".php",
                    ".phtml",
                ],
                false,
            ),
        ),
        ParserKind::Python => AnyParser::Python(PythonParser),
        ParserKind::Dockerfile => AnyParser::Dockerfile(DockerfileParser),
        ParserKind::Markdown => AnyParser::Markdown(MarkdownParser),
        ParserKind::Ruby => AnyParser::HashStyle(HashStyleParser::new(vec![".rb", ".rake", ".gemspec"], true)),
        ParserKind::Shell => AnyParser::HashStyle(
            HashStyleParser::new(vec![".sh", ".bash", ".zsh", ".fish", ".ksh"], false),
        ),
        ParserKind::Html => AnyParser::Html(HtmlParser),
        ParserKind::Hcl => AnyParser::Hcl(HclParser),
    }
}

/// The extensions of a parser, in order.
pub fn kind_extensions(k: ParserKind) -> (r: Vec<&'static str>)
    ensures
        r@.map_values(|s: &str| s@) == kind_exts(k),
{
    let r = match k {
        ParserKind::Go => vec![".go"],
        ParserKind::Script => vec![".ts", ".tsx", ".js", ".jsx", ".mjs", ".cjs"],
        ParserKind::CFamily => vec![
            ".java",
            ".kt",
            ".kts",
            ".c",
            ".cpp",
            ".cc",
            ".cxx",
            ".h",
            ".hpp",
            ".cs",
            ".swift",
            ".rs",
            ".php",
            ".phtml",
        ],
        ParserKind::Python => vec![".py"],
        ParserKind::Dockerfile => vec!["dockerfile"],
        ParserKind::Markdown => vec![".md", ".markdown"],
        ParserKind::Ruby => vec![".rb", ".rake", ".gemspec"],
        ParserKind::Shell => vec![".sh", ".bash", ".zsh", ".fish", ".ksh"],
        ParserKind::Html => vec![".html", ".htm", ".svg"],
        ParserKind::Hcl => vec![".hcl", ".tf", ".tfvars"],
    };
    assert(r@.map_values(|s: &str| s@) =~= kind_exts(k));
    r
}

fn list_has(v: &Vec<&'static str>, s: &[char]) -> (r: bool)
    ensures
        r == v@.map_values(|x: &str| x@).contains(s@),
{
    let ghost vv = v@.map_values(|x: &str| x@);
    let mut i: usize = 0;
    while i < v.len()
        invariant
            i <= v@.len(),
            vv == v@.map_values(|x: &str| x@),
            forall|j: int| 0 <= j < i ==> vv[j] != s@,
        decreases v.len() - i,
    {
        if crate::text::chars_eq_str(s, v[i]) {
            assert(vv[i as int] == s@);
            return true;
        }
        i += 1;
    }
    false
}

/// The first parser, in lookup order, that handles the extension (see `kind_for_ext`).
pub fn kind_for_extension(ext: &[char]) -> (r: Option<ParserKind>)
    ensures
        r == kind_for_ext(ext@),
{
    if list_has(&kind_extensions(ParserKind::Go), ext) {
        Some(ParserKind::Go)
    } else if list_has(&kind_extensions(ParserKind::Script), ext) {
        Some(ParserKind::Script)
    } else if list_has(&kind_extensions(ParserKind::CFamily), ext) {
        Some(ParserKind::CFamily)
    } else if list_has(&kind_extensions(ParserKind::Python), ext) {
        Some(ParserKind::Python)
    } else if list_has(&kind_extensions(ParserKind::Dockerfile), ext) {
        Some(ParserKind::Dockerfile)
    } else if list_has(&kind_extensions(ParserKind::Markdown), ext) {
        Some(ParserKind::Markdown)
    } else if list_has(&kind_extensions(ParserKind::Ruby), ext) {
        Some(ParserKind::Ruby)
    } else if list_has(&kind_extensions(ParserKind::Shell), ext) {
        Some(ParserKind::Shell)
    } else if list_has(&kind_extensions(ParserKind::Html), ext) {
        Some(ParserKind::Html)
    } else if list_has(&kind_extensions(ParserKind::Hcl), ext) {
        Some(ParserKind::Hcl)
    } else {
        None
    }
}

/// The parser for a path, or `None` when none handles it (see `parser_for`).
pub fn get_parser(path: &str) -> (r: Option<AnyParser>)
    ensures
        match parser_for(path@) {
            None => r is None,
            Some(k) => r matches Some(p) && p.kind() == k,
        },
{
    if is_dockerfile_path(path) {
        return Some(make_parser(ParserKind::Dockerfile));
    }
    let pc = chars_of(path);
    match extension(&pc) {
        None => None,
        Some(e) => {
            let mut ext: Vec<char> = vec!['.'];
            crate::text::extend_chars(&mut ext, &e);
            assert(ext@ =~= seq!['.'] + e@);
            match kind_for_extension(&ext) {
                None => None,
                Some(k) => Some(make_parser(k)),
            }
        },
    }
}

/// The file extensions of a language name (none for an unknown one).
pub open spec fn lang_exts(lang: Seq<char>) -> Seq<Seq<char>> {
    if lang == "go"@ {
        seq![".go"@]
    } else if lang == "typescript"@ {
        seq![".ts"@, ".tsx"@]
    } else if lang == "javascript"@ {
        seq![".js"@, ".jsx"@, ".mjs"@, ".cjs"@]
    } else if lang == "java"@ {
        seq![".java"@]
    } else if lang == "kotlin"@ {
        seq![".kt"@, ".kts"@]
    } else if lang == "python"@ {
        seq![".py"@]
    } else if lang == "c"@ {
        seq![".c"@, ".h"@]
    } else if lang == "cpp"@ {
        seq![".cpp"@, ".cc"@, ".cxx"@, ".hpp"@]
    } else if lang == "csharp"@ {
        seq![".cs"@]
    } else if lang == "swift"@ {
        seq![".swift"@]
    } else if lang == "rust"@ {
        seq![".rs"@]
    } else if lang == "dockerfile"@ {
        seq!["dockerfile"@]
    } else if lang == "markdown"@ {
        seq![".md"@, ".markdown"@]
    } else if lang == "ruby"@ {
        seq![".rb"@, ".rake"@, ".gemspec"@]
    } else if lang == "shell"@ {
        seq![".sh"@, ".bash"@, ".zsh"@, ".fish"@, ".ksh"@]
    } else if lang == "php"@ {
        seq![".php"@, ".phtml"@]
    } else if lang == "html"@ {
        seq![".html"@, ".htm"@, ".svg"@]
    } else if lang == "hcl"@ {
        seq![".hcl"@, ".tf"@, ".tfvars"@]
    } else {
        Seq::empty()
    }
}

/// The file extensions of a language name (see `lang_exts`).
pub fn language_extensions(lang: &str) -> (r: Vec<&'static str>)
    ensures
        r@.map_values(|s: &str| s@) == lang_exts(lang@),
{
    let r: Vec<&'static str> = if str_eq(lang, "go") {
        vec![".go"]
    } else if str_eq(lang, "typescript") {
        vec![".ts", ".tsx"]
    } else if str_eq(lang, "javascript") {
        vec![".js", ".jsx", ".mjs", ".cjs"]
    } else if str_eq(lang, "java") {
        vec![".java"]
    } else if str_eq(lang, "kotlin") {
        vec![".kt", ".kts"]
    } else if str_eq(lang, "python") {
        vec![".py"]
    } else if str_eq(lang, "c") {
        vec![".c", ".h"]
    } else if str_eq(lang, "cpp") {
        vec![".cpp", ".cc", ".cxx", ".hpp"]
    } else if str_eq(lang, "csharp") {
        vec![".cs"]
    } else if str_eq(lang, "swift") {
        vec![".swift"]
    } else if str_eq(lang, "rust") {
        vec![".rs"]
    } else if str_eq(lang, "dockerfile") {
        vec!["dockerfile"]
    } else if str_eq(lang, "markdown") {
        vec![".md", ".markdown"]
    } else if str_eq(lang, "ruby") {
        vec![".rb", ".rake", ".gemspec"]
    } else if str_eq(lang, "shell") {
        vec![".sh", ".bash", ".zsh", ".fish", ".ksh"]
    } else if str_eq(lang, "php") {
        vec![".php", ".phtml"]
    } else if str_eq(lang, "html") {
        vec![".html", ".htm", ".svg"]
    } else if str_eq(lang, "hcl") {
        vec![".hcl", ".tf", ".tfvars"]
    } else {
        Vec::new()
    };
    assert(r@.map_values(|s: &str| s@) =~= lang_exts(lang@));
    r
}

/// The extensions of the languages, in order.
pub open spec fn all_lang_exts(langs: Seq<Seq<char>>) -> Seq<Seq<char>>
    decreases langs.len(),
{
    if langs.len() == 0 {
        Seq::empty()
    } else {
        all_lang_exts(langs.drop_last()) + lang_exts(langs.last())
    }
}

/// `s` without repetitions, each item kept where it first occurs.
pub open spec fn dedup_first(s: Seq<Seq<char>>) -> Seq<Seq<char>>
    decreases s.len(),
{
    if s.len() == 0 {
        Seq::empty()
    } else {
        let d = dedup_first(s.drop_last());
        if d.contains(s.last()) {
            d
        } else {
            d.push(s.last())
        }
    }
}

fn strings_has(v: &Vec<String>, s: &str) -> (r: bool)
    ensures
        r == v@.map_values(|x: String| x@).contains(s@),
{
    let ghost vv = v@.map_values(|x: String| x@);
    let mut i: usize = 0;
    while i < v.len()
        invariant
            i <= v@.len(),
            vv == v@.map_values(|x: String| x@),
            forall|j: int| 0 <= j < i ==> vv[j] != s@,
        decreases v.len() - i,
    {
        if str_eq(v[i].as_str(), s) {
            assert(vv[i as int] == s@);
            return true;
        }
        i += 1;
    }
    false
}

/// The extensions of the given languages, each once, in the order they first come; unknown
/// languages add nothing.
pub fn extensions_for_languages(langs: &[String]) -> (r: Vec<String>)
    ensures
        r@.map_values(|x: String| x@) == dedup_first(all_lang_exts(langs@.map_values(|x: String| x@))),
{
    let ghost lv = langs@.map_values(|x: String| x@);
    let mut out: Vec<String> = Vec::new();
    let mut i: usize = 0;
    assert(out@.map_values(|x: String| x@) =~= Seq::<Seq<char>>::empty());
    assert(lv.take(0) =~= Seq::<Seq<char>>::empty());
    while i < langs.len()
        invariant
            i <= langs@.len(),
            lv == langs@.map_values(|x: String| x@),
            out@.map_values(|x: String| x@) == dedup_first(all_lang_exts(lv.take(i as int))),
        decreases langs.len() - i,
    {
        let exts = language_extensions(langs[i].as_str());
        let ghost ev = exts@.map_values(|s: &str| s@);
        let ghost base = all_lang_exts(lv.take(i as int));
        let mut k: usize = 0;
        assert(base + ev.take(0) =~= base);
        while k < exts.len()
            invariant
                k <= exts@.len(),
                ev == exts@.map_values(|s: &str| s@),
                out@.map_values(|x: String| x@) == dedup_first(base + ev.take(k as int)),
            decreases exts.len() - k,
        {
            let e = exts[k];
            assert((base + ev.take(k + 1)).drop_last() =~= base + ev.take(k as int));
            assert((base + ev.take(k + 1)).last() == e@);
            if !strings_has(&out, e) {
                let ghost before = out@.map_values(|x: String| x@);
                out.push(crate::text::owned(e));
                assert(out@.map_values(|x: String| x@) =~= before.push(e@));
            }
            k += 1;
        }
        assert(lv.take(i + 1).drop_last() =~= lv.take(i as int));
        assert(base + ev.take(exts@.len() as int) =~= all_lang_exts(lv.take(i + 1)));
        i += 1;
    }
    assert(lv.take(langs@.len() as int) =~= lv);
    out
}

} // verus!
