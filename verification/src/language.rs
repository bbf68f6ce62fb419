//! Language detection: the single place that decides a buffer's language
//! name, highlighting engine, and structural-grammar support.

use vstd::prelude::*;
use crate::text::{ends_with, spec_ends_with, str_eq};
use crate::snapshot::{path_extname, spec_extname};

verus! {

/// A language with structural highlighting support.
#[derive(Debug, Clone, Copy, PartialEq, Eq, Structural)]
pub enum Language {
    Rust,
    Python,
    JavaScript,
    TypeScript,
    HTML,
    CSS,
    C,
    Cpp,
    Go,
    Json,
    Java,
    CSharp,
    Php,
    Ruby,
    Bash,
    Lua,
    Pascal,
}

/// The language a file-name extension names, if any.
pub open spec fn spec_language_from_path(p: Seq<char>) -> Option<Language> {
    if spec_ends_with(p, ".rs"@) {
        Some(Language::Rust)
    } else if spec_ends_with(p, ".py"@) {
        Some(Language::Python)
    } else if spec_ends_with(p, ".js"@) || spec_ends_with(p, ".jsx"@) {
        Some(Language::JavaScript)
    } else if spec_ends_with(p, ".ts"@) || spec_ends_with(p, ".tsx"@) {
        Some(Language::TypeScript)
    } else if spec_ends_with(p, ".html"@) {
        Some(Language::HTML)
    } else if spec_ends_with(p, ".css"@) {
        Some(Language::CSS)
    } else if spec_ends_with(p, ".c"@) || spec_ends_with(p, ".h"@) {
        Some(Language::C)
    } else if spec_ends_with(p, ".cpp"@) || spec_ends_with(p, ".hpp"@) || spec_ends_with(
        p,
        ".cc"@,
    ) || spec_ends_with(p, ".hh"@) || spec_ends_with(p, ".cxx"@) || spec_ends_with(p, ".hxx"@) {
        Some(Language::Cpp)
    } else if spec_ends_with(p, ".go"@) {
        Some(Language::Go)
    } else if spec_ends_with(p, ".json"@) {
        Some(Language::Json)
    } else if spec_ends_with(p, ".java"@) {
        Some(Language::Java)
    } else if spec_ends_with(p, ".cs"@) {
        Some(Language::CSharp)
    } else if spec_ends_with(p, ".php"@) {
        Some(Language::Php)
    } else if spec_ends_with(p, ".rb"@) {
        Some(Language::Ruby)
    } else if spec_ends_with(p, ".sh"@) || spec_ends_with(p, ".bash"@) {
        Some(Language::Bash)
    } else if spec_ends_with(p, ".lua"@) {
        Some(Language::Lua)
    } else if spec_ends_with(p, ".pas"@) || spec_ends_with(p, ".p"@) {
        Some(Language::Pascal)
    } else {
        None
    }
}

impl Language {
    /// Detects the language of a file from its path's extension.
    pub fn from_path(path: &str) -> (r: Option<Language>)
        ensures
            r == spec_language_from_path(path@),
    {
        if ends_with(path, ".rs") {
            Some(Language::Rust)
        } else if ends_with(path, ".py") {
            Some(Language::Python)
        } else if ends_with(path, ".js") || ends_with(path, ".jsx") {
            Some(Language::JavaScript)
        } else if ends_with(path, ".ts") || ends_with(path, ".tsx") {
            Some(Language::TypeScript)
        } else if ends_with(path, ".html") {
            Some(Language::HTML)
        } else if ends_with(path, ".css") {
            Some(Language::CSS)
        } else if ends_with(path, ".c") || ends_with(path, ".h") {
            Some(Language::C)
        } else if ends_with(path, ".cpp") || ends_with(path, ".hpp") || ends_with(path, ".cc")
            || ends_with(path, ".hh") || ends_with(path, ".cxx") || ends_with(path, ".hxx") {
            Some(Language::Cpp)
        } else if ends_with(path, ".go") {
            Some(Language::Go)
        } else if ends_with(path, ".json") {
            Some(Language::Json)
        } else if ends_with(path, ".java") {
            Some(Language::Java)
        } else if ends_with(path, ".cs") {
            Some(Language::CSharp)
        } else if ends_with(path, ".php") {
            Some(Language::Php)
        } else if ends_with(path, ".rb") {
            Some(Language::Ruby)
        } else if ends_with(path, ".sh") || ends_with(path, ".bash") {
            Some(Language::Bash)
        } else if ends_with(path, ".lua") {
            Some(Language::Lua)
        } else if ends_with(path, ".pas") || ends_with(path, ".p") {
            Some(Language::Pascal)
        } else {
            None
        }
    }

    /// The language's display name.
    pub fn name(&self) -> (r: &'static str)
        ensures
            r@ == spec_language_name(*self),
    {
        match self {
            Language::Rust => "Rust",
            Language::Python => "Python",
            Language::JavaScript => "JavaScript",
            Language::TypeScript => "TypeScript",
            Language::HTML => "HTML",
            Language::CSS => "CSS",
            Language::C => "C",
            Language::Cpp => "C++",
            Language::Go => "Go",
            Language::Json => "JSON",
            Language::Java => "Java",
            Language::CSharp => "C#",
            Language::Php => "PHP",
            Language::Ruby => "Ruby",
            Language::Bash => "Bash",
            Language::Lua => "Lua",
            Language::Pascal => "Pascal",
        }
    }
}

/// The language a display name names, if any.
pub open spec fn spec_language_from_name(s: Seq<char>) -> Option<Language> {
    if s == "Rust"@ {
        Some(Language::Rust)
    } else if s == "Python"@ {
        Some(Language::Python)
    } else if s == "JavaScript"@ {
        Some(Language::JavaScript)
    } else if s == "TypeScript"@ {
        Some(Language::TypeScript)
    } else if s == "HTML"@ {
        Some(Language::HTML)
    } else if s == "CSS"@ {
        Some(Language::CSS)
    } else if s == "C"@ {
        Some(Language::C)
    } else if s == "C++"@ {
        Some(Language::Cpp)
    } else if s == "Go"@ {
        Some(Language::Go)
    } else if s == "JSON"@ {
        Some(Language::Json)
    } else if s == "Java"@ {
        Some(Language::Java)
    } else if s == "C#"@ {
        Some(Language::CSharp)
    } else if s == "PHP"@ {
        Some(Language::Php)
    } else if s == "Ruby"@ {
        Some(Language::Ruby)
    } else if s == "Bash"@ {
        Some(Language::Bash)
    } else if s == "Lua"@ {
        Some(Language::Lua)
    } else if s == "Pascal"@ {
        Some(Language::Pascal)
    } else {
        None
    }
}

/// The display name of a language.
pub open spec fn spec_language_name(l: Language) -> Seq<char> {
    match l {
        Language::Rust => "Rust"@,
        Language::Python => "Python"@,
        Language::JavaScript => "JavaScript"@,
        Language::TypeScript => "TypeScript"@,
        Language::HTML => "HTML"@,
        Language::CSS => "CSS"@,
        Language::C => "C"@,
        Language::Cpp => "C++"@,
        Language::Go => "Go"@,
        Language::Json => "JSON"@,
        Language::Java => "Java"@,
        Language::CSharp => "C#"@,
        Language::Php => "PHP"@,
        Language::Ruby => "Ruby"@,
        Language::Bash => "Bash"@,
        Language::Lua => "Lua"@,
        Language::Pascal => "Pascal"@,
    }
}


impl Language {
    /// The language a display name names, if any.
    pub fn from_name(name: &str) -> (r: Option<Language>)
        ensures
            r == spec_language_from_name(name@),
    {
        if str_eq(name, "Rust") {
            Some(Language::Rust)
        } else if str_eq(name, "Python") {
            Some(Language::Python)
        } else if str_eq(name, "JavaScript") {
            Some(Language::JavaScript)
        } else if str_eq(name, "TypeScript") {
            Some(Language::TypeScript)
        } else if str_eq(name, "HTML") {
            Some(Language::HTML)
        } else if str_eq(name, "CSS") {
            Some(Language::CSS)
        } else if str_eq(name, "C") {
            Some(Language::C)
        } else if str_eq(name, "C++") {
            Some(Language::Cpp)
        } else if str_eq(name, "Go") {
            Some(Language::Go)
        } else if str_eq(name, "JSON") {
            Some(Language::Json)
        } else if str_eq(name, "Java") {
            Some(Language::Java)
        } else if str_eq(name, "C#") {
            Some(Language::CSharp)
        } else if str_eq(name, "PHP") {
            Some(Language::Php)
        } else if str_eq(name, "Ruby") {
            Some(Language::Ruby)
        } else if str_eq(name, "Bash") {
            Some(Language::Bash)
        } else if str_eq(name, "Lua") {
            Some(Language::Lua)
        } else if str_eq(name, "Pascal") {
            Some(Language::Pascal)
        } else {
            None
        }
    }
}

/// One grammar the registry knows: a display name and the file extensions it
/// claims, each with its leading dot.
#[derive(Debug, Clone)]
pub struct Syntax {
    pub name: String,
    pub extensions: Vec<String>,
}

/// The registry of grammars available for highlighting.
#[derive(Debug, Clone)]
pub struct GrammarRegistry {
    pub syntaxes: Vec<Syntax>,
}

/// The first registered syntax with a given display name.
pub open spec fn spec_syntax_by_name(syntaxes: Seq<Syntax>, name: Seq<char>) -> Option<Syntax>
    decreases syntaxes.len(),
{
    if syntaxes.len() == 0 {
        None
    } else if syntaxes[0].name@ == name {
        Some(syntaxes[0])
    } else {
        spec_syntax_by_name(syntaxes.subrange(1, syntaxes.len() as int), name)
    }
}

/// Whether a syntax claims an extension.
pub open spec fn spec_syntax_claims(s: Syntax, ext: Seq<char>) -> bool {
    exists|i: int| 0 <= i < s.extensions@.len() && s.extensions@[i]@ == ext
}

/// The first registered syntax claiming an extension.
pub open spec fn spec_syntax_by_ext(syntaxes: Seq<Syntax>, ext: Seq<char>) -> Option<Syntax>
    decreases syntaxes.len(),
{
    if syntaxes.len() == 0 {
        None
    } else if spec_syntax_claims(syntaxes[0], ext) {
        Some(syntaxes[0])
    } else {
        spec_syntax_by_ext(syntaxes.subrange(1, syntaxes.len() as int), ext)
    }
}

impl GrammarRegistry {
    /// An empty registry.
    pub fn new() -> (r: GrammarRegistry)
        ensures
            r.syntaxes@.len() == 0,
    {
        GrammarRegistry { syntaxes: Vec::new() }
    }

    /// The name of the first syntax registered under `name`, if any.
    pub fn find_syntax_by_name(&self, name: &str) -> (r: Option<String>)
        ensures
            match r {
                Some(n) => (spec_syntax_by_name(self.syntaxes@, name@) matches Some(s) && s.name@
                    == n@),
                None => spec_syntax_by_name(self.syntaxes@, name@) is None,
            },
    {
        let n = self.syntaxes.len();
        let mut i: usize = 0;
        proof {
            assert(self.syntaxes@.subrange(0, n as int) =~= self.syntaxes@);
        }
        while i < n
            invariant
                0 <= i <= n,
                n == self.syntaxes@.len(),
                spec_syntax_by_name(self.syntaxes@, name@) == spec_syntax_by_name(
                    self.syntaxes@.subrange(i as int, n as int),
                    name@,
                ),
            decreases n - i,
        {
            let ghost rem = self.syntaxes@.subrange(i as int, n as int);
            proof {
                assert(rem[0] == self.syntaxes@[i as int]);
                assert(rem.subrange(1, rem.len() as int) =~= self.syntaxes@.subrange(
                    i as int + 1,
                    n as int,
                ));
            }
            if str_eq(self.syntaxes[i].name.as_str(), name) {
                return Some(self.syntaxes[i].name.clone());
            }
            i += 1;
        }
        proof {
            assert(self.syntaxes@.subrange(n as int, n as int) =~= Seq::<Syntax>::empty());
        }
        None
    }

    /// The first syntax claiming an extension, by name.
    fn find_syntax_by_extension(&self, ext: &str) -> (r: Option<String>)
        ensures
            match r {
                Some(n) => (spec_syntax_by_ext(self.syntaxes@, ext@) matches Some(s) && s.name@
                    == n@),
                None => spec_syntax_by_ext(self.syntaxes@, ext@) is None,
            },
    {
        let n = self.syntaxes.len();
        let mut i: usize = 0;
        proof {
            assert(self.syntaxes@.subrange(0, n as int) =~= self.syntaxes@);
        }
        while i < n
            invariant
                0 <= i <= n,
                n == self.syntaxes@.len(),
                spec_syntax_by_ext(self.syntaxes@, ext@) == spec_syntax_by_ext(
                    self.syntaxes@.subrange(i as int, n as int),
                    ext@,
                ),
            decreases n - i,
        {
            let ghost rem = self.syntaxes@.subrange(i as int, n as int);
            proof {
                assert(rem[0] == self.syntaxes@[i as int]);
                assert(rem.subrange(1, rem.len() as int) =~= self.syntaxes@.subrange(
                    i as int + 1,
                    n as int,
                ));
            }
            let syntax = &self.syntaxes[i];
            let m = syntax.extensions.len();
            let mut k: usize = 0;
            while k < m
                invariant
                    0 <= k <= m,
                    0 <= i < self.syntaxes@.len(),
                    n == self.syntaxes@.len(),
                    m == syntax.extensions@.len(),
                    syntax == &self.syntaxes@[i as int],
                    spec_syntax_by_ext(self.syntaxes@, ext@) == spec_syntax_by_ext(
                        self.syntaxes@.subrange(i as int, n as int),
                        ext@,
                    ),
                    forall|j: int| 0 <= j < k ==> syntax.extensions@[j]@ != ext@,
                decreases m - k,
            {
                if str_eq(syntax.extensions[k].as_str(), ext) {
                    proof {
                        assert(spec_syntax_claims(self.syntaxes@[i as int], ext@)) by {
                            assert(syntax.extensions@[k as int]@ == ext@);
                        }
                        assert(self.syntaxes@.subrange(i as int, n as int)[0]
                            == self.syntaxes@[i as int]);
                    }
                    return Some(self.syntaxes[i].name.clone());
                }
                k += 1;
            }
            proof {
                assert(!spec_syntax_claims(self.syntaxes@[i as int], ext@)) by {
                    if spec_syntax_claims(self.syntaxes@[i as int], ext@) {
                        let j = choose|j: int|
                            0 <= j < syntax.extensions@.len() && syntax.extensions@[j]@ == ext@;
                    }
                }
            }
            i += 1;
        }
        proof {
            assert(self.syntaxes@.subrange(n as int, n as int) =~= Seq::<Syntax>::empty());
        }
        None
    }
}

/// A language's configuration entry: the grammar it highlights with, and the
/// extensions it claims, each with its leading dot.
#[derive(Debug, Clone)]
pub struct LanguageConfig {
    pub grammar: String,
    pub extensions: Vec<String>,
}

/// The first configured language claiming an extension, as its identifier and
/// configuration.
pub open spec fn spec_config_by_ext(
    languages: Seq<(String, LanguageConfig)>,
    ext: Seq<char>,
) -> Option<(String, LanguageConfig)>
    decreases languages.len(),
{
    if languages.len() == 0 {
        None
    } else if exists|i: int|
        0 <= i < languages[0].1.extensions@.len() && languages[0].1.extensions@[i]@ == ext {
        Some(languages[0])
    } else {
        spec_config_by_ext(languages.subrange(1, languages.len() as int), ext)
    }
}

/// The first configured language claiming an extension.
fn config_by_ext(languages: &Vec<(String, LanguageConfig)>, ext: &str) -> (r: Option<usize>)
    ensures
        match r {
            Some(i) => i < languages@.len() && spec_config_by_ext(languages@, ext@) == Some(
                languages@[i as int],
            ),
            None => spec_config_by_ext(languages@, ext@) is None,
        },
{
    let n = languages.len();
    let mut i: usize = 0;
    proof {
        assert(languages@.subrange(0, n as int) =~= languages@);
    }
    while i < n
        invariant
            0 <= i <= n,
            n == languages@.len(),
            spec_config_by_ext(languages@, ext@) == spec_config_by_ext(
                languages@.subrange(i as int, n as int),
                ext@,
            ),
        decreases n - i,
    {
        let ghost rem = languages@.subrange(i as int, n as int);
        proof {
            assert(rem[0] == languages@[i as int]);
            assert(rem.subrange(1, rem.len() as int) =~= languages@.subrange(
                i as int + 1,
                n as int,
            ));
        }
        let config = &languages[i].1;
        let m = config.extensions.len();
        let mut k: usize = 0;
        while k < m
            invariant
                0 <= k <= m,
                0 <= i < languages@.len(),
                n == languages@.len(),
                m == config.extensions@.len(),
                config == &languages@[i as int].1,
                spec_config_by_ext(languages@, ext@) == spec_config_by_ext(
                    languages@.subrange(i as int, n as int),
                    ext@,
                ),
                forall|j: int| 0 <= j < k ==> config.extensions@[j]@ != ext@,
            decreases m - k,
        {
            if str_eq(config.extensions[k].as_str(), ext) {
                proof {
                    assert(config.extensions@[k as int]@ == ext@);
                    assert(languages@.subrange(i as int, n as int)[0] == languages@[i as int]);
                }
                return Some(i);
            }
            k += 1;
        }
        proof {
            if exists|j: int|
                0 <= j < languages@[i as int].1.extensions@.len()
                    && languages@[i as int].1.extensions@[j]@ == ext@ {
                let j = choose|j: int|
                    0 <= j < languages@[i as int].1.extensions@.len()
                        && languages@[i as int].1.extensions@[j]@ == ext@;
            }
        }
        i += 1;
    }
    proof {
        assert(languages@.subrange(n as int, n as int) =~= Seq::<(String, LanguageConfig)>::empty());
    }
    None
}

/// The highlighting engine chosen for a buffer.
#[derive(Debug, Clone)]
pub enum HighlightEngine {
    /// No highlighting.
    Plain,
    /// Structural highlighting with a supported language's grammar.
    TreeSitter(Language),
    /// Textmate-style highlighting with the named grammar.
    Syntect(String),
}

/// What language detection decided for a buffer: the three things that must
/// stay in sync — its language name, its highlighting engine, and its
/// structural-grammar language where one is supported.
#[derive(Debug, Clone)]
pub struct DetectedLanguage {
    /// The language name for the status bar and configuration lookup.
    pub name: String,
    /// The highlighting engine for the buffer.
    pub highlighter: HighlightEngine,
    /// The structural-grammar language, for the few languages that have one.
    pub ts_language: Option<Language>,
}

/// Resolve a syntax display name to its configured language identifier: the
/// first configured language whose grammar resolves, through the registry, to
/// a syntax with that name.
pub open spec fn spec_resolve_language_id(
    syntax_name: Seq<char>,
    syntaxes: Seq<Syntax>,
    languages: Seq<(String, LanguageConfig)>,
) -> Option<Seq<char>>
    decreases languages.len(),
{
    if languages.len() == 0 {
        None
    } else if (spec_syntax_by_name(syntaxes, languages[0].1.grammar@) matches Some(s) && s.name@
        == syntax_name) {
        Some(languages[0].0@)
    } else {
        spec_resolve_language_id(
            syntax_name,
            syntaxes,
            languages.subrange(1, languages.len() as int),
        )
    }
}

/// Resolves a syntax display name to the configured language identifier whose
/// grammar names it, if any.
pub fn resolve_language_id(
    syntax_name: &str,
    registry: &GrammarRegistry,
    languages: &Vec<(String, LanguageConfig)>,
) -> (r: Option<String>)
    ensures
        match r {
            Some(id) => spec_resolve_language_id(syntax_name@, registry.syntaxes@, languages@)
                == Some(id@),
            None => spec_resolve_language_id(syntax_name@, registry.syntaxes@, languages@)
                is None,
        },
{
    let n = languages.len();
    let mut i: usize = 0;
    proof {
        assert(languages@.subrange(0, n as int) =~= languages@);
    }
    while i < n
        invariant
            0 <= i <= n,
            n == languages@.len(),
            spec_resolve_language_id(syntax_name@, registry.syntaxes@, languages@)
                == spec_resolve_language_id(
                syntax_name@,
                registry.syntaxes@,
                languages@.subrange(i as int, n as int),
            ),
        decreases n - i,
    {
        let ghost rem = languages@.subrange(i as int, n as int);
        proof {
            assert(rem[0] == languages@[i as int]);
            assert(rem.subrange(1, rem.len() as int) =~= languages@.subrange(
                i as int + 1,
                n as int,
            ));
        }
        match registry.find_syntax_by_name(languages[i].1.grammar.as_str()) {
            Some(found) => {
                if str_eq(found.as_str(), syntax_name) {
                    return Some(languages[i].0.clone());
                }
            },
            None => {},
        }
        i += 1;
    }
    proof {
        assert(languages@.subrange(n as int, n as int) =~= Seq::<(String, LanguageConfig)>::empty());
    }
    None
}

impl DetectedLanguage {
    /// Plain text: no highlighting, no structural grammar.
    pub fn plain_text() -> (r: DetectedLanguage)
        ensures
            r.name@ == "text"@,
            r.highlighter is Plain,
            r.ts_language is None,
    {
        DetectedLanguage {
            name: "text".to_owned(),
            highlighter: HighlightEngine::Plain,
            ts_language: None,
        }
    }

    /// Detection from a file path with built-in rules alone: a structural
    /// grammar where the extension has one, else a registered grammar
    /// claiming the extension, else plain text.
    pub fn from_path_builtin(path: &str, registry: &GrammarRegistry) -> (r: DetectedLanguage)
        ensures
            r.ts_language == spec_language_from_path(path@),
            (match spec_language_from_path(path@) {
                Some(l) => r.name@ == spec_language_name(l) && r.highlighter
                    == HighlightEngine::TreeSitter(l),
                None => r.name@ == "text"@ && (match spec_syntax_by_ext(
                    registry.syntaxes@,
                    spec_extname(path@),
                ) {
                    Some(s) => (r.highlighter matches HighlightEngine::Syntect(g) && g@
                        == s.name@),
                    None => r.highlighter is Plain,
                }),
            }),
    {
        match Language::from_path(path) {
            Some(l) => DetectedLanguage {
                name: l.name().to_owned(),
                highlighter: HighlightEngine::TreeSitter(l),
                ts_language: Some(l),
            },
            None => {
                let ext = path_extname(path);
                let highlighter = match registry.find_syntax_by_extension(ext.as_str()) {
                    Some(grammar) => HighlightEngine::Syntect(grammar),
                    None => HighlightEngine::Plain,
                };
                DetectedLanguage {
                    name: "text".to_owned(),
                    highlighter,
                    ts_language: None,
                }
            },
        }
    }

    /// Detection from a file path with the user's configuration: a language
    /// configured for the extension names the buffer and its grammar
    /// highlights it; otherwise built-in detection decides.
    pub fn from_path(
        path: &str,
        registry: &GrammarRegistry,
        languages: &Vec<(String, LanguageConfig)>,
    ) -> (r: DetectedLanguage)
        ensures
            r.ts_language == spec_language_from_path(path@),
            (match spec_config_by_ext(languages@, spec_extname(path@)) {
                Some(entry) => r.name@ == entry.0@ && (r.highlighter
                    matches HighlightEngine::Syntect(g) && g@ == entry.1.grammar@),
                None => (match spec_language_from_path(path@) {
                    Some(l) => r.name@ == spec_language_name(l) && r.highlighter
                        == HighlightEngine::TreeSitter(l),
                    None => r.name@ == "text"@,
                }),
            }),
    {
        let ext = path_extname(path);
        let ts_language = Language::from_path(path);
        match config_by_ext(languages, ext.as_str()) {
            Some(i) => DetectedLanguage {
                name: languages[i].0.clone(),
                highlighter: HighlightEngine::Syntect(languages[i].1.grammar.clone()),
                ts_language,
            },
            None => DetectedLanguage { ts_language, ..DetectedLanguage::from_path_builtin(path, registry) },
        }
    }

    /// Detection from a syntax display name chosen by the user: the registry
    /// must know the name; the buffer is named by the configured language
    /// identifier resolving to the syntax, or the syntax name itself.
    pub fn from_syntax_name(
        name: &str,
        registry: &GrammarRegistry,
        languages: &Vec<(String, LanguageConfig)>,
    ) -> (r: Option<DetectedLanguage>)
        ensures
            (r is Some) == (spec_syntax_by_name(registry.syntaxes@, name@) is Some),
            (r matches Some(d) ==> d.ts_language == spec_language_from_name(name@) && (match
                spec_resolve_language_id(name@, registry.syntaxes@, languages@) {
                Some(id) => d.name@ == id,
                None => d.name@ == name@,
            })),
    {
        if registry.find_syntax_by_name(name).is_some() {
            let ts_language = Language::from_name(name);
            let highlighter = match &ts_language {
                Some(l) => HighlightEngine::TreeSitter(*l),
                None => HighlightEngine::Syntect(name.to_owned()),
            };
            let language_id = match resolve_language_id(name, registry, languages) {
                Some(id) => id,
                None => name.to_owned(),
            };
            Some(DetectedLanguage { name: language_id, highlighter, ts_language })
        } else {
            None
        }
    }

    /// Detection from a virtual buffer name such as `*OLD:test.ts*`: the
    /// surrounding stars are stripped, the file name after the last colon is
    /// taken, and built-in detection decides — the result is exactly what
    /// built-in detection gives for that cleaned file name.
    pub fn from_virtual_name(name: &str, registry: &GrammarRegistry) -> (r: DetectedLanguage)
        ensures
            ({
                let f = spec_after_last_colon(spec_trim_stars(name@));
                &&& r.ts_language == spec_language_from_path(f)
                &&& (match spec_language_from_path(f) {
                    Some(l) => r.name@ == spec_language_name(l) && r.highlighter
                        == HighlightEngine::TreeSitter(l),
                    None => r.name@ == "text"@ && (match spec_syntax_by_ext(
                        registry.syntaxes@,
                        spec_extname(f),
                    ) {
                        Some(s) => (r.highlighter matches HighlightEngine::Syntect(g) && g@
                            == s.name@),
                        None => r.highlighter is Plain,
                    }),
                })
            }),
    {
        let cleaned = trim_stars(name);
        let filename = after_last_colon(cleaned.as_str());
        DetectedLanguage::from_path_builtin(filename.as_str(), registry)
    }
}

/// A name with its surrounding stars removed.
pub open spec fn spec_trim_stars(s: Seq<char>) -> Seq<char> {
    spec_trim_stars_end(spec_trim_stars_start(s))
}

/// A name without leading stars.
pub open spec fn spec_trim_stars_start(s: Seq<char>) -> Seq<char>
    decreases s.len(),
{
    if s.len() > 0 && s[0] == '*' {
        spec_trim_stars_start(s.subrange(1, s.len() as int))
    } else {
        s
    }
}

/// A name without trailing stars.
pub open spec fn spec_trim_stars_end(s: Seq<char>) -> Seq<char>
    decreases s.len(),
{
    if s.len() > 0 && s.last() == '*' {
        spec_trim_stars_end(s.drop_last())
    } else {
        s
    }
}

/// What follows the last colon, or the whole name without one.
pub open spec fn spec_after_last_colon(s: Seq<char>) -> Seq<char>
    decreases s.len(),
{
    if s.len() == 0 {
        s
    } else if s.last() == ':' {
        Seq::empty()
    } else {
        spec_after_last_colon(s.drop_last()).push(s.last())
    }
}

fn trim_stars_start(s: &str) -> (r: String)
    ensures
        r@ == spec_trim_stars_start(s@),
    decreases s@.len(),
{
    let slen = s.unicode_len();
    if slen > 0 && s.get_char(0) == '*' {
        trim_stars_start(s.substring_char(1, slen))
    } else {
        s.to_owned()
    }
}

fn trim_stars_end(s: &str) -> (r: String)
    ensures
        r@ == spec_trim_stars_end(s@),
    decreases s@.len(),
{
    let slen = s.unicode_len();
    if slen > 0 && s.get_char(slen - 1) == '*' {
        let head = s.substring_char(0, slen - 1);
        proof {
            assert(s@.drop_last() =~= head@);
        }
        trim_stars_end(head)
    } else {
        s.to_owned()
    }
}

/// Strips the stars around a virtual buffer name.
fn trim_stars(s: &str) -> (r: String)
    ensures
        r@ == spec_trim_stars(s@),
{
    let t = trim_stars_start(s);
    trim_stars_end(t.as_str())
}

/// The part of a name after its last colon.
fn after_last_colon(s: &str) -> (r: String)
    ensures
        r@ == spec_after_last_colon(s@),
    decreases s@.len(),
{
    let slen = s.unicode_len();
    if slen == 0 {
        return String::new();
    }
    if s.get_char(slen - 1) == ':' {
        return String::new();
    }
    let head = s.substring_char(0, slen - 1);
    proof {
        assert(s@.drop_last() =~= head@);
    }
    let mut r = after_last_colon(head);
    let last_piece = s.substring_char(slen - 1, slen);
    r.append(last_piece);
    proof {
        assert(s@.subrange(slen as int - 1, slen as int) =~= seq![s@.last()]);
        assert(r@ =~= spec_after_last_colon(s@));
    }
    r
}

} // verus!
