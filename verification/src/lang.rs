//! The closed language registry: which language names this library
//! accepts, and the canonical name each maps to. Lookup is ASCII
//! case-insensitive, mirroring the registry of the underlying parser.
use vstd::prelude::*;

use crate::bytes::{bytes_eq, lower_seq, to_lower};

verus! {

/// A recognized language of the closed registry.
#[derive(Clone, Copy, PartialEq, Eq, Structural, Debug)]
pub enum Language {
    Bash,
    C,
    Cpp,
    CSharp,
    Css,
    Dart,
    Elixir,
    Go,
    Haskell,
    Hcl,
    Html,
    Java,
    JavaScript,
    Json,
    Kotlin,
    Lua,
    Markdown,
    Nix,
    Php,
    Python,
    Ruby,
    Rust,
    Scala,
    Solidity,
    Swift,
    Tsx,
    TypeScript,
    Yaml,
}

pub open spec fn alias_bash() -> Seq<u8> {
    seq!['b' as u8, 'a' as u8, 's' as u8, 'h' as u8]
}

pub open spec fn alias_c() -> Seq<u8> {
    seq!['c' as u8]
}

pub open spec fn alias_cc() -> Seq<u8> {
    seq!['c' as u8, 'c' as u8]
}

pub open spec fn alias_cplusplus() -> Seq<u8> {
    seq!['c' as u8, '+' as u8, '+' as u8]
}

pub open spec fn alias_cpp() -> Seq<u8> {
    seq!['c' as u8, 'p' as u8, 'p' as u8]
}

pub open spec fn alias_cxx() -> Seq<u8> {
    seq!['c' as u8, 'x' as u8, 'x' as u8]
}

pub open spec fn alias_cs() -> Seq<u8> {
    seq!['c' as u8, 's' as u8]
}

pub open spec fn alias_csharp() -> Seq<u8> {
    seq!['c' as u8, 's' as u8, 'h' as u8, 'a' as u8, 'r' as u8, 'p' as u8]
}

pub open spec fn alias_css() -> Seq<u8> {
    seq!['c' as u8, 's' as u8, 's' as u8]
}

pub open spec fn alias_dart() -> Seq<u8> {
    seq!['d' as u8, 'a' as u8, 'r' as u8, 't' as u8]
}

pub open spec fn alias_ex() -> Seq<u8> {
    seq!['e' as u8, 'x' as u8]
}

pub open spec fn alias_elixir() -> Seq<u8> {
    seq!['e' as u8, 'l' as u8, 'i' as u8, 'x' as u8, 'i' as u8, 'r' as u8]
}

pub open spec fn alias_go() -> Seq<u8> {
    seq!['g' as u8, 'o' as u8]
}

pub open spec fn alias_golang() -> Seq<u8> {
    seq!['g' as u8, 'o' as u8, 'l' as u8, 'a' as u8, 'n' as u8, 'g' as u8]
}

pub open spec fn alias_hs() -> Seq<u8> {
    seq!['h' as u8, 's' as u8]
}

pub open spec fn alias_haskell() -> Seq<u8> {
    seq!['h' as u8, 'a' as u8, 's' as u8, 'k' as u8, 'e' as u8, 'l' as u8, 'l' as u8]
}

pub open spec fn alias_hcl() -> Seq<u8> {
    seq!['h' as u8, 'c' as u8, 'l' as u8]
}

pub open spec fn alias_html() -> Seq<u8> {
    seq!['h' as u8, 't' as u8, 'm' as u8, 'l' as u8]
}

pub open spec fn alias_java() -> Seq<u8> {
    seq!['j' as u8, 'a' as u8, 'v' as u8, 'a' as u8]
}

pub open spec fn alias_javascript() -> Seq<u8> {
    seq!['j' as u8, 'a' as u8, 'v' as u8, 'a' as u8, 's' as u8, 'c' as u8, 'r' as u8, 'i' as u8, 'p' as u8, 't' as u8]
}

pub open spec fn alias_js() -> Seq<u8> {
    seq!['j' as u8, 's' as u8]
}

pub open spec fn alias_jsx() -> Seq<u8> {
    seq!['j' as u8, 's' as u8, 'x' as u8]
}

pub open spec fn alias_json() -> Seq<u8> {
    seq!['j' as u8, 's' as u8, 'o' as u8, 'n' as u8]
}

pub open spec fn alias_kotlin() -> Seq<u8> {
    seq!['k' as u8, 'o' as u8, 't' as u8, 'l' as u8, 'i' as u8, 'n' as u8]
}

pub open spec fn alias_kt() -> Seq<u8> {
    seq!['k' as u8, 't' as u8]
}

pub open spec fn alias_lua() -> Seq<u8> {
    seq!['l' as u8, 'u' as u8, 'a' as u8]
}

pub open spec fn alias_markdown() -> Seq<u8> {
    seq!['m' as u8, 'a' as u8, 'r' as u8, 'k' as u8, 'd' as u8, 'o' as u8, 'w' as u8, 'n' as u8]
}

pub open spec fn alias_md() -> Seq<u8> {
    seq!['m' as u8, 'd' as u8]
}

pub open spec fn alias_nix() -> Seq<u8> {
    seq!['n' as u8, 'i' as u8, 'x' as u8]
}

pub open spec fn alias_php() -> Seq<u8> {
    seq!['p' as u8, 'h' as u8, 'p' as u8]
}

pub open spec fn alias_py() -> Seq<u8> {
    seq!['p' as u8, 'y' as u8]
}

pub open spec fn alias_python() -> Seq<u8> {
    seq!['p' as u8, 'y' as u8, 't' as u8, 'h' as u8, 'o' as u8, 'n' as u8]
}

pub open spec fn alias_rb() -> Seq<u8> {
    seq!['r' as u8, 'b' as u8]
}

pub open spec fn alias_ruby() -> Seq<u8> {
    seq!['r' as u8, 'u' as u8, 'b' as u8, 'y' as u8]
}

pub open spec fn alias_rs() -> Seq<u8> {
    seq!['r' as u8, 's' as u8]
}

pub open spec fn alias_rust() -> Seq<u8> {
    seq!['r' as u8, 'u' as u8, 's' as u8, 't' as u8]
}

pub open spec fn alias_scala() -> Seq<u8> {
    seq!['s' as u8, 'c' as u8, 'a' as u8, 'l' as u8, 'a' as u8]
}

pub open spec fn alias_sol() -> Seq<u8> {
    seq!['s' as u8, 'o' as u8, 'l' as u8]
}

pub open spec fn alias_solidity() -> Seq<u8> {
    seq!['s' as u8, 'o' as u8, 'l' as u8, 'i' as u8, 'd' as u8, 'i' as u8, 't' as u8, 'y' as u8]
}

pub open spec fn alias_swift() -> Seq<u8> {
    seq!['s' as u8, 'w' as u8, 'i' as u8, 'f' as u8, 't' as u8]
}

pub open spec fn alias_tsx() -> Seq<u8> {
    seq!['t' as u8, 's' as u8, 'x' as u8]
}

pub open spec fn alias_ts() -> Seq<u8> {
    seq!['t' as u8, 's' as u8]
}

pub open spec fn alias_typescript() -> Seq<u8> {
    seq!['t' as u8, 'y' as u8, 'p' as u8, 'e' as u8, 's' as u8, 'c' as u8, 'r' as u8, 'i' as u8, 'p' as u8, 't' as u8]
}

pub open spec fn alias_yaml() -> Seq<u8> {
    seq!['y' as u8, 'a' as u8, 'm' as u8, 'l' as u8]
}

pub open spec fn alias_yml() -> Seq<u8> {
    seq!['y' as u8, 'm' as u8, 'l' as u8]
}

/// The registry lookup: the language a (case-insensitively) given
/// name denotes, if any.
pub open spec fn lang_of(name: Seq<u8>) -> Option<Language> {
    let l = lower_seq(name);
    if l == alias_bash() {
        Some(Language::Bash)
    } else if l == alias_c() {
        Some(Language::C)
    } else if l == alias_cc() {
        Some(Language::Cpp)
    } else if l == alias_cplusplus() {
        Some(Language::Cpp)
    } else if l == alias_cpp() {
        Some(Language::Cpp)
    } else if l == alias_cxx() {
        Some(Language::Cpp)
    } else if l == alias_cs() {
        Some(Language::CSharp)
    } else if l == alias_csharp() {
        Some(Language::CSharp)
    } else if l == alias_css() {
        Some(Language::Css)
    } else if l == alias_dart() {
        Some(Language::Dart)
    } else if l == alias_ex() {
        Some(Language::Elixir)
    } else if l == alias_elixir() {
        Some(Language::Elixir)
    } else if l == alias_go() {
        Some(Language::Go)
    } else if l == alias_golang() {
        Some(Language::Go)
    } else if l == alias_hs() {
        Some(Language::Haskell)
    } else if l == alias_haskell() {
        Some(Language::Haskell)
    } else if l == alias_hcl() {
        Some(Language::Hcl)
    } else if l == alias_html() {
        Some(Language::Html)
    } else if l == alias_java() {
        Some(Language::Java)
    } else if l == alias_javascript() {
        Some(Language::JavaScript)
    } else if l == alias_js() {
        Some(Language::JavaScript)
    } else if l == alias_jsx() {
        Some(Language::JavaScript)
    } else if l == alias_json() {
        Some(Language::Json)
    } else if l == alias_kotlin() {
        Some(Language::Kotlin)
    } else if l == alias_kt() {
        Some(Language::Kotlin)
    } else if l == alias_lua() {
        Some(Language::Lua)
    } else if l == alias_markdown() {
        Some(Language::Markdown)
    } else if l == alias_md() {
        Some(Language::Markdown)
    } else if l == alias_nix() {
        Some(Language::Nix)
    } else if l == alias_php() {
        Some(Language::Php)
    } else if l == alias_py() {
        Some(Language::Python)
    } else if l == alias_python() {
        Some(Language::Python)
    } else if l == alias_rb() {
        Some(Language::Ruby)
    } else if l == alias_ruby() {
        Some(Language::Ruby)
    } else if l == alias_rs() {
        Some(Language::Rust)
    } else if l == alias_rust() {
        Some(Language::Rust)
    } else if l == alias_scala() {
        Some(Language::Scala)
    } else if l == alias_sol() {
        Some(Language::Solidity)
    } else if l == alias_solidity() {
        Some(Language::Solidity)
    } else if l == alias_swift() {
        Some(Language::Swift)
    } else if l == alias_tsx() {
        Some(Language::Tsx)
    } else if l == alias_ts() {
        Some(Language::TypeScript)
    } else if l == alias_typescript() {
        Some(Language::TypeScript)
    } else if l == alias_yaml() {
        Some(Language::Yaml)
    } else if l == alias_yml() {
        Some(Language::Yaml)
    } else {
        None
    }
}

/// The canonical name of a language: the full name the parser's own
/// registry lists for it.
pub open spec fn canonical_of(l: Language) -> Seq<u8> {
    match l {
        Language::Bash => alias_bash(),
        Language::C => alias_c(),
        Language::Cpp => alias_cplusplus(),
        Language::CSharp => alias_csharp(),
        Language::Css => alias_css(),
        Language::Dart => alias_dart(),
        Language::Elixir => alias_elixir(),
        Language::Go => alias_golang(),
        Language::Haskell => alias_haskell(),
        Language::Hcl => alias_hcl(),
        Language::Html => alias_html(),
        Language::Java => alias_java(),
        Language::JavaScript => alias_javascript(),
        Language::Json => alias_json(),
        Language::Kotlin => alias_kotlin(),
        Language::Lua => alias_lua(),
        Language::Markdown => alias_markdown(),
        Language::Nix => alias_nix(),
        Language::Php => alias_php(),
        Language::Python => alias_python(),
        Language::Ruby => alias_ruby(),
        Language::Rust => alias_rust(),
        Language::Scala => alias_scala(),
        Language::Solidity => alias_solidity(),
        Language::Swift => alias_swift(),
        Language::Tsx => alias_tsx(),
        Language::TypeScript => alias_typescript(),
        Language::Yaml => alias_yaml(),
    }
}

/// Looks a language name up in the closed registry, ASCII
/// case-insensitively.
pub fn language_of(name: &Vec<u8>) -> (r: Option<Language>)
    ensures
        r == lang_of(name@),
{
    let l = to_lower(name);
    let lit: Vec<u8> = vec!['b' as u8, 'a' as u8, 's' as u8, 'h' as u8];
    proof {
        assert(lit@ =~= alias_bash());
    }
    if bytes_eq(&l, &lit) {
        return Some(Language::Bash);
    }
    let lit: Vec<u8> = vec!['c' as u8];
    proof {
        assert(lit@ =~= alias_c());
    }
    if bytes_eq(&l, &lit) {
        return Some(Language::C);
    }
    let lit: Vec<u8> = vec!['c' as u8, 'c' as u8];
    proof {
        assert(lit@ =~= alias_cc());
    }
    if bytes_eq(&l, &lit) {
        return Some(Language::Cpp);
    }
    let lit: Vec<u8> = vec!['c' as u8, '+' as u8, '+' as u8];
    proof {
        assert(lit@ =~= alias_cplusplus());
    }
    if bytes_eq(&l, &lit) {
        return Some(Language::Cpp);
    }
    let lit: Vec<u8> = vec!['c' as u8, 'p' as u8, 'p' as u8];
    proof {
        assert(lit@ =~= alias_cpp());
    }
    if bytes_eq(&l, &lit) {
        return Some(Language::Cpp);
    }
    let lit: Vec<u8> = vec!['c' as u8, 'x' as u8, 'x' as u8];
    proof {
        assert(lit@ =~= alias_cxx());
    }
    if bytes_eq(&l, &lit) {
        return Some(Language::Cpp);
    }
    let lit: Vec<u8> = vec!['c' as u8, 's' as u8];
    proof {
        assert(lit@ =~= alias_cs());
    }
    if bytes_eq(&l, &lit) {
        return Some(Language::CSharp);
    }
    let lit: Vec<u8> = vec!['c' as u8, 's' as u8, 'h' as u8, 'a' as u8, 'r' as u8, 'p' as u8];
    proof {
        assert(lit@ =~= alias_csharp());
    }
    if bytes_eq(&l, &lit) {
        return Some(Language::CSharp);
    }
    let lit: Vec<u8> = vec!['c' as u8, 's' as u8, 's' as u8];
    proof {
        assert(lit@ =~= alias_css());
    }
    if bytes_eq(&l, &lit) {
        return Some(Language::Css);
    }
    let lit: Vec<u8> = vec!['d' as u8, 'a' as u8, 'r' as u8, 't' as u8];
    proof {
        assert(lit@ =~= alias_dart());
    }
    if bytes_eq(&l, &lit) {
        return Some(Language::Dart);
    }
    let lit: Vec<u8> = vec!['e' as u8, 'x' as u8];
    proof {
        assert(lit@ =~= alias_ex());
    }
    if bytes_eq(&l, &lit) {
        return Some(Language::Elixir);
    }
    let lit: Vec<u8> = vec!['e' as u8, 'l' as u8, 'i' as u8, 'x' as u8, 'i' as u8, 'r' as u8];
    proof {
        assert(lit@ =~= alias_elixir());
    }
    if bytes_eq(&l, &lit) {
        return Some(Language::Elixir);
    }
    let lit: Vec<u8> = vec!['g' as u8, 'o' as u8];
    proof {
        assert(lit@ =~= alias_go());
    }
    if bytes_eq(&l, &lit) {
        return Some(Language::Go);
    }
    let lit: Vec<u8> = vec!['g' as u8, 'o' as u8, 'l' as u8, 'a' as u8, 'n' as u8, 'g' as u8];
    proof {
        assert(lit@ =~= alias_golang());
    }
    if bytes_eq(&l, &lit) {
        return Some(Language::Go);
    }
    let lit: Vec<u8> = vec!['h' as u8, 's' as u8];
    proof {
        assert(lit@ =~= alias_hs());
    }
    if bytes_eq(&l, &lit) {
        return Some(Language::Haskell);
    }
    let lit: Vec<u8> = vec!['h' as u8, 'a' as u8, 's' as u8, 'k' as u8, 'e' as u8, 'l' as u8, 'l' as u8];
    proof {
        assert(lit@ =~= alias_haskell());
    }
    if bytes_eq(&l, &lit) {
        return Some(Language::Haskell);
    }
    let lit: Vec<u8> = vec!['h' as u8, 'c' as u8, 'l' as u8];
    proof {
        assert(lit@ =~= alias_hcl());
    }
    if bytes_eq(&l, &lit) {
        return Some(Language::Hcl);
    }
    let lit: Vec<u8> = vec!['h' as u8, 't' as u8, 'm' as u8, 'l' as u8];
    proof {
        assert(lit@ =~= alias_html());
    }
    if bytes_eq(&l, &lit) {
        return Some(Language::Html);
    }
    let lit: Vec<u8> = vec!['j' as u8, 'a' as u8, 'v' as u8, 'a' as u8];
    proof {
        assert(lit@ =~= alias_java());
    }
    if bytes_eq(&l, &lit) {
        return Some(Language::Java);
    }
    let lit: Vec<u8> = vec!['j' as u8, 'a' as u8, 'v' as u8, 'a' as u8, 's' as u8, 'c' as u8, 'r' as u8, 'i' as u8, 'p' as u8, 't' as u8];
    proof {
        assert(lit@ =~= alias_javascript());
    }
    if bytes_eq(&l, &lit) {
        return Some(Language::JavaScript);
    }
    let lit: Vec<u8> = vec!['j' as u8, 's' as u8];
    proof {
        assert(lit@ =~= alias_js());
    }
    if bytes_eq(&l, &lit) {
        return Some(Language::JavaScript);
    }
    let lit: Vec<u8> = vec!['j' as u8, 's' as u8, 'x' as u8];
    proof {
        assert(lit@ =~= alias_jsx());
    }
    if bytes_eq(&l, &lit) {
        return Some(Language::JavaScript);
    }
    let lit: Vec<u8> = vec!['j' as u8, 's' as u8, 'o' as u8, 'n' as u8];
    proof {
        assert(lit@ =~= alias_json());
    }
    if bytes_eq(&l, &lit) {
        return Some(Language::Json);
    }
    let lit: Vec<u8> = vec!['k' as u8, 'o' as u8, 't' as u8, 'l' as u8, 'i' as u8, 'n' as u8];
    proof {
        assert(lit@ =~= alias_kotlin());
    }
    if bytes_eq(&l, &lit) {
        return Some(Language::Kotlin);
    }
    let lit: Vec<u8> = vec!['k' as u8, 't' as u8];
    proof {
        assert(lit@ =~= alias_kt());
    }
    if bytes_eq(&l, &lit) {
        return Some(Language::Kotlin);
    }
    let lit: Vec<u8> = vec!['l' as u8, 'u' as u8, 'a' as u8];
    proof {
        assert(lit@ =~= alias_lua());
    }
    if bytes_eq(&l, &lit) {
        return Some(Language::Lua);
    }
    let lit: Vec<u8> = vec!['m' as u8, 'a' as u8, 'r' as u8, 'k' as u8, 'd' as u8, 'o' as u8, 'w' as u8, 'n' as u8];
    proof {
        assert(lit@ =~= alias_markdown());
    }
    if bytes_eq(&l, &lit) {
        return Some(Language::Markdown);
    }
    let lit: Vec<u8> = vec!['m' as u8, 'd' as u8];
    proof {
        assert(lit@ =~= alias_md());
    }
    if bytes_eq(&l, &lit) {
        return Some(Language::Markdown);
    }
    let lit: Vec<u8> = vec!['n' as u8, 'i' as u8, 'x' as u8];
    proof {
        assert(lit@ =~= alias_nix());
    }
    if bytes_eq(&l, &lit) {
        return Some(Language::Nix);
    }
    let lit: Vec<u8> = vec!['p' as u8, 'h' as u8, 'p' as u8];
    proof {
        assert(lit@ =~= alias_php());
    }
    if bytes_eq(&l, &lit) {
        return Some(Language::Php);
    }
    let lit: Vec<u8> = vec!['p' as u8, 'y' as u8];
    proof {
        assert(lit@ =~= alias_py());
    }
    if bytes_eq(&l, &lit) {
        return Some(Language::Python);
    }
    let lit: Vec<u8> = vec!['p' as u8, 'y' as u8, 't' as u8, 'h' as u8, 'o' as u8, 'n' as u8];
    proof {
        assert(lit@ =~= alias_python());
    }
    if bytes_eq(&l, &lit) {
        return Some(Language::Python);
    }
    let lit: Vec<u8> = vec!['r' as u8, 'b' as u8];
    proof {
        assert(lit@ =~= alias_rb());
    }
    if bytes_eq(&l, &lit) {
        return Some(Language::Ruby);
    }
    let lit: Vec<u8> = vec!['r' as u8, 'u' as u8, 'b' as u8, 'y' as u8];
    proof {
        assert(lit@ =~= alias_ruby());
    }
    if bytes_eq(&l, &lit) {
        return Some(Language::Ruby);
    }
    let lit: Vec<u8> = vec!['r' as u8, 's' as u8];
    proof {
        assert(lit@ =~= alias_rs());
    }
    if bytes_eq(&l, &lit) {
        return Some(Language::Rust);
    }
    let lit: Vec<u8> = vec!['r' as u8, 'u' as u8, 's' as u8, 't' as u8];
    proof {
        assert(lit@ =~= alias_rust());
    }
    if bytes_eq(&l, &lit) {
        return Some(Language::Rust);
    }
    let lit: Vec<u8> = vec!['s' as u8, 'c' as u8, 'a' as u8, 'l' as u8, 'a' as u8];
    proof {
        assert(lit@ =~= alias_scala());
    }
    if bytes_eq(&l, &lit) {
        return Some(Language::Scala);
    }
    let lit: Vec<u8> = vec!['s' as u8, 'o' as u8, 'l' as u8];
    proof {
        assert(lit@ =~= alias_sol());
    }
    if bytes_eq(&l, &lit) {
        return Some(Language::Solidity);
    }
    let lit: Vec<u8> = vec!['s' as u8, 'o' as u8, 'l' as u8, 'i' as u8, 'd' as u8, 'i' as u8, 't' as u8, 'y' as u8];
    proof {
        assert(lit@ =~= alias_solidity());
    }
    if bytes_eq(&l, &lit) {
        return Some(Language::Solidity);
    }
    let lit: Vec<u8> = vec!['s' as u8, 'w' as u8, 'i' as u8, 'f' as u8, 't' as u8];
    proof {
        assert(lit@ =~= alias_swift());
    }
    if bytes_eq(&l, &lit) {
        return Some(Language::Swift);
    }
    let lit: Vec<u8> = vec!['t' as u8, 's' as u8, 'x' as u8];
    proof {
        assert(lit@ =~= alias_tsx());
    }
    if bytes_eq(&l, &lit) {
        return Some(Language::Tsx);
    }
    let lit: Vec<u8> = vec!['t' as u8, 's' as u8];
    proof {
        assert(lit@ =~= alias_ts());
    }
    if bytes_eq(&l, &lit) {
        return Some(Language::TypeScript);
    }
    let lit: Vec<u8> = vec!['t' as u8, 'y' as u8, 'p' as u8, 'e' as u8, 's' as u8, 'c' as u8, 'r' as u8, 'i' as u8, 'p' as u8, 't' as u8];
    proof {
        assert(lit@ =~= alias_typescript());
    }
    if bytes_eq(&l, &lit) {
        return Some(Language::TypeScript);
    }
    let lit: Vec<u8> = vec!['y' as u8, 'a' as u8, 'm' as u8, 'l' as u8];
    proof {
        assert(lit@ =~= alias_yaml());
    }
    if bytes_eq(&l, &lit) {
        return Some(Language::Yaml);
    }
    let lit: Vec<u8> = vec!['y' as u8, 'm' as u8, 'l' as u8];
    proof {
        assert(lit@ =~= alias_yml());
    }
    if bytes_eq(&l, &lit) {
        return Some(Language::Yaml);
    }
    None
}

/// The canonical name of a language.
pub fn canonical_name(l: &Language) -> (r: Vec<u8>)
    ensures
        r@ == canonical_of(*l),
{
    match l {
        Language::Bash => vec!['b' as u8, 'a' as u8, 's' as u8, 'h' as u8],
        Language::C => vec!['c' as u8],
        Language::Cpp => vec!['c' as u8, '+' as u8, '+' as u8],
        Language::CSharp => vec!['c' as u8, 's' as u8, 'h' as u8, 'a' as u8, 'r' as u8, 'p' as u8],
        Language::Css => vec!['c' as u8, 's' as u8, 's' as u8],
        Language::Dart => vec!['d' as u8, 'a' as u8, 'r' as u8, 't' as u8],
        Language::Elixir => vec!['e' as u8, 'l' as u8, 'i' as u8, 'x' as u8, 'i' as u8, 'r' as u8],
        Language::Go => vec!['g' as u8, 'o' as u8, 'l' as u8, 'a' as u8, 'n' as u8, 'g' as u8],
        Language::Haskell => vec!['h' as u8, 'a' as u8, 's' as u8, 'k' as u8, 'e' as u8, 'l' as u8, 'l' as u8],
        Language::Hcl => vec!['h' as u8, 'c' as u8, 'l' as u8],
        Language::Html => vec!['h' as u8, 't' as u8, 'm' as u8, 'l' as u8],
        Language::Java => vec!['j' as u8, 'a' as u8, 'v' as u8, 'a' as u8],
        Language::JavaScript => vec!['j' as u8, 'a' as u8, 'v' as u8, 'a' as u8, 's' as u8, 'c' as u8, 'r' as u8, 'i' as u8, 'p' as u8, 't' as u8],
        Language::Json => vec!['j' as u8, 's' as u8, 'o' as u8, 'n' as u8],
        Language::Kotlin => vec!['k' as u8, 'o' as u8, 't' as u8, 'l' as u8, 'i' as u8, 'n' as u8],
        Language::Lua => vec!['l' as u8, 'u' as u8, 'a' as u8],
        Language::Markdown => vec!['m' as u8, 'a' as u8, 'r' as u8, 'k' as u8, 'd' as u8, 'o' as u8, 'w' as u8, 'n' as u8],
        Language::Nix => vec!['n' as u8, 'i' as u8, 'x' as u8],
        Language::Php => vec!['p' as u8, 'h' as u8, 'p' as u8],
        Language::Python => vec!['p' as u8, 'y' as u8, 't' as u8, 'h' as u8, 'o' as u8, 'n' as u8],
        Language::Ruby => vec!['r' as u8, 'u' as u8, 'b' as u8, 'y' as u8],
        Language::Rust => vec!['r' as u8, 'u' as u8, 's' as u8, 't' as u8],
        Language::Scala => vec!['s' as u8, 'c' as u8, 'a' as u8, 'l' as u8, 'a' as u8],
        Language::Solidity => vec!['s' as u8, 'o' as u8, 'l' as u8, 'i' as u8, 'd' as u8, 'i' as u8, 't' as u8, 'y' as u8],
        Language::Swift => vec!['s' as u8, 'w' as u8, 'i' as u8, 'f' as u8, 't' as u8],
        Language::Tsx => vec!['t' as u8, 's' as u8, 'x' as u8],
        Language::TypeScript => vec!['t' as u8, 'y' as u8, 'p' as u8, 'e' as u8, 's' as u8, 'c' as u8, 'r' as u8, 'i' as u8, 'p' as u8, 't' as u8],
        Language::Yaml => vec!['y' as u8, 'a' as u8, 'm' as u8, 'l' as u8],
    }
}

/// The placeholder bytes that pattern pre-processing writes in place of
/// `$` for this language: the UTF-8 bytes of a character its grammar
/// accepts inside identifiers, as the underlying parser's registry
/// chooses them. Languages whose grammars accept `$` itself keep `$`.
pub open spec fn expando_of(l: Language) -> Seq<u8> {
    match l {
        Language::C | Language::Cpp => seq![240u8, 144u8, 128u8, 128u8],
        Language::CSharp | Language::Elixir | Language::Go | Language::Haskell | Language::Hcl
            | Language::Kotlin | Language::Php | Language::Python | Language::Ruby
            | Language::Rust | Language::Swift => seq![194u8, 181u8],
        Language::Css | Language::Nix => seq!['_' as u8],
        Language::Html => seq!['z' as u8],
        _ => seq!['$' as u8],
    }
}

/// The placeholder bytes for this language.
pub fn expando_bytes(l: &Language) -> (r: Vec<u8>)
    ensures
        r@ == expando_of(*l),
{
    match l {
        Language::C | Language::Cpp => {
            let v: Vec<u8> = vec![240u8, 144u8, 128u8, 128u8];
            proof {
                assert(v@ =~= expando_of(*l));
            }
            v
        },
        Language::CSharp | Language::Elixir | Language::Go | Language::Haskell | Language::Hcl
            | Language::Kotlin | Language::Php | Language::Python | Language::Ruby
            | Language::Rust | Language::Swift => {
            let v: Vec<u8> = vec![194u8, 181u8];
            proof {
                assert(v@ =~= expando_of(*l));
            }
            v
        },
        Language::Css | Language::Nix => {
            let v: Vec<u8> = vec!['_' as u8];
            proof {
                assert(v@ =~= expando_of(*l));
            }
            v
        },
        Language::Html => {
            let v: Vec<u8> = vec!['z' as u8];
            proof {
                assert(v@ =~= expando_of(*l));
            }
            v
        },
        _ => {
            let v: Vec<u8> = vec!['$' as u8];
            proof {
                assert(v@ =~= expando_of(*l));
            }
            v
        },
    }
}

} // verus!
