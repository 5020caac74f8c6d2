//! Structural code search: given source text in a known language and a
//! set of declarative rules — patterns over syntax trees, not regular
//! expressions — find every location that satisfies any rule and report
//! it as exact text plus a zero-based line/column span.
//!
//! The language grammars themselves are an outside service: tree-sitter,
//! reached through `ast_grep_core`, hands back a flat pre-order node
//! list (see `tree`). Everything after that point is verified: the
//! language registry (`lang`), the arena assembly (`tree`), the pattern
//! compiler (`pattern`), the matcher engine (`matcher`), the combined
//! scanner (`scanner`), the position translator (`position`), and the
//! entry point tying them together (`api`). The laws the library states
//! of itself are proved in `laws`.

mod bytes;
pub mod api;
pub mod lang;
pub mod laws;
pub mod matcher;
pub mod pattern;
pub mod position;
pub mod scanner;
pub mod tree;
