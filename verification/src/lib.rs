//! Language-aware security-risk pattern registry.
//!
//! The crate classifies source files by extension, holds per-language rule
//! sets organized by a Principal / Action / Resource taxonomy, merges an
//! optional project-supplied overlay on top of the built-in rules, compiles
//! every rule's pattern text into a regular-expression matcher, and answers
//! three queries against arbitrary text: does any rule match, which taxonomy
//! category matched, and which attack-vector labels apply.

pub mod assoc;
pub mod classifier;
pub mod laws;
pub mod regex_match;
pub mod registry;
pub mod schema;

pub use classifier::Language;
pub use regex_match::CompiledPattern;
pub use registry::SecurityRiskPatterns;
pub use schema::LanguagePatterns;
pub use schema::PatternConfig;
pub use schema::PatternType;
