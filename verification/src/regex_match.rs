//! The regular-expression engine behind the registry.
//!
//! A `CompiledPattern` pairs a compiled matcher with the exact pattern text
//! it was compiled from; the pairing is established by `compile` and never
//! broken afterwards, so `is_match` results can be stated as a function of
//! that text alone.

use vstd::prelude::*;

verus! {

/// Whether `pattern` is valid regular-expression syntax, that is, whether
/// `regex::Regex::new` accepts it. Compilation is a function of the pattern
/// text alone.
pub uninterp spec fn regex_ok(pattern: Seq<char>) -> bool;

/// Whether the regular expression `pattern` matches somewhere in `text`.
/// Matching is a function of the pattern text and the searched text alone.
pub uninterp spec fn regex_matches(pattern: Seq<char>, text: Seq<char>) -> bool;

#[verifier::external_type_specification]
#[verifier::external_body]
pub struct ExRegex(regex::Regex);

/// A compiled rule pattern together with the text it was compiled from.
pub struct CompiledPattern {
    regex: regex::Regex,
    pattern: String,
}

impl CompiledPattern {
    /// The pattern text this matcher was compiled from.
    pub closed spec fn pattern_spec(&self) -> Seq<char> {
        self.pattern@
    }

    /// Relies on regex::Regex::new: it returns `Ok` exactly on valid pattern
    /// syntax, and which texts are valid depends on the text alone.
    #[verifier::external_body]
    pub fn compile(pattern: &str) -> (r: Option<CompiledPattern>)
        ensures
            r is Some <==> regex_ok(pattern@),
            r matches Some(c) ==> c.pattern_spec() == pattern@,
    {
        match regex::Regex::new(pattern) {
            Ok(regex) => Some(CompiledPattern { regex, pattern: pattern.to_owned() }),
            Err(_) => None,
        }
    }

    /// Relies on regex::Regex::is_match: the result depends on the pattern
    /// the matcher was compiled from and on the searched text alone.
    #[verifier::external_body]
    pub fn is_match(&self, text: &str) -> (r: bool)
        ensures
            r == regex_matches(self.pattern_spec(), text@),
    {
        self.regex.is_match(text)
    }
}

} // verus!
