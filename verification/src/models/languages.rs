//! What the judge worker is told about a language and about special judges.
//!
//! The worker reads these as documents of its own format. The library hands
//! them on as they are and never looks inside.

use vstd::prelude::*;

verus! {

/// How programs in one language are compiled and run.
#[derive(Debug)]
pub struct LanguageConfig {
    pub document: String,
}

/// How a special judge is run.
#[derive(Debug)]
pub struct SpjConfig {
    pub document: String,
}

/// How a special judge is compiled.
#[derive(Debug)]
pub struct SpjCompileConfig {
    pub document: String,
}

impl Clone for LanguageConfig {
    fn clone(&self) -> (c: LanguageConfig)
        ensures
            c.document@ == self.document@,
    {
        LanguageConfig { document: self.document.clone() }
    }
}

impl Clone for SpjConfig {
    fn clone(&self) -> (c: SpjConfig)
        ensures
            c.document@ == self.document@,
    {
        SpjConfig { document: self.document.clone() }
    }
}

impl Clone for SpjCompileConfig {
    fn clone(&self) -> (c: SpjCompileConfig)
        ensures
            c.document@ == self.document@,
    {
        SpjCompileConfig { document: self.document.clone() }
    }
}

/// Whether `language` is compiled to native code and so judged by the
/// tighter, high performance limits: `c` and `cpp` are.
pub open spec fn is_high_performance(language: Seq<char>) -> bool {
    language == "c"@ || language == "cpp"@
}

/// Whether `language` is judged by the high performance limits.
pub fn high_performance(language: &String) -> (b: bool)
    ensures
        b == is_high_performance(language@),
{
    crate::text::is_word(language, "c") || crate::text::is_word(language, "cpp")
}

} // verus!
