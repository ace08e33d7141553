//! The languages that can be read.

use vstd::prelude::*;

verus! {

/// A source language.
#[derive(Clone, Copy, Debug, PartialEq, Eq, Hash, Structural)]
pub enum Language {
    C,
    Cpp,
    CSharp,
    Dart,
    Go,
    Hcl,
    Java,
    Kotlin,
    Lua,
}

impl Language {
    /// The tag of the language.
    pub open spec fn tag(self) -> Seq<char> {
        match self {
            Language::C => "c"@,
            Language::Cpp => "cpp"@,
            Language::CSharp => "csharp"@,
            Language::Dart => "dart"@,
            Language::Go => "go"@,
            Language::Hcl => "hcl"@,
            Language::Java => "java"@,
            Language::Kotlin => "kotlin"@,
            Language::Lua => "lua"@,
        }
    }

    /// The tag of the language.
    pub fn as_str(&self) -> (tag: &'static str)
        ensures
            tag@ == self.tag(),
    {
        match self {
            Language::C => "c",
            Language::Cpp => "cpp",
            Language::CSharp => "csharp",
            Language::Dart => "dart",
            Language::Go => "go",
            Language::Hcl => "hcl",
            Language::Java => "java",
            Language::Kotlin => "kotlin",
            Language::Lua => "lua",
        }
    }
}

} // verus!
