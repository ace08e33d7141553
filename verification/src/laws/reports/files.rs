//! What the path and the name of a thing tell.

use crate::extract::language_of;
use crate::ffi::abi_of_name;
use crate::graph::types::FfiAbi;
use crate::lang::Language;
use crate::text::{has_prefix, has_suffix, other_suffix, own_suffix};
use super::texts::prefix_comes_off;
use vstd::prelude::*;

verus! {

/// A path that ends with `.c` or `.h` is that of a file in C, whatever stands
/// before.
pub proof fn c_files_are_known(stem: Seq<char>)
    ensures
        language_of(stem + ".c"@) == Some(Language::C),
        language_of(stem + ".h"@) == Some(Language::C),
{
    reveal_strlit(".c");
    reveal_strlit(".h");
    own_suffix(stem, ".c"@);
    own_suffix(stem, ".h"@);
}

/// A path that ends with `.cc`, `.cpp`, `.cxx`, `.hh`, `.hpp` or `.hxx` is that
/// of a file in C++, whatever stands before.
pub proof fn cpp_files_are_known(stem: Seq<char>)
    ensures
        language_of(stem + ".cc"@) == Some(Language::Cpp),
        language_of(stem + ".cpp"@) == Some(Language::Cpp),
        language_of(stem + ".cxx"@) == Some(Language::Cpp),
        language_of(stem + ".hh"@) == Some(Language::Cpp),
        language_of(stem + ".hpp"@) == Some(Language::Cpp),
        language_of(stem + ".hxx"@) == Some(Language::Cpp),
{
    reveal_strlit(".c");
    reveal_strlit(".h");
    reveal_strlit(".cc");
    reveal_strlit(".cpp");
    reveal_strlit(".cxx");
    reveal_strlit(".hh");
    reveal_strlit(".hpp");
    reveal_strlit(".hxx");
    own_suffix(stem, ".cc"@);
    other_suffix(stem, ".cc"@, ".c"@, 2);
    other_suffix(stem, ".cc"@, ".h"@, 1);
    own_suffix(stem, ".cpp"@);
    other_suffix(stem, ".cpp"@, ".c"@, 1);
    other_suffix(stem, ".cpp"@, ".h"@, 1);
    own_suffix(stem, ".cxx"@);
    other_suffix(stem, ".cxx"@, ".c"@, 1);
    other_suffix(stem, ".cxx"@, ".h"@, 1);
    own_suffix(stem, ".hh"@);
    other_suffix(stem, ".hh"@, ".c"@, 1);
    other_suffix(stem, ".hh"@, ".h"@, 2);
    own_suffix(stem, ".hpp"@);
    other_suffix(stem, ".hpp"@, ".c"@, 1);
    other_suffix(stem, ".hpp"@, ".h"@, 1);
    own_suffix(stem, ".hxx"@);
    other_suffix(stem, ".hxx"@, ".c"@, 1);
    other_suffix(stem, ".hxx"@, ".h"@, 1);
}

/// A path that ends with `.cs` is that of a file in C#, whatever stands before.
pub proof fn csharp_files_are_known(stem: Seq<char>)
    ensures
        language_of(stem + ".cs"@) == Some(Language::CSharp),
{
    reveal_strlit(".c");
    reveal_strlit(".h");
    reveal_strlit(".cc");
    reveal_strlit(".cpp");
    reveal_strlit(".cxx");
    reveal_strlit(".hh");
    reveal_strlit(".hpp");
    reveal_strlit(".hxx");
    reveal_strlit(".cs");
    own_suffix(stem, ".cs"@);
    other_suffix(stem, ".cs"@, ".c"@, 1);
    other_suffix(stem, ".cs"@, ".h"@, 1);
    other_suffix(stem, ".cs"@, ".cc"@, 1);
    other_suffix(stem, ".cs"@, ".cpp"@, 1);
    other_suffix(stem, ".cs"@, ".cxx"@, 1);
    other_suffix(stem, ".cs"@, ".hh"@, 1);
    other_suffix(stem, ".cs"@, ".hpp"@, 1);
    other_suffix(stem, ".cs"@, ".hxx"@, 1);
}

/// A path that ends with `.dart` is that of a file in Dart, whatever stands
/// before.
pub proof fn dart_files_are_known(stem: Seq<char>)
    ensures
        language_of(stem + ".dart"@) == Some(Language::Dart),
{
    reveal_strlit(".c");
    reveal_strlit(".h");
    reveal_strlit(".cc");
    reveal_strlit(".cpp");
    reveal_strlit(".cxx");
    reveal_strlit(".hh");
    reveal_strlit(".hpp");
    reveal_strlit(".hxx");
    reveal_strlit(".cs");
    reveal_strlit(".dart");
    own_suffix(stem, ".dart"@);
    other_suffix(stem, ".dart"@, ".c"@, 1);
    other_suffix(stem, ".dart"@, ".h"@, 1);
    other_suffix(stem, ".dart"@, ".cc"@, 1);
    other_suffix(stem, ".dart"@, ".cpp"@, 1);
    other_suffix(stem, ".dart"@, ".cxx"@, 1);
    other_suffix(stem, ".dart"@, ".hh"@, 1);
    other_suffix(stem, ".dart"@, ".hpp"@, 1);
    other_suffix(stem, ".dart"@, ".hxx"@, 1);
    other_suffix(stem, ".dart"@, ".cs"@, 1);
}

/// A path that ends with `.go` is that of a file in Go, whatever stands before.
pub proof fn go_files_are_known(stem: Seq<char>)
    ensures
        language_of(stem + ".go"@) == Some(Language::Go),
{
    reveal_strlit(".c");
    reveal_strlit(".h");
    reveal_strlit(".cc");
    reveal_strlit(".cpp");
    reveal_strlit(".cxx");
    reveal_strlit(".hh");
    reveal_strlit(".hpp");
    reveal_strlit(".hxx");
    reveal_strlit(".cs");
    reveal_strlit(".dart");
    reveal_strlit(".go");
    own_suffix(stem, ".go"@);
    other_suffix(stem, ".go"@, ".c"@, 1);
    other_suffix(stem, ".go"@, ".h"@, 1);
    other_suffix(stem, ".go"@, ".cc"@, 1);
    other_suffix(stem, ".go"@, ".cpp"@, 1);
    other_suffix(stem, ".go"@, ".cxx"@, 1);
    other_suffix(stem, ".go"@, ".hh"@, 1);
    other_suffix(stem, ".go"@, ".hpp"@, 1);
    other_suffix(stem, ".go"@, ".hxx"@, 1);
    other_suffix(stem, ".go"@, ".cs"@, 1);
    other_suffix(stem, ".go"@, ".dart"@, 1);
}

/// A path that ends with `.tf`, `.hcl` or `.tfvars` is that of a file in HCL,
/// whatever stands before.
pub proof fn hcl_files_are_known(stem: Seq<char>)
    ensures
        language_of(stem + ".tf"@) == Some(Language::Hcl),
        language_of(stem + ".hcl"@) == Some(Language::Hcl),
        language_of(stem + ".tfvars"@) == Some(Language::Hcl),
{
    reveal_strlit(".c");
    reveal_strlit(".h");
    reveal_strlit(".cc");
    reveal_strlit(".cpp");
    reveal_strlit(".cxx");
    reveal_strlit(".hh");
    reveal_strlit(".hpp");
    reveal_strlit(".hxx");
    reveal_strlit(".cs");
    reveal_strlit(".dart");
    reveal_strlit(".go");
    reveal_strlit(".tf");
    reveal_strlit(".hcl");
    reveal_strlit(".tfvars");
    own_suffix(stem, ".tf"@);
    other_suffix(stem, ".tf"@, ".c"@, 1);
    other_suffix(stem, ".tf"@, ".h"@, 1);
    other_suffix(stem, ".tf"@, ".cc"@, 1);
    other_suffix(stem, ".tf"@, ".cpp"@, 1);
    other_suffix(stem, ".tf"@, ".cxx"@, 1);
    other_suffix(stem, ".tf"@, ".hh"@, 1);
    other_suffix(stem, ".tf"@, ".hpp"@, 1);
    other_suffix(stem, ".tf"@, ".hxx"@, 1);
    other_suffix(stem, ".tf"@, ".cs"@, 1);
    other_suffix(stem, ".tf"@, ".dart"@, 1);
    other_suffix(stem, ".tf"@, ".go"@, 1);
    own_suffix(stem, ".hcl"@);
    other_suffix(stem, ".hcl"@, ".c"@, 1);
    other_suffix(stem, ".hcl"@, ".h"@, 1);
    other_suffix(stem, ".hcl"@, ".cc"@, 1);
    other_suffix(stem, ".hcl"@, ".cpp"@, 1);
    other_suffix(stem, ".hcl"@, ".cxx"@, 1);
    other_suffix(stem, ".hcl"@, ".hh"@, 1);
    other_suffix(stem, ".hcl"@, ".hpp"@, 1);
    other_suffix(stem, ".hcl"@, ".hxx"@, 1);
    other_suffix(stem, ".hcl"@, ".cs"@, 1);
    other_suffix(stem, ".hcl"@, ".dart"@, 1);
    other_suffix(stem, ".hcl"@, ".go"@, 1);
    own_suffix(stem, ".tfvars"@);
    other_suffix(stem, ".tfvars"@, ".c"@, 1);
    other_suffix(stem, ".tfvars"@, ".h"@, 1);
    other_suffix(stem, ".tfvars"@, ".cc"@, 1);
    other_suffix(stem, ".tfvars"@, ".cpp"@, 1);
    other_suffix(stem, ".tfvars"@, ".cxx"@, 1);
    other_suffix(stem, ".tfvars"@, ".hh"@, 1);
    other_suffix(stem, ".tfvars"@, ".hpp"@, 1);
    other_suffix(stem, ".tfvars"@, ".hxx"@, 1);
    other_suffix(stem, ".tfvars"@, ".cs"@, 2);
    other_suffix(stem, ".tfvars"@, ".dart"@, 1);
    other_suffix(stem, ".tfvars"@, ".go"@, 1);
}

/// A path that ends with `.java` is that of a file in Java, whatever stands
/// before.
pub proof fn java_files_are_known(stem: Seq<char>)
    ensures
        language_of(stem + ".java"@) == Some(Language::Java),
{
    reveal_strlit(".c");
    reveal_strlit(".h");
    reveal_strlit(".cc");
    reveal_strlit(".cpp");
    reveal_strlit(".cxx");
    reveal_strlit(".hh");
    reveal_strlit(".hpp");
    reveal_strlit(".hxx");
    reveal_strlit(".cs");
    reveal_strlit(".dart");
    reveal_strlit(".go");
    reveal_strlit(".tf");
    reveal_strlit(".hcl");
    reveal_strlit(".tfvars");
    reveal_strlit(".java");
    own_suffix(stem, ".java"@);
    other_suffix(stem, ".java"@, ".c"@, 1);
    other_suffix(stem, ".java"@, ".h"@, 1);
    other_suffix(stem, ".java"@, ".cc"@, 1);
    other_suffix(stem, ".java"@, ".cpp"@, 1);
    other_suffix(stem, ".java"@, ".cxx"@, 1);
    other_suffix(stem, ".java"@, ".hh"@, 1);
    other_suffix(stem, ".java"@, ".hpp"@, 1);
    other_suffix(stem, ".java"@, ".hxx"@, 1);
    other_suffix(stem, ".java"@, ".cs"@, 1);
    other_suffix(stem, ".java"@, ".dart"@, 1);
    other_suffix(stem, ".java"@, ".go"@, 1);
    other_suffix(stem, ".java"@, ".tf"@, 1);
    other_suffix(stem, ".java"@, ".hcl"@, 1);
    other_suffix(stem, ".java"@, ".tfvars"@, 1);
}

/// A path that ends with `.kt` or `.kts` is that of a file in Kotlin, whatever
/// stands before.
pub proof fn kotlin_files_are_known(stem: Seq<char>)
    ensures
        language_of(stem + ".kt"@) == Some(Language::Kotlin),
        language_of(stem + ".kts"@) == Some(Language::Kotlin),
{
    reveal_strlit(".c");
    reveal_strlit(".h");
    reveal_strlit(".cc");
    reveal_strlit(".cpp");
    reveal_strlit(".cxx");
    reveal_strlit(".hh");
    reveal_strlit(".hpp");
    reveal_strlit(".hxx");
    reveal_strlit(".cs");
    reveal_strlit(".dart");
    reveal_strlit(".go");
    reveal_strlit(".tf");
    reveal_strlit(".hcl");
    reveal_strlit(".tfvars");
    reveal_strlit(".java");
    reveal_strlit(".kt");
    reveal_strlit(".kts");
    own_suffix(stem, ".kt"@);
    other_suffix(stem, ".kt"@, ".c"@, 1);
    other_suffix(stem, ".kt"@, ".h"@, 1);
    other_suffix(stem, ".kt"@, ".cc"@, 1);
    other_suffix(stem, ".kt"@, ".cpp"@, 1);
    other_suffix(stem, ".kt"@, ".cxx"@, 1);
    other_suffix(stem, ".kt"@, ".hh"@, 1);
    other_suffix(stem, ".kt"@, ".hpp"@, 1);
    other_suffix(stem, ".kt"@, ".hxx"@, 1);
    other_suffix(stem, ".kt"@, ".cs"@, 1);
    other_suffix(stem, ".kt"@, ".dart"@, 2);
    other_suffix(stem, ".kt"@, ".go"@, 1);
    other_suffix(stem, ".kt"@, ".tf"@, 1);
    other_suffix(stem, ".kt"@, ".hcl"@, 1);
    other_suffix(stem, ".kt"@, ".tfvars"@, 1);
    other_suffix(stem, ".kt"@, ".java"@, 1);
    own_suffix(stem, ".kts"@);
    other_suffix(stem, ".kts"@, ".c"@, 1);
    other_suffix(stem, ".kts"@, ".h"@, 1);
    other_suffix(stem, ".kts"@, ".cc"@, 1);
    other_suffix(stem, ".kts"@, ".cpp"@, 1);
    other_suffix(stem, ".kts"@, ".cxx"@, 1);
    other_suffix(stem, ".kts"@, ".hh"@, 1);
    other_suffix(stem, ".kts"@, ".hpp"@, 1);
    other_suffix(stem, ".kts"@, ".hxx"@, 1);
    other_suffix(stem, ".kts"@, ".cs"@, 2);
    other_suffix(stem, ".kts"@, ".dart"@, 1);
    other_suffix(stem, ".kts"@, ".go"@, 1);
    other_suffix(stem, ".kts"@, ".tf"@, 1);
    other_suffix(stem, ".kts"@, ".hcl"@, 1);
    other_suffix(stem, ".kts"@, ".tfvars"@, 2);
    other_suffix(stem, ".kts"@, ".java"@, 1);
}

/// A path that ends with `.lua` is that of a file in Lua, whatever stands
/// before.
pub proof fn lua_files_are_known(stem: Seq<char>)
    ensures
        language_of(stem + ".lua"@) == Some(Language::Lua),
{
    reveal_strlit(".c");
    reveal_strlit(".h");
    reveal_strlit(".cc");
    reveal_strlit(".cpp");
    reveal_strlit(".cxx");
    reveal_strlit(".hh");
    reveal_strlit(".hpp");
    reveal_strlit(".hxx");
    reveal_strlit(".cs");
    reveal_strlit(".dart");
    reveal_strlit(".go");
    reveal_strlit(".tf");
    reveal_strlit(".hcl");
    reveal_strlit(".tfvars");
    reveal_strlit(".java");
    reveal_strlit(".kt");
    reveal_strlit(".kts");
    reveal_strlit(".lua");
    own_suffix(stem, ".lua"@);
    other_suffix(stem, ".lua"@, ".c"@, 1);
    other_suffix(stem, ".lua"@, ".h"@, 1);
    other_suffix(stem, ".lua"@, ".cc"@, 1);
    other_suffix(stem, ".lua"@, ".cpp"@, 1);
    other_suffix(stem, ".lua"@, ".cxx"@, 1);
    other_suffix(stem, ".lua"@, ".hh"@, 1);
    other_suffix(stem, ".lua"@, ".hpp"@, 1);
    other_suffix(stem, ".lua"@, ".hxx"@, 1);
    other_suffix(stem, ".lua"@, ".cs"@, 1);
    other_suffix(stem, ".lua"@, ".dart"@, 1);
    other_suffix(stem, ".lua"@, ".go"@, 1);
    other_suffix(stem, ".lua"@, ".tf"@, 1);
    other_suffix(stem, ".lua"@, ".hcl"@, 1);
    other_suffix(stem, ".lua"@, ".tfvars"@, 1);
    other_suffix(stem, ".lua"@, ".java"@, 2);
    other_suffix(stem, ".lua"@, ".kt"@, 1);
    other_suffix(stem, ".lua"@, ".kts"@, 1);
}

/// A path that ends with none of these is that of no file that can be read.
pub proof fn other_files_are_not_known(path: Seq<char>)
    requires
        !has_suffix(path, ".c"@),
        !has_suffix(path, ".h"@),
        !has_suffix(path, ".cc"@),
        !has_suffix(path, ".cpp"@),
        !has_suffix(path, ".cxx"@),
        !has_suffix(path, ".hh"@),
        !has_suffix(path, ".hpp"@),
        !has_suffix(path, ".hxx"@),
        !has_suffix(path, ".cs"@),
        !has_suffix(path, ".dart"@),
        !has_suffix(path, ".go"@),
        !has_suffix(path, ".tf"@),
        !has_suffix(path, ".hcl"@),
        !has_suffix(path, ".tfvars"@),
        !has_suffix(path, ".java"@),
        !has_suffix(path, ".kt"@),
        !has_suffix(path, ".kts"@),
        !has_suffix(path, ".lua"@),
    ensures
        language_of(path) is None,
{
}

/// The tags of two languages differ.
pub proof fn tags_tell_languages_apart(a: Language, b: Language)
    requires
        a.tag() == b.tag(),
    ensures
        a == b,
{
    reveal_strlit("c");
    reveal_strlit("cpp");
    reveal_strlit("csharp");
    reveal_strlit("dart");
    reveal_strlit("go");
    reveal_strlit("hcl");
    reveal_strlit("java");
    reveal_strlit("kotlin");
    reveal_strlit("lua");
    assert("c"@.len() != "cpp"@.len());
    assert("c"@.len() != "csharp"@.len());
    assert("c"@.len() != "dart"@.len());
    assert("c"@.len() != "go"@.len());
    assert("c"@.len() != "hcl"@.len());
    assert("c"@.len() != "java"@.len());
    assert("c"@.len() != "kotlin"@.len());
    assert("c"@.len() != "lua"@.len());
    assert("cpp"@.len() != "csharp"@.len());
    assert("cpp"@.len() != "dart"@.len());
    assert("cpp"@.len() != "go"@.len());
    assert("cpp"@[0] != "hcl"@[0]);
    assert("cpp"@.len() != "java"@.len());
    assert("cpp"@.len() != "kotlin"@.len());
    assert("cpp"@[0] != "lua"@[0]);
    assert("csharp"@.len() != "dart"@.len());
    assert("csharp"@.len() != "go"@.len());
    assert("csharp"@.len() != "hcl"@.len());
    assert("csharp"@.len() != "java"@.len());
    assert("csharp"@[0] != "kotlin"@[0]);
    assert("csharp"@.len() != "lua"@.len());
    assert("dart"@.len() != "go"@.len());
    assert("dart"@.len() != "hcl"@.len());
    assert("dart"@[0] != "java"@[0]);
    assert("dart"@.len() != "kotlin"@.len());
    assert("dart"@.len() != "lua"@.len());
    assert("go"@.len() != "hcl"@.len());
    assert("go"@.len() != "java"@.len());
    assert("go"@.len() != "kotlin"@.len());
    assert("go"@.len() != "lua"@.len());
    assert("hcl"@.len() != "java"@.len());
    assert("hcl"@.len() != "kotlin"@.len());
    assert("hcl"@[0] != "lua"@[0]);
    assert("java"@.len() != "kotlin"@.len());
    assert("java"@.len() != "lua"@.len());
    assert("kotlin"@.len() != "lua"@.len());
}

/// A name that starts with `Java_` is that of an implementation of a native Java
/// method, and no other name is.
pub proof fn java_names_are_native(rest: Seq<char>, other: Seq<char>)
    requires
        !has_prefix(other, "Java_"@),
    ensures
        abi_of_name("Java_"@ + rest) == Some(FfiAbi::Jni),
        abi_of_name(other) is None,
{
    prefix_comes_off("Java_"@, rest);
}

} // verus!
