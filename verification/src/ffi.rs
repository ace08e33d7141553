//! Functions that other languages reach by name.

use crate::graph::types::FfiAbi;
use crate::text::{has_prefix, starts_with};
use vstd::prelude::*;

verus! {

/// The calling convention that the name of a C function stands for: `Java_`
/// starts the name of an implementation of a native Java method.
pub open spec fn abi_of_name(name: Seq<char>) -> Option<FfiAbi> {
    if has_prefix(name, "Java_"@) {
        Some(FfiAbi::Jni)
    } else {
        None
    }
}

/// The calling convention that the name of a C function stands for.
pub fn c_name_export_abi(name: &str) -> (abi: Option<FfiAbi>)
    ensures
        abi == abi_of_name(name@),
{
    if starts_with(name, "Java_") {
        Some(FfiAbi::Jni)
    } else {
        None
    }
}

} // verus!
