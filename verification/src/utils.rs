//! Classification of type-reference names.

use vstd::prelude::*;

use crate::text::str_eq;
use crate::typescript::spec_is_wide_name;

verus! {

/// Names with special handling in the generator: primitives, standard
/// collections and smart pointers. Any other name is expected to have a
/// `...Schema` of its own.
pub open spec fn spec_is_builtin(n: Seq<char>) -> bool {
    n == "String"@ || n == "str"@ || n == "bool"@ || n == "char"@ || n == "i8"@ || n == "i16"@ || n
        == "i32"@ || n == "i64"@ || n == "i128"@ || n == "isize"@ || n == "u8"@ || n == "u16"@ || n
        == "u32"@ || n == "u64"@ || n == "u128"@ || n == "usize"@ || n == "f32"@ || n == "f64"@
        || n == "Vec"@ || n == "Option"@ || n == "Result"@ || n == "HashMap"@ || n == "HashSet"@
        || n == "Box"@ || n == "Arc"@ || n == "Rc"@ || n == "Cow"@
}

/// Whether `name` is a built-in name the generator handles itself.
pub fn is_builtin_type(name: &str) -> (r: bool)
    ensures
        r == spec_is_builtin(name@),
{
    let n = name;
    str_eq(n, "String") || str_eq(n, "str") || str_eq(n, "bool") || str_eq(n, "char") || str_eq(
        n,
        "i8",
    ) || str_eq(n, "i16") || str_eq(n, "i32") || str_eq(n, "i64") || str_eq(n, "i128") || str_eq(
        n,
        "isize",
    ) || str_eq(n, "u8") || str_eq(n, "u16") || str_eq(n, "u32") || str_eq(n, "u64") || str_eq(
        n,
        "u128",
    ) || str_eq(n, "usize") || str_eq(n, "f32") || str_eq(n, "f64") || str_eq(n, "Vec") || str_eq(
        n,
        "Option",
    ) || str_eq(n, "Result") || str_eq(n, "HashMap") || str_eq(n, "HashSet") || str_eq(n, "Box")
        || str_eq(n, "Arc") || str_eq(n, "Rc") || str_eq(n, "Cow")
}

/// Whether `name` names a wide integer, represented as `bigint`.
pub fn is_bigint_type(name: &str) -> (r: bool)
    ensures
        r == spec_is_wide_name(name@),
{
    str_eq(name, "i64") || str_eq(name, "i128") || str_eq(name, "u64") || str_eq(
        name,
        "u128",
    ) || str_eq(name, "isize") || str_eq(name, "usize")
}

} // verus!
