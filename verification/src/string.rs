//! Rendering a value as its string form, the library's one peripheral
//! facility beside the annotation helpers.

use vstd::prelude::*;

verus! {

/// Renders any displayable value as an owned string, and says of the result
/// what the standard library's conversion promises.
pub fn string_of<T: core::fmt::Display + ?Sized>(value: &T) -> (r: String)
    ensures
        vstd::string::to_string_from_display_ensures(value, r),
{
    value.to_string()
}

} // verus!
