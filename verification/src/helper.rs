use vstd::prelude::*;

verus! {

/// Renders any displayable value as a `String`, the way `ToString` does.
pub fn to_string<T: core::fmt::Display>(value: T) -> (text: String)
    ensures
        vstd::string::to_string_from_display_ensures::<T>(&value, text),
{
    value.to_string()
}

} // verus!
