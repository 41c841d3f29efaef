//! What this library takes on trust of the standard library: contracts for
//! the functions of `std` that it calls and that `vstd` does not specify.
//! Nothing here is proved.

use vstd::prelude::*;

verus! {

/// Whether `c` has the Unicode `Alphabetic` property, as
/// `char::is_alphabetic` reports it. The property is a table of the Unicode
/// standard; nothing more is said of it here than that it depends on `c`
/// alone.
pub uninterp spec fn char_is_alphabetic(c: char) -> bool;

/// Whether `c` is in one of the Unicode general categories for numbers
/// (`Nd`, `Nl`, `No`), as `char::is_numeric` reports it. Besides the ten
/// decimal digits of ASCII this holds of many characters that are no decimal
/// digit, such as superscripts, fractions and Roman numerals.
pub uninterp spec fn char_is_numeric(c: char) -> bool;

/// Trusted: `char::is_alphabetic` is a function of the character alone; its
/// result is what [`char_is_alphabetic`] names.
pub assume_specification[ char::is_alphabetic ](c: char) -> (b: bool)
    ensures
        b == char_is_alphabetic(c),
;

/// Trusted: `char::is_numeric` is a function of the character alone; its
/// result is what [`char_is_numeric`] names.
pub assume_specification[ char::is_numeric ](c: char) -> (b: bool)
    ensures
        b == char_is_numeric(c),
;

/// Trusted: `String::push` appends the character to the end of the string
/// and changes nothing else.
pub assume_specification[ String::push ](s: &mut String, c: char)
    ensures
        final(s)@ == old(s)@.push(c),
;

} // verus!
