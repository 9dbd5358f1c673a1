use vstd::prelude::*;

verus! {

/// The character classes the predicate-based primitives test against.
#[derive(Clone, Copy, PartialEq, Eq, Structural, Debug)]
pub enum CharClass {
    /// ASCII letters.
    Alpha,
    /// ASCII decimal digits.
    Digit,
    /// ASCII hexadecimal digits.
    HexDigit,
    /// Blank space: space or horizontal tab.
    Blank,
    /// A full stop or whitespace, the tail of a sentence.
    DotOrWhitespace,
}

/// Whether `ch` belongs to the class `cl`.
pub open spec fn class_holds(cl: CharClass, ch: char) -> bool {
    let u = ch as u32;
    match cl {
        CharClass::Alpha => (65 <= u && u <= 90) || (97 <= u && u <= 122),
        CharClass::Digit => 48 <= u && u <= 57,
        CharClass::HexDigit => (48 <= u && u <= 57) || (65 <= u && u <= 70) || (97 <= u && u
            <= 102),
        CharClass::Blank => u == 32 || u == 9,
        CharClass::DotOrWhitespace => u == 46 || u == 32 || u == 9 || u == 10 || u == 13,
    }
}

/// Executable test for [`class_holds`].
pub fn char_in_class(cl: CharClass, ch: char) -> (b: bool)
    ensures
        b == class_holds(cl, ch),
{
    let u = ch as u32;
    match cl {
        CharClass::Alpha => (65 <= u && u <= 90) || (97 <= u && u <= 122),
        CharClass::Digit => 48 <= u && u <= 57,
        CharClass::HexDigit => (48 <= u && u <= 57) || (65 <= u && u <= 70) || (97 <= u && u
            <= 102),
        CharClass::Blank => u == 32 || u == 9,
        CharClass::DotOrWhitespace => u == 46 || u == 32 || u == 9 || u == 10 || u == 13,
    }
}

/// Case-insensitive character equality: ASCII letters compare equal to
/// their other-case form, every other character only to itself.
pub open spec fn eq_nocase(a: char, b: char) -> bool {
    fold_lower(a) == fold_lower(b)
}

/// The case-folded code point of `ch`: ASCII upper-case letters map to
/// their lower-case form, everything else to itself.
pub open spec fn fold_lower(ch: char) -> u32 {
    let u = ch as u32;
    if 65 <= u && u <= 90 {
        (u + 32) as u32
    } else {
        u
    }
}

/// Executable test for [`eq_nocase`].
pub fn chars_eq_nocase(a: char, b: char) -> (r: bool)
    ensures
        r == eq_nocase(a, b),
{
    let ua = a as u32;
    let ub = b as u32;
    let fa: u32 = if 65 <= ua && ua <= 90 {
        ua + 32
    } else {
        ua
    };
    let fb: u32 = if 65 <= ub && ub <= 90 {
        ub + 32
    } else {
        ub
    };
    fa == fb
}

/// The numeric value of an ASCII decimal digit.
pub open spec fn digit_val(ch: char) -> int {
    ch as u32 - 48
}

/// The numeric value of an ASCII hexadecimal digit.
pub open spec fn hex_digit_val(ch: char) -> int {
    let u = ch as u32;
    if 48 <= u && u <= 57 {
        u - 48
    } else if 65 <= u && u <= 70 {
        u - 55
    } else {
        u - 87
    }
}

/// Executable hexadecimal digit value.
pub fn hex_digit_value(ch: char) -> (v: u32)
    requires
        class_holds(CharClass::HexDigit, ch),
    ensures
        v == hex_digit_val(ch),
        v < 16,
{
    let u = ch as u32;
    if 48 <= u && u <= 57 {
        u - 48
    } else if 65 <= u && u <= 70 {
        u - 55
    } else {
        u - 87
    }
}

/// Executable decimal digit value.
pub fn digit_value(ch: char) -> (v: u32)
    requires
        class_holds(CharClass::Digit, ch),
    ensures
        v == digit_val(ch),
        v < 10,
{
    ch as u32 - 48
}

} // verus!
