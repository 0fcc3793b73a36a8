//! Character-level predicates and transforms shared by normalization,
//! sanitization and configuration validation.

use vstd::prelude::*;

verus! {

/// A character with the Unicode `White_Space` property, the set that
/// `str::split_whitespace` splits on.
pub open spec fn is_space(c: char) -> bool {
    ||| c as u32 == 0x09
    ||| c as u32 == 0x0A
    ||| c as u32 == 0x0B
    ||| c as u32 == 0x0C
    ||| c as u32 == 0x0D
    ||| c as u32 == 0x20
    ||| c as u32 == 0x85
    ||| c as u32 == 0xA0
    ||| c as u32 == 0x1680
    ||| (0x2000 <= c as u32 && c as u32 <= 0x200A)
    ||| c as u32 == 0x2028
    ||| c as u32 == 0x2029
    ||| c as u32 == 0x202F
    ||| c as u32 == 0x205F
    ||| c as u32 == 0x3000
}

/// ASCII upper-casing of a single character: `a`..`z` map to `A`..`Z`,
/// everything else is unchanged.
pub open spec fn to_upper(c: char) -> char {
    if 0x61 <= c as u32 && c as u32 <= 0x7A {
        (c as u32 - 0x20) as char
    } else {
        c
    }
}

/// An ASCII uppercase letter or an ASCII digit: the only characters a
/// valid alphabet may contain.
pub open spec fn is_upper_or_digit(c: char) -> bool {
    ||| (0x41 <= c as u32 && c as u32 <= 0x5A)
    ||| (0x30 <= c as u32 && c as u32 <= 0x39)
}

/// Decides `is_space`.
pub fn space_char(c: char) -> (r: bool)
    ensures
        r == is_space(c),
{
    let u: u32 = c as u32;
    u == 0x09 || u == 0x0A || u == 0x0B || u == 0x0C || u == 0x0D || u == 0x20 || u == 0x85
        || u == 0xA0 || u == 0x1680 || (0x2000 <= u && u <= 0x200A) || u == 0x2028 || u == 0x2029
        || u == 0x202F || u == 0x205F || u == 0x3000
}

/// Computes `to_upper`.
pub fn upper_char(c: char) -> (r: char)
    ensures
        r == to_upper(c),
{
    let u: u32 = c as u32;
    if 0x61 <= u && u <= 0x7A {
        ((u - 0x20) as u8) as char
    } else {
        c
    }
}

/// Decides `is_upper_or_digit`.
pub fn upper_or_digit_char(c: char) -> (r: bool)
    ensures
        r == is_upper_or_digit(c),
{
    let u: u32 = c as u32;
    (0x41 <= u && u <= 0x5A) || (0x30 <= u && u <= 0x39)
}

} // verus!
