//! Byte constants and classification used by the scanner's dispatch and
//! sub-scanners. The design operates on single-byte characters in the ASCII
//! range, so every character of interest is named here as its byte value.

use vstd::prelude::*;

verus! {

pub const LEFT_PAREN: u8 = 40;

pub const RIGHT_PAREN: u8 = 41;

pub const LEFT_BRACE: u8 = 123;

pub const RIGHT_BRACE: u8 = 125;

pub const COMMA: u8 = 44;

pub const DOT: u8 = 46;

pub const MINUS: u8 = 45;

pub const PLUS: u8 = 43;

pub const SEMICOLON: u8 = 59;

pub const SLASH: u8 = 47;

pub const STAR: u8 = 42;

pub const BANG: u8 = 33;

pub const EQUALS: u8 = 61;

pub const LESS: u8 = 60;

pub const GREATER: u8 = 62;

pub const SPACE: u8 = 32;

pub const CARRIAGE_RETURN: u8 = 13;

pub const TAB: u8 = 9;

pub const NEWLINE: u8 = 10;

pub const QUOTE: u8 = 34;

pub const UNDERSCORE: u8 = 95;

pub const DIGIT_ZERO: u8 = 48;

pub const DIGIT_NINE: u8 = 57;

pub const UPPER_A: u8 = 65;

pub const UPPER_Z: u8 = 90;

pub const LOWER_A: u8 = 97;

pub const LOWER_C: u8 = 99;

pub const LOWER_D: u8 = 100;

pub const LOWER_E: u8 = 101;

pub const LOWER_F: u8 = 102;

pub const LOWER_H: u8 = 104;

pub const LOWER_I: u8 = 105;

pub const LOWER_L: u8 = 108;

pub const LOWER_N: u8 = 110;

pub const LOWER_O: u8 = 111;

pub const LOWER_P: u8 = 112;

pub const LOWER_R: u8 = 114;

pub const LOWER_S: u8 = 115;

pub const LOWER_T: u8 = 116;

pub const LOWER_U: u8 = 117;

pub const LOWER_V: u8 = 118;

pub const LOWER_W: u8 = 119;

pub const LOWER_Z: u8 = 122;

/// A byte is an ASCII decimal digit.
pub open spec fn spec_is_digit(digit: u8) -> bool {
    DIGIT_ZERO <= digit && digit <= DIGIT_NINE
}

/// A byte is an ASCII letter or an underscore.
pub open spec fn spec_is_alpha(alpha: u8) -> bool {
    (LOWER_A <= alpha && alpha <= LOWER_Z) || (UPPER_A <= alpha && alpha <= UPPER_Z) || alpha
        == UNDERSCORE
}

/// A byte may continue an identifier: a letter, a digit, or an underscore.
pub open spec fn spec_is_alphanumeric(c: u8) -> bool {
    spec_is_digit(c) || spec_is_alpha(c)
}

#[verifier::when_used_as_spec(spec_is_digit)]
pub fn is_digit(digit: u8) -> (r: bool)
    ensures
        r == spec_is_digit(digit),
{
    digit >= DIGIT_ZERO && digit <= DIGIT_NINE
}

#[verifier::when_used_as_spec(spec_is_alpha)]
pub fn is_alpha(alpha: u8) -> (r: bool)
    ensures
        r == spec_is_alpha(alpha),
{
    (alpha >= LOWER_A && alpha <= LOWER_Z) || (alpha >= UPPER_A && alpha <= UPPER_Z) || (alpha
        == UNDERSCORE)
}

#[verifier::when_used_as_spec(spec_is_alphanumeric)]
pub fn is_alphanumeric(c: u8) -> (r: bool)
    ensures
        r == spec_is_alphanumeric(c),
{
    is_digit(c) || is_alpha(c)
}

} // verus!
