//! The ASCII characters that the crate tells apart, as bytes.

use vstd::prelude::*;

verus! {

/// Horizontal tab
pub const TAB: u8 = 9;

/// The space, first of the printing characters
pub const SPACE: u8 = 32;

/// `+`
pub const PLUS: u8 = 43;

/// `-`
pub const MINUS: u8 = 45;

/// `.`
pub const POINT: u8 = 46;

/// `/`
pub const SLASH: u8 = 47;

/// `0`
pub const DIGIT_0: u8 = 48;

/// `9`
pub const DIGIT_9: u8 = 57;

/// `A`
pub const UPPER_A: u8 = 65;

/// `E`
pub const UPPER_E: u8 = 69;

/// `Z`
pub const UPPER_Z: u8 = 90;

/// `e`
pub const LOWER_E: u8 = 101;

/// `g`
pub const LOWER_G: u8 = 103;

/// `h`
pub const LOWER_H: u8 = 104;

/// `k`
pub const LOWER_K: u8 = 107;

/// `m`
pub const LOWER_M: u8 = 109;

/// `p`
pub const LOWER_P: u8 = 112;

/// `s`
pub const LOWER_S: u8 = 115;

/// `t`
pub const LOWER_T: u8 = 116;

/// `y`
pub const LOWER_Y: u8 = 121;

/// `z`
pub const LOWER_Z: u8 = 122;

/// The delete character, last of the ASCII characters
pub const DELETE: u8 = 127;

/// The distance from an upper-case letter to its lower-case letter
pub const CASE_OFFSET: u8 = 32;

} // verus!
