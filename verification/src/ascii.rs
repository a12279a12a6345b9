//! The bytes that the texts of this library are made of.
use vstd::prelude::*;

verus! {

/// The byte of line feed.
pub const LF: u8 = 10;

/// The byte of carriage return.
pub const CR: u8 = 13;

/// The byte of escape.
pub const ESC: u8 = 27;

/// The byte of space.
pub const SPACE: u8 = 32;

/// The byte of `+`.
pub const PLUS: u8 = 43;

/// The byte of `-`.
pub const DASH: u8 = 45;

/// The byte of `/`.
pub const SLASH: u8 = 47;

/// The byte of `0`.
pub const DIGIT_0: u8 = 48;

/// The byte of `2`.
pub const DIGIT_2: u8 = 50;

/// The byte of `3`.
pub const DIGIT_3: u8 = 51;

/// The byte of `8`.
pub const DIGIT_8: u8 = 56;

/// The byte of `9`.
pub const DIGIT_9: u8 = 57;

/// The byte of `;`.
pub const SEMICOLON: u8 = 59;

/// The byte of `<`.
pub const LESS: u8 = 60;

/// The byte of `>`.
pub const GREATER: u8 = 62;

/// The byte of `H`.
pub const UPPER_H: u8 = 72;

/// The byte of `K`.
pub const UPPER_K: u8 = 75;

/// The byte of `O`.
pub const UPPER_O: u8 = 79;

/// The byte of `X`.
pub const UPPER_X: u8 = 88;

/// The byte of `[`.
pub const BRACKET: u8 = 91;

/// The byte of `f`.
pub const LOWER_F: u8 = 102;

/// The byte of `m`.
pub const LOWER_M: u8 = 109;

/// The byte of `n`.
pub const LOWER_N: u8 = 110;

/// The byte of `v`.
pub const LOWER_V: u8 = 118;

/// The byte of `|`.
pub const BAR: u8 = 124;

} // verus!
