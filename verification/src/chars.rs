//! Character classes of the CSS identifier grammar.

use vstd::prelude::*;

verus! {

/// ASCII letters, `_`, and every code point from 0x80 upwards.
pub open spec fn is_name_start_spec(c: char) -> bool {
    let v = c as u32;
    (0x41 <= v && v <= 0x5A) || (0x61 <= v && v <= 0x7A) || v == 0x5F || v >= 0x80
}

pub open spec fn is_digit_spec(c: char) -> bool {
    let v = c as u32;
    0x30 <= v && v <= 0x39
}

/// A name-start character, an ASCII digit, or `-`.
pub open spec fn is_name_spec(c: char) -> bool {
    is_name_start_spec(c) || is_digit_spec(c) || c == '-'
}

pub open spec fn is_hex_spec(c: char) -> bool {
    let v = c as u32;
    (0x30 <= v && v <= 0x39) || (0x41 <= v && v <= 0x46) || (0x61 <= v && v <= 0x66)
}

/// The code points that carry the Unicode `White_Space` property.
pub open spec fn is_whitespace_spec(c: char) -> bool {
    let v = c as u32;
    (0x09 <= v && v <= 0x0D) || v == 0x20 || v == 0x85 || v == 0xA0 || v == 0x1680
        || (0x2000 <= v && v <= 0x200A) || v == 0x2028 || v == 0x2029 || v == 0x202F
        || v == 0x205F || v == 0x3000
}

/// The value, 0 to 15, of a hexadecimal digit.
pub open spec fn as_hex_spec(c: char) -> nat {
    let v = c as u32;
    if v <= 0x39 {
        (v - 0x30) as nat
    } else if v <= 0x46 {
        (v - 0x41 + 10) as nat
    } else {
        (v - 0x61 + 10) as nat
    }
}

/// The lowercase hexadecimal digit for a value below 16.
pub open spec fn hex_char_spec(v: nat) -> char {
    if v < 10 {
        (0x30 + v) as char
    } else {
        (0x61 + v - 10) as char
    }
}

/// Whether a number is a Unicode scalar value.
pub open spec fn is_scalar(v: nat) -> bool {
    v <= 0xD7FF || (0xE000 <= v && v <= 0x10FFFF)
}

pub fn is_name_start(c: char) -> (r: bool)
    ensures
        r == is_name_start_spec(c),
{
    let v: u32 = c as u32;
    (0x41 <= v && v <= 0x5A) || (0x61 <= v && v <= 0x7A) || v == 0x5F || v >= 0x80
}

pub fn is_digit(c: char) -> (r: bool)
    ensures
        r == is_digit_spec(c),
{
    let v: u32 = c as u32;
    0x30 <= v && v <= 0x39
}

pub fn is_name(c: char) -> (r: bool)
    ensures
        r == is_name_spec(c),
{
    is_name_start(c) || is_digit(c) || c == '-'
}

pub fn is_hex_digit(c: char) -> (r: bool)
    ensures
        r == is_hex_spec(c),
{
    let v: u32 = c as u32;
    (0x30 <= v && v <= 0x39) || (0x41 <= v && v <= 0x46) || (0x61 <= v && v <= 0x66)
}

pub fn is_whitespace(c: char) -> (r: bool)
    ensures
        r == is_whitespace_spec(c),
{
    let v: u32 = c as u32;
    (0x09 <= v && v <= 0x0D) || v == 0x20 || v == 0x85 || v == 0xA0 || v == 0x1680 || (0x2000
        <= v && v <= 0x200A) || v == 0x2028 || v == 0x2029 || v == 0x202F || v == 0x205F || v
        == 0x3000
}

pub fn as_hex(c: char) -> (r: u32)
    requires
        is_hex_spec(c),
    ensures
        r == as_hex_spec(c),
        r < 16,
{
    let v: u32 = c as u32;
    if v <= 0x39 {
        v - 0x30
    } else if v <= 0x46 {
        v - 0x41 + 10
    } else {
        v - 0x61 + 10
    }
}

pub fn hex_char_for(v: u32) -> (r: char)
    requires
        v < 16,
    ensures
        r == hex_char_spec(v as nat),
        is_hex_spec(r),
        as_hex_spec(r) == v,
{
    let b: u8 = v as u8;
    if b < 10 {
        (0x30u8 + b) as char
    } else {
        (0x61u8 + b - 10) as char
    }
}

} // verus!
