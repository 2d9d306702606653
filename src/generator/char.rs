//! Generators of characters.
use vstd::prelude::*;

use crate::generator::{GenFailure, Generator};
use crate::rand::{output_of, step, RState, R};

verus! {

/// The character whose code is `lo` plus the next 32-bit word of `s`,
/// reduced modulo the width `n` of the range.
pub open spec fn code_in(s: RState, lo: u32, n: u32) -> char {
    (lo as int + (output_of(s) as int) % (n as int)) as char
}

/// Printable ASCII characters: codes from 0x20 to 0x7e.
#[derive(Clone, Copy)]
pub struct AsciiChar;

impl Generator for AsciiChar {
    type Item = char;

    open spec fn ready(&self) -> bool {
        true
    }

    open spec fn draws(&self, pre: RState, item: char, post: RState) -> bool {
        post == step(pre) && item == code_in(pre, 0x20, 0x5f)
    }

    open spec fn total(&self) -> bool {
        true
    }

    open spec fn fails(&self, pre: RState) -> bool {
        false
    }

    fn gen(&self, r: &mut R) -> (out: Result<char, GenFailure>) {
        let v = r.num_range(0x20u32, 0x7e);
        Ok((v as u8) as char)
    }
}

/// Printable ASCII characters.
pub fn ascii() -> (g: AsciiChar) {
    AsciiChar
}

/// Decimal digit characters, `0` to `9`.
#[derive(Clone, Copy)]
pub struct DigitsChar;

impl Generator for DigitsChar {
    type Item = char;

    open spec fn ready(&self) -> bool {
        true
    }

    open spec fn draws(&self, pre: RState, item: char, post: RState) -> bool {
        post == step(pre) && item == code_in(pre, 0x30, 10)
    }

    open spec fn total(&self) -> bool {
        true
    }

    open spec fn fails(&self, pre: RState) -> bool {
        false
    }

    fn gen(&self, r: &mut R) -> (out: Result<char, GenFailure>) {
        let v = r.num_range(0x30u32, 0x39);
        Ok((v as u8) as char)
    }
}

/// Decimal digit characters.
pub fn digits() -> (g: DigitsChar) {
    DigitsChar
}

} // verus!
