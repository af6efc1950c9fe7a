//! The byte reader: little-endian primitives with bounds checks.
//!
//! Every operation takes the input and returns what is left of it together
//! with the value read, or the site of the read that ran out of input.

use vstd::prelude::*;
use vstd::slice::slice_subrange;
use crate::error::{short_input, ParseError, ReadSite};

verus! {

/// The number that the first two bytes of `s` hold, low byte first.
pub open spec fn le_u16_value(s: Seq<u8>) -> int {
    s[0] as int + 256 * (s[1] as int)
}

/// The number that the first four bytes of `s` hold, low byte first.
pub open spec fn le_u32_value(s: Seq<u8>) -> int {
    s[0] as int + 256 * (s[1] as int) + 65536 * (s[2] as int) + 16777216 * (s[3] as int)
}

/// The signed number that the byte `b` holds in two's complement.
pub open spec fn i8_value(b: u8) -> int {
    if b < 128 {
        b as int
    } else {
        b as int - 256
    }
}

/// The signed byte that `b` holds.
pub fn i8_of(b: u8) -> (v: i8)
    ensures
        v as int == i8_value(b),
{
    if b < 128 {
        b as i8
    } else {
        (b as i16 - 256) as i8
    }
}

/// The 16-bit number of two bytes, low byte first.
pub fn u16_of(b0: u8, b1: u8) -> (v: u16)
    ensures
        v as int == b0 as int + 256 * (b1 as int),
{
    b0 as u16 + 256 * (b1 as u16)
}

/// The 32-bit number of four bytes, low byte first.
pub fn u32_of(b0: u8, b1: u8, b2: u8, b3: u8) -> (v: u32)
    ensures
        v as int == b0 as int + 256 * (b1 as int) + 65536 * (b2 as int) + 16777216 * (b3 as int),
{
    b0 as u32 + 256 * (b1 as u32) + 65536 * (b2 as u32) + 16777216 * (b3 as u32)
}

/// Splits off the first `n` bytes.
pub fn take(input: &[u8], n: usize) -> (r: Result<(&[u8], &[u8]), ParseError>)
    ensures
        match r {
            Ok((rest, head)) => n <= input@.len() && head@ == input@.take(n as int) && rest@
                == input@.skip(n as int),
            Err(e) => n > input@.len() && e@ == short_input(n as nat, input@.len()),
        },
{
    if n > input.len() {
        return Err(ParseError::ShortInput(ReadSite { wanted: n, remaining: input.len() }));
    }
    let head = slice_subrange(input, 0, n);
    let rest = slice_subrange(input, n, input.len());
    Ok((rest, head))
}

/// Reads one byte.
pub fn le_u8(input: &[u8]) -> (r: Result<(&[u8], u8), ParseError>)
    ensures
        match r {
            Ok((rest, v)) => input@.len() >= 1 && rest@ == input@.skip(1) && v == input@[0],
            Err(e) => input@.len() < 1 && e@ == short_input(1, input@.len()),
        },
{
    match take(input, 1) {
        Ok((rest, head)) => Ok((rest, head[0])),
        Err(e) => Err(e),
    }
}

/// Reads one signed byte.
pub fn le_i8(input: &[u8]) -> (r: Result<(&[u8], i8), ParseError>)
    ensures
        match r {
            Ok((rest, v)) => input@.len() >= 1 && rest@ == input@.skip(1) && v as int
                == i8_value(input@[0]),
            Err(e) => input@.len() < 1 && e@ == short_input(1, input@.len()),
        },
{
    match take(input, 1) {
        Ok((rest, head)) => {
            Ok((rest, i8_of(head[0])))
        },
        Err(e) => Err(e),
    }
}

/// Reads a 16-bit number, low byte first.
pub fn le_u16(input: &[u8]) -> (r: Result<(&[u8], u16), ParseError>)
    ensures
        match r {
            Ok((rest, v)) => input@.len() >= 2 && rest@ == input@.skip(2) && v as int
                == le_u16_value(input@),
            Err(e) => input@.len() < 2 && e@ == short_input(2, input@.len()),
        },
{
    match take(input, 2) {
        Ok((rest, head)) => {
            Ok((rest, u16_of(head[0], head[1])))
        },
        Err(e) => Err(e),
    }
}

/// Reads a 32-bit number, low byte first.
pub fn le_u32(input: &[u8]) -> (r: Result<(&[u8], u32), ParseError>)
    ensures
        match r {
            Ok((rest, v)) => input@.len() >= 4 && rest@ == input@.skip(4) && v as int
                == le_u32_value(input@),
            Err(e) => input@.len() < 4 && e@ == short_input(4, input@.len()),
        },
{
    match take(input, 4) {
        Ok((rest, head)) => {
            Ok((rest, u32_of(head[0], head[1], head[2], head[3])))
        },
        Err(e) => Err(e),
    }
}

} // verus!
