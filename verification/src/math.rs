//! Plain numeric primitives shared by the format readers.

use vstd::prelude::*;
use crate::bytes::ParseResult;

verus! {

/// An RGB(A) color stored as four bytes. The `rgb` field type occupies 4 bytes (the 4th
/// is padding/alpha).
#[derive(Debug, Clone, Copy, PartialEq, Eq, Structural, Default)]
pub struct Color {
    pub r: u8,
    pub g: u8,
    pub b: u8,
    pub a: u8,
}

/// Read a 4-byte `rgb` color: red, green, blue, then the padding/alpha byte. `None` when
/// fewer than 4 bytes remain.
pub fn color(input: &[u8]) -> (res: ParseResult<'_, Color>)
    ensures
        match res {
            Some((rest, c)) => {
                &&& input@.len() >= 4
                &&& rest@ == input@.skip(4)
                &&& c == Color { r: input@[0], g: input@[1], b: input@[2], a: input@[3] }
            },
            None => input@.len() < 4,
        },
{
    if input.len() < 4 {
        return None;
    }
    let c = Color { r: input[0], g: input[1], b: input[2], a: input[3] };
    Some((vstd::slice::slice_subrange(input, 4, input.len()), c))
}

} // verus!
