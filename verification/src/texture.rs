//! Texture coordinates.

use vstd::prelude::*;
use crate::color::Color;

verus! {

/// A place in a texture, in fixed point: `(0, 0)` is one corner of the
/// texture and `(FIXED_ONE, FIXED_ONE)` the opposite one.
#[derive(Debug, Clone, Copy, PartialEq, Eq, Structural)]
pub struct Tex2 {
    pub u: i32,
    pub v: i32,
}

/// The colour held by the four bytes of `bytes` that start at `4 * i`, in
/// the order red, green, blue, alpha.
pub open spec fn rgba_at(bytes: Seq<u8>, i: int) -> Color {
    Color { r: bytes[4 * i], g: bytes[4 * i + 1], b: bytes[4 * i + 2], a: bytes[4 * i + 3] }
}

/// The texels of an image given as bytes, four for each texel in the order
/// red, green, blue, alpha. Bytes after the last whole texel are ignored.
pub fn colors_from_rgba(bytes: &[u8]) -> (colors: Vec<Color>)
    ensures
        colors@.len() == bytes@.len() / 4,
        forall|i: int| 0 <= i < colors@.len() ==> colors@[i] == rgba_at(bytes@, i),
{
    let len: usize = bytes.len();
    let count: usize = len / 4;
    let mut colors: Vec<Color> = Vec::new();
    let mut i: usize = 0;
    while i < count
        invariant
            i <= count,
            len == bytes@.len(),
            count == len / 4,
            colors@.len() == i,
            forall|j: int| 0 <= j < i ==> colors@[j] == rgba_at(bytes@, j),
        decreases count - i,
    {
        let base: usize = 4 * i;
        colors.push(Color::rgba(bytes[base], bytes[base + 1], bytes[base + 2], bytes[base + 3]));
        i += 1;
    }
    colors
}

} // verus!
