//! The packed framebuffer byte.

use crate::bits::nth_bit;
use vstd::prelude::*;

verus! {

/// One byte of the packed framebuffer: 8 vertically stacked pixels of one
/// column within one page. Bit `i` holds the pixel of row `page * 8 + i`.
#[derive(Clone, Copy, PartialEq, Eq, Structural, Debug)]
pub struct Chunk(pub u8);

impl Chunk {
    /// Whether pixel `i` of this chunk is on.
    pub open spec fn spec_bit(self, i: int) -> bool {
        nth_bit(self.0, i as u8)
    }

    /// The mask with exactly bit `i` set.
    pub fn bit(i: usize) -> (r: Chunk)
        requires
            i < 8,
        ensures
            r.0 == 1u8 << (i as u8),
    {
        Chunk(1u8 << (i as u8))
    }

    /// Whether pixel `i` of this chunk is on.
    pub fn get(&self, i: usize) -> (r: bool)
        requires
            i < 8,
        ensures
            r == self.spec_bit(i as int),
    {
        self.0 >> (i as u8) & 1 == 1
    }
}

} // verus!
