//! Packing a pixel read back from the renderer.
use vstd::prelude::*;

verus! {

/// The four channels of a pixel as one big-endian word: red in the highest
/// byte, alpha in the lowest.
pub fn pack_rgba(rgba: [u8; 4]) -> (r: u32)
    ensures
        r == rgba[0] * 0x100_0000 + rgba[1] * 0x1_0000 + rgba[2] * 0x100 + rgba[3],
{
    let (r0, r1, r2, r3) = (rgba[0] as u32, rgba[1] as u32, rgba[2] as u32, rgba[3] as u32);
    proof {
        assert(r0 << 24 | r1 << 16 | r2 << 8 | r3 == r0 * 0x100_0000 + r1 * 0x1_0000 + r2 * 0x100 + r3) by (bit_vector)
            requires r0 < 0x100, r1 < 0x100, r2 < 0x100, r3 < 0x100;
    }
    r0 << 24 | r1 << 16 | r2 << 8 | r3
}

} // verus!
