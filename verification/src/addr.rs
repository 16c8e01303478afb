//! The address calculator: linear byte offsets into the framebuffer region.

use vstd::prelude::*;

verus! {

/// Linear byte offset of pixel (x, y) for a given row stride. Every pixel
/// cell is four bytes wide, whatever the channel order; only the first three
/// bytes of a cell carry color.
pub open spec fn offset_spec(x: int, y: int, stride: int) -> int {
    (y * stride + x) * 4
}

/// Compute the byte offset of pixel (x, y), widening to 64 bits first so the
/// multiplications cannot wrap. Returns `None` when the offset (plus the
/// three bytes a write needs) does not fit the platform's address width;
/// narrowing must fail loudly rather than truncate to an offset that merely
/// looks in-bounds.
pub fn checked_offset(x: u32, y: u32, stride: u32) -> (r: Option<usize>)
    ensures
        match r {
            Some(off) => off == offset_spec(x as int, y as int, stride as int)
                && off + 3 <= usize::MAX,
            None => offset_spec(x as int, y as int, stride as int) + 3 > usize::MAX,
        },
{
    proof {
        assert((y as int) * (stride as int) <= 0xffff_fffe_0000_0001) by (nonlinear_arith)
            requires
                0 <= y as int <= 0xffff_ffff,
                0 <= stride as int <= 0xffff_ffff,
        ;
    }
    let cell: u64 = (y as u64) * (stride as u64) + (x as u64);
    if cell >= 0x4000_0000_0000_0000u64 {
        return None;
    }
    let off64: u64 = cell * 4;
    let max64: u64 = usize::MAX as u64;
    if off64 > max64 - 3 {
        return None;
    }
    Some(off64 as usize)
}

} // verus!
