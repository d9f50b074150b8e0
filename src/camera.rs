//! Camera geometry.

use vstd::prelude::*;

verus! {

/// The least multiple of 32 that is at least `d`.
pub open spec fn is_round_up_32(r: int, d: int) -> bool {
    r % 32 == 0 && d <= r < d + 32
}

fn round_up_32(d: u32) -> (r: u32)
    requires
        d <= u32::MAX / 2,
    ensures
        is_round_up_32(r as int, d as int),
{
    let q = (d + 31) / 32;
    assert(q * 32 <= d + 31 && d + 31 < q * 32 + 32) by (nonlinear_arith)
        requires q == (d + 31) / 32;
    q * 32
}

/// The offsets that centre a `width` x `height` region on a sensor of
/// `max_resolution`, each rounded up to a multiple of 32.
pub fn get_offset_for_resolution(max_resolution: (u32, u32), width: u32, height: u32) -> (r:
    Result<(u32, u32), i32>)
    requires
        width <= max_resolution.0,
        height <= max_resolution.1,
    ensures
        r matches Ok((x, y)) && is_round_up_32(x as int, (max_resolution.0 - width) / 2)
            && is_round_up_32(y as int, (max_resolution.1 - height) / 2),
{
    let offset_x = round_up_32((max_resolution.0 - width) / 2);
    let offset_y = round_up_32((max_resolution.1 - height) / 2);
    Ok((offset_x, offset_y))
}

} // verus!
