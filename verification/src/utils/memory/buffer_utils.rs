//! Buffer sizing and validation.

use vstd::prelude::*;
use crate::error::HiveGpuError;
use crate::utils::text::{decimal, push_decimal};

verus! {

/// Buffer alignment for optimal GPU performance.
pub const BUFFER_ALIGNMENT: usize = 256;

/// `size` rounded up to a multiple of `BUFFER_ALIGNMENT`; a size that is
/// already a multiple stays as it is, and the result can be aligned again.
pub fn align_buffer_size(size: usize) -> (r: usize)
    requires
        size + BUFFER_ALIGNMENT - 1 <= usize::MAX,
    ensures
        r % BUFFER_ALIGNMENT == 0,
        size <= r < size + BUFFER_ALIGNMENT,
        r == ((size + BUFFER_ALIGNMENT - 1) / (BUFFER_ALIGNMENT as int)) * BUFFER_ALIGNMENT,
        size % BUFFER_ALIGNMENT == 0 ==> r == size,
        r + BUFFER_ALIGNMENT - 1 <= usize::MAX,
{
    let r = ((size + (BUFFER_ALIGNMENT - 1)) / BUFFER_ALIGNMENT) * BUFFER_ALIGNMENT;
    assert(r % 256 == 0 && size <= r < size + 256) by (nonlinear_arith)
        requires r == ((size + 255) / 256) * 256;
    assert(size % 256 == 0 ==> r == size) by (nonlinear_arith)
        requires r == ((size + 255) / 256) * 256;
    assert(r + 255 <= usize::MAX) by (nonlinear_arith)
        requires
            r % 256 == 0,
            r <= usize::MAX,
            usize::MAX == 0xffff_ffff || usize::MAX == 0xffff_ffff_ffff_ffff,
    {
        if r + 255 > usize::MAX {
            assert(usize::MAX - r < 255);
        }
    }
    r
}

/// Message of the error for a buffer larger than allowed.
pub open spec fn too_large_message(size: nat, max_size: nat) -> Seq<char> {
    "Buffer size "@ + decimal(size) + " exceeds maximum "@ + decimal(max_size)
}

/// Message of the error for a misaligned buffer.
pub open spec fn misaligned_message(size: nat, alignment: nat) -> Seq<char> {
    "Buffer size "@ + decimal(size) + " not aligned to "@ + decimal(alignment)
}

/// `e` is a `BufferAllocationFailed` error whose message is `msg`.
pub open spec fn is_buffer_allocation_failed(e: HiveGpuError, msg: Seq<char>) -> bool {
    e matches HiveGpuError::BufferAllocationFailed(m) && m@ == msg
}

/// Checks that a buffer size is positive, at most `max_size`, and a
/// multiple of `alignment`, in that order.
pub fn validate_buffer_parameters(size: usize, alignment: usize, max_size: usize) -> (r: Result<(), HiveGpuError>)
    requires
        size == 0 || size > max_size || alignment > 0,
    ensures
        size == 0 ==> r is Err && is_buffer_allocation_failed(r->Err_0, "Zero buffer size"@),
        size > 0 && size > max_size ==> r is Err
            && is_buffer_allocation_failed(r->Err_0, too_large_message(size as nat, max_size as nat)),
        0 < size <= max_size && size % alignment != 0 ==> r is Err
            && is_buffer_allocation_failed(r->Err_0, misaligned_message(size as nat, alignment as nat)),
        0 < size <= max_size && size % alignment == 0 ==> r is Ok,
{
    if size == 0 {
        return Err(HiveGpuError::BufferAllocationFailed(String::from_str("Zero buffer size")));
    }
    if size > max_size {
        let mut m = String::from_str("Buffer size ");
        push_decimal(&mut m, size as u128);
        m.append(" exceeds maximum ");
        push_decimal(&mut m, max_size as u128);
        return Err(HiveGpuError::BufferAllocationFailed(m));
    }
    if size % alignment != 0 {
        let mut m = String::from_str("Buffer size ");
        push_decimal(&mut m, size as u128);
        m.append(" not aligned to ");
        push_decimal(&mut m, alignment as u128);
        return Err(HiveGpuError::BufferAllocationFailed(m));
    }
    Ok(())
}

} // verus!
