//! Launch-size helpers of the CUDA and Metal backends, on the device
//! properties their contexts report.

use vstd::prelude::*;
use crate::error::{HiveGpuError, is_other_error};

verus! {

/// Threads per block that a CUDA device of the given major compute
/// capability accepts: 1024 from Pascal (6.x) on, 512 before.
pub open spec fn max_threads_per_block(major: u32) -> u32 {
    if major >= 6 { 1024 } else { 512 }
}

/// `a` capped at `b`.
pub open spec fn capped(a: u32, b: u32) -> u32 {
    if a < b { a } else { b }
}

/// CUDA helper functions.
pub struct CudaHelpers;

impl CudaHelpers {
    /// Block size for a grid on a device of compute capability
    /// `(major, minor)`: `x` capped at the thread limit, then `y` at
    /// `limit / x`, then `z` at `limit / (x * y)`.
    pub fn calculate_block_size(compute_capability: (u32, u32), grid_size: (u32, u32, u32)) -> (r: Result<
        (u32, u32, u32),
        HiveGpuError,
    >)
        requires
            grid_size.0 > 0,
            grid_size.1 > 0,
        ensures
            r matches Ok(b) && {
                let m = max_threads_per_block(compute_capability.0);
                let x = capped(grid_size.0, m);
                let y = capped(grid_size.1, m / x);
                &&& b == (x, y, capped(grid_size.2, (m / (x * y) as u32) as u32))
                &&& b.0 * b.1 * b.2 <= m
            },
    {
        let (major, _minor) = compute_capability;
        let max_threads: u32 = if major >= 7 {
            1024
        } else if major >= 6 {
            1024
        } else {
            512
        };
        let x = if grid_size.0 < max_threads { grid_size.0 } else { max_threads };
        let yl = max_threads / x;
        assert(yl >= 1) by (nonlinear_arith)
            requires 1 <= x <= max_threads, yl == max_threads / x, max_threads <= 1024;
        let y = if grid_size.1 < yl { grid_size.1 } else { yl };
        assert(1 <= x * y <= max_threads) by (nonlinear_arith)
            requires 1 <= x <= max_threads, 1 <= y, y <= max_threads / x, max_threads <= 1024;
        let zl = max_threads / (x * y);
        let z = if grid_size.2 < zl { grid_size.2 } else { zl };
        proof {
            let xy = (x * y) as int;
            let m = max_threads as int;
            assert(xy * (m / xy) <= m) by (nonlinear_arith)
                requires 1 <= xy, 0 <= m;
            assert(xy * z <= xy * (m / xy)) by (nonlinear_arith)
                requires 1 <= xy, z <= m / xy;
            assert(x * y * z == xy * z) by (nonlinear_arith)
                requires xy == x * y;
        }
        Ok((x, y, z))
    }

    /// Fails unless the device's major compute capability is at least 7.
    pub fn validate_device_capabilities(compute_capability: (u32, u32)) -> (r: Result<(), HiveGpuError>)
        ensures
            compute_capability.0 >= 7 <==> r is Ok,
            r is Err ==> is_other_error(r->Err_0, "CUDA device does not support required features"@),
    {
        if compute_capability.0 < 7 {
            return Err(HiveGpuError::Other(String::from_str("CUDA device does not support required features")));
        }
        Ok(())
    }
}

/// `n` truncated to 32 bits.
pub open spec fn low_32(n: usize) -> u32 {
    (n as nat % 0x1_0000_0000) as u32
}

/// Metal helper functions.
pub struct MetalHelpers;

impl MetalHelpers {
    /// Threadgroup size for a workgroup on a device whose largest
    /// threadgroup is `max_size` (width, height, depth): each side capped
    /// at the device's, taken as a 32-bit number.
    pub fn calculate_threadgroup_size(max_size: (usize, usize, usize), workgroup_size: (u32, u32, u32)) -> (r:
        Result<(u32, u32, u32), HiveGpuError>)
        ensures
            r == Ok::<(u32, u32, u32), HiveGpuError>(
                (
                    capped(workgroup_size.0, low_32(max_size.0)),
                    capped(workgroup_size.1, low_32(max_size.1)),
                    capped(workgroup_size.2, low_32(max_size.2)),
                ),
            ),
    {
        let w = truncate_to_u32(max_size.0);
        let h = truncate_to_u32(max_size.1);
        let d = truncate_to_u32(max_size.2);
        let x = if workgroup_size.0 < w { workgroup_size.0 } else { w };
        let y = if workgroup_size.1 < h { workgroup_size.1 } else { h };
        let z = if workgroup_size.2 < d { workgroup_size.2 } else { d };
        Ok((x, y, z))
    }

    /// Fails when the device does not support Metal Performance Shaders.
    pub fn validate_device_capabilities(supports_mps: bool) -> (r: Result<(), HiveGpuError>)
        ensures
            supports_mps <==> r is Ok,
            r is Err ==> is_other_error(r->Err_0, "Metal Performance Shaders not supported"@),
    {
        if !supports_mps {
            return Err(HiveGpuError::Other(String::from_str("Metal Performance Shaders not supported")));
        }
        Ok(())
    }
}

/// `n` truncated to 32 bits.
fn truncate_to_u32(n: usize) -> (r: u32)
    ensures
        r == low_32(n),
{
    let r = (n as u64 % 0x1_0000_0000) as u32;
    r
}

} // verus!
