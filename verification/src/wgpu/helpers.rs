//! Helper functions for wgpu compute dispatches.

use vstd::prelude::*;
use crate::error::{HiveGpuError, is_other_error};
use crate::wgpu::context::WgpuContext;

verus! {

/// Maximum number of threads in one wgpu workgroup.
pub const MAX_THREADS_PER_WORKGROUP: u32 = 1024;

/// Helper functions for wgpu compute shaders.
pub struct WgpuHelpers;

impl WgpuHelpers {
    /// Clamps a workgroup size so that `x * y * z` stays within 1024
    /// threads: `x` is capped at 1024, then `y` at `1024 / x`, then `z` at
    /// `1024 / (x * y)`.
    pub fn calculate_workgroup_size(context: &WgpuContext, workgroup_size: (u32, u32, u32)) -> (r: Result<
        (u32, u32, u32),
        HiveGpuError,
    >)
        requires
            workgroup_size.0 > 0,
            workgroup_size.1 > 0,
        ensures
            r matches Ok(s) && {
                let x = if workgroup_size.0 < 1024 { workgroup_size.0 } else { 1024u32 };
                let y = if workgroup_size.1 < 1024u32 / x { workgroup_size.1 } else { 1024u32 / x };
                &&& s.0 == x
                &&& s.1 == y
                &&& s.2 == if workgroup_size.2 < 1024u32 / (x * y) as u32 { workgroup_size.2 } else { 1024u32 / (x * y) as u32 }
                &&& s.0 * s.1 * s.2 <= 1024
            },
    {
        let max_threads_per_workgroup: u32 = MAX_THREADS_PER_WORKGROUP;
        let x = if workgroup_size.0 < max_threads_per_workgroup { workgroup_size.0 } else { max_threads_per_workgroup };
        let yl = max_threads_per_workgroup / x;
        assert(yl >= 1) by (nonlinear_arith)
            requires 1 <= x <= 1024, yl == 1024u32 / x;
        let y = if workgroup_size.1 < yl { workgroup_size.1 } else { yl };
        assert(1 <= x * y <= 1024) by (nonlinear_arith)
            requires 1 <= x <= 1024, 1 <= y, y <= 1024u32 / x;
        let zl = max_threads_per_workgroup / (x * y);
        let z = if workgroup_size.2 < zl { workgroup_size.2 } else { zl };
        proof {
            let xy = (x * y) as int;
            assert(xy * (1024int / xy) <= 1024) by (nonlinear_arith)
                requires 1 <= xy;
            assert(xy * z <= xy * (1024int / xy)) by (nonlinear_arith)
                requires 1 <= xy, z <= 1024int / xy;
            assert(x * y * z == xy * z) by (nonlinear_arith)
                requires xy == x * y;
        }
        Ok((x, y, z))
    }

    /// Fails when the device lacks the required features.
    pub fn validate_device_capabilities(context: &WgpuContext) -> (r: Result<(), HiveGpuError>)
        ensures
            r is Ok,
    {
        if !context.supports_required_features() {
            return Err(HiveGpuError::Other(String::from_str("wgpu device does not support required features")));
        }
        Ok(())
    }
}

} // verus!
