//! wgpu HNSW graph (construction and search are not provided by this
//! backend yet).

use vstd::prelude::*;
use std::sync::Arc;
use crate::error::{HiveGpuError, is_other_error};
use crate::types::GpuDistanceMetric;
use crate::wgpu::context::WgpuContext;

verus! {

/// wgpu HNSW graph.
#[derive(Debug)]
pub struct WgpuHnswGraph {
    context: Arc<WgpuContext>,
    dimension: usize,
    metric: GpuDistanceMetric,
}

impl WgpuHnswGraph {
    pub closed spec fn spec_context(self) -> WgpuContext {
        *self.context
    }

    pub closed spec fn spec_dimension(self) -> usize {
        self.dimension
    }

    pub closed spec fn spec_metric(self) -> GpuDistanceMetric {
        self.metric
    }

    /// Creates a graph on `context` for vectors of `dimension` compared by
    /// `metric`.
    pub fn new(context: Arc<WgpuContext>, dimension: usize, metric: GpuDistanceMetric) -> (r: Result<Self, HiveGpuError>)
        ensures
            r matches Ok(g) && g.spec_context() == *context && g.spec_dimension() == dimension && g.spec_metric()
                == metric,
    {
        Ok(WgpuHnswGraph { context, dimension, metric })
    }

    /// Builds the graph: this backend cannot, and fails, changing nothing.
    pub fn build_graph(&mut self) -> (r: Result<(), HiveGpuError>)
        ensures
            r is Err && is_other_error(r->Err_0, "wgpu HNSW graph construction not implemented yet"@),
            final(self).spec_context() == old(self).spec_context(),
            final(self).spec_dimension() == old(self).spec_dimension(),
            final(self).spec_metric() == old(self).spec_metric(),
    {
        Err(HiveGpuError::Other(String::from_str("wgpu HNSW graph construction not implemented yet")))
    }

    /// Searches the graph: this backend cannot, and fails.
    pub fn search(&self, k: usize) -> (r: Result<(), HiveGpuError>)
        ensures
            r is Err && is_other_error(r->Err_0, "wgpu HNSW search not implemented yet"@),
    {
        Err(HiveGpuError::Other(String::from_str("wgpu HNSW search not implemented yet")))
    }
}

} // verus!
