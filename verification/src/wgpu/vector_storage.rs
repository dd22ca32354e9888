//! wgpu vector storage: the count of stored vectors and the storage shape.

use vstd::prelude::*;
use std::sync::Arc;
use crate::error::{HiveGpuError, is_other_error};
use crate::types::GpuDistanceMetric;
use crate::wgpu::context::WgpuContext;

verus! {

/// wgpu vector storage.
#[derive(Debug)]
pub struct WgpuVectorStorage {
    context: Arc<WgpuContext>,
    vector_count: usize,
    dimension: usize,
    metric: GpuDistanceMetric,
}

impl WgpuVectorStorage {
    pub closed spec fn spec_vector_count(self) -> usize {
        self.vector_count
    }

    pub closed spec fn spec_dimension(self) -> usize {
        self.dimension
    }

    pub closed spec fn spec_metric(self) -> GpuDistanceMetric {
        self.metric
    }

    /// Creates an empty storage of the given dimension and metric.
    pub fn new(context: Arc<WgpuContext>, dimension: usize, metric: GpuDistanceMetric) -> (r: Result<
        Self,
        HiveGpuError,
    >)
        ensures
            r matches Ok(s) && s.spec_vector_count() == 0 && s.spec_dimension() == dimension && s.spec_metric()
                == metric,
    {
        Ok(WgpuVectorStorage { context, vector_count: 0, dimension, metric })
    }

    /// Stores one more vector (its data is not read by this backend) and
    /// returns its index, the previous count.
    pub fn add_vector(&mut self) -> (r: Result<usize, HiveGpuError>)
        requires
            old(self).spec_vector_count() < usize::MAX,
        ensures
            r == Ok::<usize, HiveGpuError>(old(self).spec_vector_count()),
            final(self).spec_vector_count() == old(self).spec_vector_count() + 1,
            final(self).spec_dimension() == old(self).spec_dimension(),
            final(self).spec_metric() == old(self).spec_metric(),
    {
        let index = self.vector_count;
        self.vector_count = self.vector_count + 1;
        Ok(index)
    }

    /// Removes a vector by ID: a no-op that succeeds.
    pub fn remove_vector(&mut self, id: &str) -> (r: Result<(), HiveGpuError>)
        ensures
            r is Ok,
            final(self).spec_vector_count() == old(self).spec_vector_count(),
            final(self).spec_dimension() == old(self).spec_dimension(),
            final(self).spec_metric() == old(self).spec_metric(),
    {
        Ok(())
    }

    /// Clears all vectors.
    pub fn clear(&mut self) -> (r: Result<(), HiveGpuError>)
        ensures
            r is Ok,
            final(self).spec_vector_count() == 0,
            final(self).spec_dimension() == old(self).spec_dimension(),
            final(self).spec_metric() == old(self).spec_metric(),
    {
        self.vector_count = 0;
        Ok(())
    }

    /// Number of stored vectors.
    pub fn vector_count(&self) -> (n: usize)
        ensures
            n == self.spec_vector_count(),
    {
        self.vector_count
    }

    /// Vector dimension.
    pub fn dimension(&self) -> (d: usize)
        ensures
            d == self.spec_dimension(),
    {
        self.dimension
    }

    /// Stores `count` more vectors (their data is not read by this
    /// backend) and returns their indices, in order.
    pub fn add_vectors(&mut self, count: usize) -> (r: Result<Vec<usize>, HiveGpuError>)
        requires
            old(self).spec_vector_count() + count <= usize::MAX,
        ensures
            r matches Ok(v) && v@.len() == count && forall|i: int|
                0 <= i < count ==> #[trigger] v@[i] == old(self).spec_vector_count() + i,
            final(self).spec_vector_count() == old(self).spec_vector_count() + count,
            final(self).spec_dimension() == old(self).spec_dimension(),
            final(self).spec_metric() == old(self).spec_metric(),
    {
        let mut indices: Vec<usize> = Vec::new();
        let start = self.vector_count;
        let mut i: usize = 0;
        while i < count
            invariant
                i <= count,
                start + count <= usize::MAX,
                self.vector_count == start + i,
                self.dimension == old(self).dimension,
                self.metric == old(self).metric,
                start == old(self).vector_count,
                indices@.len() == i,
                forall|j: int| 0 <= j < i ==> #[trigger] indices@[j] == start + j,
            decreases count - i,
        {
            indices.push(self.vector_count);
            self.vector_count = self.vector_count + 1;
            i = i + 1;
        }
        Ok(indices)
    }

    /// Reads a stored vector back: this backend cannot, and fails.
    pub fn get_vector(&self, id: &str) -> (r: Result<(), HiveGpuError>)
        ensures
            r is Err && is_other_error(r->Err_0, "wgpu vector retrieval not implemented yet"@),
    {
        Err(HiveGpuError::Other(String::from_str("wgpu vector retrieval not implemented yet")))
    }

    /// Searches the storage: this backend cannot, and fails.
    pub fn search(&self, limit: usize) -> (r: Result<(), HiveGpuError>)
        ensures
            r is Err && is_other_error(r->Err_0, "wgpu search not implemented yet"@),
    {
        Err(HiveGpuError::Other(String::from_str("wgpu search not implemented yet")))
    }
}

} // verus!
