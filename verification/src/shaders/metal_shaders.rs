//! Metal shader source and its check for the required kernels.

use vstd::prelude::*;
use crate::error::HiveGpuError;
use crate::utils::text_search::{chars_of, contains_chars, contains_sub};

verus! {

/// Kernel functions the Metal library must define, in checking order.
pub open spec fn required_metal_functions() -> Seq<Seq<char>> {
    seq!["cosine_similarity"@, "euclidean_distance"@, "dot_product"@, "hnsw_construction"@, "hnsw_search"@]
}

/// Index of the first name of `names` (from `i`) that does not occur in
/// `source`; `names.len()` when all occur.
pub open spec fn first_missing(source: Seq<char>, names: Seq<Seq<char>>, i: int) -> int
    decreases names.len() - i,
{
    if i >= names.len() || i < 0 {
        names.len() as int
    } else if !contains_sub(source, names[i]) {
        i
    } else {
        first_missing(source, names, i + 1)
    }
}

proof fn lemma_first_missing_skip(source: Seq<char>, names: Seq<Seq<char>>, i: int)
    requires
        0 <= i <= names.len(),
        forall|j: int| 0 <= j < i ==> contains_sub(source, #[trigger] names[j]),
    ensures
        first_missing(source, names, 0) == first_missing(source, names, i),
    decreases i,
{
    if i > 0 {
        lemma_first_missing_skip(source, names, i - 1);
    }
}

/// A non-empty source passes the check of every required name exactly
/// when it names each of the kernels the backend dispatches:
/// `cosine_similarity`, `euclidean_distance`, `dot_product`,
/// `hnsw_construction` and `hnsw_search`.
pub proof fn lemma_required_kernels(source: Seq<char>)
    ensures
        source.len() > 0 ==> (first_missing(source, required_metal_functions(), 0) == 5 <==> (source.len() > 0 && contains_sub(source, "cosine_similarity"@) && contains_sub(source, "euclidean_distance"@)
            && contains_sub(source, "dot_product"@) && contains_sub(source, "hnsw_construction"@) && contains_sub(
            source,
            "hnsw_search"@,
        ))),
{
    let names = required_metal_functions();
    assert(names.len() == 5);
    reveal_with_fuel(first_missing, 6);
    assert(names[0] == "cosine_similarity"@);
    assert(names[1] == "euclidean_distance"@);
    assert(names[2] == "dot_product"@);
    assert(names[3] == "hnsw_construction"@);
    assert(names[4] == "hnsw_search"@);
}

/// `e` is a `ShaderCompilationFailed` error whose message is `msg`.
pub open spec fn is_shader_compilation_failed(e: HiveGpuError, msg: Seq<char>) -> bool {
    e matches HiveGpuError::ShaderCompilationFailed(m) && m@ == msg
}

/// The `i`-th required kernel name.
fn required_metal_function(i: usize) -> (s: &'static str)
    requires
        i < 5,
    ensures
        s@ == required_metal_functions()[i as int],
{
    match i {
        0 => "cosine_similarity",
        1 => "euclidean_distance",
        2 => "dot_product",
        3 => "hnsw_construction",
        _ => "hnsw_search",
    }
}

/// Metal shader manager: holds the Metal shader source.
pub struct MetalShaderManager {
    shader_source: String,
}

impl MetalShaderManager {
    /// The shader source held.
    pub closed spec fn spec_source(self) -> Seq<char> {
        self.shader_source@
    }

    /// A manager for the given Metal shader source.
    pub fn new(shader_source: String) -> (m: Self)
        ensures
            m.spec_source() == shader_source@,
    {
        MetalShaderManager { shader_source }
    }

    /// The Metal shader source.
    pub fn get_shader_source(&self) -> (s: &str)
        ensures
            s@ == self.spec_source(),
    {
        self.shader_source.as_str()
    }

    /// Checks that the source is not empty and defines every required
    /// kernel; reports the first missing one.
    pub fn validate_shader(&self) -> (r: Result<(), HiveGpuError>)
        ensures
            self.spec_source().len() == 0 ==> r is Err
                && is_shader_compilation_failed(r->Err_0, "Empty shader source"@),
            self.spec_source().len() > 0 ==> {
                let k = first_missing(self.spec_source(), required_metal_functions(), 0);
                &&& k < 5 ==> r is Err && is_shader_compilation_failed(
                    r->Err_0,
                    "Missing required function: "@ + required_metal_functions()[k],
                )
                &&& k == 5 ==> r is Ok
            },
            r is Ok <==> (self.spec_source().len() > 0 && contains_sub(self.spec_source(), "cosine_similarity"@) && contains_sub(self.spec_source(), "euclidean_distance"@)
            && contains_sub(self.spec_source(), "dot_product"@) && contains_sub(self.spec_source(), "hnsw_construction"@) && contains_sub(
            self.spec_source(),
            "hnsw_search"@,
        )),
    {
        let source = chars_of(self.shader_source.as_str());
        if source.len() == 0 {
            return Err(HiveGpuError::ShaderCompilationFailed(String::from_str("Empty shader source")));
        }
        let mut i: usize = 0;
        while i < 5
            invariant
                source@ == self.spec_source(),
                source@.len() > 0,
                i <= 5,
                forall|j: int| 0 <= j < i ==> contains_sub(source@, #[trigger] required_metal_functions()[j]),
            decreases 5 - i,
        {
            let name = required_metal_function(i);
            let needle = chars_of(name);
            if !contains_chars(&source, &needle) {
                proof {
                    lemma_first_missing_skip(source@, required_metal_functions(), i as int);
                    lemma_required_kernels(source@);
                }
                let mut m = String::from_str("Missing required function: ");
                m.append(name);
                return Err(HiveGpuError::ShaderCompilationFailed(m));
            }
            i = i + 1;
        }
        proof {
            lemma_first_missing_skip(source@, required_metal_functions(), 5);
            lemma_required_kernels(source@);
        }
        Ok(())
    }
}

} // verus!
