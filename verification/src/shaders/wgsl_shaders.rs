//! WGSL shader sources, looked up by name, and their static checks.

use vstd::prelude::*;
use crate::error::HiveGpuError;
use crate::shaders::metal_shaders::is_shader_compilation_failed;
use crate::utils::text_search::{chars_of, contains_chars, contains_sub};
use vstd::utf8::encode_utf8;

verus! {

/// Names of the WGSL shaders, in the order they are held.
pub open spec fn wgsl_shader_names() -> Seq<Seq<char>> {
    seq![
        "similarity"@,
        "distance"@,
        "dot_product"@,
        "hnsw_construction"@,
        "hnsw_navigation"@,
        "batch_construction"@,
    ]
}

/// A WGSL source declares an entry point.
pub open spec fn has_entry_point(source: Seq<char>) -> bool {
    contains_sub(source, "@compute"@) || contains_sub(source, "@vertex"@) || contains_sub(source, "@fragment"@)
}

/// A WGSL source is accepted: not empty and with an entry point.
pub open spec fn wgsl_source_valid(source: Seq<char>) -> bool {
    source.len() > 0 && has_entry_point(source)
}

/// Index of the first rejected source of `sources` from `i`, or
/// `sources.len()` when all are accepted.
pub open spec fn first_invalid_source(sources: Seq<Seq<char>>, i: int) -> int
    decreases sources.len() - i,
{
    if i >= sources.len() || i < 0 {
        sources.len() as int
    } else if !wgsl_source_valid(sources[i]) {
        i
    } else {
        first_invalid_source(sources, i + 1)
    }
}

proof fn lemma_first_invalid_source_skip(sources: Seq<Seq<char>>, i: int)
    requires
        0 <= i <= sources.len(),
        forall|j: int| 0 <= j < i ==> wgsl_source_valid(#[trigger] sources[j]),
    ensures
        first_invalid_source(sources, 0) == first_invalid_source(sources, i),
    decreases i,
{
    if i > 0 {
        lemma_first_invalid_source_skip(sources, i - 1);
    }
}

/// The message reporting why `source`, named `name`, is rejected.
pub open spec fn wgsl_rejection_message(name: Seq<char>, source: Seq<char>) -> Seq<char> {
    if source.len() == 0 {
        "Empty shader source for: "@ + name
    } else {
        "Invalid WGSL shader: "@ + name + " (missing entry point)"@
    }
}

/// Sum of the UTF-8 byte lengths of the sources.
pub open spec fn total_source_bytes(sources: Seq<(String, String)>) -> nat
    decreases sources.len(),
{
    if sources.len() == 0 {
        0
    } else {
        total_source_bytes(sources.drop_last()) + encode_utf8(sources.last().1@).len()
    }
}

/// Sum of the UTF-8 byte lengths of `sources`.
pub open spec fn source_bytes(sources: Seq<Seq<char>>) -> nat
    decreases sources.len(),
{
    if sources.len() == 0 {
        0
    } else {
        source_bytes(sources.drop_last()) + encode_utf8(sources.last()).len()
    }
}

proof fn lemma_total_source_bytes_is_source_bytes(v: Seq<(String, String)>)
    ensures
        total_source_bytes(v) == source_bytes(v.map_values(|p: (String, String)| p.1@)),
    decreases v.len(),
{
    if v.len() > 0 {
        lemma_total_source_bytes_is_source_bytes(v.drop_last());
        assert(v.drop_last().map_values(|p: (String, String)| p.1@) =~= v.map_values(|p: (String, String)| p.1@).drop_last());
    }
}

proof fn lemma_total_source_bytes_prefix(sources: Seq<(String, String)>, i: int)
    requires
        0 <= i <= sources.len(),
    ensures
        total_source_bytes(sources.take(i)) <= total_source_bytes(sources),
    decreases sources.len() - i,
{
    if i < sources.len() {
        lemma_total_source_bytes_prefix(sources, i + 1);
        assert(sources.take(i + 1).drop_last() =~= sources.take(i));
    } else {
        assert(sources.take(i) =~= sources);
    }
}

/// Shader compilation information.
#[derive(Debug, Clone)]
pub struct ShaderCompilationInfo {
    /// Total number of shaders
    pub total_shaders: usize,
    /// Names of all shaders
    pub shader_names: Vec<String>,
    /// Total size of all shaders in bytes
    pub total_size: usize,
}

/// Whether two character sequences are equal.
fn same_chars(a: &Vec<char>, b: &Vec<char>) -> (r: bool)
    ensures
        r == (a@ == b@),
{
    if a.len() != b.len() {
        return false;
    }
    let mut i: usize = 0;
    while i < a.len()
        invariant
            a.len() == b.len(),
            i <= a.len(),
            forall|j: int| 0 <= j < i ==> a@[j] == b@[j],
        decreases a.len() - i,
    {
        if a[i] != b[i] {
            return false;
        }
        i = i + 1;
    }
    proof {
        assert(a@ =~= b@);
    }
    true
}

/// WGSL shader manager: the WGSL sources, keyed by shader name.
pub struct WgslShaderManager {
    shader_sources: Vec<(String, String)>,
}

impl WgslShaderManager {
    #[verifier::type_invariant]
    closed spec fn well_formed(self) -> bool {
        self.shader_sources@.len() == 6
            && forall|i: int| 0 <= i < 6 ==> #[trigger] self.shader_sources@[i].0@ == wgsl_shader_names()[i]
    }

    /// Names of the held shaders, in order.
    pub closed spec fn spec_names(self) -> Seq<Seq<char>> {
        self.shader_sources@.map_values(|p: (String, String)| p.0@)
    }

    /// Sources of the held shaders, in the order of `spec_names`.
    pub closed spec fn spec_sources(self) -> Seq<Seq<char>> {
        self.shader_sources@.map_values(|p: (String, String)| p.1@)
    }

    /// Sum of the UTF-8 byte lengths of the sources.
    pub open spec fn spec_total_bytes(self) -> nat {
        source_bytes(self.spec_sources())
    }

    /// A manager holding the six WGSL shaders under their names.
    pub fn new(
        similarity: String,
        distance: String,
        dot_product: String,
        hnsw_construction: String,
        hnsw_navigation: String,
        batch_construction: String,
    ) -> (m: Self)
        ensures
            m.spec_names() == wgsl_shader_names(),
            m.spec_sources() == seq![
                similarity@,
                distance@,
                dot_product@,
                hnsw_construction@,
                hnsw_navigation@,
                batch_construction@,
            ],
    {
        let mut v: Vec<(String, String)> = Vec::new();
        v.push((String::from_str("similarity"), similarity));
        v.push((String::from_str("distance"), distance));
        v.push((String::from_str("dot_product"), dot_product));
        v.push((String::from_str("hnsw_construction"), hnsw_construction));
        v.push((String::from_str("hnsw_navigation"), hnsw_navigation));
        v.push((String::from_str("batch_construction"), batch_construction));
        let m = WgslShaderManager { shader_sources: v };
        proof {
            assert(m.spec_names() =~= wgsl_shader_names());
        }
        m
    }

    /// The source of the shader called `name`, if there is one.
    pub fn get_shader(&self, name: &str) -> (r: Option<&str>)
        ensures
            r is Some <==> self.spec_names().contains(name@),
            r matches Some(s) ==> exists|i: int|
                0 <= i < 6 && self.spec_names()[i] == name@ && s@ == #[trigger] self.spec_sources()[i],
    {
        proof {
            use_type_invariant(self);
        }
        let wanted = chars_of(name);
        let mut i: usize = 0;
        while i < self.shader_sources.len()
            invariant
                wanted@ == name@,
                self.shader_sources@.len() == 6,
                i <= 6,
                forall|j: int| 0 <= j < i ==> self.spec_names()[j] != name@,
            decreases 6 - i,
        {
            let have = chars_of(self.shader_sources[i].0.as_str());
            if same_chars(&have, &wanted) {
                let s = self.shader_sources[i].1.as_str();
                proof {
                    assert(self.spec_names()[i as int] == name@);
                    assert(self.spec_names().contains(name@));
                    assert(s@ == self.spec_sources()[i as int]);
                }
                return Some(s);
            }
            i = i + 1;
        }
        proof {
            if self.spec_names().contains(name@) {
                let j = choose|j: int| 0 <= j < self.spec_names().len() && self.spec_names()[j] == name@;
                assert(self.spec_names()[j] != name@);
            }
        }
        None
    }

    /// The names of all held shaders, in order.
    pub fn get_shader_names(&self) -> (r: Vec<String>)
        ensures
            r@.map_values(|s: String| s@) == self.spec_names(),
    {
        let mut names: Vec<String> = Vec::new();
        let mut i: usize = 0;
        while i < self.shader_sources.len()
            invariant
                i <= self.shader_sources@.len(),
                names@.len() == i,
                forall|j: int| 0 <= j < i ==> #[trigger] names@[j]@ == self.spec_names()[j],
            decreases self.shader_sources@.len() - i,
        {
            names.push(self.shader_sources[i].0.clone());
            i = i + 1;
        }
        proof {
            assert(names@.map_values(|s: String| s@) =~= self.spec_names());
        }
        names
    }

    /// Number of shaders (six), their names, and the total byte size of
    /// the sources, that is of what `get_shader` returns for each name.
    pub fn get_compilation_info(&self) -> (info: ShaderCompilationInfo)
        requires
            self.spec_total_bytes() <= usize::MAX,
        ensures
            info.total_shaders == self.spec_names().len(),
            info.total_shaders == 6,
            self.spec_names() == wgsl_shader_names(),
            self.spec_sources().len() == 6,
            info.shader_names@.map_values(|s: String| s@) == self.spec_names(),
            info.total_size == self.spec_total_bytes(),
    {
        proof {
            use_type_invariant(self);
            lemma_total_source_bytes_is_source_bytes(self.shader_sources@);
            assert(self.spec_names() =~= wgsl_shader_names());
        }
        let n = self.shader_sources.len();
        let mut total: usize = 0;
        let mut i: usize = 0;
        while i < n
            invariant
                n == self.shader_sources@.len(),
                i <= n,
                total == total_source_bytes(self.shader_sources@.take(i as int)),
                total_source_bytes(self.shader_sources@) <= usize::MAX,
            decreases n - i,
        {
            proof {
                assert(self.shader_sources@.take(i + 1).drop_last() =~= self.shader_sources@.take(i as int));
                lemma_total_source_bytes_prefix(self.shader_sources@, i + 1);
            }
            total = total + self.shader_sources[i].1.as_str().len();
            i = i + 1;
        }
        proof {
            assert(self.shader_sources@.take(n as int) =~= self.shader_sources@);
        }
        ShaderCompilationInfo { total_shaders: n, shader_names: self.get_shader_names(), total_size: total }
    }

    /// Checks every source in order: it must not be empty and must declare
    /// an entry point (`@compute`, `@vertex` or `@fragment`); reports the
    /// first one rejected.
    pub fn validate_all_shaders(&self) -> (r: Result<(), HiveGpuError>)
        ensures
            ({
                let k = first_invalid_source(self.spec_sources(), 0);
                &&& k < self.spec_sources().len() ==> r is Err && is_shader_compilation_failed(
                    r->Err_0,
                    wgsl_rejection_message(self.spec_names()[k], self.spec_sources()[k]),
                )
                &&& k == self.spec_sources().len() ==> r is Ok
            }),
    {
        let n = self.shader_sources.len();
        let compute = chars_of("@compute");
        let vertex = chars_of("@vertex");
        let fragment = chars_of("@fragment");
        let mut i: usize = 0;
        while i < n
            invariant
                n == self.shader_sources@.len(),
                n == self.spec_sources().len(),
                compute@ == "@compute"@,
                vertex@ == "@vertex"@,
                fragment@ == "@fragment"@,
                i <= n,
                forall|j: int| 0 <= j < i ==> wgsl_source_valid(#[trigger] self.spec_sources()[j]),
            decreases n - i,
        {
            let source = chars_of(self.shader_sources[i].1.as_str());
            assert(source@ == self.spec_sources()[i as int]);
            if source.len() == 0 {
                proof {
                    lemma_first_invalid_source_skip(self.spec_sources(), i as int);
                }
                let mut m = String::from_str("Empty shader source for: ");
                m.append(self.shader_sources[i].0.as_str());
                return Err(HiveGpuError::ShaderCompilationFailed(m));
            }
            if !contains_chars(&source, &compute) && !contains_chars(&source, &vertex) && !contains_chars(
                &source,
                &fragment,
            ) {
                proof {
                    lemma_first_invalid_source_skip(self.spec_sources(), i as int);
                }
                let mut m = String::from_str("Invalid WGSL shader: ");
                m.append(self.shader_sources[i].0.as_str());
                m.append(" (missing entry point)");
                return Err(HiveGpuError::ShaderCompilationFailed(m));
            }
            i = i + 1;
        }
        proof {
            lemma_first_invalid_source_skip(self.spec_sources(), n as int);
        }
        Ok(())
    }
}

} // verus!
