//! Which GPU backends are available, and which one to use.

use vstd::prelude::*;
use crate::error::HiveGpuError;

verus! {

/// Available GPU backend types.
#[derive(Debug, Clone, Copy, PartialEq, Eq, Structural)]
pub enum GpuBackendType {
    /// Metal (Apple Silicon)
    Metal,
    /// CUDA (NVIDIA)
    Cuda,
    /// ROCm / HIP (AMD)
    Rocm,
    /// Intel / Vulkan Compute
    Intel,
    /// CPU fallback
    Cpu,
}

/// The display name of a backend.
pub open spec fn backend_name(b: GpuBackendType) -> Seq<char> {
    match b {
        GpuBackendType::Metal => "Metal"@,
        GpuBackendType::Cuda => "CUDA"@,
        GpuBackendType::Rocm => "ROCm"@,
        GpuBackendType::Intel => "Intel"@,
        GpuBackendType::Cpu => "CPU"@,
    }
}

impl GpuBackendType {
    /// The display name of the backend.
    pub fn to_string(&self) -> (s: String)
        ensures
            s@ == backend_name(*self),
    {
        match self {
            GpuBackendType::Metal => String::from_str("Metal"),
            GpuBackendType::Cuda => String::from_str("CUDA"),
            GpuBackendType::Rocm => String::from_str("ROCm"),
            GpuBackendType::Intel => String::from_str("Intel"),
            GpuBackendType::Cpu => String::from_str("CPU"),
        }
    }
}

/// The backends reported available, in priority order, given which GPU
/// runtimes were found: Metal, CUDA, ROCm and Intel when present, and
/// always the CPU fallback last.
pub open spec fn detected_backends(metal: bool, cuda: bool, rocm: bool, intel: bool) -> Seq<GpuBackendType> {
    (if metal { seq![GpuBackendType::Metal] } else { Seq::empty() })
        + (if cuda { seq![GpuBackendType::Cuda] } else { Seq::empty() })
        + (if rocm { seq![GpuBackendType::Rocm] } else { Seq::empty() })
        + (if intel { seq![GpuBackendType::Intel] } else { Seq::empty() })
        + seq![GpuBackendType::Cpu]
}

/// The backend chosen from `available`: Metal, else CUDA, else ROCm, else
/// Intel, else CPU; none when the list holds none of them.
pub open spec fn best_backend(available: Seq<GpuBackendType>) -> Option<GpuBackendType> {
    if available.contains(GpuBackendType::Metal) {
        Some(GpuBackendType::Metal)
    } else if available.contains(GpuBackendType::Cuda) {
        Some(GpuBackendType::Cuda)
    } else if available.contains(GpuBackendType::Rocm) {
        Some(GpuBackendType::Rocm)
    } else if available.contains(GpuBackendType::Intel) {
        Some(GpuBackendType::Intel)
    } else if available.contains(GpuBackendType::Cpu) {
        Some(GpuBackendType::Cpu)
    } else {
        None
    }
}

/// Lists the available backends in priority order from the results of the
/// runtime probes (Metal, CUDA, ROCm, Intel); the CPU fallback is always
/// last.
pub fn detect_available_backends(
    metal_available: bool,
    cuda_available: bool,
    rocm_available: bool,
    intel_available: bool,
) -> (r: Vec<GpuBackendType>)
    ensures
        r@ == detected_backends(metal_available, cuda_available, rocm_available, intel_available),
        r@.contains(GpuBackendType::Metal) == metal_available,
        r@.contains(GpuBackendType::Cuda) == cuda_available,
        r@.contains(GpuBackendType::Rocm) == rocm_available,
        r@.contains(GpuBackendType::Intel) == intel_available,
        r@.contains(GpuBackendType::Cpu),
        r@.len() >= 1 && r@.last() == GpuBackendType::Cpu,
        r@.no_duplicates(),
        forall|i: int, j: int|
            0 <= i < j < r@.len() ==> backend_rank(#[trigger] r@[i]) < backend_rank(#[trigger] r@[j]),
{
    let mut backends: Vec<GpuBackendType> = Vec::new();
    if metal_available {
        backends.push(GpuBackendType::Metal);
    }
    if cuda_available {
        backends.push(GpuBackendType::Cuda);
    }
    if rocm_available {
        backends.push(GpuBackendType::Rocm);
    }
    if intel_available {
        backends.push(GpuBackendType::Intel);
    }
    backends.push(GpuBackendType::Cpu);
    proof {
        assert(backends@ =~= detected_backends(metal_available, cuda_available, rocm_available, intel_available));
        lemma_detection_lists_exactly_the_available(metal_available, cuda_available, rocm_available, intel_available);
    }
    backends
}

/// Position of a backend in the priority order Metal, CUDA, ROCm, Intel,
/// CPU.
pub open spec fn backend_rank(b: GpuBackendType) -> int {
    match b {
        GpuBackendType::Metal => 0,
        GpuBackendType::Cuda => 1,
        GpuBackendType::Rocm => 2,
        GpuBackendType::Intel => 3,
        GpuBackendType::Cpu => 4,
    }
}

/// Detection lists a GPU backend exactly when its probe found it,
/// whatever the other probes found; the CPU fallback is always listed,
/// last; nothing is listed twice, and the list follows the priority
/// order.
pub proof fn lemma_detection_lists_exactly_the_available(metal: bool, cuda: bool, rocm: bool, intel: bool)
    ensures
        detected_backends(metal, cuda, rocm, intel).contains(GpuBackendType::Metal) == metal,
        detected_backends(metal, cuda, rocm, intel).contains(GpuBackendType::Cuda) == cuda,
        detected_backends(metal, cuda, rocm, intel).contains(GpuBackendType::Rocm) == rocm,
        detected_backends(metal, cuda, rocm, intel).contains(GpuBackendType::Intel) == intel,
        detected_backends(metal, cuda, rocm, intel).contains(GpuBackendType::Cpu),
        detected_backends(metal, cuda, rocm, intel).len() >= 1,
        detected_backends(metal, cuda, rocm, intel).last() == GpuBackendType::Cpu,
        detected_backends(metal, cuda, rocm, intel).no_duplicates(),
        forall|i: int, j: int|
            0 <= i < j < detected_backends(metal, cuda, rocm, intel).len() ==> backend_rank(
                #[trigger] detected_backends(metal, cuda, rocm, intel)[i],
            ) < backend_rank(#[trigger] detected_backends(metal, cuda, rocm, intel)[j]),
{
    let s = detected_backends(metal, cuda, rocm, intel);
    let m: Seq<GpuBackendType> = if metal { seq![GpuBackendType::Metal] } else { Seq::empty() };
    let c: Seq<GpuBackendType> = if cuda { seq![GpuBackendType::Cuda] } else { Seq::empty() };
    let r: Seq<GpuBackendType> = if rocm { seq![GpuBackendType::Rocm] } else { Seq::empty() };
    let n: Seq<GpuBackendType> = if intel { seq![GpuBackendType::Intel] } else { Seq::empty() };
    let ranks = s.map_values(|b: GpuBackendType| backend_rank(b));
    // The list is the subsequence of the five backends whose probe succeeded.
    assert(s == m + c + r + n + seq![GpuBackendType::Cpu]);
    assert forall|i: int| 0 <= i < s.len() implies #[trigger] s[i] == GpuBackendType::Cpu || {
        ||| s[i] == GpuBackendType::Metal && metal
        ||| s[i] == GpuBackendType::Cuda && cuda
        ||| s[i] == GpuBackendType::Rocm && rocm
        ||| s[i] == GpuBackendType::Intel && intel
    } by {}
    assert forall|i: int, j: int| 0 <= i < j < s.len() implies backend_rank(#[trigger] s[i]) < backend_rank(#[trigger] s[j]) by {
        let mc = m + c;
        let mcr = mc + r;
        let mcrn = mcr + n;
        assert(s == mcrn + seq![GpuBackendType::Cpu]);
        if j == s.len() - 1 {
            assert(s[j] == GpuBackendType::Cpu);
        } else if j >= mcr.len() {
            assert(s[j] == GpuBackendType::Intel);
            assert(i < mcr.len());
        } else if j >= mc.len() {
            assert(s[j] == GpuBackendType::Rocm);
            assert(i < mc.len());
        } else if j >= m.len() {
            assert(s[j] == GpuBackendType::Cuda);
            assert(i < m.len());
        }
    }
    assert(s.last() == GpuBackendType::Cpu);
    assert(s.contains(GpuBackendType::Cpu)) by {
        assert(s[s.len() - 1] == GpuBackendType::Cpu);
    }
    if metal {
        assert(s[0] == GpuBackendType::Metal);
    }
    if cuda {
        assert(s[m.len() as int] == GpuBackendType::Cuda);
    }
    if rocm {
        assert(s[(m.len() + c.len()) as int] == GpuBackendType::Rocm);
    }
    if intel {
        assert(s[(m.len() + c.len() + r.len()) as int] == GpuBackendType::Intel);
    }
    assert forall|i: int, j: int| 0 <= i < s.len() && 0 <= j < s.len() && i != j implies s[i] != s[j] by {
        if i < j {
            assert(backend_rank(s[i]) < backend_rank(s[j]));
        } else {
            assert(backend_rank(s[j]) < backend_rank(s[i]));
        }
    }
}

/// Whether `available` holds `b`.
fn contains_backend(available: &[GpuBackendType], b: GpuBackendType) -> (r: bool)
    ensures
        r == available@.contains(b),
{
    let mut i: usize = 0;
    while i < available.len()
        invariant
            i <= available.len(),
            forall|j: int| 0 <= j < i ==> available@[j] != b,
        decreases available.len() - i,
    {
        if available[i] == b {
            return true;
        }
        i = i + 1;
    }
    false
}

/// Selects the best backend among `available` by priority
/// Metal > CUDA > ROCm > Intel > CPU; `NoDeviceAvailable` when it holds
/// none.
pub fn select_best_backend(available: &[GpuBackendType]) -> (r: Result<GpuBackendType, HiveGpuError>)
    ensures
        best_backend(available@) matches Some(b) ==> r == Ok::<GpuBackendType, HiveGpuError>(b),
        best_backend(available@) is None ==> r == Err::<GpuBackendType, HiveGpuError>(HiveGpuError::NoDeviceAvailable),
{
    if contains_backend(available, GpuBackendType::Metal) {
        Ok(GpuBackendType::Metal)
    } else if contains_backend(available, GpuBackendType::Cuda) {
        Ok(GpuBackendType::Cuda)
    } else if contains_backend(available, GpuBackendType::Rocm) {
        Ok(GpuBackendType::Rocm)
    } else if contains_backend(available, GpuBackendType::Intel) {
        Ok(GpuBackendType::Intel)
    } else if contains_backend(available, GpuBackendType::Cpu) {
        Ok(GpuBackendType::Cpu)
    } else {
        Err(HiveGpuError::NoDeviceAvailable)
    }
}


/// The description of a backend: the Metal device's name when one was
/// found, a fixed text for CUDA, ROCm and Intel when this build supports
/// them, and the CPU fallback always; `NoDeviceAvailable` otherwise.
pub open spec fn backend_info(
    backend: GpuBackendType,
    metal_device: Option<Seq<char>>,
    cuda_supported: bool,
    rocm_supported: bool,
    intel_supported: bool,
) -> Option<Seq<char>> {
    match backend {
        GpuBackendType::Metal => match metal_device {
            Some(name) => Some("Metal device: "@ + name),
            None => None,
        },
        GpuBackendType::Cuda => if cuda_supported { Some("CUDA device available"@) } else { None },
        GpuBackendType::Rocm => if rocm_supported { Some("ROCm device available"@) } else { None },
        GpuBackendType::Intel => if intel_supported { Some("Intel device available"@) } else { None },
        GpuBackendType::Cpu => Some("CPU fallback"@),
    }
}

/// Describes a backend (see `backend_info`), given the name of the
/// system's Metal device if one was found and whether this build
/// supports CUDA, ROCm and Intel.
pub fn get_backend_info(
    backend: GpuBackendType,
    metal_device: Option<&str>,
    cuda_supported: bool,
    rocm_supported: bool,
    intel_supported: bool,
) -> (r: Result<String, HiveGpuError>)
    ensures
        ({
            let m = match metal_device {
                Some(n) => Some(n@),
                None => None,
            };
            match backend_info(backend, m, cuda_supported, rocm_supported, intel_supported) {
                Some(t) => r matches Ok(s) && s@ == t,
                None => r == Err::<String, HiveGpuError>(HiveGpuError::NoDeviceAvailable),
            }
        }),
{
    match backend {
        GpuBackendType::Metal => match metal_device {
            Some(name) => {
                let mut s = String::from_str("Metal device: ");
                s.append(name);
                Ok(s)
            },
            None => Err(HiveGpuError::NoDeviceAvailable),
        },
        GpuBackendType::Cuda => {
            if cuda_supported {
                Ok(String::from_str("CUDA device available"))
            } else {
                Err(HiveGpuError::NoDeviceAvailable)
            }
        },
        GpuBackendType::Rocm => {
            if rocm_supported {
                Ok(String::from_str("ROCm device available"))
            } else {
                Err(HiveGpuError::NoDeviceAvailable)
            }
        },
        GpuBackendType::Intel => {
            if intel_supported {
                Ok(String::from_str("Intel device available"))
            } else {
                Err(HiveGpuError::NoDeviceAvailable)
            }
        },
        GpuBackendType::Cpu => Ok(String::from_str("CPU fallback")),
    }
}

/// Whatever the probes found, the detected list is never empty, ends
/// with the CPU fallback, and selecting from it succeeds with its first
/// entry.
pub proof fn lemma_selection_from_detection(metal: bool, cuda: bool, rocm: bool, intel: bool)
    ensures
        detected_backends(metal, cuda, rocm, intel).len() >= 1,
        detected_backends(metal, cuda, rocm, intel).last() == GpuBackendType::Cpu,
        best_backend(detected_backends(metal, cuda, rocm, intel)) == Some(detected_backends(metal, cuda, rocm, intel)[0]),
{
    let s = detected_backends(metal, cuda, rocm, intel);
    assert(s.last() == GpuBackendType::Cpu);
    assert(s.contains(GpuBackendType::Cpu)) by {
        assert(s[s.len() - 1] == GpuBackendType::Cpu);
    }
    if metal {
        assert(s[0] == GpuBackendType::Metal);
        assert(s.contains(GpuBackendType::Metal));
    } else if cuda {
        assert(s[0] == GpuBackendType::Cuda);
        assert(s.contains(GpuBackendType::Cuda));
        assert(!s.contains(GpuBackendType::Metal));
    } else if rocm {
        assert(s[0] == GpuBackendType::Rocm);
        assert(s.contains(GpuBackendType::Rocm));
        assert(!s.contains(GpuBackendType::Metal));
        assert(!s.contains(GpuBackendType::Cuda));
    } else if intel {
        assert(s =~= seq![GpuBackendType::Intel, GpuBackendType::Cpu]);
        assert(s.contains(GpuBackendType::Intel)) by {
            assert(s[0] == GpuBackendType::Intel);
        }
        assert(!s.contains(GpuBackendType::Metal));
        assert(!s.contains(GpuBackendType::Cuda));
        assert(!s.contains(GpuBackendType::Rocm));
    } else {
        assert(s =~= seq![GpuBackendType::Cpu]);
        assert(!s.contains(GpuBackendType::Metal));
        assert(!s.contains(GpuBackendType::Cuda));
        assert(!s.contains(GpuBackendType::Rocm));
        assert(!s.contains(GpuBackendType::Intel));
    }
}

} // verus!
