//! Choice of the Vulkan physical device for the Intel backend, and what
//! the backend reports of it.

use vstd::prelude::*;
use crate::error::{HiveGpuError, is_other_error};
use crate::types::GpuDeviceInfo;
use crate::utils::text::{decimal, hex, hex_padded, push_decimal};
use crate::backends::device_text::{push_hex_padded};

verus! {

/// Intel's PCI vendor ID.
pub const INTEL_VENDOR_ID: u32 = 0x8086;

/// ash `vk::api_version_major`: the major number packed in bits 22 to 28
/// of a Vulkan version number.
pub assume_specification[ ash::vk::api_version_major ](version: u32) -> (r: u32)
    ensures
        r == (version >> 22u32) & 0x7fu32,
;

/// ash `vk::api_version_minor`: the minor number packed in bits 12 to 21.
pub assume_specification[ ash::vk::api_version_minor ](version: u32) -> (r: u32)
    ensures
        r == (version >> 12u32) & 0x3ffu32,
;

/// ash `vk::api_version_patch`: the patch number packed in bits 0 to 11.
pub assume_specification[ ash::vk::api_version_patch ](version: u32) -> (r: u32)
    ensures
        r == version & 0xfffu32,
;

/// What the device choice reads of one Vulkan physical device.
#[derive(Debug, Clone)]
pub struct VulkanDeviceCandidate {
    pub vendor_id: u32,
    /// For each queue family in order, whether it supports compute.
    pub compute_families: Vec<bool>,
    /// Whether the device is a discrete GPU.
    pub discrete: bool,
}

/// Index of the first `true` in `s`; its length when there is none.
pub open spec fn first_true(s: Seq<bool>) -> int
    decreases s.len(),
{
    if s.len() == 0 {
        0
    } else if s[0] {
        0
    } else {
        1 + first_true(s.drop_first())
    }
}

proof fn lemma_first_true(s: Seq<bool>, i: int)
    requires
        0 <= i <= s.len(),
        i < s.len() ==> s[i],
        forall|j: int| 0 <= j < i ==> !s[j],
    ensures
        first_true(s) == i,
    decreases i,
{
    if i > 0 {
        assert forall|j: int| 0 <= j < i - 1 implies !s.drop_first()[j] by {
            assert(s.drop_first()[j] == s[j + 1]);
        }
        lemma_first_true(s.drop_first(), i - 1);
    }
}

/// `first_true(s)` is the index of the first `true` in `s`, or its
/// length when `s` holds none.
proof fn lemma_first_true_props(s: Seq<bool>)
    ensures
        0 <= first_true(s) <= s.len(),
        first_true(s) < s.len() ==> s[first_true(s)],
        forall|p: int| 0 <= p < first_true(s) ==> !s[p],
        first_true(s) < s.len() <==> s.contains(true),
    decreases s.len(),
{
    if s.len() > 0 {
        lemma_first_true_props(s.drop_first());
        assert forall|p: int| 1 <= p < s.len() implies s[p] == s.drop_first()[p - 1] by {}
        if !s[0] && s.contains(true) {
            let w = choose|w: int| 0 <= w < s.len() && s[w] == true;
            assert(s.drop_first()[w - 1] == true);
        }
        if first_true(s) < s.len() {
            assert(s[first_true(s)]);
        }
    }
}

/// The device can be chosen: its vendor is Intel (or any vendor is
/// accepted) and one of its queue families supports compute.
pub open spec fn eligible(c: VulkanDeviceCandidate, universal: bool) -> bool {
    (universal || c.vendor_id == INTEL_VENDOR_ID) && first_true(c.compute_families@) < c.compute_families@.len()
}

/// The device the Intel backend picks: the first eligible discrete GPU,
/// otherwise the first eligible device, with its first compute queue
/// family.
#[verifier::opaque]
pub open spec fn chosen_device(cands: Seq<VulkanDeviceCandidate>, universal: bool) -> Option<(usize, u32)> {
    if exists|i: int| 0 <= i < cands.len() && eligible(cands[i], universal) && cands[i].discrete {
        let i = choose|i: int|
            0 <= i < cands.len() && eligible(cands[i], universal) && cands[i].discrete && forall|j: int|
                0 <= j < i ==> !(eligible(cands[j], universal) && cands[j].discrete);
        Some((i as usize, first_true(cands[i].compute_families@) as u32))
    } else if exists|i: int| 0 <= i < cands.len() && eligible(cands[i], universal) {
        let i = choose|i: int|
            0 <= i < cands.len() && eligible(cands[i], universal) && forall|j: int|
                0 <= j < i ==> !eligible(cands[j], universal);
        Some((i as usize, first_true(cands[i].compute_families@) as u32))
    } else {
        None
    }
}

/// A device qualifies for the Intel backend: its vendor is Intel, or any
/// vendor is accepted, and one of its queue families supports compute.
pub open spec fn qualifies(c: VulkanDeviceCandidate, universal: bool) -> bool {
    (universal || c.vendor_id == INTEL_VENDOR_ID) && c.compute_families@.contains(true)
}

/// The device choice, stated from the candidates themselves. Whatever
/// the vendor setting, a qualifying discrete GPU, when there is one, is
/// chosen over every other device, the first such; a device that is not
/// discrete is chosen only when no qualifying device is discrete, and
/// then the first qualifying one; nothing is chosen when no device
/// qualifies. The chosen device qualifies, and its queue family is its
/// first compute family.
pub proof fn lemma_chosen_device_prefers_discrete(cands: Seq<VulkanDeviceCandidate>, universal: bool)
    requires
        cands.len() <= usize::MAX,
        forall|k: int| 0 <= k < cands.len() ==> cands[k].compute_families@.len() <= u32::MAX,
    ensures
        chosen_device(cands, universal) matches Some((i, q)) ==> {
            &&& i < cands.len()
            &&& qualifies(cands[i as int], universal)
            &&& q < cands[i as int].compute_families@.len()
            &&& cands[i as int].compute_families@[q as int]
            &&& forall|p: int| 0 <= p < q ==> !cands[i as int].compute_families@[p]
        },
        (exists|k: int| 0 <= k < cands.len() && #[trigger] qualifies(cands[k], universal) && cands[k].discrete) ==> (
        chosen_device(cands, universal) matches Some((i, q)) && cands[i as int].discrete && forall|j: int|
            0 <= j < i ==> !(#[trigger] qualifies(cands[j], universal) && cands[j].discrete)),
        (forall|k: int| 0 <= k < cands.len() && #[trigger] qualifies(cands[k], universal) ==> !cands[k].discrete)
            ==> (chosen_device(cands, universal) matches Some((i, q)) ==> forall|j: int|
            0 <= j < i ==> !#[trigger] qualifies(cands[j], universal)),
        chosen_device(cands, universal) is None <==> forall|k: int|
            0 <= k < cands.len() ==> !#[trigger] qualifies(cands[k], universal),
{
    if exists|k: int| 0 <= k < cands.len() && eligible(cands[k], universal) && cands[k].discrete {
        let w = choose|k: int| 0 <= k < cands.len() && eligible(cands[k], universal) && cands[k].discrete;
        lemma_chosen_discrete(cands, universal, w);
        let (i, q) = chosen_device(cands, universal)->0;
        lemma_first_true_props(cands[i as int].compute_families@);
        lemma_eligible_qualifies(cands[i as int], universal);
        assert forall|j: int| 0 <= j < i implies !(#[trigger] qualifies(cands[j], universal) && cands[j].discrete) by {
            lemma_eligible_qualifies(cands[j], universal);
        }
    } else if exists|k: int| 0 <= k < cands.len() && eligible(cands[k], universal) {
        let w = choose|k: int| 0 <= k < cands.len() && eligible(cands[k], universal);
        lemma_chosen_fallback(cands, universal, w);
        let (i, q) = chosen_device(cands, universal)->0;
        lemma_first_true_props(cands[i as int].compute_families@);
        lemma_eligible_qualifies(cands[i as int], universal);
        assert forall|j: int| 0 <= j < i implies !#[trigger] qualifies(cands[j], universal) by {
            lemma_eligible_qualifies(cands[j], universal);
        }
        assert forall|k: int| 0 <= k < cands.len() && #[trigger] qualifies(cands[k], universal) implies !cands[k].discrete by {
            lemma_eligible_qualifies(cands[k], universal);
        }
    } else {
        lemma_chosen_none(cands, universal);
        assert forall|k: int| 0 <= k < cands.len() implies !#[trigger] qualifies(cands[k], universal) by {
            lemma_eligible_qualifies(cands[k], universal);
        }
    }
}

/// When some eligible device is discrete, the choice is the first such.
proof fn lemma_chosen_discrete(cands: Seq<VulkanDeviceCandidate>, universal: bool, w: int)
    requires
        cands.len() <= usize::MAX,
        forall|k: int| 0 <= k < cands.len() ==> cands[k].compute_families@.len() <= u32::MAX,
        0 <= w < cands.len(),
        eligible(cands[w], universal) && cands[w].discrete,
    ensures
        chosen_device(cands, universal) matches Some((i, q)) && 0 <= i < cands.len() && eligible(
            cands[i as int],
            universal,
        ) && cands[i as int].discrete && q == first_true(cands[i as int].compute_families@) && forall|j: int|
            0 <= j < i ==> !(eligible(cands[j], universal) && cands[j].discrete),
{
    lemma_first_discrete_exists(cands, universal, w);
    reveal(chosen_device);
    let i = choose|i: int|
        0 <= i < cands.len() && eligible(cands[i], universal) && cands[i].discrete && forall|j: int|
            0 <= j < i ==> !(eligible(cands[j], universal) && cands[j].discrete);
    lemma_first_true_props(cands[i].compute_families@);
    assert(chosen_device(cands, universal) == Some((i as usize, first_true(cands[i].compute_families@) as u32)));
}

/// Below an eligible discrete device there is a first one.
proof fn lemma_first_discrete_exists(cands: Seq<VulkanDeviceCandidate>, universal: bool, w: int)
    requires
        0 <= w < cands.len(),
        eligible(cands[w], universal) && cands[w].discrete,
    ensures
        exists|i: int|
            0 <= i < cands.len() && eligible(cands[i], universal) && cands[i].discrete && forall|j: int|
                0 <= j < i ==> !(eligible(cands[j], universal) && cands[j].discrete),
    decreases w,
{
    if exists|j: int| 0 <= j < w && eligible(cands[j], universal) && cands[j].discrete {
        let j = choose|j: int| 0 <= j < w && eligible(cands[j], universal) && cands[j].discrete;
        lemma_first_discrete_exists(cands, universal, j);
    } else {
        assert(forall|j: int| 0 <= j < w ==> !(eligible(cands[j], universal) && cands[j].discrete));
    }
}

/// Below an eligible device there is a first one.
proof fn lemma_first_eligible_exists(cands: Seq<VulkanDeviceCandidate>, universal: bool, w: int)
    requires
        0 <= w < cands.len(),
        eligible(cands[w], universal),
    ensures
        exists|i: int|
            0 <= i < cands.len() && eligible(cands[i], universal) && forall|j: int|
                0 <= j < i ==> !eligible(cands[j], universal),
    decreases w,
{
    if exists|j: int| 0 <= j < w && eligible(cands[j], universal) {
        let j = choose|j: int| 0 <= j < w && eligible(cands[j], universal);
        lemma_first_eligible_exists(cands, universal, j);
    } else {
        assert(forall|j: int| 0 <= j < w ==> !eligible(cands[j], universal));
    }
}

/// When no eligible device is discrete, the choice is the first eligible
/// device.
proof fn lemma_chosen_fallback(cands: Seq<VulkanDeviceCandidate>, universal: bool, w: int)
    requires
        cands.len() <= usize::MAX,
        forall|k: int| 0 <= k < cands.len() ==> cands[k].compute_families@.len() <= u32::MAX,
        0 <= w < cands.len(),
        eligible(cands[w], universal),
        forall|k: int| 0 <= k < cands.len() ==> !(eligible(cands[k], universal) && cands[k].discrete),
    ensures
        chosen_device(cands, universal) matches Some((i, q)) && 0 <= i < cands.len() && eligible(
            cands[i as int],
            universal,
        ) && q == first_true(cands[i as int].compute_families@) && forall|j: int|
            0 <= j < i ==> !eligible(cands[j], universal),
{
    lemma_first_eligible_exists(cands, universal, w);
    reveal(chosen_device);
    assert(!exists|k: int| 0 <= k < cands.len() && eligible(cands[k], universal) && cands[k].discrete);
    let i = choose|i: int|
        0 <= i < cands.len() && eligible(cands[i], universal) && forall|j: int|
            0 <= j < i ==> !eligible(cands[j], universal);
    lemma_first_true_props(cands[i].compute_families@);
    assert(chosen_device(cands, universal) == Some((i as usize, first_true(cands[i].compute_families@) as u32)));
}

/// When no device is eligible, nothing is chosen.
proof fn lemma_chosen_none(cands: Seq<VulkanDeviceCandidate>, universal: bool)
    requires
        forall|k: int| 0 <= k < cands.len() ==> !eligible(cands[k], universal),
    ensures
        chosen_device(cands, universal) is None,
{
    reveal(chosen_device);
}

/// Eligibility is qualification.
proof fn lemma_eligible_qualifies(c: VulkanDeviceCandidate, universal: bool)
    ensures
        eligible(c, universal) <==> qualifies(c, universal),
{
    lemma_first_true_props(c.compute_families@);
}

/// First compute queue family of a device, if any.
fn first_compute_family(families: &Vec<bool>) -> (r: Option<usize>)
    ensures
        r is Some <==> first_true(families@) < families@.len(),
        r matches Some(q) ==> q == first_true(families@),
{
    let mut i: usize = 0;
    while i < families.len()
        invariant
            i <= families.len(),
            forall|j: int| 0 <= j < i ==> !families@[j],
        decreases families.len() - i,
    {
        if families[i] {
            proof {
                lemma_first_true(families@, i as int);
            }
            return Some(i);
        }
        i = i + 1;
    }
    proof {
        lemma_first_true(families@, i as int);
    }
    None
}

/// The device choice by one pass over the candidates (see
/// `chosen_device`).
fn scan_devices(cands: &Vec<VulkanDeviceCandidate>, universal: bool) -> (r: Option<(usize, u32)>)
    requires
        forall|i: int| 0 <= i < cands.len() ==> cands@[i].compute_families@.len() <= u32::MAX,
    ensures
        r == chosen_device(cands@, universal),
{
    let mut fallback: Option<(usize, u32)> = None;
    let mut i: usize = 0;
    while i < cands.len()
        invariant
            i <= cands.len(),
            forall|k: int| 0 <= k < cands.len() ==> cands@[k].compute_families@.len() <= u32::MAX,
            forall|j: int| 0 <= j < i ==> !(eligible(#[trigger] cands@[j], universal) && cands@[j].discrete),
            fallback is None ==> forall|j: int| 0 <= j < i ==> !eligible(#[trigger] cands@[j], universal),
            fallback matches Some(f) ==> {
                &&& f.0 < i
                &&& eligible(cands@[f.0 as int], universal)
                &&& f.1 == first_true(cands@[f.0 as int].compute_families@)
                &&& forall|j: int| 0 <= j < f.0 ==> !eligible(#[trigger] cands@[j], universal)
            },
        decreases cands.len() - i,
    {
        let c = &cands[i];
        if universal || c.vendor_id == INTEL_VENDOR_ID {
            match first_compute_family(&c.compute_families) {
                Some(q) => {
                    if c.discrete {
                        proof {
                            reveal(chosen_device);
                            let w = i as int;
                            assert(eligible(cands@[w], universal) && cands@[w].discrete);
                            let k = choose|k: int|
                                0 <= k < cands@.len() && eligible(cands@[k], universal) && cands@[k].discrete
                                    && forall|j: int| 0 <= j < k ==> !(eligible(cands@[j], universal) && cands@[j].discrete);
                            if k < w {
                            } else if k > w {
                                assert(!(eligible(cands@[w], universal) && cands@[w].discrete));
                            }
                        }
                        return Some((i, q as u32));
                    }
                    if fallback.is_none() {
                        fallback = Some((i, q as u32));
                    }
                },
                None => {},
            }
        }
        i = i + 1;
    }
    proof {
        reveal(chosen_device);
        assert(!exists|k: int| 0 <= k < cands@.len() && eligible(cands@[k], universal) && cands@[k].discrete);
        match fallback {
            Some(f) => {
                let w = f.0 as int;
                assert(eligible(cands@[w], universal));
                let k = choose|k: int|
                    0 <= k < cands@.len() && eligible(cands@[k], universal) && forall|j: int|
                        0 <= j < k ==> !eligible(cands@[j], universal);
                if k < w {
                } else if k > w {
                    assert(!eligible(cands@[w], universal));
                }
            },
            None => {},
        }
    }
    fallback
}

/// The device choice (see `chosen_device`): the index of the device and
/// of its compute queue family.
pub fn choose_device(cands: &Vec<VulkanDeviceCandidate>, universal: bool) -> (r: Option<(usize, u32)>)
    requires
        forall|i: int| 0 <= i < cands.len() ==> cands@[i].compute_families@.len() <= u32::MAX,
    ensures
        r == chosen_device(cands@, universal),
        r matches Some((i, q)) ==> {
            &&& i < cands.len()
            &&& qualifies(cands@[i as int], universal)
            &&& q < cands@[i as int].compute_families@.len()
            &&& cands@[i as int].compute_families@[q as int]
            &&& forall|p: int| 0 <= p < q ==> !cands@[i as int].compute_families@[p]
        },
        (exists|k: int| 0 <= k < cands.len() && #[trigger] qualifies(cands@[k], universal) && cands@[k].discrete) ==> (
        r matches Some((i, q)) && cands@[i as int].discrete && forall|j: int|
            0 <= j < i ==> !(#[trigger] qualifies(cands@[j], universal) && cands@[j].discrete)),
        (forall|k: int| 0 <= k < cands.len() && #[trigger] qualifies(cands@[k], universal) ==> !cands@[k].discrete)
            ==> (r matches Some((i, q)) ==> forall|j: int| 0 <= j < i ==> !#[trigger] qualifies(cands@[j], universal)),
        r is None <==> forall|k: int| 0 <= k < cands.len() ==> !#[trigger] qualifies(cands@[k], universal),
{
    let r = scan_devices(cands, universal);
    let n = cands.len();
    proof {
        assert(cands@.len() == n);
        lemma_chosen_device_prefers_discrete(cands@, universal);
    }
    r
}

/// The message when no Intel device is found.
pub open spec fn no_intel_gpu_message() -> Seq<char> {
    "no Intel GPU found; set HIVE_GPU_VULKAN_UNIVERSAL=1 to accept any vendor"@
}

/// The Intel backend's device choice as a result: with no eligible
/// device, `NoDeviceAvailable` when any vendor was accepted, and an error
/// that names the setting to change otherwise.
pub fn select_physical_device(cands: &Vec<VulkanDeviceCandidate>, universal: bool) -> (r: Result<(usize, u32), HiveGpuError>)
    requires
        forall|i: int| 0 <= i < cands.len() ==> cands@[i].compute_families@.len() <= u32::MAX,
    ensures
        chosen_device(cands@, universal) matches Some(c) ==> r == Ok::<(usize, u32), HiveGpuError>(c),
        chosen_device(cands@, universal) is None && universal ==> r == Err::<(usize, u32), HiveGpuError>(
            HiveGpuError::NoDeviceAvailable,
        ),
        chosen_device(cands@, universal) is None && !universal ==> r is Err && is_other_error(
            r->Err_0,
            no_intel_gpu_message(),
        ),
{
    match choose_device(cands, universal) {
        Some(c) => Ok(c),
        None => {
            if universal {
                Err(HiveGpuError::NoDeviceAvailable)
            } else {
                Err(HiveGpuError::Other(
                    String::from_str("no Intel GPU found; set HIVE_GPU_VULKAN_UNIVERSAL=1 to accept any vendor"),
                ))
            }
        },
    }
}

/// Sum of the sizes of the device-local memory heaps, each given as
/// (size, device-local).
pub open spec fn device_local_total(heaps: Seq<(u64, bool)>) -> nat
    decreases heaps.len(),
{
    if heaps.len() == 0 {
        0
    } else {
        device_local_total(heaps.drop_last()) + (if heaps.last().1 { heaps.last().0 as nat } else { 0 })
    }
}

/// Sum of the device-local heap sizes (see `device_local_total`).
pub fn device_local_vram(heaps: &[(u64, bool)]) -> (r: u64)
    requires
        device_local_total(heaps@) <= u64::MAX,
    ensures
        r == device_local_total(heaps@),
{
    let mut total: u64 = 0;
    let mut i: usize = 0;
    while i < heaps.len()
        invariant
            i <= heaps.len(),
            total == device_local_total(heaps@.subrange(0, i as int)),
            device_local_total(heaps@) <= u64::MAX,
        decreases heaps.len() - i,
    {
        proof {
            assert(heaps@.subrange(0, i + 1).drop_last() =~= heaps@.subrange(0, i as int));
            lemma_device_local_prefix(heaps@, i + 1);
        }
        if heaps[i].1 {
            total = total + heaps[i].0;
        }
        i = i + 1;
    }
    proof {
        assert(heaps@.subrange(0, i as int) =~= heaps@);
    }
    total
}

/// A prefix holds no more device-local memory than the whole list.
proof fn lemma_device_local_prefix(heaps: Seq<(u64, bool)>, k: int)
    requires
        0 <= k <= heaps.len(),
    ensures
        device_local_total(heaps.subrange(0, k)) <= device_local_total(heaps),
    decreases heaps.len() - k,
{
    if k < heaps.len() {
        lemma_device_local_prefix(heaps, k + 1);
        assert(heaps.subrange(0, k + 1).drop_last() =~= heaps.subrange(0, k));
    } else {
        assert(heaps.subrange(0, k) =~= heaps);
    }
}

/// Driver text of the Intel backend:
/// `Vulkan <major>.<minor>.<patch> (driver 0x<driver in hex>)`.
pub open spec fn vulkan_driver_text(api_version: u32, driver_version: u32) -> Seq<char> {
    "Vulkan "@ + decimal(((api_version >> 22u32) & 0x7fu32) as nat) + "."@ + decimal(
        ((api_version >> 12u32) & 0x3ffu32) as nat,
    ) + "."@ + decimal((api_version & 0xfffu32) as nat) + " (driver 0x"@ + hex(driver_version as nat) + ")"@
}

/// Compute-capability text of the Intel backend:
/// `vk<major>.<minor>-0x<device id in hex, four digits at least>`.
pub open spec fn vulkan_capability_text(api_version: u32, device_id: u32) -> Seq<char> {
    "vk"@ + decimal(((api_version >> 22u32) & 0x7fu32) as nat) + "."@ + decimal(
        ((api_version >> 12u32) & 0x3ffu32) as nat,
    ) + "-0x"@ + hex_padded(device_id as nat, 4)
}

/// `device_id` read as a signed 32-bit number.
pub open spec fn signed_id(device_id: u32) -> i32 {
    if device_id <= i32::MAX { device_id as i32 } else { (device_id - 0x1_0000_0000) as i32 }
}

/// What the Intel backend reports of its device, from the properties it
/// read at start-up; `heaps` lists each memory heap as (size,
/// device-local). All device-local memory counts as available.
pub fn intel_device_info(
    name: String,
    api_version: u32,
    driver_version: u32,
    device_id: u32,
    heaps: &[(u64, bool)],
    max_compute_invocations: u32,
    max_shared_memory: u32,
) -> (info: GpuDeviceInfo)
    requires
        device_local_total(heaps@) <= u64::MAX,
    ensures
        info.name@ == name@,
        info.backend@ == "Intel"@,
        info.total_vram_bytes == device_local_total(heaps@),
        info.available_vram_bytes == device_local_total(heaps@),
        info.used_vram_bytes == 0,
        info.driver_version@ == vulkan_driver_text(api_version, driver_version),
        info.compute_capability matches Some(c) && c@ == vulkan_capability_text(api_version, device_id),
        info.max_threads_per_block == max_compute_invocations,
        info.max_shared_memory_per_block == max_shared_memory,
        info.device_id == signed_id(device_id),
        info.pci_bus_id is None,
{
    let total = device_local_vram(heaps);
    let major = ash::vk::api_version_major(api_version);
    let minor = ash::vk::api_version_minor(api_version);
    let patch = ash::vk::api_version_patch(api_version);
    let mut driver = String::from_str("Vulkan ");
    push_decimal(&mut driver, major as u128);
    driver.append(".");
    push_decimal(&mut driver, minor as u128);
    driver.append(".");
    push_decimal(&mut driver, patch as u128);
    driver.append(" (driver 0x");
    push_hex_padded(&mut driver, driver_version as u128, 0);
    driver.append(")");
    let mut capability = String::from_str("vk");
    push_decimal(&mut capability, major as u128);
    capability.append(".");
    push_decimal(&mut capability, minor as u128);
    capability.append("-0x");
    push_hex_padded(&mut capability, device_id as u128, 4);
    let id: i32 = if device_id <= 0x7fff_ffff { device_id as i32 } else { (device_id as i64 - 0x1_0000_0000i64) as i32 };
    proof {
        assert(hex_padded(driver_version as nat, 0) == hex(driver_version as nat));
        assert(driver@ =~= vulkan_driver_text(api_version, driver_version));
        assert(capability@ =~= vulkan_capability_text(api_version, device_id));
    }
    GpuDeviceInfo {
        name,
        backend: String::from_str("Intel"),
        total_vram_bytes: total,
        available_vram_bytes: total,
        used_vram_bytes: 0,
        driver_version: driver,
        compute_capability: Some(capability),
        max_threads_per_block: max_compute_invocations,
        max_shared_memory_per_block: max_shared_memory as u64,
        device_id: id,
        pci_bus_id: None,
    }
}


/// Marker for plain-old-data payloads that the Intel backend copies as
/// raw push-constant bytes.
pub trait PodLike: Copy {}

impl<T: Copy> PodLike for T {}

/// `flags` has every bit of `required` (as bit flags' `contains`).
pub open spec fn has_flags(flags: u32, required: u32) -> bool {
    flags & required == required
}

/// The memory type chosen for a buffer: the first type `i` allowed by
/// bit `i` of `type_bits` whose property flags have all of `required`.
pub open spec fn memory_type_ok(type_flags: Seq<u32>, type_bits: u32, required: u32, i: int) -> bool {
    0 <= i < type_flags.len() && (type_bits >> (i as u32)) & 1u32 == 1u32 && has_flags(type_flags[i], required)
}

/// First memory type (among `type_flags`, the property flags of each
/// type) allowed by `type_bits` and having the `required` properties.
pub fn pick_memory_type(type_flags: &[u32], type_bits: u32, required: u32) -> (r: Option<u32>)
    requires
        type_flags.len() <= 32,
    ensures
        r matches Some(i) ==> memory_type_ok(type_flags@, type_bits, required, i as int) && forall|j: int|
            0 <= j < i ==> !memory_type_ok(type_flags@, type_bits, required, j),
        r is None ==> forall|j: int| 0 <= j < type_flags.len() ==> !memory_type_ok(type_flags@, type_bits, required, j),
{
    let mut i: usize = 0;
    while i < type_flags.len()
        invariant
            i <= type_flags.len() <= 32,
            forall|j: int| 0 <= j < i ==> !memory_type_ok(type_flags@, type_bits, required, j),
        decreases type_flags.len() - i,
    {
        let bit = (type_bits >> (i as u32)) & 1u32;
        if bit == 1u32 && type_flags[i] & required == required {
            return Some(i as u32);
        }
        i = i + 1;
    }
    None
}

/// Checks a write of `len` single-precision values at the start of a
/// mapped buffer of `size` bytes; returns the byte count.
pub fn check_buffer_write(mapped: bool, len: usize, size: usize) -> (r: Result<usize, HiveGpuError>)
    requires
        len * 4 <= usize::MAX,
    ensures
        !mapped ==> r is Err && is_other_error(r->Err_0, "write_f32_slice requires a host-visible buffer"@),
        mapped && len * 4 > size ==> r is Err && is_other_error(
            r->Err_0,
            "write overflows buffer: "@ + decimal((len * 4) as nat) + " > "@ + decimal(size as nat),
        ),
        mapped && len * 4 <= size ==> r == Ok::<usize, HiveGpuError>((len * 4) as usize),
{
    if !mapped {
        return Err(HiveGpuError::Other(String::from_str("write_f32_slice requires a host-visible buffer")));
    }
    let bytes = len * 4;
    if bytes > size {
        let mut m = String::from_str("write overflows buffer: ");
        push_decimal(&mut m, bytes as u128);
        m.append(" > ");
        push_decimal(&mut m, size as u128);
        return Err(HiveGpuError::Other(m));
    }
    Ok(bytes)
}

/// Checks a write of `len` single-precision values at `offset` bytes into
/// a mapped buffer of `size` bytes; returns the byte count.
pub fn check_buffer_write_at(mapped: bool, offset: usize, len: usize, size: usize) -> (r: Result<usize, HiveGpuError>)
    requires
        offset + len * 4 <= usize::MAX,
    ensures
        !mapped ==> r is Err && is_other_error(r->Err_0, "write_f32_slice_at requires a host-visible buffer"@),
        mapped && offset + len * 4 > size ==> r is Err && is_other_error(
            r->Err_0,
            "offset write overflows buffer: "@ + decimal(offset as nat) + "+"@ + decimal((len * 4) as nat) + " > "@ + decimal(
                size as nat,
            ),
        ),
        mapped && offset + len * 4 <= size ==> r == Ok::<usize, HiveGpuError>((len * 4) as usize),
{
    if !mapped {
        return Err(HiveGpuError::Other(String::from_str("write_f32_slice_at requires a host-visible buffer")));
    }
    let bytes = len * 4;
    if offset + bytes > size {
        let mut m = String::from_str("offset write overflows buffer: ");
        push_decimal(&mut m, offset as u128);
        m.append("+");
        push_decimal(&mut m, bytes as u128);
        m.append(" > ");
        push_decimal(&mut m, size as u128);
        return Err(HiveGpuError::Other(m));
    }
    Ok(bytes)
}

/// Checks a read of `count` single-precision values from the start of a
/// mapped buffer of `size` bytes; returns the byte count.
pub fn check_buffer_read(mapped: bool, count: usize, size: usize) -> (r: Result<usize, HiveGpuError>)
    requires
        count * 4 <= usize::MAX,
    ensures
        !mapped ==> r is Err && is_other_error(r->Err_0, "read_f32_vec requires a host-visible buffer"@),
        mapped && count * 4 > size ==> r is Err && is_other_error(
            r->Err_0,
            "read overflows buffer: "@ + decimal((count * 4) as nat) + " > "@ + decimal(size as nat),
        ),
        mapped && count * 4 <= size ==> r == Ok::<usize, HiveGpuError>((count * 4) as usize),
{
    if !mapped {
        return Err(HiveGpuError::Other(String::from_str("read_f32_vec requires a host-visible buffer")));
    }
    let bytes = count * 4;
    if bytes > size {
        let mut m = String::from_str("read overflows buffer: ");
        push_decimal(&mut m, bytes as u128);
        m.append(" > ");
        push_decimal(&mut m, size as u128);
        return Err(HiveGpuError::Other(m));
    }
    Ok(bytes)
}

} // verus!
