# hive-gpu

Host-side logic of a GPU-accelerated vector similarity search library,
written in Verus and proved against its specifications.

- `src/` is the verified library: backend detection and selection, the
  launch-size helpers, device report texts and Vulkan device choice, the
  slot catalog of the device vector storages (validation, growth,
  soft-deletion, lookup), the IVF index bookkeeping (cluster layout,
  k-means seeding generator, input checks), VRAM and performance
  monitoring with their reports, shader source checks, and memory and
  timing utilities. Floating-point figures that reports print are
  computed exactly with an integer model of binary rounding.
- `app/` is the ordinary Rust around it: error and data types with serde
  and `Display`, the backend traits, float vector math and k-means, the
  runtime probes and the CUDA, Metal, ROCm and Intel (Vulkan) device
  backends. Each backend module is compiled only on its platform with the
  cargo feature of its name (`cuda`, `rocm`, `intel`; Metal on macOS);
  this manifest declares no features, so a plain build of `app/` leaves
  them out.
- `tests/` exercises the library on concrete values, including
  comparisons with the floating-point formatting it models.

The VRAM monitor keeps its live buffers in a `Vec` in allocation order
rather than a map keyed by buffer id: ids are handed out in increasing
order, which keeps them distinct by construction, and the report, the
removal and the laws about them all speak of that one sequence. The
performance monitor and the WGSL shader manager are keyed by strings, for
which Verus proves nothing about a map, so they are `Vec`s of pairs with
distinct names as their invariant.
