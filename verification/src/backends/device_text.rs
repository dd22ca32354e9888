//! Text the backends report about a device: PCI bus IDs, driver versions,
//! architecture names.

use vstd::prelude::*;
use crate::error::{HiveGpuError, is_other_error};
use crate::utils::text::{decimal, decimal_padded, digit, digit_char, hex, hex_padded, push_char, push_decimal};

verus! {

/// `n` copies of `c`.
pub open spec fn repeat(c: char, n: nat) -> Seq<char>
    decreases n,
{
    if n == 0 {
        Seq::empty()
    } else {
        seq![c] + repeat(c, (n - 1) as nat)
    }
}

/// A padded numeral is the numeral behind enough zeros to reach `width`.
proof fn lemma_hex_padded_zeros(n: nat, width: nat)
    ensures
        hex_padded(n, width) == repeat('0', (if width > hex(n).len() { width - hex(n).len() } else { 0 }) as nat)
            + hex(n),
    decreases width,
{
    if hex(n).len() >= width || width == 0 {
        assert(repeat('0', 0) + hex(n) =~= hex(n));
    } else {
        lemma_hex_padded_zeros(n, (width - 1) as nat);
        assert(seq!['0'] + (repeat('0', (width - 1 - hex(n).len()) as nat) + hex(n)) =~= repeat(
            '0',
            (width - hex(n).len()) as nat,
        ) + hex(n));
    }
}

proof fn lemma_decimal_padded_zeros(n: nat, width: nat)
    ensures
        decimal_padded(n, width) == repeat('0', (if width > decimal(n).len() { width - decimal(n).len() } else { 0 }) as nat)
            + decimal(n),
    decreases width,
{
    if decimal(n).len() >= width || width == 0 {
        assert(repeat('0', 0) + decimal(n) =~= decimal(n));
    } else {
        lemma_decimal_padded_zeros(n, (width - 1) as nat);
        assert(seq!['0'] + (repeat('0', (width - 1 - decimal(n).len()) as nat) + decimal(n)) =~= repeat(
            '0',
            (width - decimal(n).len()) as nat,
        ) + decimal(n));
    }
}

/// Number of hex digits of `n`.
fn hex_len(n: u128) -> (l: u128)
    ensures
        l == hex(n as nat).len(),
        l <= n + 1,
    decreases n,
{
    if n < 16 {
        1
    } else {
        let l = hex_len(n / 16);
        proof {
            assert(hex(n as nat) == hex((n / 16) as nat).push(digit_char((n % 16) as nat)));
        }
        l + 1
    }
}

/// Number of decimal digits of `n`.
fn decimal_len(n: u128) -> (l: u128)
    ensures
        l == decimal(n as nat).len(),
        l <= n + 1,
    decreases n,
{
    if n < 10 {
        1
    } else {
        let l = decimal_len(n / 10);
        proof {
            assert(decimal(n as nat) == decimal((n / 10) as nat).push(digit_char((n % 10) as nat)));
        }
        l + 1
    }
}

/// Appends `n` zeros.
fn push_zeros(s: &mut String, n: usize)
    ensures
        final(s)@ == old(s)@ + repeat('0', n as nat),
{
    let mut i: usize = 0;
    while i < n
        invariant
            i <= n,
            s@ == old(s)@ + repeat('0', i as nat),
        decreases n - i,
    {
        proof {
            lemma_repeat_push('0', i as nat);
        }
        push_char(s, '0');
        i = i + 1;
    }
}

proof fn lemma_repeat_push(c: char, n: nat)
    ensures
        repeat(c, n + 1) == repeat(c, n).push(c),
    decreases n,
{
    if n > 0 {
        lemma_repeat_push(c, (n - 1) as nat);
        assert(seq![c] + repeat(c, (n - 1) as nat).push(c) =~= (seq![c] + repeat(c, (n - 1) as nat)).push(c));
    } else {
        assert(repeat(c, 0) =~= Seq::<char>::empty());
        assert(repeat(c, 1) =~= seq![c]);
    }
}

/// Appends the lower-case hex numeral of `n`.
fn push_hex(s: &mut String, n: u128)
    ensures
        final(s)@ == old(s)@ + hex(n as nat),
    decreases n,
{
    if n >= 16 {
        push_hex(s, n / 16);
    }
    push_char(s, digit((n % 16) as u64));
    proof {
        if n >= 16 {
            assert(hex(n as nat) == hex((n / 16) as nat).push(digit_char((n % 16) as nat)));
        } else {
            assert(hex(n as nat) == seq![digit_char(n as nat)]);
        }
    }
}

/// Appends `hex_padded(n, width)`.
pub fn push_hex_padded(s: &mut String, n: u128, width: usize)
    ensures
        final(s)@ == old(s)@ + hex_padded(n as nat, width as nat),
{
    let l = hex_len(n);
    let zeros: usize = if (width as u128) > l { (width as u128 - l) as usize } else { 0 };
    push_zeros(s, zeros);
    push_hex(s, n);
    proof {
        lemma_hex_padded_zeros(n as nat, width as nat);
    }
}

/// Appends `decimal_padded(n, width)`.
pub fn push_decimal_padded(s: &mut String, n: u128, width: usize)
    ensures
        final(s)@ == old(s)@ + decimal_padded(n as nat, width as nat),
{
    let l = decimal_len(n);
    let zeros: usize = if (width as u128) > l { (width as u128 - l) as usize } else { 0 };
    push_zeros(s, zeros);
    push_decimal(s, n);
    proof {
        lemma_decimal_padded_zeros(n as nat, width as nat);
    }
}

/// The bits of `v` read as an unsigned number, as `{:x}` prints an `i32`.
pub open spec fn bits_of(v: i32) -> nat {
    if v >= 0 { v as nat } else { (v + 0x1_0000_0000) as nat }
}

fn bits_exec(v: i32) -> (r: u128)
    ensures
        r == bits_of(v),
{
    if v >= 0 {
        v as u128
    } else {
        (v as i64 + 0x1_0000_0000i64) as u128
    }
}

/// PCI bus ID text `domain:bus:device.0`, each field in lower-case hex,
/// the domain padded to four digits and the others to two.
pub open spec fn pci_bus_id_text(domain: i32, bus: i32, dev: i32) -> Seq<char> {
    hex_padded(bits_of(domain), 4) + ":"@ + hex_padded(bits_of(bus), 2) + ":"@ + hex_padded(bits_of(dev), 2) + ".0"@
}

/// The PCI bus ID text (see `pci_bus_id_text`).
pub fn format_pci_bus_id(domain: i32, bus: i32, dev: i32) -> (r: String)
    ensures
        r@ == pci_bus_id_text(domain, bus, dev),
{
    let mut r = String::new();
    push_hex_padded(&mut r, bits_exec(domain), 4);
    r.append(":");
    push_hex_padded(&mut r, bits_exec(bus), 2);
    r.append(":");
    push_hex_padded(&mut r, bits_exec(dev), 2);
    r.append(".0");
    proof {
        assert(r@ =~= pci_bus_id_text(domain, bus, dev));
    }
    r
}

/// The CUDA device's PCI bus ID from its attributes: none when the bus or
/// device number could not be read; a missing domain reads as 0.
pub fn cuda_pci_bus_id(domain: Option<i32>, bus: Option<i32>, dev: Option<i32>) -> (r: Option<String>)
    ensures
        bus is None || dev is None ==> r is None,
        bus is Some && dev is Some ==> (r matches Some(t) && t@ == pci_bus_id_text(
            if domain is Some { domain->0 } else { 0 },
            bus->0,
            dev->0,
        )),
{
    match (bus, dev) {
        (Some(b), Some(d)) => {
            let dom = match domain {
                Some(x) => x,
                None => 0,
            };
            Some(format_pci_bus_id(dom, b, d))
        },
        _ => None,
    }
}

/// The ROCm device's PCI bus ID from its attributes, where a failed read
/// gives -1: none when the bus or device number is negative.
pub fn rocm_pci_bus_id(domain: i32, bus: i32, dev: i32) -> (r: Option<String>)
    ensures
        bus < 0 || dev < 0 ==> r is None,
        bus >= 0 && dev >= 0 ==> (r matches Some(t) && t@ == pci_bus_id_text(domain, bus, dev)),
{
    if bus < 0 || dev < 0 {
        return None;
    }
    Some(format_pci_bus_id(domain, bus, dev))
}

/// Decimal numeral of an integer, with a minus sign when negative.
pub open spec fn signed_decimal(x: int) -> Seq<char> {
    if x < 0 { "-"@ + decimal((-x) as nat) } else { decimal(x as nat) }
}

/// `a / b` rounded toward zero, as integer division does.
pub open spec fn trunc_div(a: int, b: int) -> int {
    if a >= 0 { a / b } else { -((-a) / b) }
}

/// Remainder of `trunc_div`, with the sign of `a`.
pub open spec fn trunc_rem(a: int, b: int) -> int {
    a - b * trunc_div(a, b)
}

/// `"<backend> <major>.<minor>"` for a driver version number
/// `1000 * major + 10 * minor`, or `"<backend> unknown"` when the version
/// could not be read.
pub open spec fn driver_version_text(backend: Seq<char>, version: Option<i32>) -> Seq<char> {
    match version {
        Some(v) => backend + " "@ + signed_decimal(trunc_div(v as int, 1000)) + "."@ + signed_decimal(
            trunc_div(trunc_rem(v as int, 1000), 10),
        ),
        None => backend + " unknown"@,
    }
}

/// Appends `signed_decimal(x)`.
fn push_signed_decimal(s: &mut String, x: i64)
    requires
        x > i64::MIN,
    ensures
        final(s)@ == old(s)@ + signed_decimal(x as int),
{
    if x < 0 {
        s.append("-");
        push_decimal(s, (-x) as u128);
    } else {
        push_decimal(s, x as u128);
    }
    proof {
        assert(final(s)@ =~= old(s)@ + signed_decimal(x as int));
    }
}

/// The driver version text (see `driver_version_text`).
pub fn format_driver_version(backend: &str, version: Option<i32>) -> (r: String)
    ensures
        r@ == driver_version_text(backend@, version),
{
    let mut r = String::from_str(backend);
    match version {
        Some(v) => {
            let v = v as i64;
            let major = if v >= 0 { v / 1000 } else { -((-v) / 1000) };
            let rem = v - 1000 * major;
            let minor = if rem >= 0 { rem / 10 } else { -((-rem) / 10) };
            r.append(" ");
            push_signed_decimal(&mut r, major);
            r.append(".");
            push_signed_decimal(&mut r, minor);
        },
        None => {
            r.append(" unknown");
        },
    }
    proof {
        assert(r@ =~= driver_version_text(backend@, version));
    }
    r
}

/// ROCm architecture name `gfx<major><minor>`, the minor number padded
/// to two digits.
pub open spec fn gfx_text(major: u32, minor: u32) -> Seq<char> {
    "gfx"@ + decimal(major as nat) + decimal_padded(minor as nat, 2)
}

/// The ROCm architecture name (see `gfx_text`).
pub fn format_gfx(major: u32, minor: u32) -> (r: String)
    ensures
        r@ == gfx_text(major, minor),
{
    let mut r = String::from_str("gfx");
    push_decimal(&mut r, major as u128);
    push_decimal_padded(&mut r, minor as u128, 2);
    r
}

/// A compute capability `major.minor`.
pub open spec fn capability_text(major: u32, minor: u32) -> Seq<char> {
    decimal(major as nat) + "."@ + decimal(minor as nat)
}

/// The compute capability text (see `capability_text`).
pub fn format_capability(major: u32, minor: u32) -> (r: String)
    ensures
        r@ == capability_text(major, minor),
{
    let mut r = String::new();
    push_decimal(&mut r, major as u128);
    r.append(".");
    push_decimal(&mut r, minor as u128);
    proof {
        assert(r@ =~= capability_text(major, minor));
    }
    r
}


/// Message of a failed HIP or rocBLAS call: what was called, the name of
/// the status type, and the status.
pub open spec fn status_message(context: Seq<char>, status_name: Seq<char>, status: i32) -> Seq<char> {
    context + " failed with "@ + status_name + "="@ + signed_decimal(status as int)
}

/// The status of a HIP call as a result: 0 is success, anything else an
/// error naming the call and the status.
pub fn hip_check(status: i32, context: &str) -> (r: Result<(), HiveGpuError>)
    ensures
        status == 0 <==> r is Ok,
        r is Err ==> is_other_error(r->Err_0, status_message(context@, "hipError_t"@, status)),
{
    check_status(status, context, "hipError_t")
}

/// The status of a rocBLAS call as a result: 0 is success, anything else
/// an error naming the call and the status.
pub fn rocblas_check(status: i32, context: &str) -> (r: Result<(), HiveGpuError>)
    ensures
        status == 0 <==> r is Ok,
        r is Err ==> is_other_error(r->Err_0, status_message(context@, "rocblas_status"@, status)),
{
    check_status(status, context, "rocblas_status")
}

fn check_status(status: i32, context: &str, status_name: &str) -> (r: Result<(), HiveGpuError>)
    ensures
        status == 0 <==> r is Ok,
        r is Err ==> is_other_error(r->Err_0, status_message(context@, status_name@, status)),
{
    if status == 0 {
        return Ok(());
    }
    let mut m = String::from_str(context);
    m.append(" failed with ");
    m.append(status_name);
    m.append("=");
    push_signed_decimal(&mut m, status as i64);
    proof {
        assert(m@ =~= status_message(context@, status_name@, status));
    }
    Err(HiveGpuError::Other(m))
}

} // verus!
