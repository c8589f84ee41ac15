//! Decoding of the packed CPU identifier (the value of `CPUID Fn0000_0001 EAX`).

use vstd::prelude::*;

verus! {


/// Base family, bits 11..8.
pub open spec fn base_family(cpuid: u32) -> int {
    (cpuid as int / 0x100) % 0x10
}

/// Extended family, bits 27..20.
pub open spec fn ext_family(cpuid: u32) -> int {
    (cpuid as int / 0x10_0000) % 0x100
}

/// Base model, bits 7..4.
pub open spec fn base_model(cpuid: u32) -> int {
    (cpuid as int / 0x10) % 0x10
}

/// Extended model, bits 19..16.
pub open spec fn ext_model(cpuid: u32) -> int {
    (cpuid as int / 0x1_0000) % 0x10
}

/// Family: base family plus extended family.
pub open spec fn family_of(cpuid: u32) -> int {
    base_family(cpuid) + ext_family(cpuid)
}

/// Model: base model plus sixteen times the extended model.
pub open spec fn model_of(cpuid: u32) -> int {
    base_model(cpuid) + 0x10 * ext_model(cpuid)
}

/// Stepping, bits 3..0.
pub open spec fn stepping_of(cpuid: u32) -> int {
    cpuid as int % 0x10
}

/// Splits a packed CPU identifier into (family, model, stepping).
///
/// Defined for every 32-bit value; the result depends on the argument alone.
pub fn fms(cpuid: u32) -> (r: (u32, u32, u32))
    ensures
        r.0 == family_of(cpuid),
        r.1 == model_of(cpuid),
        r.2 == stepping_of(cpuid),
{
    assert(((cpuid >> 8) & 0xF) == (cpuid / 0x100) % 0x10) by (bit_vector);
    assert(((cpuid >> 20) & 0xFF) == (cpuid / 0x10_0000) % 0x100) by (bit_vector);
    assert(((cpuid >> 4) & 0xF) == (cpuid / 0x10) % 0x10) by (bit_vector);
    assert(((cpuid >> 12) & 0xF0) == 0x10 * ((cpuid / 0x1_0000) % 0x10)) by (bit_vector);
    assert((cpuid & 0xF) == cpuid % 0x10) by (bit_vector);
    (
        ((cpuid >> 8) & 0xF) + ((cpuid >> 20) & 0xFF),
        ((cpuid >> 4) & 0xF) + ((cpuid >> 12) & 0xF0),
        cpuid & 0xF,
    )
}

/// Decoding the same identifier twice gives the same triple, and each
/// component stays within the range its bit fields allow.
pub proof fn lemma_fms_is_a_function(a: u32, b: u32)
    requires
        a == b,
    ensures
        family_of(a) == family_of(b),
        model_of(a) == model_of(b),
        stepping_of(a) == stepping_of(b),
        0 <= family_of(a) <= 0xF + 0xFF,
        0 <= model_of(a) <= 0xFF,
        0 <= stepping_of(a) <= 0xF,
{
}

} // verus!
