//! Real-time signal-processing core of a guitar-effects plugin.
//!
//! Audio samples and control values are fixed-point integers in units of
//! one millionth, so that every filter recurrence, gain stage and mix is
//! exact integer arithmetic with a proved absence of overflow.

pub mod approx;
pub mod channel;
pub mod dsp;
pub mod engine;
pub mod fixed;
pub mod messages;
pub mod router;
pub mod validate;

use vstd::prelude::*;

verus! {

/// Deterministic integer hash used to generate reproducible noise bursts.
pub fn simple_hash(x: u32) -> (r: u32)
    ensures
        r == simple_hash_spec(x),
{
    let mut x = x;
    x = x.wrapping_mul(0x45d9f3b);
    x = x ^ (x >> 16);
    x = x.wrapping_mul(0x45d9f3b);
    x = x ^ (x >> 16);
    x
}

/// The value `simple_hash` returns: two rounds of multiply and xor-shift.
pub open spec fn simple_hash_spec(x: u32) -> u32 {
    let a = mul_wrap32(x, 0x45d9f3b);
    let b = a ^ (a >> 16);
    let c = mul_wrap32(b, 0x45d9f3b);
    c ^ (c >> 16)
}

/// 32-bit wrapping product.
pub open spec fn mul_wrap32(a: u32, b: u32) -> u32 {
    ((a * b) % 0x1_0000_0000) as u32
}

} // verus!
