//! Channel scaling by an exact rational factor `num / den`.
//!
//! Each channel is multiplied by the factor and truncated toward zero; a
//! product above 255 saturates to 255 instead of wrapping, so a factor
//! above 1 can never fold a bright channel back into a dark one.

use vstd::prelude::*;

use vstd::arithmetic::div_mod::lemma_div_by_multiple;

verus! {

/// One channel scaled by `num / den` and truncated, saturating at 255.
pub open spec fn spec_scale_channel(c: u8, num: u64, den: u64) -> int
    recommends
        den >= 1,
{
    let q = (c * num) / (den as int);
    if q > 255 {
        255
    } else {
        q
    }
}

/// Scales every channel by `num / den`.
pub fn scale(original: &[u8], num: u64, den: u64) -> (out: Vec<u8>)
    requires
        den >= 1,
    ensures
        out@.len() == original@.len(),
        forall|i: int|
            0 <= i < out@.len() ==> #[trigger] out@[i] == spec_scale_channel(
                original@[i],
                num,
                den,
            ),
{
    let n = original.len();
    let mut out: Vec<u8> = Vec::new();
    let mut i: usize = 0;
    while i < n
        invariant
            den >= 1,
            n == original@.len(),
            0 <= i <= n,
            out@.len() == i,
            forall|j: int|
                0 <= j < i ==> #[trigger] out@[j] == spec_scale_channel(original@[j], num, den),
        decreases n - i,
    {
        let c = original[i];
        proof {
            vstd::arithmetic::mul::lemma_mul_upper_bound(
                c as int,
                255,
                num as int,
                u64::MAX as int,
            );
        }
        let product = (c as u128) * (num as u128);
        let q = product / (den as u128);
        if q > 255 {
            out.push(255);
        } else {
            out.push(q as u8);
        }
        i = i + 1;
    }
    out
}

/// Law: scaling by a factor of exactly 1 is the identity on every channel
/// value; no precision is lost.
pub proof fn lemma_scale_identity(c: u8, f: u64)
    requires
        f >= 1,
    ensures
        spec_scale_channel(c, f, f) == c,
{
    lemma_div_by_multiple(c as int, f as int);
}

} // verus!
