//! Random draws. The raw draw is an outside call; everything derived from
//! it is verified, so every caller states what holds whatever came back.

use vstd::prelude::*;

verus! {

/// Relies on rand::random: a uniformly random machine word. Nothing can be
/// promised of a random value.
#[verifier::external_body]
fn random_u64() -> u64 {
    rand::random::<u64>()
}

/// A random draw from `1..=n`.
pub fn range_1_to(n: u64) -> (r: i32)
    requires
        1 <= n <= 0x7fff_fffe,
    ensures
        1 <= r <= n,
{
    let raw = random_u64();
    let m = raw % n;
    1 + (m as i32)
}

} // verus!
