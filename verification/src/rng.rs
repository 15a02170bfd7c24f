//! A small xorshift scrambler seeded from the system clock.

use vstd::prelude::*;

verus! {

/// One xorshift round: three shift-and-xor steps over a 64-bit word.
pub open spec fn spec_scramble(s0: u64) -> u64 {
    let s1 = s0 ^ (s0 << 21);
    let s2 = s1 ^ (s1 >> 35);
    s2 ^ (s2 << 4)
}

/// One xorshift round; see [`spec_scramble`].
pub fn scramble(s: u64) -> (r: u64)
    ensures
        r == spec_scramble(s),
{
    let s1: u64 = s ^ (s << 21u64);
    let s2: u64 = s1 ^ (s1 >> 35u64);
    s2 ^ (s2 << 4u64)
}

/// Relies on std::time::SystemTime::now: the seconds of the system clock
/// since the Unix epoch; a clock before the epoch yields zero. Nothing is
/// assumed about the value.
#[verifier::external_body]
fn now_seconds() -> u64 {
    std::time::SystemTime::now().duration_since(std::time::UNIX_EPOCH).map(
        |d| d.as_secs(),
    ).unwrap_or(0)
}

/// A pseudo-random 64-bit value: the clock seed passed through one xorshift
/// round. The seed is whatever the clock read, so only the shape of the
/// result is promised.
pub fn random_int() -> (r: u64)
    ensures
        exists|s: u64| r == #[trigger] spec_scramble(s),
{
    let seed: u64 = now_seconds();
    let r: u64 = scramble(seed);
    proof {
        assert(r == spec_scramble(seed));
    }
    r
}

} // verus!
