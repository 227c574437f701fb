use vstd::prelude::*;

verus! {

/// One step of the xorshift random number generator (shifts 13, 17, 5),
/// with a zero seed taken as one.
pub open spec fn xorshift(seed: u32) -> u32 {
    let x0: u32 = if seed == 0 { 1 } else { seed };
    let x1: u32 = x0 ^ ((x0 << 13u32) as u32);
    let x2: u32 = x1 ^ (x1 >> 17u32);
    x2 ^ ((x2 << 5u32) as u32)
}

/// Get a pseudo-random integer and advance the seed to it.
///
/// Uses the xorshift algorithm. It's very fast, easy to implement,
/// and has a very long period. It fails some statistical tests,
/// but that still should be good enough for games.
pub fn get_random(seed: &mut u32) -> (res: u32)
    ensures
        res == xorshift(*old(seed)),
        *final(seed) == res,
{
    let mut x = *seed;
    if x == 0 {
        x = 1;
    }
    x = x ^ (x << 13u32);
    x = x ^ (x >> 17u32);
    x = x ^ (x << 5u32);
    *seed = x;
    x
}

/// Set the random numbers generator seed.
pub fn set_seed(seed: &mut u32, value: u32)
    ensures
        *final(seed) == value,
{
    *seed = value;
}

/// The generator never gives zero: a zero seed would make every later number zero,
/// and each xorshift step maps a non-zero number to a non-zero one.
pub proof fn law_random_never_zero(seed: u32)
    ensures
        xorshift(seed) != 0,
{
    let x0: u32 = if seed == 0 { 1 } else { seed };
    assert(x0 != 0 ==> (x0 ^ ((x0 << 13u32) as u32)) != 0) by (bit_vector);
    let x1: u32 = x0 ^ ((x0 << 13u32) as u32);
    assert(x1 != 0 ==> (x1 ^ (x1 >> 17u32)) != 0) by (bit_vector);
    let x2: u32 = x1 ^ (x1 >> 17u32);
    assert(x2 != 0 ==> (x2 ^ ((x2 << 5u32) as u32)) != 0) by (bit_vector);
}

/// Undoes `x ^ (x << 5)` on 32 bits.
pub open spec fn undo_shl5(r: u32) -> u32 {
    r ^ ((r << 5u32) as u32) ^ ((r << 10u32) as u32) ^ ((r << 15u32) as u32)
        ^ ((r << 20u32) as u32) ^ ((r << 25u32) as u32) ^ ((r << 30u32) as u32)
}

/// Undoes `x ^ (x >> 17)` on 32 bits.
pub open spec fn undo_shr17(r: u32) -> u32 {
    r ^ (r >> 17u32)
}

/// Undoes `x ^ (x << 13)` on 32 bits.
pub open spec fn undo_shl13(r: u32) -> u32 {
    r ^ ((r << 13u32) as u32) ^ ((r << 26u32) as u32)
}

/// Recovers the seed from a random number: undoes the three xorshift steps
/// (shift left by 5, shift right by 17, shift left by 13) in reverse order.
pub open spec fn unxorshift(r: u32) -> u32 {
    undo_shl13(undo_shr17(undo_shl5(r)))
}

/// The seed can be recovered from the random number that it gives: the steps
/// `x ^= x << 13`, `x ^= x >> 17` and `x ^= x << 5` are each undone, in reverse
/// order, so every non-zero seed comes back from its number, and a zero seed gives
/// the number of seed one.
pub proof fn law_random_reversible(seed: u32)
    ensures
        seed != 0 ==> unxorshift(xorshift(seed)) == seed,
        xorshift(0) == xorshift(1),
{
    let x0: u32 = if seed == 0 { 1 } else { seed };
    let x1: u32 = x0 ^ ((x0 << 13u32) as u32);
    let x2: u32 = x1 ^ (x1 >> 17u32);
    let x3: u32 = x2 ^ ((x2 << 5u32) as u32);
    assert(undo_shl5(x2 ^ ((x2 << 5u32) as u32)) == x2) by (bit_vector);
    assert(undo_shr17(x1 ^ (x1 >> 17u32)) == x1) by (bit_vector);
    assert(undo_shl13(x0 ^ ((x0 << 13u32) as u32)) == x0) by (bit_vector);
    assert(xorshift(seed) == x3);
}

/// Two different non-zero seeds never give the same random number, so the
/// sequence of numbers that a seed starts only repeats once it comes back to
/// that seed.
pub proof fn law_random_distinct(a: u32, b: u32)
    requires
        a != 0,
        b != 0,
        a != b,
    ensures
        xorshift(a) != xorshift(b),
{
    law_random_reversible(a);
    law_random_reversible(b);
}

} // verus!
