//! The deterministic stream behind seeded knowledge matrices: a 64-bit linear
//! congruential generator whose high 32 bits, read as a signed integer, give one
//! sample per feature.

use vstd::prelude::*;
use vstd::arithmetic::div_mod::{
    lemma_add_mod_noop, lemma_mod_multiples_vanish, lemma_mod_sub_multiples_vanish, lemma_mul_mod_noop_left,
    lemma_small_mod, lemma_sub_mod_noop,
};

verus! {

/// Multiplier of the generator.
pub const LCG_MULTIPLIER: u64 = 6364136223846793005;

/// Increment of the generator.
pub const LCG_INCREMENT: u64 = 1442695040888963407;

/// One step of the generator: `s * multiplier + increment` modulo 2^64.
pub open spec fn lcg_next(s: u64) -> u64 {
    ((s as nat * LCG_MULTIPLIER as nat + LCG_INCREMENT as nat) % 0x1_0000_0000_0000_0000nat) as u64
}

/// The state after `k` steps from `seed`.
pub open spec fn lcg_state(seed: u64, k: nat) -> u64
    decreases k,
{
    if k == 0 {
        seed
    } else {
        lcg_next(lcg_state(seed, (k - 1) as nat))
    }
}

/// The sample drawn from a state: its high 32 bits as a two's-complement integer,
/// so that every sample lies in [-2^31, 2^31).
pub open spec fn sample_of(state: u64) -> int {
    let high = state as int / 0x1_0000_0000;
    if high < 0x8000_0000 {
        high
    } else {
        high - 0x1_0000_0000
    }
}

/// Advances the generator by one step.
pub fn lcg_step(s: u64) -> (r: u64)
    ensures
        r == lcg_next(s),
{
    let m = s.wrapping_mul(LCG_MULTIPLIER);
    let r = m.wrapping_add(LCG_INCREMENT);
    proof {
        let modulus: int = 0x1_0000_0000_0000_0000;
        let product: int = s as int * LCG_MULTIPLIER as int;
        assert(m as int == product % modulus);
        lemma_add_mod_noop(product, LCG_INCREMENT as int, modulus);
        lemma_small_mod(LCG_INCREMENT as nat, modulus as nat);
        if m as int + LCG_INCREMENT as int >= modulus {
            lemma_mod_sub_multiples_vanish(m as int + LCG_INCREMENT as int, modulus);
            lemma_small_mod((m as int + LCG_INCREMENT as int - modulus) as nat, modulus as nat);
        } else {
            lemma_small_mod((m as int + LCG_INCREMENT as int) as nat, modulus as nat);
        }
    }
    r
}

/// The sample of one generator state.
pub fn sample(state: u64) -> (r: i32)
    ensures
        r == sample_of(state),
{
    let high: u64 = state >> 32u64;
    assert(high == state / 0x1_0000_0000) by (bit_vector)
        requires
            high == state >> 32u64,
    ;
    if high < 0x8000_0000 {
        high as i32
    } else {
        let shifted: i64 = high as i64 - 0x1_0000_0000i64;
        shifted as i32
    }
}

/// `count` samples of the generator started at `seed`: sample `k` is drawn from
/// the state after `k + 1` steps.
pub fn seed_samples(count: usize, seed: u64) -> (r: Vec<i32>)
    ensures
        r.len() == count,
        forall|k: int| 0 <= k < count ==> #[trigger] r@[k] == sample_of(lcg_state(seed, (k + 1) as nat)),
        count > 0 ==> r@[0] == sample_of(
            ((seed as nat * 6364136223846793005nat + 1442695040888963407nat) % 0x1_0000_0000_0000_0000nat) as u64),
{
    let mut r: Vec<i32> = Vec::new();
    let mut s: u64 = seed;
    let mut k: usize = 0;
    while k < count
        invariant
            k <= count,
            r.len() == k,
            s == lcg_state(seed, k as nat),
            forall|i: int| 0 <= i < k ==> r@[i] == sample_of(lcg_state(seed, (i + 1) as nat)),
        decreases count - k,
    {
        s = lcg_step(s);
        assert(s == lcg_state(seed, (k + 1) as nat));
        r.push(sample(s));
        k = k + 1;
    }
    proof {
        if count > 0 {
            lemma_generator_steps(seed, 0);
        }
    }
    r
}

/// The generator starts at the seed itself, and each state is the previous one
/// times 6364136223846793005 plus 1442695040888963407, modulo 2^64.
pub proof fn lemma_generator_steps(seed: u64, k: nat)
    ensures
        lcg_state(seed, 0) == seed,
        lcg_state(seed, k + 1) as nat
            == (lcg_state(seed, k) as nat * 6364136223846793005nat + 1442695040888963407nat) % 0x1_0000_0000_0000_0000nat,
{
    assert(lcg_state(seed, k + 1) == lcg_next(lcg_state(seed, k)));
}

/// A sample is the one integer in [-2^31, 2^31) congruent modulo 2^32 to the high
/// 32 bits of the state.
pub proof fn lemma_sample_meaning(state: u64)
    ensures
        -0x8000_0000 <= sample_of(state) < 0x8000_0000,
        (sample_of(state) - state as int / 0x1_0000_0000) % 0x1_0000_0000 == 0,
{
}

/// Multiplying a state by the generator's multiplier modulo 2^64 can be undone:
/// 13877824140714322085 is its inverse.
proof fn lemma_multiplier_invertible(a: u64)
    ensures
        ((a as int * 6364136223846793005int) % 0x1_0000_0000_0000_0000int * 13877824140714322085int)
            % 0x1_0000_0000_0000_0000int == a as int,
{
    let r: int = 0x1_0000_0000_0000_0000int;
    let x: int = a as int * 6364136223846793005int;
    lemma_mul_mod_noop_left(x, 13877824140714322085int, r);
    assert(6364136223846793005int * 13877824140714322085int == r * 4787856489426250814int + 1);
    assert(x * 13877824140714322085int == r * (a as int * 4787856489426250814int) + a as int) by (nonlinear_arith)
        requires
            x == a as int * 6364136223846793005int,
            r == 0x1_0000_0000_0000_0000int,
            6364136223846793005int * 13877824140714322085int == r * 4787856489426250814int + 1,
    ;
    lemma_mod_multiples_vanish(a as int * 4787856489426250814int, a as int, r);
    lemma_small_mod(a as nat, r as nat);
}

/// Distinct states have distinct successors: the generator never merges two
/// streams, so distinct seeds give distinct first states.
pub proof fn lemma_generator_injective(a: u64, b: u64)
    ensures
        lcg_next(a) == lcg_next(b) ==> a == b,
{
    let r: int = 0x1_0000_0000_0000_0000int;
    let c: int = 1442695040888963407int;
    let xa: int = a as int * 6364136223846793005int;
    let xb: int = b as int * 6364136223846793005int;
    if lcg_next(a) == lcg_next(b) {
        assert((xa + c) % r == (xb + c) % r);
        lemma_sub_mod_noop(xa + c, c, r);
        lemma_sub_mod_noop(xb + c, c, r);
        lemma_small_mod(c as nat, r as nat);
        assert(xa % r == xb % r);
        lemma_multiplier_invertible(a);
        lemma_multiplier_invertible(b);
    }
}

} // verus!
