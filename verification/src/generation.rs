//! Numbers for runs that replace each other, so that a late answer can be told
//! from a current one.
use vstd::prelude::*;

verus! {

/// The number of a run. It is bumped per run and wraps around.
pub type Generation = u64;

/// The number after `generation`.
pub open spec fn following(generation: Generation) -> Generation {
    if generation == u64::MAX {
        0
    } else {
        (generation + 1) as u64
    }
}

/// The number after `generation`.
pub fn next_generation(generation: Generation) -> (next: Generation)
    ensures
        next == following(generation),
{
    generation.wrapping_add(1)
}

/// The number `n` runs after `generation`.
pub open spec fn later(generation: Generation, n: nat) -> Generation
    decreases n,
{
    if n == 0 {
        generation
    } else {
        following(later(generation, (n - 1) as nat))
    }
}

proof fn lemma_later(generation: Generation, n: nat)
    ensures
        later(generation, n) == (generation + n) % 0x1_0000_0000_0000_0000,
    decreases n,
{
    if n > 0 {
        lemma_later(generation, (n - 1) as nat);
        let total = generation + n - 1;
        let m: int = 0x1_0000_0000_0000_0000;
        vstd::arithmetic::div_mod::lemma_add_mod_noop(total, 1, m);
        if total % m == m - 1 {
            assert((total % m + 1) % m == 0) by (nonlinear_arith)
                requires
                    total % m == m - 1,
                    m == 0x1_0000_0000_0000_0000,
            ;
        } else {
            vstd::arithmetic::div_mod::lemma_small_mod((total % m + 1) as nat, m as nat);
        }
    } else {
        vstd::arithmetic::div_mod::lemma_small_mod(generation as nat, 0x1_0000_0000_0000_0000);
    }
}

/// Runs that replace each other have different numbers, for as long as fewer
/// than all the numbers lie between them.
pub proof fn law_later_generations_differ(generation: Generation, n: nat)
    requires
        0 < n < 0x1_0000_0000_0000_0000,
    ensures
        later(generation, n) != generation,
{
    lemma_later(generation, n);
    let m: int = 0x1_0000_0000_0000_0000;
    let total = generation + n;
    if total < m {
        vstd::arithmetic::div_mod::lemma_small_mod(total as nat, m as nat);
    } else {
        vstd::arithmetic::div_mod::lemma_small_mod((total - m) as nat, m as nat);
        vstd::arithmetic::div_mod::lemma_mod_add_multiples_vanish(total - m, m);
    }
}

/// Each run has the number after the one before it, and the first number comes
/// after the last.
pub proof fn law_generations_count_up(generation: Generation)
    ensures
        following(generation) as int == (generation + 1) % 0x1_0000_0000_0000_0000,
{
}

} // verus!
