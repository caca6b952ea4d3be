//! Integer phase accumulator.
//!
//! Phase is a `u32` where the full range represents [0, 2π). The accumulator
//! wraps exactly modulo 2³², so all harmonics derived by wrapping
//! multiplication stay phase-coherent with the fundamental forever. Frequency
//! resolution is fs/2³² (≈1.9 µHz at 8 kHz).

use vstd::arithmetic::div_mod::{
    lemma_add_mod_noop, lemma_mul_mod_noop_right, lemma_small_mod,
};
use vstd::arithmetic::mul::{lemma_mul_is_associative, lemma_mul_is_commutative};
use vstd::prelude::*;

verus! {

/// One full turn of phase.
pub open spec fn turn() -> int {
    4294967296
}

/// Phase reached from `p` after `n` steps of `inc`, each wrapping modulo
/// one turn.
pub open spec fn stepped(p: u32, inc: u32, n: nat) -> u32
    decreases n,
{
    if n == 0 {
        p
    } else {
        ((stepped(p, inc, (n - 1) as nat) + inc) % turn()) as u32
    }
}

/// A wrapping 32-bit phase accumulator.
#[derive(Clone, Copy, Debug, Default)]
pub struct PhaseAccumulator {
    phase: u32,
    increment: u32,
}

impl PhaseAccumulator {
    /// Current phase.
    pub closed spec fn spec_phase(self) -> u32 {
        self.phase
    }

    /// Per-sample increment.
    pub closed spec fn spec_increment(self) -> u32 {
        self.increment
    }

    /// Phase zero, increment zero.
    pub fn new() -> (a: Self)
        ensures
            a.spec_phase() == 0,
            a.spec_increment() == 0,
    {
        PhaseAccumulator { phase: 0, increment: 0 }
    }

    /// Set the per-sample increment. Takes effect from the next `step`; the
    /// phase itself is never reset, so frequency changes are
    /// phase-continuous.
    pub fn set_increment(&mut self, increment: u32)
        ensures
            final(self).spec_increment() == increment,
            final(self).spec_phase() == old(self).spec_phase(),
    {
        self.increment = increment;
    }

    pub fn increment(&self) -> (inc: u32)
        ensures
            inc == self.spec_increment(),
    {
        self.increment
    }

    pub fn phase(&self) -> (p: u32)
        ensures
            p == self.spec_phase(),
    {
        self.phase
    }

    /// Advance one sample and return the new phase and whether the phase
    /// passed the start of a new period.
    pub fn step(&mut self) -> (r: (u32, bool))
        ensures
            final(self).spec_increment() == old(self).spec_increment(),
            final(self).spec_phase() == (old(self).spec_phase() + old(self).spec_increment())
                % turn(),
            r.0 == final(self).spec_phase(),
            r.1 == (old(self).spec_phase() + old(self).spec_increment() >= turn()),
    {
        let sum: u64 = self.phase as u64 + self.increment as u64;
        let wrapped = sum >= 4294967296;
        self.phase = (sum % 4294967296) as u32;
        (self.phase, wrapped)
    }

    /// Phase of the k-th harmonic: exact mod-2³² wrapping multiply.
    pub fn harmonic(&self, k: u32) -> (p: u32)
        ensures
            p == (k * self.spec_phase()) % turn(),
    {
        let kk = k as u64;
        let pp = self.phase as u64;
        assert(kk * pp <= 18446744073709551615) by (nonlinear_arith)
            requires
                kk <= 4294967295,
                pp <= 4294967295,
        ;
        ((kk * pp) % 4294967296) as u32
    }

    /// Reset the phase to zero (e.g. arming a single-shot signal).
    pub fn reset(&mut self)
        ensures
            final(self).spec_phase() == 0,
            final(self).spec_increment() == old(self).spec_increment(),
    {
        self.phase = 0;
    }
}

/// After `n` steps the phase is the start phase plus `n` increments, modulo
/// one turn: the accumulator never drifts.
pub proof fn lemma_stepped_closed_form(p: u32, inc: u32, n: nat)
    ensures
        stepped(p, inc, n) == (p + n * inc) % turn(),
    decreases n,
{
    if n == 0 {
        lemma_small_mod(p as nat, turn() as nat);
    } else {
        let m = (n - 1) as nat;
        lemma_stepped_closed_form(p, inc, m);
        let x = p + m * inc;
        lemma_add_mod_noop(x, inc as int, turn());
        lemma_small_mod(inc as nat, turn() as nat);
        assert(n * inc == m * inc + inc) by (nonlinear_arith)
            requires
                n == m + 1,
        ;
    }
}

/// Harmonic coherence: an accumulator stepping with `k` times the
/// fundamental increment (wrapped) has, after any number of steps, exactly
/// the phase `harmonic(k)` of the fundamental accumulator started with it.
pub proof fn lemma_harmonic_coherence(inc: u32, k: u32, n: nat)
    ensures
        stepped(0, ((k * inc) % turn()) as u32, n) == (k * stepped(0, inc, n)) % turn(),
{
    let b = (k * inc) % turn();
    lemma_stepped_closed_form(0, b as u32, n);
    lemma_stepped_closed_form(0, inc, n);
    lemma_mul_mod_noop_right(n as int, k * inc, turn());
    lemma_mul_mod_noop_right(k as int, n * inc, turn());
    lemma_mul_is_associative(n as int, k as int, inc as int);
    lemma_mul_is_associative(k as int, n as int, inc as int);
    lemma_mul_is_commutative(n as int, k as int);
}

/// Stepping from a phase that is a whole number of increments reports a
/// wrap exactly when the accumulated phase crosses a turn boundary.
pub proof fn lemma_step_wraps_at_boundary(inc: u32, n: nat)
    ensures
        (stepped(0, inc, n) + inc >= turn()) == ((n * inc) / turn() != ((n + 1) * inc) / turn()),
{
    lemma_stepped_closed_form(0, inc, n);
    let x = n * inc;
    assert((n + 1) * inc == x + inc) by (nonlinear_arith)
        requires
            x == n * inc,
    ;
    assert(x % turn() + inc >= turn() <==> x / turn() != (x + inc) / turn()) by (nonlinear_arith)
        requires
            x >= 0,
            0 <= inc < turn(),
            turn() == 4294967296,
    ;
}

} // verus!
