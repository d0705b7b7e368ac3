//! A small value type for wrap-around coordinate arithmetic: a value confined
//! to `[0, modulus)` together with addition and subtraction that wrap.
//! Keeping the wrap-around invariant in one type keeps every coordinate and
//! velocity of the game inside its modular domain by construction.

use vstd::arithmetic::div_mod::{lemma_mod_multiples_vanish, lemma_small_mod};
use vstd::prelude::*;

verus! {

/// An integer confined to `[0, modulus)`, with wrapping add and subtract.
#[derive(Clone, Copy, Debug, PartialEq, Eq, Structural)]
pub struct ModNum {
    value: usize,
    modulus: usize,
}

impl ModNum {
    /// The current value, as a mathematical integer.
    pub closed spec fn val(self) -> int {
        self.value as int
    }

    /// The modulus, as a mathematical integer.
    pub closed spec fn md(self) -> int {
        self.modulus as int
    }

    /// The value lies inside its modular domain.
    pub open spec fn wf(self) -> bool {
        0 < self.md() && 0 <= self.val() < self.md()
    }

    pub fn new(value: usize, modulus: usize) -> (r: ModNum)
        requires
            value < modulus,
        ensures
            r.wf(),
            r.val() == value,
            r.md() == modulus,
    {
        ModNum { value, modulus }
    }

    pub fn value(&self) -> (r: usize)
        ensures
            r == self.val(),
    {
        self.value
    }

    pub fn modulus(&self) -> (r: usize)
        ensures
            r == self.md(),
    {
        self.modulus
    }

    /// Add `delta`, wrapping at the modulus.
    pub fn wrapping_add(self, delta: usize) -> (r: ModNum)
        requires
            self.wf(),
            delta < self.md(),
        ensures
            r.wf(),
            r.md() == self.md(),
            r.val() == (self.val() + delta) % self.md(),
    {
        let m = self.modulus;
        let v = if self.value >= m - delta {
            self.value - (m - delta)
        } else {
            self.value + delta
        };
        proof {
            if self.value >= m - delta {
                lemma_mod_multiples_vanish(1, self.val() + delta - m, m as int);
                lemma_small_mod((self.val() + delta - m) as nat, m as nat);
            } else {
                lemma_small_mod((self.val() + delta) as nat, m as nat);
            }
        }
        ModNum { value: v, modulus: m }
    }

    /// Subtract `delta`, wrapping at the modulus.
    pub fn wrapping_sub(self, delta: usize) -> (r: ModNum)
        requires
            self.wf(),
            delta < self.md(),
        ensures
            r.wf(),
            r.md() == self.md(),
            r.val() == (self.val() + self.md() - delta) % self.md(),
    {
        let m = self.modulus;
        let v = if self.value >= delta {
            self.value - delta
        } else {
            self.value + (m - delta)
        };
        proof {
            if self.value >= delta {
                lemma_mod_multiples_vanish(1, self.val() - delta, m as int);
                lemma_small_mod((self.val() - delta) as nat, m as nat);
            } else {
                lemma_small_mod((self.val() + m - delta) as nat, m as nat);
            }
        }
        ModNum { value: v, modulus: m }
    }
}

} // verus!
