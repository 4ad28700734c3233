//! The Mersenne-31 base field: integers modulo `P = 2^31 - 1`.

use crate::field::Field;
use vstd::arithmetic::div_mod::lemma_mod_add_multiples_vanish;
use vstd::arithmetic::div_mod::lemma_mod_sub_multiples_vanish;
use vstd::arithmetic::div_mod::lemma_small_mod;
use vstd::arithmetic::mul::lemma_mul_upper_bound;
use vstd::prelude::*;

verus! {

/// The Mersenne prime `2^31 - 1`.
pub const P: u32 = 0x7fff_ffff;

/// An element of the Mersenne-31 field, stored as its canonical
/// representative in `[0, P)`.
#[derive(Clone, Copy, Debug, PartialEq, Eq)]
pub struct M31(pub u32);

impl M31 {
    /// Mathematical difference of two field elements.
    pub open spec fn spec_sub(self, rhs: Self) -> Self {
        M31((((self.0 - rhs.0) % (P as int)) as u32))
    }

    /// The difference of well-formed elements is well-formed.
    pub proof fn lemma_sub_wf(self, rhs: Self)
        requires
            self.wf(),
            rhs.wf(),
        ensures
            self.spec_sub(rhs).wf(),
    {
    }

    /// Executable subtraction modulo `P`.
    pub fn sub(self, rhs: Self) -> (r: Self)
        requires
            self.wf(),
            rhs.wf(),
        ensures
            r == self.spec_sub(rhs),
    {
        if self.0 >= rhs.0 {
            proof {
                lemma_small_mod((self.0 - rhs.0) as nat, P as nat);
            }
            M31(self.0 - rhs.0)
        } else {
            proof {
                lemma_mod_add_multiples_vanish(self.0 - rhs.0, P as int);
                lemma_small_mod((self.0 + P - rhs.0) as nat, P as nat);
            }
            M31(self.0 + (P - rhs.0))
        }
    }
}

impl Field for M31 {
    /// The representative is reduced modulo `P`.
    open spec fn wf(self) -> bool {
        self.0 < P
    }

    open spec fn spec_add(self, rhs: Self) -> Self {
        M31((((self.0 + rhs.0) % (P as int)) as u32))
    }

    open spec fn spec_mul(self, rhs: Self) -> Self {
        M31((((self.0 * rhs.0) % (P as int)) as u32))
    }

    proof fn lemma_add_wf(self, rhs: Self) {
    }

    proof fn lemma_mul_wf(self, rhs: Self) {
    }

    fn add(self, rhs: Self) -> (r: Self) {
        let s: u64 = self.0 as u64 + rhs.0 as u64;
        if s >= P as u64 {
            proof {
                lemma_mod_sub_multiples_vanish(self.0 + rhs.0, P as int);
                lemma_small_mod((self.0 + rhs.0 - P) as nat, P as nat);
            }
            M31((s - P as u64) as u32)
        } else {
            proof {
                lemma_small_mod((self.0 + rhs.0) as nat, P as nat);
            }
            M31(s as u32)
        }
    }

    fn mul(self, rhs: Self) -> (r: Self) {
        proof {
            lemma_mul_upper_bound(self.0 as int, 0x7fff_fffe, rhs.0 as int, 0x7fff_fffe);
        }
        let p: u64 = self.0 as u64 * rhs.0 as u64;
        M31((p % (P as u64)) as u32)
    }
}

} // verus!
