//! The complex extension of the Mersenne-31 field: `M31[i] / (i^2 + 1)`.
//! An element `CM31(a, b)` stands for `a + b*i`.

use crate::field::Field;
use crate::m31::M31;
use vstd::prelude::*;

verus! {

/// An element `a + b*i` of the degree-2 extension of `M31`.
#[derive(Clone, Copy, Debug, PartialEq, Eq)]
pub struct CM31(pub M31, pub M31);

impl CM31 {
    /// Both coordinates are canonical representatives.
    pub open spec fn wf(self) -> bool {
        self.0.wf() && self.1.wf()
    }

    /// Mathematical sum, coordinate-wise.
    pub open spec fn spec_add(self, rhs: Self) -> Self {
        CM31(self.0.spec_add(rhs.0), self.1.spec_add(rhs.1))
    }

    /// Mathematical product:
    /// `(a + b*i) * (c + d*i) == (a*c - b*d) + (a*d + b*c)*i`.
    pub open spec fn spec_mul(self, rhs: Self) -> Self {
        CM31(
            self.0.spec_mul(rhs.0).spec_sub(self.1.spec_mul(rhs.1)),
            self.0.spec_mul(rhs.1).spec_add(self.1.spec_mul(rhs.0)),
        )
    }

    /// The sum of well-formed elements is well-formed.
    pub proof fn lemma_add_wf(self, rhs: Self)
        requires
            self.wf(),
            rhs.wf(),
        ensures
            self.spec_add(rhs).wf(),
    {
        self.0.lemma_add_wf(rhs.0);
        self.1.lemma_add_wf(rhs.1);
    }

    /// The product of well-formed elements is well-formed.
    pub proof fn lemma_mul_wf(self, rhs: Self)
        requires
            self.wf(),
            rhs.wf(),
        ensures
            self.spec_mul(rhs).wf(),
    {
        self.0.lemma_mul_wf(rhs.0);
        self.1.lemma_mul_wf(rhs.1);
        self.0.lemma_mul_wf(rhs.1);
        self.1.lemma_mul_wf(rhs.0);
        self.0.spec_mul(rhs.0).lemma_sub_wf(self.1.spec_mul(rhs.1));
        self.0.spec_mul(rhs.1).lemma_add_wf(self.1.spec_mul(rhs.0));
    }

    /// Executable addition.
    pub fn add(self, rhs: Self) -> (r: Self)
        requires
            self.wf(),
            rhs.wf(),
        ensures
            r == self.spec_add(rhs),
    {
        CM31(self.0.add(rhs.0), self.1.add(rhs.1))
    }

    /// Executable multiplication.
    pub fn mul(self, rhs: Self) -> (r: Self)
        requires
            self.wf(),
            rhs.wf(),
        ensures
            r == self.spec_mul(rhs),
    {
        proof {
            self.0.lemma_mul_wf(rhs.0);
            self.1.lemma_mul_wf(rhs.1);
            self.0.lemma_mul_wf(rhs.1);
            self.1.lemma_mul_wf(rhs.0);
        }
        CM31(
            self.0.mul(rhs.0).sub(self.1.mul(rhs.1)),
            self.0.mul(rhs.1).add(self.1.mul(rhs.0)),
        )
    }
}

} // verus!
