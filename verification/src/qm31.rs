//! The degree-4 extension of the Mersenne-31 field, built as
//! `CM31[u] / (u^2 - (2 + i))`. An element `QM31(a, b)` stands for
//! `a + b*u` with `a, b` in `CM31`.

use crate::cm31::CM31;
use crate::field::ExtensionOf;
use crate::field::Field;
use crate::m31::M31;
use crate::m31::P;
use vstd::prelude::*;

verus! {

/// An element `a + b*u` of the degree-4 extension of `M31`.
#[derive(Clone, Copy, Debug, PartialEq, Eq)]
pub struct QM31(pub CM31, pub CM31);

/// The irreducible parameter `R = 2 + i`, with `u^2 == R`.
pub open spec fn spec_r() -> CM31 {
    CM31(M31(2), M31(1))
}

impl QM31 {
    /// Builds the element with coordinates `(a + b*i) + (c + d*i)*u` from
    /// representatives that the caller promises are already reduced.
    pub fn from_u32_unchecked(a: u32, b: u32, c: u32, d: u32) -> (r: Self)
        requires
            a < P,
            b < P,
            c < P,
            d < P,
        ensures
            r == (QM31(CM31(M31(a), M31(b)), CM31(M31(c), M31(d)))),
            r.wf(),
    {
        QM31(CM31(M31(a), M31(b)), CM31(M31(c), M31(d)))
    }
}

impl Field for QM31 {
    /// Both coordinates are well-formed `CM31` values.
    open spec fn wf(self) -> bool {
        self.0.wf() && self.1.wf()
    }

    open spec fn spec_add(self, rhs: Self) -> Self {
        QM31(self.0.spec_add(rhs.0), self.1.spec_add(rhs.1))
    }

    /// `(a + b*u) * (c + d*u) == (a*c + R*b*d) + (a*d + b*c)*u`.
    open spec fn spec_mul(self, rhs: Self) -> Self {
        QM31(
            self.0.spec_mul(rhs.0).spec_add(spec_r().spec_mul(self.1.spec_mul(rhs.1))),
            self.0.spec_mul(rhs.1).spec_add(self.1.spec_mul(rhs.0)),
        )
    }

    proof fn lemma_add_wf(self, rhs: Self) {
        self.0.lemma_add_wf(rhs.0);
        self.1.lemma_add_wf(rhs.1);
    }

    proof fn lemma_mul_wf(self, rhs: Self) {
        self.0.lemma_mul_wf(rhs.0);
        self.1.lemma_mul_wf(rhs.1);
        self.0.lemma_mul_wf(rhs.1);
        self.1.lemma_mul_wf(rhs.0);
        spec_r().lemma_mul_wf(self.1.spec_mul(rhs.1));
        self.0.spec_mul(rhs.0).lemma_add_wf(spec_r().spec_mul(self.1.spec_mul(rhs.1)));
        self.0.spec_mul(rhs.1).lemma_add_wf(self.1.spec_mul(rhs.0));
    }

    fn add(self, rhs: Self) -> (r: Self) {
        QM31(self.0.add(rhs.0), self.1.add(rhs.1))
    }

    fn mul(self, rhs: Self) -> (r: Self) {
        proof {
            self.0.lemma_mul_wf(rhs.0);
            self.1.lemma_mul_wf(rhs.1);
            self.0.lemma_mul_wf(rhs.1);
            self.1.lemma_mul_wf(rhs.0);
            spec_r().lemma_mul_wf(self.1.spec_mul(rhs.1));
        }
        let rr = CM31(M31(2), M31(1));
        QM31(
            self.0.mul(rhs.0).add(rr.mul(self.1.mul(rhs.1))),
            self.0.mul(rhs.1).add(self.1.mul(rhs.0)),
        )
    }
}

impl ExtensionOf<M31> for QM31 {
    /// A base-field element embeds as the constant coordinate.
    open spec fn spec_embed(f: M31) -> Self {
        QM31(CM31(f, M31(0)), CM31(M31(0), M31(0)))
    }

    proof fn lemma_embed_wf(f: M31) {
    }

    fn embed(f: M31) -> (r: Self) {
        QM31(CM31(f, M31(0)), CM31(M31(0), M31(0)))
    }
}

} // verus!
