//! Traits for the field arithmetic the fold is generic over: addition and
//! multiplication within a field, and the embedding of a base field into an
//! extension field.

use vstd::prelude::*;

verus! {

/// A finite field, represented by values that satisfy `wf`.
///
/// `spec_add` and `spec_mul` are the mathematical operations; `add` and `mul`
/// are their executable counterparts, which must agree with them exactly.
pub trait Field: Sized + Copy {
    /// The value is a canonical representative of a field element.
    spec fn wf(self) -> bool;

    /// Mathematical sum of two field elements.
    spec fn spec_add(self, rhs: Self) -> Self;

    /// Mathematical product of two field elements.
    spec fn spec_mul(self, rhs: Self) -> Self;

    /// The sum of well-formed elements is well-formed.
    proof fn lemma_add_wf(self, rhs: Self)
        requires
            self.wf(),
            rhs.wf(),
        ensures
            self.spec_add(rhs).wf(),
    ;

    /// The product of well-formed elements is well-formed.
    proof fn lemma_mul_wf(self, rhs: Self)
        requires
            self.wf(),
            rhs.wf(),
        ensures
            self.spec_mul(rhs).wf(),
    ;

    /// Executable addition.
    fn add(self, rhs: Self) -> (r: Self)
        requires
            self.wf(),
            rhs.wf(),
        ensures
            r == self.spec_add(rhs),
    ;

    /// Executable multiplication.
    fn mul(self, rhs: Self) -> (r: Self)
        requires
            self.wf(),
            rhs.wf(),
        ensures
            r == self.spec_mul(rhs),
    ;
}

/// An extension field of `F`: every element of `F` embeds into `Self`.
pub trait ExtensionOf<F: Field>: Field {
    /// Mathematical embedding of a base-field element.
    spec fn spec_embed(f: F) -> Self;

    /// Embedded well-formed elements are well-formed.
    proof fn lemma_embed_wf(f: F)
        requires
            f.wf(),
        ensures
            Self::spec_embed(f).wf(),
    ;

    /// Executable embedding.
    fn embed(f: F) -> (r: Self)
        requires
            f.wf(),
        ensures
            r == Self::spec_embed(f),
    ;
}

} // verus!
