//! The hierarchical folding reduction and its mathematical model.
//!
//! `fold_spec` is the model: a sequence of `2^k` base-field values and `k`
//! extension-field factors reduce, level by level, to one extension-field
//! value. `fold` computes it; `fold_gpu` is the acceleration hook and must
//! agree with `fold` on every input.

use crate::field::ExtensionOf;
use crate::field::Field;
use vstd::arithmetic::power2::lemma2_to64;
use vstd::arithmetic::power2::lemma_pow2_pos;
use vstd::arithmetic::power2::lemma_pow2_strictly_increases;
use vstd::arithmetic::power2::lemma_pow2_unfold;
use vstd::arithmetic::power2::pow2;
use vstd::prelude::*;
use vstd::slice::slice_index_get;
use vstd::slice::slice_subrange;

verus! {

/// The mathematical folding reduction.
///
/// With no factors left the single value is embedded unchanged. Otherwise the
/// values split into their first and second halves, each half folds with the
/// remaining factors, and the two results combine as `left + right * factor`,
/// where `factor` is the first factor in the list (the one for the outermost
/// level).
pub open spec fn fold_spec<F: Field, E: ExtensionOf<F>>(values: Seq<F>, factors: Seq<E>) -> E
    recommends
        values.len() == pow2(factors.len()),
    decreases factors.len(),
{
    if factors.len() == 0 {
        E::spec_embed(values[0])
    } else {
        let half: int = values.len() as int / 2;
        let tail = factors.subrange(1, factors.len() as int);
        let lhs = fold_spec::<F, E>(values.subrange(0, half), tail);
        let rhs = fold_spec::<F, E>(values.subrange(half, values.len() as int), tail);
        lhs.spec_add(rhs.spec_mul(factors[0]))
    }
}

/// Folding well-formed values with well-formed factors yields a well-formed
/// extension-field value: the reduction always produces a field element.
pub proof fn lemma_fold_spec_wf<F: Field, E: ExtensionOf<F>>(values: Seq<F>, factors: Seq<E>)
    requires
        values.len() == pow2(factors.len()),
        forall|i: int| 0 <= i < values.len() ==> values[i].wf(),
        forall|i: int| 0 <= i < factors.len() ==> factors[i].wf(),
    ensures
        fold_spec::<F, E>(values, factors).wf(),
    decreases factors.len(),
{
    if factors.len() == 0 {
        lemma2_to64();
        E::lemma_embed_wf(values[0]);
    } else {
        lemma_pow2_unfold(factors.len());
        lemma_pow2_pos((factors.len() - 1) as nat);
        let half: int = values.len() as int / 2;
        let tail = factors.subrange(1, factors.len() as int);
        lemma_fold_spec_wf::<F, E>(values.subrange(0, half), tail);
        lemma_fold_spec_wf::<F, E>(values.subrange(half, values.len() as int), tail);
        let lhs = fold_spec::<F, E>(values.subrange(0, half), tail);
        let rhs = fold_spec::<F, E>(values.subrange(half, values.len() as int), tail);
        rhs.lemma_mul_wf(factors[0]);
        lhs.lemma_add_wf(rhs.spec_mul(factors[0]));
    }
}

/// A single value folds with zero factors to that value embedded unchanged
/// into the extension field.
pub proof fn lemma_fold_single<F: Field, E: ExtensionOf<F>>(v: F)
    ensures
        fold_spec::<F, E>(seq![v], Seq::<E>::empty()) == E::spec_embed(v),
{
}

/// Folding is affine in the outermost folding factor: with the values fixed,
/// the result is `l + r * x`, where `l` and `r` are the folds of the two
/// halves under the remaining factors and do not depend on `x`.
pub proof fn lemma_fold_affine_in_top_factor<F: Field, E: ExtensionOf<F>>(
    values: Seq<F>,
    x: E,
    tail: Seq<E>,
)
    requires
        values.len() == pow2(tail.len() + 1),
    ensures
        ({
            let half: int = values.len() as int / 2;
            let l = fold_spec::<F, E>(values.subrange(0, half), tail);
            let r = fold_spec::<F, E>(values.subrange(half, values.len() as int), tail);
            fold_spec::<F, E>(values, seq![x] + tail) == l.spec_add(r.spec_mul(x))
        }),
{
    let factors = seq![x] + tail;
    assert(factors.len() == tail.len() + 1);
    assert(factors[0] == x);
    assert(factors.subrange(1, factors.len() as int) =~= tail);
}

/// Folds `values` by a hierarchical application of `folding_factors`.
///
/// With factors `[x, y, z]` and eight values `a..=h` the reduction tree is
///
/// ```text
///               n1+x*n2
///           /           \
///       n3+y*n4       n5+y*n6
///      /      \       /      \
/// n3=a+z*b n4=c+z*d n5=e+z*f n6=g+z*h
/// ```
///
/// so the first factor weighs the outermost combine and the last factor the
/// innermost one. The result equals `fold_spec` of the inputs: the reduction
/// is deterministic, a function of the values and factors alone.
pub fn fold<F: Field, E: ExtensionOf<F>>(values: &[F], folding_factors: &[E]) -> (r: E)
    requires
        values@.len() == pow2(folding_factors@.len() as nat),
        forall|i: int| 0 <= i < values@.len() ==> values@[i].wf(),
        forall|i: int| 0 <= i < folding_factors@.len() ==> folding_factors@[i].wf(),
    ensures
        r == fold_spec::<F, E>(values@, folding_factors@),
    decreases folding_factors@.len(),
{
    let n: usize = values.len();
    if n == 1 {
        proof {
            if folding_factors@.len() > 0 {
                lemma_pow2_unfold(folding_factors@.len() as nat);
                lemma_pow2_pos((folding_factors@.len() - 1) as nat);
            }
        }
        return E::embed(*slice_index_get(values, 0));
    }
    proof {
        lemma2_to64();
        assert(folding_factors@.len() > 0);
        lemma_pow2_unfold(folding_factors@.len() as nat);
        lemma_pow2_pos((folding_factors@.len() - 1) as nat);
    }
    let half: usize = n / 2;
    let lhs_values = slice_subrange(values, 0, half);
    let rhs_values = slice_subrange(values, half, n);
    let folding_factor = *slice_index_get(folding_factors, 0);
    let tail = slice_subrange(folding_factors, 1, folding_factors.len());
    let lhs_val = fold(lhs_values, tail);
    let rhs_val = fold(rhs_values, tail);
    proof {
        lemma_fold_spec_wf::<F, E>(lhs_values@, tail@);
        lemma_fold_spec_wf::<F, E>(rhs_values@, tail@);
        fold_spec::<F, E>(rhs_values@, tail@).lemma_mul_wf(folding_factor);
    }
    lhs_val.add(rhs_val.mul(folding_factor))
}

/// The acceleration hook: a dispatch point for routing large inputs to a
/// faster execution strategy. It computes the same reduction as [`fold`] and
/// is observably identical to it: same precondition, same result.
pub fn fold_gpu<F: Field, E: ExtensionOf<F>>(values: &[F], folding_factors: &[E]) -> (r: E)
    requires
        values@.len() == pow2(folding_factors@.len() as nat),
        forall|i: int| 0 <= i < values@.len() ==> values@[i].wf(),
        forall|i: int| 0 <= i < folding_factors@.len() ==> folding_factors@[i].wf(),
    ensures
        r == fold_spec::<F, E>(values@, folding_factors@),
{
    fold(values, folding_factors)
}

/// Total variant of [`fold`]: checks the size relation instead of assuming
/// it. Returns `Some` with the fold exactly when the number of values is two
/// to the power of the number of factors, and `None` on every other input —
/// the one failure mode of the reduction.
pub fn try_fold<F: Field, E: ExtensionOf<F>>(values: &[F], folding_factors: &[E]) -> (r: Option<
    E,
>)
    requires
        forall|i: int| 0 <= i < values@.len() ==> values@[i].wf(),
        forall|i: int| 0 <= i < folding_factors@.len() ==> folding_factors@[i].wf(),
    ensures
        values@.len() == pow2(folding_factors@.len() as nat) ==> r == Some(
            fold_spec::<F, E>(values@, folding_factors@),
        ),
        values@.len() != pow2(folding_factors@.len() as nat) ==> r is None,
{
    let n: usize = values.len();
    let k: usize = folding_factors.len();
    let mut m: usize = 1;
    let mut i: usize = 0;
    proof {
        lemma2_to64();
    }
    while i < k
        invariant
            i <= k,
            m == pow2(i as nat),
            n == values@.len(),
            k == folding_factors@.len(),
        decreases k - i,
    {
        if m > n / 2 {
            proof {
                lemma_pow2_unfold((i + 1) as nat);
                if i + 1 < k {
                    lemma_pow2_strictly_increases((i + 1) as nat, k as nat);
                }
            }
            return None;
        }
        m = m * 2;
        i = i + 1;
        proof {
            lemma_pow2_unfold(i as nat);
        }
    }
    if m == n {
        Some(fold(values, folding_factors))
    } else {
        None
    }
}

} // verus!
