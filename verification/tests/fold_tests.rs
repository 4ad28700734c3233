use hierfold::fold;
use hierfold::fold_gpu;
use hierfold::try_fold;
use hierfold::Field;
use hierfold::M31;
use hierfold::QM31;
use hierfold::P;

#[test]
fn test_fold_works() {
    // Example input: power-of-two values and appropriate folding factors
    let values = vec![
        M31(1),
        M31(2),
        M31(3),
        M31(4),
        M31(5),
        M31(6),
        M31(7),
        M31(8),
    ];
    let folding_factors = vec![
        QM31::from_u32_unchecked(2, 0, 0, 0),
        QM31::from_u32_unchecked(3, 0, 0, 0),
        QM31::from_u32_unchecked(4, 0, 0, 0),
    ];
    let result = fold(&values, &folding_factors);

    let expected = QM31::from_u32_unchecked(358, 0, 0, 0);
    assert_eq!(result, expected, "The fold_recursive result is incorrect");
}

#[test]
fn fold_single_element_embeds_unchanged() {
    let values = vec![M31(5)];
    let folding_factors: Vec<QM31> = vec![];
    let result = fold(&values, &folding_factors);
    assert_eq!(result, QM31::from_u32_unchecked(5, 0, 0, 0));
}

#[test]
fn fold_is_deterministic() {
    let values = vec![
        M31(10),
        M31(20),
        M31(30),
        M31(40),
    ];
    let folding_factors = vec![
        QM31::from_u32_unchecked(7, 11, 13, 17),
        QM31::from_u32_unchecked(19, 23, 29, 31),
    ];
    let first = fold(&values, &folding_factors);
    let second = fold(&values, &folding_factors);
    assert_eq!(first, second);
}

#[test]
fn fold_gpu_matches_fold() {
    let values = vec![
        M31(1),
        M31(2),
        M31(3),
        M31(4),
        M31(5),
        M31(6),
        M31(7),
        M31(8),
    ];
    let folding_factors = vec![
        QM31::from_u32_unchecked(2, 5, 0, 9),
        QM31::from_u32_unchecked(3, 0, 8, 0),
        QM31::from_u32_unchecked(4, 1, 1, 1),
    ];
    assert_eq!(
        fold(&values, &folding_factors),
        fold_gpu(&values, &folding_factors)
    );

    let one_value = vec![M31(42)];
    let no_factors: Vec<QM31> = vec![];
    assert_eq!(fold(&one_value, &no_factors), fold_gpu(&one_value, &no_factors));

    let two_values = vec![M31(3), M31(9)];
    let one_factor = vec![QM31::from_u32_unchecked(6, 7, 8, 9)];
    assert_eq!(fold(&two_values, &one_factor), fold_gpu(&two_values, &one_factor));
}

#[test]
fn fold_is_affine_in_top_factor() {
    // With the values and the lower-level factors fixed, the result is
    // l + r * x for the outermost factor x, where l and r are the folds of
    // the two halves and do not depend on x.
    let values = vec![
        M31(1),
        M31(2),
        M31(3),
        M31(4),
        M31(5),
        M31(6),
        M31(7),
        M31(8),
    ];
    let tail = vec![
        QM31::from_u32_unchecked(3, 1, 4, 1),
        QM31::from_u32_unchecked(5, 9, 2, 6),
    ];
    let l = fold(&values[..4], &tail);
    let r = fold(&values[4..], &tail);
    for x in [
        QM31::from_u32_unchecked(2, 0, 0, 0),
        QM31::from_u32_unchecked(0, 1, 0, 0),
        QM31::from_u32_unchecked(123, 456, 789, 101112),
    ] {
        let factors = vec![x, tail[0], tail[1]];
        assert_eq!(fold(&values, &factors), l.add(r.mul(x)));
    }
}

#[test]
fn try_fold_rejects_non_power_of_two() {
    let values = vec![
        M31(1),
        M31(2),
        M31(3),
        M31(4),
        M31(5),
        M31(6),
    ];
    let two_factors = vec![
        QM31::from_u32_unchecked(2, 0, 0, 0),
        QM31::from_u32_unchecked(3, 0, 0, 0),
    ];
    let three_factors = vec![
        QM31::from_u32_unchecked(2, 0, 0, 0),
        QM31::from_u32_unchecked(3, 0, 0, 0),
        QM31::from_u32_unchecked(4, 0, 0, 0),
    ];
    assert_eq!(try_fold(&values, &two_factors), None);
    assert_eq!(try_fold(&values, &three_factors), None);

    let empty: Vec<M31> = vec![];
    assert_eq!(try_fold(&empty, &two_factors), None);
    let no_factors: Vec<QM31> = vec![];
    assert_eq!(try_fold(&empty, &no_factors), None);
}

#[test]
fn try_fold_rejects_wrong_factor_count() {
    let values = vec![
        M31(1),
        M31(2),
        M31(3),
        M31(4),
        M31(5),
        M31(6),
        M31(7),
        M31(8),
    ];
    let two_factors = vec![
        QM31::from_u32_unchecked(2, 0, 0, 0),
        QM31::from_u32_unchecked(3, 0, 0, 0),
    ];
    assert_eq!(try_fold(&values, &two_factors), None);

    let one_value = vec![M31(5)];
    let one_factor = vec![QM31::from_u32_unchecked(2, 0, 0, 0)];
    assert_eq!(try_fold(&one_value, &one_factor), None);
}

#[test]
fn try_fold_accepts_power_of_two() {
    let values = vec![
        M31(9),
        M31(8),
        M31(7),
        M31(6),
    ];
    let factors = vec![
        QM31::from_u32_unchecked(2, 3, 4, 5),
        QM31::from_u32_unchecked(6, 7, 8, 9),
    ];
    assert_eq!(try_fold(&values, &factors), Some(fold(&values, &factors)));

    let one_value = vec![M31(5)];
    let no_factors: Vec<QM31> = vec![];
    assert_eq!(
        try_fold(&one_value, &no_factors),
        Some(QM31::from_u32_unchecked(5, 0, 0, 0))
    );
}

#[test]
fn fold_reduces_modulo_p() {
    // (P - 1) + 1 * 1 == P, which is 0 in the field.
    let values = vec![M31(P - 1), M31(1)];
    let one = vec![QM31::from_u32_unchecked(1, 0, 0, 0)];
    assert_eq!(fold(&values, &one), QM31::from_u32_unchecked(0, 0, 0, 0));

    // 0 + (P - 1) * (P - 1) == (-1) * (-1) == 1 in the field.
    let values = vec![M31(0), M31(P - 1)];
    let minus_one = vec![QM31::from_u32_unchecked(P - 1, 0, 0, 0)];
    assert_eq!(fold(&values, &minus_one), QM31::from_u32_unchecked(1, 0, 0, 0));
}

#[test]
fn qm31_multiplication_structure() {
    // i * i == -1.
    let i = QM31::from_u32_unchecked(0, 1, 0, 0);
    assert_eq!(i.mul(i), QM31::from_u32_unchecked(P - 1, 0, 0, 0));

    // u * u == 2 + i.
    let u = QM31::from_u32_unchecked(0, 0, 1, 0);
    assert_eq!(u.mul(u), QM31::from_u32_unchecked(2, 1, 0, 0));

    // A full product with every coordinate nonzero:
    // (1, 2, 3, 4) * (5, 6, 7, 8) == (-81, 109, -18, 60).
    let a = QM31::from_u32_unchecked(1, 2, 3, 4);
    let b = QM31::from_u32_unchecked(5, 6, 7, 8);
    assert_eq!(a.mul(b), QM31::from_u32_unchecked(P - 81, 109, P - 18, 60));
}
