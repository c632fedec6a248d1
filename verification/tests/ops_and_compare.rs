use qtensor::TensorError;
use qtensor::compare::{CompareOutcome, Tolerance, compare};
use qtensor::fixed::{Elem, SCALE_ONE, VAL_MAX};
use qtensor::ops::{
    BinaryOp, OpOutput, RequantPolicy, UnaryOp, apply_binary, apply_unary, binary_float,
    unary_float,
};
use qtensor::progress::DownloadProgress;
use qtensor::quantize::{compute_scheme, dequantize, quantize};
use qtensor::scheme::{Granularity, Mode};
use qtensor::tensor::FloatTensor;

fn micros(x: f32) -> i64 {
    (x as f64 * 1_000_000.0).round() as i64
}

fn float_tensor(shape: Vec<usize>, values: &[f32]) -> FloatTensor {
    let mut data: Vec<Elem> = Vec::new();
    for v in values {
        data.push(Elem::Num(micros(*v)));
    }
    FloatTensor::new(shape, data).unwrap()
}

#[test]
fn unary_operations_preserve_shape() {
    let x = float_tensor(vec![2, 1, 3], &[-1.0, 2.0, -3.0, 4.0, -5.0, 6.0]);
    for op in [UnaryOp::Sqrt, UnaryOp::Abs, UnaryOp::Neg] {
        let r = unary_float(&x, op);
        assert_eq!(r.shape, x.shape);
        assert_eq!(r.data.len(), x.data.len());
    }
    let scheme = compute_scheme(&x, Mode::Affine, Granularity::PerTensor, 8).unwrap();
    let q = quantize(&x, scheme).unwrap();
    match apply_unary(&q, UnaryOp::Abs, true, RequantPolicy::Recompute) {
        OpOutput::Quantized(out) => assert_eq!(out.shape, x.shape),
        OpOutput::Floating(_) => panic!("asked for a quantized result"),
    }
}

#[test]
fn sqrt_of_negative_value_yields_undefined_sentinel_only_there() {
    let x = float_tensor(vec![3], &[4.0, -1.0, 9.0]);
    let r = unary_float(&x, UnaryOp::Sqrt);
    assert_eq!(r.data[0], Elem::Num(micros(2.0)));
    assert_eq!(r.data[1], Elem::Undefined);
    assert_eq!(r.data[2], Elem::Num(micros(3.0)));
}

#[test]
fn sqrt_of_negative_after_dequantization_propagates_sentinel() {
    let x = float_tensor(vec![2], &[-4.0, 4.0]);
    let scheme = compute_scheme(&x, Mode::Symmetric, Granularity::PerTensor, 8).unwrap();
    let q = quantize(&x, scheme).unwrap();
    let out = match apply_unary(&q, UnaryOp::Sqrt, false, RequantPolicy::Auto) {
        OpOutput::Floating(f) => f,
        OpOutput::Quantized(_) => panic!("asked for a floating result"),
    };
    assert_eq!(out.data[0], Elem::Undefined);
    assert!(matches!(out.data[1], Elem::Num(_)));
}

#[test]
fn unary_abs_and_neg_are_exact() {
    let x = float_tensor(vec![2], &[-2.5, 1.5]);
    let a = unary_float(&x, UnaryOp::Abs);
    assert_eq!(a.data[0], Elem::Num(micros(2.5)));
    assert_eq!(a.data[1], Elem::Num(micros(1.5)));
    let n = unary_float(&x, UnaryOp::Neg);
    assert_eq!(n.data[0], Elem::Num(micros(2.5)));
    assert_eq!(n.data[1], Elem::Num(micros(-1.5)));
}

#[test]
fn binary_operations_compute_exact_fixed_point_values() {
    let a = float_tensor(vec![2], &[1.5, -2.0]);
    let b = float_tensor(vec![2], &[0.25, 3.0]);
    let sum = binary_float(&a, &b, BinaryOp::Add).unwrap();
    assert_eq!(sum.data[0], Elem::Num(micros(1.75)));
    assert_eq!(sum.data[1], Elem::Num(micros(1.0)));
    let diff = binary_float(&a, &b, BinaryOp::Sub).unwrap();
    assert_eq!(diff.data[0], Elem::Num(micros(1.25)));
    assert_eq!(diff.data[1], Elem::Num(micros(-5.0)));
    let prod = binary_float(&a, &b, BinaryOp::Mul).unwrap();
    assert_eq!(prod.data[0], Elem::Num(micros(0.375)));
    assert_eq!(prod.data[1], Elem::Num(micros(-6.0)));
}

#[test]
fn binary_shape_mismatch_is_rejected_without_partial_result() {
    let a = float_tensor(vec![2], &[1.0, 2.0]);
    let b = float_tensor(vec![3], &[1.0, 2.0, 3.0]);
    assert_eq!(
        binary_float(&a, &b, BinaryOp::Add).unwrap_err(),
        TensorError::ShapeMismatch
    );
}

#[test]
fn undefined_propagates_through_binary_operations() {
    let a = FloatTensor::new(vec![2], vec![Elem::Undefined, Elem::Num(micros(1.0))]).unwrap();
    let b = float_tensor(vec![2], &[5.0, 5.0]);
    let sum = binary_float(&a, &b, BinaryOp::Add).unwrap();
    assert_eq!(sum.data[0], Elem::Undefined);
    assert_eq!(sum.data[1], Elem::Num(micros(6.0)));
}

#[test]
fn saturating_arithmetic_clamps_at_the_value_range_edge() {
    let a = FloatTensor::new(vec![1], vec![Elem::Num(VAL_MAX)]).unwrap();
    let b = FloatTensor::new(vec![1], vec![Elem::Num(VAL_MAX)]).unwrap();
    let sum = binary_float(&a, &b, BinaryOp::Add).unwrap();
    assert_eq!(sum.data[0], Elem::Num(VAL_MAX));
    let prod = binary_float(&a, &b, BinaryOp::Mul).unwrap();
    assert_eq!(prod.data[0], Elem::Num(VAL_MAX));
}

#[test]
fn native_negation_kernel_keeps_the_symmetric_scheme() {
    let x = float_tensor(vec![3], &[-2.0, 0.5, 2.0]);
    let scheme = compute_scheme(&x, Mode::Symmetric, Granularity::PerTensor, 8).unwrap();
    let q = quantize(&x, scheme).unwrap();
    let out = match apply_unary(&q, UnaryOp::Neg, true, RequantPolicy::Auto) {
        OpOutput::Quantized(t) => t,
        OpOutput::Floating(_) => panic!("asked for a quantized result"),
    };
    assert_eq!(out.scheme.scales, q.scheme.scales);
    assert_eq!(out.scheme.zero_points, q.scheme.zero_points);
    for i in 0..3 {
        assert_eq!(out.data[i], -q.data[i]);
    }
}

#[test]
fn requantize_reuse_keeps_and_recompute_replaces_the_scheme() {
    let x = float_tensor(vec![3], &[1.0, 9.0, 25.0]);
    let scheme = compute_scheme(&x, Mode::Affine, Granularity::PerTensor, 8).unwrap();
    let q = quantize(&x, scheme).unwrap();

    let reused = match apply_unary(&q, UnaryOp::Sqrt, true, RequantPolicy::Reuse) {
        OpOutput::Quantized(t) => t,
        OpOutput::Floating(_) => panic!("asked for a quantized result"),
    };
    assert_eq!(reused.scheme.scales, q.scheme.scales);

    let recomputed = match apply_unary(&q, UnaryOp::Sqrt, true, RequantPolicy::Recompute) {
        OpOutput::Quantized(t) => t,
        OpOutput::Floating(_) => panic!("asked for a quantized result"),
    };
    // The square roots span [1, 5]: a much tighter range, hence a
    // smaller scale than the input's.
    assert!(recomputed.scheme.scales[0] < q.scheme.scales[0]);

    // Square roots of the input all fit the input's range [1, 25], so
    // the default policy keeps the scheme.
    let auto = match apply_unary(&q, UnaryOp::Sqrt, true, RequantPolicy::Auto) {
        OpOutput::Quantized(t) => t,
        OpOutput::Floating(_) => panic!("asked for a quantized result"),
    };
    assert_eq!(auto.scheme.scales, q.scheme.scales);
}

#[test]
fn auto_policy_recomputes_when_results_leave_the_old_range() {
    // An affine scheme over [0, 5] cannot represent negative values;
    // negating forces the default policy to compute a fresh scheme.
    let x = float_tensor(vec![2], &[0.0, 5.0]);
    let scheme = compute_scheme(&x, Mode::Affine, Granularity::PerTensor, 8).unwrap();
    let q = quantize(&x, scheme).unwrap();
    let out = match apply_unary(&q, UnaryOp::Neg, true, RequantPolicy::Auto) {
        OpOutput::Quantized(t) => t,
        OpOutput::Floating(_) => panic!("asked for a quantized result"),
    };
    assert_ne!(out.scheme.zero_points, q.scheme.zero_points);
    let back = dequantize(&out);
    let expected = float_tensor(vec![2], &[0.0, -5.0]);
    let verdict = compare(&back, &expected, &Tolerance::absolute(micros(0.05))).unwrap();
    assert_eq!(verdict, CompareOutcome::Pass);
}

#[test]
fn quantized_binary_add_approximates_the_floating_sum() {
    let a = float_tensor(vec![2], &[1.0, 2.0]);
    let b = float_tensor(vec![2], &[0.5, 0.25]);
    let sa = compute_scheme(&a, Mode::Affine, Granularity::PerTensor, 8).unwrap();
    let sb = compute_scheme(&b, Mode::Affine, Granularity::PerTensor, 8).unwrap();
    let qa = quantize(&a, sa).unwrap();
    let qb = quantize(&b, sb).unwrap();
    let out = match apply_binary(&qa, &qb, BinaryOp::Add, false, RequantPolicy::Auto).unwrap() {
        OpOutput::Floating(f) => f,
        OpOutput::Quantized(_) => panic!("asked for a floating result"),
    };
    let expected = float_tensor(vec![2], &[1.5, 2.25]);
    let verdict = compare(&out, &expected, &Tolerance::absolute(micros(0.05))).unwrap();
    assert_eq!(verdict, CompareOutcome::Pass);
}

#[test]
fn quantized_binary_shape_mismatch_is_rejected() {
    let a = float_tensor(vec![2], &[1.0, 2.0]);
    let b = float_tensor(vec![3], &[1.0, 2.0, 3.0]);
    let sa = compute_scheme(&a, Mode::Affine, Granularity::PerTensor, 8).unwrap();
    let sb = compute_scheme(&b, Mode::Affine, Granularity::PerTensor, 8).unwrap();
    let qa = quantize(&a, sa).unwrap();
    let qb = quantize(&b, sb).unwrap();
    assert_eq!(
        apply_binary(&qa, &qb, BinaryOp::Add, false, RequantPolicy::Auto).unwrap_err(),
        TensorError::ShapeMismatch
    );
}

#[test]
fn comparator_is_reflexive_even_with_undefined_elements() {
    let x = FloatTensor::new(
        vec![3],
        vec![Elem::Num(micros(1.5)), Elem::Undefined, Elem::Num(micros(-7.0))],
    )
    .unwrap();
    for tol in [
        Tolerance::absolute(0),
        Tolerance::relative(0),
        Tolerance::combined(0, 0),
        Tolerance::absolute(micros(0.1)),
    ] {
        let verdict = compare(&x, &x, &tol).unwrap();
        assert_eq!(verdict, CompareOutcome::Pass);
    }
}

#[test]
fn comparator_passes_stay_passes_under_larger_tolerance() {
    let a = float_tensor(vec![2], &[1.0, 2.05]);
    let e = float_tensor(vec![2], &[1.0, 2.0]);
    let tight = compare(&a, &e, &Tolerance::absolute(micros(0.01))).unwrap();
    assert!(matches!(tight, CompareOutcome::Fail(_)));
    let passing = compare(&a, &e, &Tolerance::absolute(micros(0.06))).unwrap();
    assert_eq!(passing, CompareOutcome::Pass);
    let looser = compare(&a, &e, &Tolerance::absolute(micros(0.5))).unwrap();
    assert_eq!(looser, CompareOutcome::Pass);
}

#[test]
fn relative_tolerance_scales_with_the_expected_magnitude() {
    let a = float_tensor(vec![2], &[101.0, 1.01]);
    let e = float_tensor(vec![2], &[100.0, 1.0]);
    // One percent of 100 covers the unit gap; one percent of 1 does not
    // cover a hundredth... it covers exactly 0.01.
    let verdict = compare(&a, &e, &Tolerance::relative(micros(0.01))).unwrap();
    assert_eq!(verdict, CompareOutcome::Pass);
    let tighter = compare(&a, &e, &Tolerance::relative(micros(0.005))).unwrap();
    assert!(matches!(tighter, CompareOutcome::Fail(_)));
}

#[test]
fn comparator_shape_mismatch_is_a_hard_failure() {
    let a = float_tensor(vec![2], &[1.0, 2.0]);
    let e = float_tensor(vec![2, 1], &[1.0, 2.0]);
    assert_eq!(
        compare(&a, &e, &Tolerance::absolute(micros(10.0))).unwrap_err(),
        TensorError::ShapeMismatch
    );
}

#[test]
fn failure_diagnostic_names_an_offending_index() {
    let a = float_tensor(vec![3], &[1.0, 5.0, 3.0]);
    let e = float_tensor(vec![3], &[1.0, 2.0, 3.0]);
    let verdict = compare(&a, &e, &Tolerance::absolute(micros(0.5))).unwrap();
    match verdict {
        CompareOutcome::Fail(m) => {
            assert_eq!(m.index, 1);
            assert_eq!(m.actual, Elem::Num(micros(5.0)));
            assert_eq!(m.expected, Elem::Num(micros(2.0)));
            assert_eq!(m.allowed, micros(0.5));
        },
        CompareOutcome::Pass => panic!("comparison should fail at index 1"),
    }
}

#[test]
fn undefined_never_matches_a_definite_value() {
    let a = FloatTensor::new(vec![1], vec![Elem::Undefined]).unwrap();
    let e = float_tensor(vec![1], &[0.0]);
    let verdict = compare(&a, &e, &Tolerance::absolute(i64::MAX)).unwrap();
    assert!(matches!(verdict, CompareOutcome::Fail(_)));
}

#[test]
fn end_to_end_sqrt_is_not_bit_exact_at_loose_scale() {
    // Quantization error dominates tight tolerances: the round-tripped
    // values differ from the true ones, yet stay well within a tenth.
    let tensor = float_tensor(vec![2, 3], &[0.0, 1.0, 2.0, 3.0, 4.0, 5.0]);
    let scheme = compute_scheme(&tensor, Mode::Affine, Granularity::PerTensor, 8).unwrap();
    let q = quantize(&tensor, scheme).unwrap();
    let back = dequantize(&q);
    let exact = compare(&back, &tensor, &Tolerance::absolute(0)).unwrap();
    assert!(matches!(exact, CompareOutcome::Fail(_)));
    let loose = compare(&back, &tensor, &Tolerance::absolute(micros(0.1))).unwrap();
    assert_eq!(loose, CompareOutcome::Pass);
}

#[test]
fn download_progress_caps_at_the_announced_total() {
    let mut p = DownloadProgress::new(100);
    assert!(!p.is_complete());
    assert_eq!(p.record_chunk(40), 40);
    assert_eq!(p.record_chunk(40), 80);
    assert_eq!(p.record_chunk(40), 100);
    assert!(p.is_complete());
    assert_eq!(p.record_chunk(1), 100);
}

#[test]
fn one_scale_one_is_one_unit() {
    assert_eq!(SCALE_ONE, 1_000_000);
    assert_eq!(micros(1.0), SCALE_ONE);
}
