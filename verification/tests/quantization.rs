use qtensor::TensorError;
use qtensor::compare::{CompareOutcome, Tolerance, compare};
use qtensor::fixed::{Elem, SCALE_ONE, VAL_MAX};
use qtensor::ops::{OpOutput, RequantPolicy, UnaryOp, apply_unary};
use qtensor::quantize::{compute_scheme, dequantize, quantize};
use qtensor::scheme::{Granularity, Mode, int_bounds};
use qtensor::tensor::FloatTensor;

fn micros(x: f32) -> i64 {
    (x as f64 * 1_000_000.0).round() as i64
}

fn float_tensor(shape: Vec<usize>, values: &[f32]) -> FloatTensor {
    let mut data: Vec<Elem> = Vec::new();
    for v in values {
        data.push(Elem::Num(micros(*v)));
    }
    FloatTensor::new(shape, data).unwrap()
}

#[test]
fn should_support_sqrt_ops() {
    let tensor = float_tensor(vec![2, 3], &[0.0, 1.0, 2.0, 3.0, 4.0, 5.0]);
    let scheme = compute_scheme(&tensor, Mode::Affine, Granularity::PerTensor, 8).unwrap();
    let q = quantize(&tensor, scheme).unwrap();

    let output = apply_unary(&q, UnaryOp::Sqrt, false, RequantPolicy::Auto);
    let result = match output {
        OpOutput::Floating(f) => f,
        OpOutput::Quantized(_) => panic!("expected a floating result"),
    };
    let expected = float_tensor(
        vec![2, 3],
        &[0.0, 1.0, core::f32::consts::SQRT_2, 1.73205, 2.0, 2.2360],
    );

    let verdict = compare(&result, &expected, &Tolerance::absolute(micros(1e-1))).unwrap();
    assert_eq!(verdict, CompareOutcome::Pass);
}

#[test]
fn round_trip_error_is_at_most_half_a_scale_step() {
    let x = float_tensor(vec![5], &[-3.5, -1.25, 0.0, 2.75, 7.0]);
    let scheme = compute_scheme(&x, Mode::Affine, Granularity::PerTensor, 8).unwrap();
    let scale = scheme.scales[0];
    let q = quantize(&x, scheme).unwrap();
    let y = dequantize(&q);
    for i in 0..5 {
        let (Elem::Num(orig), Elem::Num(back)) = (x.data[i], y.data[i]) else {
            panic!("expected definite values");
        };
        assert!(2 * (back - orig).abs() <= scale, "index {i}: {back} vs {orig}");
    }
}

#[test]
fn symmetric_round_trip_holds_too() {
    let x = float_tensor(vec![4], &[-8.0, -2.0, 2.0, 8.0]);
    let scheme = compute_scheme(&x, Mode::Symmetric, Granularity::PerTensor, 8).unwrap();
    assert_eq!(scheme.zero_points, vec![0]);
    let scale = scheme.scales[0];
    let q = quantize(&x, scheme).unwrap();
    let y = dequantize(&q);
    for i in 0..4 {
        let (Elem::Num(orig), Elem::Num(back)) = (x.data[i], y.data[i]) else {
            panic!("expected definite values");
        };
        assert!(2 * (back - orig).abs() <= scale);
    }
}

#[test]
fn constant_tensor_gets_a_positive_scale_never_a_division_error() {
    let x = float_tensor(vec![3], &[4.25, 4.25, 4.25]);
    let affine = compute_scheme(&x, Mode::Affine, Granularity::PerTensor, 8).unwrap();
    assert!(affine.scales[0] > 0);
    let symmetric = compute_scheme(&x, Mode::Symmetric, Granularity::PerTensor, 8).unwrap();
    assert!(symmetric.scales[0] > 0);

    // All-zero input: the widened range is a single point; the sentinel
    // scale of one unit applies.
    let zeros = float_tensor(vec![2], &[0.0, 0.0]);
    let affine0 = compute_scheme(&zeros, Mode::Affine, Granularity::PerTensor, 8).unwrap();
    assert_eq!(affine0.scales[0], SCALE_ONE);
    let symmetric0 = compute_scheme(&zeros, Mode::Symmetric, Granularity::PerTensor, 8).unwrap();
    assert_eq!(symmetric0.scales[0], SCALE_ONE);
}

#[test]
fn computed_scales_are_positive_for_ordinary_input() {
    let x = float_tensor(vec![2, 2], &[-1.0, 0.5, 0.25, 1.5]);
    for mode in [Mode::Symmetric, Mode::Affine] {
        let s = compute_scheme(&x, mode, Granularity::PerTensor, 8).unwrap();
        assert!(s.scales.iter().all(|v| *v > 0));
    }
}

#[test]
fn eight_bit_bounds_are_signed_byte_range() {
    let (lo, hi) = int_bounds(8);
    assert_eq!(lo, -128);
    assert_eq!(hi, 127);
    let (lo2, hi2) = int_bounds(2);
    assert_eq!(lo2, -2);
    assert_eq!(hi2, 1);
}

#[test]
fn quantize_clamps_out_of_range_values_instead_of_wrapping() {
    let x = float_tensor(vec![2], &[0.0, 10.0]);
    let scheme = compute_scheme(&x, Mode::Affine, Granularity::PerTensor, 8).unwrap();
    // A tensor with a wider range than the scheme was computed from.
    let wide = float_tensor(vec![2], &[-100.0, 100.0]);
    let q = quantize(&wide, scheme).unwrap();
    assert_eq!(q.data[0], -128);
    assert_eq!(q.data[1], 127);
}

#[test]
fn per_channel_scheme_scales_each_channel_independently() {
    // Shape [2, 2], channels along axis 1: channel 0 holds small values,
    // channel 1 large ones.
    let x = float_tensor(vec![2, 2], &[0.1, 100.0, 0.2, 200.0]);
    let scheme = compute_scheme(&x, Mode::Affine, Granularity::PerChannel(1), 8).unwrap();
    assert_eq!(scheme.scales.len(), 2);
    assert!(scheme.scales[0] < scheme.scales[1]);
    let q = quantize(&x, scheme).unwrap();
    let y = dequantize(&q);
    let scale0 = q.scheme.scales[0];
    let scale1 = q.scheme.scales[1];
    for i in 0..4 {
        let (Elem::Num(orig), Elem::Num(back)) = (x.data[i], y.data[i]) else {
            panic!("expected definite values");
        };
        let scale = if i % 2 == 0 { scale0 } else { scale1 };
        assert!(2 * (back - orig).abs() <= scale, "index {i}");
    }
}

#[test]
fn per_channel_axis_out_of_range_is_a_configuration_error() {
    let x = float_tensor(vec![2, 2], &[1.0, 2.0, 3.0, 4.0]);
    let r = compute_scheme(&x, Mode::Affine, Granularity::PerChannel(2), 8);
    assert_eq!(r.unwrap_err(), TensorError::AxisMismatch);
}

#[test]
fn unsupported_width_is_rejected_before_any_computation() {
    let x = float_tensor(vec![1], &[1.0]);
    assert_eq!(
        compute_scheme(&x, Mode::Affine, Granularity::PerTensor, 1).unwrap_err(),
        TensorError::UnsupportedWidth
    );
    assert_eq!(
        compute_scheme(&x, Mode::Affine, Granularity::PerTensor, 17).unwrap_err(),
        TensorError::UnsupportedWidth
    );
}

#[test]
fn quantize_rejects_scheme_that_does_not_fit_the_shape() {
    let x = float_tensor(vec![2, 3], &[1.0, 2.0, 3.0, 4.0, 5.0, 6.0]);
    let other = float_tensor(vec![2, 2], &[1.0, 2.0, 3.0, 4.0]);
    let scheme = compute_scheme(&other, Mode::Affine, Granularity::PerChannel(1), 8).unwrap();
    assert_eq!(quantize(&x, scheme).unwrap_err(), TensorError::AxisMismatch);
}

#[test]
fn tensor_construction_rejects_wrong_element_count_and_range() {
    let r = FloatTensor::new(vec![2, 2], vec![Elem::Num(0); 3]);
    assert_eq!(r.unwrap_err(), TensorError::InvalidBuffer);
    let r = FloatTensor::new(vec![1], vec![Elem::Num(VAL_MAX + 1)]);
    assert_eq!(r.unwrap_err(), TensorError::InvalidBuffer);
    assert!(FloatTensor::new(vec![1], vec![Elem::Num(VAL_MAX)]).is_ok());
}

#[test]
fn empty_and_zero_dimension_tensors_are_handled() {
    let x = FloatTensor::new(vec![0, 4], Vec::new()).unwrap();
    let scheme = compute_scheme(&x, Mode::Affine, Granularity::PerTensor, 8).unwrap();
    let q = quantize(&x, scheme).unwrap();
    let y = dequantize(&q);
    assert_eq!(y.data.len(), 0);
    assert_eq!(y.shape, vec![0, 4]);
}

#[test]
fn undefined_elements_quantize_to_the_zero_point() {
    let x = FloatTensor::new(
        vec![2],
        vec![Elem::Num(micros(1.0)), Elem::Undefined],
    )
    .unwrap();
    let scheme = compute_scheme(&x, Mode::Affine, Granularity::PerTensor, 8).unwrap();
    let zp = scheme.zero_points[0];
    let q = quantize(&x, scheme).unwrap();
    assert_eq!(q.data[1], zp);
    let y = dequantize(&q);
    // The zero point decodes to real zero.
    assert_eq!(y.data[1], Elem::Num(0));
}
