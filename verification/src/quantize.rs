//! The quantizer: scheme computation from an observed value range,
//! quantization, and dequantization.

use vstd::prelude::*;
use crate::TensorError;
use crate::fixed::{
    Elem, SCALE_ONE, VAL_MAX, abs_i, clamp_i, elem_defined, elem_ok, elem_val, round_div,
    clamp_i64, lemma_round_div_err, round_div_i64,
};
use crate::scheme::{Granularity, Mode, Scheme, WIDTH_MAX, WIDTH_MIN, int_bounds, qmax_of, qmin_of};
use crate::tensor::{
    FloatTensor, QuantizedTensor, copy_shape, elem_count, scheme_fits, unit_at, unit_count_of,
    unit_layout, unit_of,
};

verus! {

/// The scale that applies to the element at flat index `i`.
pub open spec fn scale_at(scheme: Scheme, shape: Seq<usize>, i: int) -> int {
    scheme.scales@[unit_of(scheme.granularity, shape, i)] as int
}

/// The zero point that applies to the element at flat index `i`.
pub open spec fn zero_at(scheme: Scheme, shape: Seq<usize>, i: int) -> int {
    scheme.zero_points@[unit_of(scheme.granularity, shape, i)] as int
}

/// The integer a definite value quantizes to: divide by the scale,
/// round to the nearest step, shift by the zero point, clamp into the
/// representable range.
pub open spec fn q_elem_num(v: int, s: int, z: int, lo: int, hi: int) -> int {
    clamp_i(round_div(v, s) + z, lo, hi)
}

/// The integer an element quantizes to. An undefined element carries no
/// value and quantizes to the zero point, the encoding of real zero.
pub open spec fn q_elem(e: Elem, s: int, z: int, lo: int, hi: int) -> int {
    match e {
        Elem::Num(v) => q_elem_num(v as int, s, z, lo, hi),
        Elem::Undefined => clamp_i(z, lo, hi),
    }
}

/// The value a stored integer dequantizes to, saturating at the edges
/// of the representable value range.
pub open spec fn dq_elem(q: int, s: int, z: int) -> int {
    clamp_i((q - z) * s, -VAL_MAX as int, VAL_MAX as int)
}

/// The quantized buffer `qdata` is exactly the encoding of `x` under `scheme`.
pub open spec fn quantized_matches(x: FloatTensor, scheme: Scheme, qdata: Seq<i64>) -> bool {
    &&& qdata.len() == x.data@.len()
    &&& forall|i: int|
        0 <= i < qdata.len()
            ==> #[trigger] qdata[i] == q_elem(
                x.data@[i],
                scale_at(scheme, x.shape@, i),
                zero_at(scheme, x.shape@, i),
                qmin_of(scheme.width as int),
                qmax_of(scheme.width as int),
            )
}

/// The floating buffer `fdata` is exactly the decoding of `q`.
pub open spec fn dequantized_matches(q: QuantizedTensor, fdata: Seq<Elem>) -> bool {
    &&& fdata.len() == q.data@.len()
    &&& forall|i: int|
        0 <= i < fdata.len()
            ==> {
                &&& elem_defined(#[trigger] fdata[i])
                &&& elem_val(fdata[i]) == dq_elem(
                    q.data@[i] as int,
                    scale_at(q.scheme, q.shape@, i),
                    zero_at(q.scheme, q.shape@, i),
                )
            }
}

/// Smallest defined value in unit `u` among the first `n` elements;
/// `VAL_MAX` when the unit holds no defined value there.
pub open spec fn min_in_unit(
    data: Seq<Elem>,
    shape: Seq<usize>,
    g: Granularity,
    u: int,
    n: int,
) -> int
    decreases n,
{
    if n <= 0 {
        VAL_MAX as int
    } else {
        let m = min_in_unit(data, shape, g, u, n - 1);
        if elem_defined(data[n - 1]) && unit_of(g, shape, n - 1) == u && elem_val(data[n - 1])
            < m {
            elem_val(data[n - 1])
        } else {
            m
        }
    }
}

/// Largest defined value in unit `u` among the first `n` elements;
/// `-VAL_MAX` when the unit holds no defined value there.
pub open spec fn max_in_unit(
    data: Seq<Elem>,
    shape: Seq<usize>,
    g: Granularity,
    u: int,
    n: int,
) -> int
    decreases n,
{
    if n <= 0 {
        -VAL_MAX as int
    } else {
        let m = max_in_unit(data, shape, g, u, n - 1);
        if elem_defined(data[n - 1]) && unit_of(g, shape, n - 1) == u && elem_val(data[n - 1])
            > m {
            elem_val(data[n - 1])
        } else {
            m
        }
    }
}

/// The scale a unit with observed range `[m, mx]` receives. In affine
/// mode the range is first widened to include real zero, so that the
/// zero point — the integer standing for real zero — always lies in the
/// representable range. A unit without observed values, or whose
/// widened range is a single point, receives the sentinel scale of one
/// unit; a computed scale is never zero.
pub open spec fn unit_scale(mode: Mode, width: int, m: int, mx: int) -> int {
    if mx < m {
        SCALE_ONE as int
    } else {
        match mode {
            Mode::Symmetric => {
                let a = if abs_i(m) > abs_i(mx) { abs_i(m) } else { abs_i(mx) };
                if a == 0 {
                    SCALE_ONE as int
                } else {
                    clamp_i(round_div(a, qmax_of(width)), 1, VAL_MAX as int)
                }
            },
            Mode::Affine => {
                let lo = if m > 0 { 0 } else { m };
                let hi = if mx < 0 { 0 } else { mx };
                if hi == lo {
                    SCALE_ONE as int
                } else {
                    clamp_i(
                        round_div(hi - lo, qmax_of(width) - qmin_of(width)),
                        1,
                        VAL_MAX as int,
                    )
                }
            },
        }
    }
}

/// The zero point a unit with observed range `[m, mx]` receives: zero
/// in symmetric mode; in affine mode the integer that the widened
/// range's minimum maps to, clamped into the representable range.
pub open spec fn unit_zero(mode: Mode, width: int, m: int, mx: int) -> int {
    match mode {
        Mode::Symmetric => 0,
        Mode::Affine => {
            if mx < m {
                0
            } else {
                let lo = if m > 0 { 0 } else { m };
                clamp_i(
                    qmin_of(width) - round_div(lo, unit_scale(mode, width, m, mx)),
                    qmin_of(width),
                    qmax_of(width),
                )
            }
        },
    }
}

/// Compute the minimal scheme that represents the tensor's observed
/// value range under the requested mode, granularity and width.
///
/// Fails with `UnsupportedWidth` exactly when the width is outside
/// `[WIDTH_MIN, WIDTH_MAX]`, and with `AxisMismatch` exactly when a
/// per-channel granularity names an axis the tensor does not have.
/// Every computed scale is positive.
pub fn compute_scheme(x: &FloatTensor, mode: Mode, granularity: Granularity, width: u32) -> (r:
    Result<Scheme, TensorError>)
    requires
        x.wf(),
    ensures
        match r {
            Ok(s) => {
                &&& WIDTH_MIN <= width <= WIDTH_MAX
                &&& (granularity matches Granularity::PerChannel(axis)
                    ==> (axis as int) < x.shape@.len())
                &&& s.wf()
                &&& s.mode == mode
                &&& s.granularity == granularity
                &&& s.width == width
                &&& scheme_fits(s, x.shape@)
                &&& s.scales@.len() == unit_count_of(granularity, x.shape@)
                &&& forall|u: int|
                    0 <= u < s.scales@.len()
                        ==> #[trigger] s.scales@[u] == unit_scale(
                            mode,
                            width as int,
                            min_in_unit(x.data@, x.shape@, granularity, u, x.data@.len() as int),
                            max_in_unit(x.data@, x.shape@, granularity, u, x.data@.len() as int),
                        )
                &&& forall|u: int|
                    0 <= u < s.zero_points@.len()
                        ==> #[trigger] s.zero_points@[u] == unit_zero(
                            mode,
                            width as int,
                            min_in_unit(x.data@, x.shape@, granularity, u, x.data@.len() as int),
                            max_in_unit(x.data@, x.shape@, granularity, u, x.data@.len() as int),
                        )
                &&& forall|u: int| 0 <= u < s.scales@.len() ==> #[trigger] s.scales@[u] > 0
            },
            Err(e) => {
                &&& (e == TensorError::UnsupportedWidth <==> !(WIDTH_MIN <= width <= WIDTH_MAX))
                &&& (e == TensorError::AxisMismatch <==> (WIDTH_MIN <= width <= WIDTH_MAX
                    && (granularity matches Granularity::PerChannel(axis)
                        && (axis as int) >= x.shape@.len())))
                &&& (e == TensorError::UnsupportedWidth || e == TensorError::AxisMismatch)
            },
        },
{
    if width < WIDTH_MIN || width > WIDTH_MAX {
        return Err(TensorError::UnsupportedWidth);
    }
    let units: usize = match granularity {
        Granularity::PerTensor => 1,
        Granularity::PerChannel(axis) => {
            if axis >= x.shape.len() {
                return Err(TensorError::AxisMismatch);
            }
            x.shape[axis]
        },
    };
    let n = x.data.len();
    let layout = unit_layout(granularity, &x.shape, n);
    let stride = layout.0;
    let dim = layout.1;

    let ghost data = x.data@;
    let ghost shape = x.shape@;

    let mut mins: Vec<i64> = Vec::new();
    let mut maxs: Vec<i64> = Vec::new();
    let mut u: usize = 0;
    while u < units
        invariant
            0 <= u <= units,
            mins@.len() == u,
            maxs@.len() == u,
            forall|t: int| 0 <= t < u ==> #[trigger] mins@[t] == VAL_MAX,
            forall|t: int| 0 <= t < u ==> #[trigger] maxs@[t] == -VAL_MAX,
        decreases units - u,
    {
        mins.push(VAL_MAX);
        maxs.push(-VAL_MAX);
        u = u + 1;
    }

    let mut i: usize = 0;
    while i < n
        invariant
            0 <= i <= n,
            n == data.len(),
            data == x.data@,
            shape == x.shape@,
            x.wf(),
            mins@.len() == units,
            maxs@.len() == units,
            (granularity matches Granularity::PerChannel(axis) ==> {
                &&& (axis as int) < shape.len()
                &&& units == shape[axis as int]
            }),
            (granularity is PerTensor ==> units == 1),
            n > 0 ==> (granularity matches Granularity::PerChannel(axis) ==> {
                &&& stride == crate::tensor::prod_from(shape, axis as int + 1)
                &&& dim == shape[axis as int]
                &&& stride >= 1
                &&& dim >= 1
            }),
            forall|t: int|
                0 <= t < units ==> #[trigger] mins@[t] == min_in_unit(
                    data,
                    shape,
                    granularity,
                    t,
                    i as int,
                ),
            forall|t: int|
                0 <= t < units ==> #[trigger] maxs@[t] == max_in_unit(
                    data,
                    shape,
                    granularity,
                    t,
                    i as int,
                ),
        decreases n - i,
    {
        let cu = unit_at(granularity, stride, dim, i, Ghost(shape));
        assert(cu < units);
        match x.data[i] {
            Elem::Num(v) => {
                if v < mins[cu] {
                    mins.set(cu, v);
                }
                if v > maxs[cu] {
                    maxs.set(cu, v);
                }
            },
            Elem::Undefined => {},
        }
        i = i + 1;
    }

    let bounds = int_bounds(width);
    let qmin = bounds.0;
    let qmax = bounds.1;

    let mut scales: Vec<i64> = Vec::new();
    let mut zeros: Vec<i64> = Vec::new();
    let mut u2: usize = 0;
    while u2 < units
        invariant
            0 <= u2 <= units,
            mins@.len() == units,
            maxs@.len() == units,
            scales@.len() == u2,
            zeros@.len() == u2,
            WIDTH_MIN <= width <= WIDTH_MAX,
            qmin == qmin_of(width as int),
            qmax == qmax_of(width as int),
            -32768 <= qmin <= -2,
            1 <= qmax <= 32767,
            n == data.len(),
            data == x.data@,
            shape == x.shape@,
            x.wf(),
            forall|t: int|
                0 <= t < units ==> #[trigger] mins@[t] == min_in_unit(
                    data,
                    shape,
                    granularity,
                    t,
                    n as int,
                ),
            forall|t: int|
                0 <= t < units ==> #[trigger] maxs@[t] == max_in_unit(
                    data,
                    shape,
                    granularity,
                    t,
                    n as int,
                ),
            forall|t: int|
                0 <= t < u2 ==> #[trigger] scales@[t] == unit_scale(
                    mode,
                    width as int,
                    min_in_unit(data, shape, granularity, t, n as int),
                    max_in_unit(data, shape, granularity, t, n as int),
                ),
            forall|t: int|
                0 <= t < u2 ==> #[trigger] zeros@[t] == unit_zero(
                    mode,
                    width as int,
                    min_in_unit(data, shape, granularity, t, n as int),
                    max_in_unit(data, shape, granularity, t, n as int),
                ),
        decreases units - u2,
    {
        let m = mins[u2];
        let mx = maxs[u2];
        proof {
            lemma_minmax_bounded(data, shape, granularity, u2 as int, n as int);
        }
        let scale: i64 = if mx < m {
            SCALE_ONE
        } else {
            match mode {
                Mode::Symmetric => {
                    let am = if m < 0 { -m } else { m };
                    let amx = if mx < 0 { -mx } else { mx };
                    let a = if am > amx { am } else { amx };
                    if a == 0 {
                        SCALE_ONE
                    } else {
                        clamp_i64(round_div_i64(a, qmax), 1, VAL_MAX)
                    }
                },
                Mode::Affine => {
                    let lo = if m > 0 { 0 } else { m };
                    let hi = if mx < 0 { 0 } else { mx };
                    if hi == lo {
                        SCALE_ONE
                    } else {
                        clamp_i64(round_div_i64(hi - lo, qmax - qmin), 1, VAL_MAX)
                    }
                },
            }
        };
        let zero: i64 = match mode {
            Mode::Symmetric => 0,
            Mode::Affine => {
                if mx < m {
                    0
                } else {
                    let lo = if m > 0 { 0 } else { m };
                    clamp_i64(qmin - round_div_i64(lo, scale), qmin, qmax)
                }
            },
        };
        scales.push(scale);
        zeros.push(zero);
        u2 = u2 + 1;
    }

    let s = Scheme { mode, granularity, width, scales, zero_points: zeros };
    Ok(s)
}

/// The running minimum and maximum stay within the representable range.
proof fn lemma_minmax_bounded(data: Seq<Elem>, shape: Seq<usize>, g: Granularity, u: int, n: int)
    requires
        forall|i: int| 0 <= i < data.len() ==> elem_ok(#[trigger] data[i]),
        0 <= n <= data.len(),
    ensures
        -VAL_MAX <= min_in_unit(data, shape, g, u, n) <= VAL_MAX,
        -VAL_MAX <= max_in_unit(data, shape, g, u, n) <= VAL_MAX,
    decreases n,
{
    if n > 0 {
        lemma_minmax_bounded(data, shape, g, u, n - 1);
        assert(elem_ok(data[n - 1]));
    }
}


/// Encode a floating tensor under the given scheme.
///
/// Fails with `AxisMismatch` exactly when the scheme's granularity does
/// not fit the tensor's shape; otherwise every element is divided by
/// its unit's scale, rounded to the nearest step, shifted by the zero
/// point, and clamped into the representable integer range (overflow is
/// clamped, never wrapped).
pub fn quantize(x: &FloatTensor, scheme: Scheme) -> (r: Result<QuantizedTensor, TensorError>)
    requires
        x.wf(),
        scheme.wf(),
    ensures
        r is Ok <==> scheme_fits(scheme, x.shape@),
        match r {
            Ok(q) => {
                &&& q.wf()
                &&& q.shape@ == x.shape@
                &&& q.scheme == scheme
                &&& quantized_matches(*x, scheme, q.data@)
            },
            Err(e) => e == TensorError::AxisMismatch,
        },
{
    let fits: bool = match scheme.granularity {
        Granularity::PerTensor => true,
        Granularity::PerChannel(axis) => {
            axis < x.shape.len() && scheme.scales.len() == x.shape[axis]
        },
    };
    if !fits {
        return Err(TensorError::AxisMismatch);
    }
    let n = x.data.len();
    let layout = unit_layout(scheme.granularity, &x.shape, n);
    let stride = layout.0;
    let dim = layout.1;
    let bounds = int_bounds(scheme.width);
    let qmin = bounds.0;
    let qmax = bounds.1;

    let ghost data = x.data@;
    let ghost shape = x.shape@;

    let mut out: Vec<i64> = Vec::new();
    let mut i: usize = 0;
    while i < n
        invariant
            0 <= i <= n,
            n == data.len(),
            data == x.data@,
            shape == x.shape@,
            x.wf(),
            scheme.wf(),
            scheme_fits(scheme, shape),
            qmin == qmin_of(scheme.width as int),
            qmax == qmax_of(scheme.width as int),
            -32768 <= qmin <= -2,
            1 <= qmax <= 32767,
            n > 0 ==> (scheme.granularity matches Granularity::PerChannel(axis) ==> {
                &&& stride == crate::tensor::prod_from(shape, axis as int + 1)
                &&& dim == shape[axis as int]
                &&& stride >= 1
                &&& dim >= 1
            }),
            out@.len() == i,
            forall|j: int|
                0 <= j < i ==> #[trigger] out@[j] == q_elem(
                    data[j],
                    scale_at(scheme, shape, j),
                    zero_at(scheme, shape, j),
                    qmin as int,
                    qmax as int,
                ),
        decreases n - i,
    {
        let u = unit_at(scheme.granularity, stride, dim, i, Ghost(shape));
        assert(u < scheme.scales@.len());
        let s = scheme.scales[u];
        let z = scheme.zero_points[u];
        let stored: i64 = match x.data[i] {
            Elem::Num(v) => {
                let t = round_div_i64(v, s);
                clamp_i64(t + z, qmin, qmax)
            },
            Elem::Undefined => clamp_i64(z, qmin, qmax),
        };
        out.push(stored);
        i = i + 1;
    }
    Ok(QuantizedTensor { shape: copy_shape(&x.shape), data: out, scheme })
}


/// Decode one stored integer: `(stored - zero_point) * scale`,
/// saturating at the edges of the representable value range.
pub fn dq_elem_i64(d: i64, s: i64, z: i64) -> (r: i64)
    requires
        -32768 <= d <= 32767,
        -32768 <= z <= 32767,
        1 <= s <= VAL_MAX,
    ensures
        r == dq_elem(d as int, s as int, z as int),
        -VAL_MAX <= r <= VAL_MAX,
{
    proof {
        assert((d - z) * s <= 65535 * (VAL_MAX as int) && (d - z) * s >= -65535 * (
        VAL_MAX as int)) by (nonlinear_arith)
            requires
                -65535 <= d - z <= 65535,
                1 <= s <= VAL_MAX;
    }
    let prod: i128 = ((d - z) as i128) * (s as i128);
    if prod > VAL_MAX as i128 {
        VAL_MAX
    } else if prod < -VAL_MAX as i128 {
        -VAL_MAX
    } else {
        prod as i64
    }
}

/// Decode a quantized tensor back to floating form: every stored
/// integer becomes `(stored - zero_point) * scale`, a definite value.
/// This is the lossy inverse of `quantize`.
pub fn dequantize(q: &QuantizedTensor) -> (r: FloatTensor)
    requires
        q.wf(),
    ensures
        r.wf(),
        r.shape@ == q.shape@,
        dequantized_matches(*q, r.data@),
{
    let n = q.data.len();
    let layout = unit_layout(q.scheme.granularity, &q.shape, n);
    let stride = layout.0;
    let dim = layout.1;
    let bounds = int_bounds(q.scheme.width);
    let qmin = bounds.0;
    let qmax = bounds.1;

    let ghost data = q.data@;
    let ghost shape = q.shape@;

    let mut out: Vec<Elem> = Vec::new();
    let mut i: usize = 0;
    while i < n
        invariant
            0 <= i <= n,
            n == data.len(),
            data == q.data@,
            shape == q.shape@,
            q.wf(),
            qmin == qmin_of(q.scheme.width as int),
            qmax == qmax_of(q.scheme.width as int),
            -32768 <= qmin <= -2,
            1 <= qmax <= 32767,
            n > 0 ==> (q.scheme.granularity matches Granularity::PerChannel(axis) ==> {
                &&& stride == crate::tensor::prod_from(shape, axis as int + 1)
                &&& dim == shape[axis as int]
                &&& stride >= 1
                &&& dim >= 1
            }),
            out@.len() == i,
            forall|j: int|
                0 <= j < i ==> {
                    &&& elem_defined(#[trigger] out@[j])
                    &&& elem_ok(out@[j])
                    &&& elem_val(out@[j]) == dq_elem(
                        data[j] as int,
                        scale_at(q.scheme, shape, j),
                        zero_at(q.scheme, shape, j),
                    )
                },
        decreases n - i,
    {
        let u = unit_at(q.scheme.granularity, stride, dim, i, Ghost(shape));
        assert(u < q.scheme.scales@.len());
        let s = q.scheme.scales[u];
        let z = q.scheme.zero_points[u];
        let d = q.data[i];
        assert(qmin <= d <= qmax && qmin <= z <= qmax);
        let val = dq_elem_i64(d, s, z);
        out.push(Elem::Num(val));
        i = i + 1;
    }
    FloatTensor { shape: copy_shape(&q.shape), data: out }
}

/// One element's round trip: where no range clamping occurs, encoding
/// and decoding a value misses it by at most half a quantization step.
pub proof fn lemma_round_trip_elem(v: int, s: int, z: int, lo: int, hi: int)
    requires
        1 <= s,
        -VAL_MAX <= v <= VAL_MAX,
        lo <= round_div(v, s) + z <= hi,
    ensures
        2 * abs_i(dq_elem(q_elem_num(v, s, z, lo, hi), s, z) - v) <= s,
{
    let d = round_div(v, s);
    lemma_round_div_err(v, s);
    assert(q_elem_num(v, s, z, lo, hi) == d + z);
    assert((d + z) - z == d);
    let p = d * s;
    assert(2 * abs_i(p - v) <= s);
    if p > VAL_MAX {
        assert(dq_elem(d + z, s, z) == VAL_MAX);
        assert(0 <= VAL_MAX - v <= p - v);
    } else if p < -VAL_MAX {
        assert(dq_elem(d + z, s, z) == -VAL_MAX);
        assert(0 <= v - (-VAL_MAX) <= v - p);
    } else {
        assert(dq_elem(d + z, s, z) == p);
    }
}

/// Round-trip bound: dequantizing a quantization of `x` recovers every
/// definite element to within half its unit's scale, for elements whose
/// rounded encoding lies inside the representable integer range (an
/// element beyond the scheme's range is clamped and may err further).
pub proof fn lemma_quantize_round_trip(
    x: FloatTensor,
    scheme: Scheme,
    q: QuantizedTensor,
    y: FloatTensor,
)
    requires
        x.wf(),
        scheme.wf(),
        scheme_fits(scheme, x.shape@),
        q.shape@ == x.shape@,
        q.scheme == scheme,
        quantized_matches(x, scheme, q.data@),
        dequantized_matches(q, y.data@),
        forall|i: int|
            0 <= i < x.data@.len() && elem_defined(#[trigger] x.data@[i])
                ==> qmin_of(scheme.width as int) <= round_div(
                    elem_val(x.data@[i]),
                    scale_at(scheme, x.shape@, i),
                ) + zero_at(scheme, x.shape@, i) <= qmax_of(scheme.width as int),
    ensures
        y.data@.len() == x.data@.len(),
        forall|i: int|
            0 <= i < x.data@.len() && elem_defined(#[trigger] x.data@[i])
                ==> 2 * abs_i(elem_val(y.data@[i]) - elem_val(x.data@[i])) <= scale_at(
                    scheme,
                    x.shape@,
                    i,
                ),
{
    assert forall|i: int|
        0 <= i < x.data@.len() && elem_defined(#[trigger] x.data@[i]) implies 2 * abs_i(
        elem_val(y.data@[i]) - elem_val(x.data@[i]),
    ) <= scale_at(scheme, x.shape@, i) by {
        lemma_unit_in_range(scheme, x.shape@, x.data@.len() as int, i);
        let s = scale_at(scheme, x.shape@, i);
        let z = zero_at(scheme, x.shape@, i);
        let lo = qmin_of(scheme.width as int);
        let hi = qmax_of(scheme.width as int);
        assert(1 <= s <= VAL_MAX);
        assert(q.data@[i] == q_elem(x.data@[i], s, z, lo, hi));
        lemma_round_trip_elem(elem_val(x.data@[i]), s, z, lo, hi);
    }
}

/// Every flat index's granularity unit is a valid index into a fitting
/// scheme's scale and zero-point arrays.
pub proof fn lemma_unit_in_range(scheme: Scheme, shape: Seq<usize>, n: int, i: int)
    requires
        scheme.wf(),
        scheme_fits(scheme, shape),
        n == elem_count(shape),
        0 <= i < n,
    ensures
        0 <= unit_of(scheme.granularity, shape, i) < scheme.scales@.len(),
{
    match scheme.granularity {
        Granularity::PerTensor => {},
        Granularity::PerChannel(axis) => {
            crate::tensor::lemma_elem_count_pos(shape, axis as int);
            crate::tensor::lemma_channel_in_range(i, shape, axis as int);
        },
    }
}

} // verus!
