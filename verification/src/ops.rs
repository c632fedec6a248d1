//! The elementwise operation executor.
//!
//! A named unary or binary operation is applied either natively on the
//! quantized integers (where a native kernel exists for the scheme) or
//! through the general fallback: dequantize, compute in fixed-point
//! arithmetic, and — when a quantized result is requested — requantize
//! under a caller-selected policy.

use vstd::prelude::*;
use vstd::pervasive::unreached;
use crate::TensorError;
use crate::fixed::{
    Elem, SCALE_ONE, VAL_MAX, abs_i, add_sat, add_sat_i64, clamp_i, elem_defined, elem_ok,
    elem_val, is_floor_sqrt, mul_fixed, mul_fixed_i64, sqrt_fixed, sub_sat, sub_sat_i64,
    clamp_i64,
};
use crate::scheme::{Granularity, Mode, Scheme, qmax_of, qmin_of, int_bounds};
use crate::tensor::{FloatTensor, QuantizedTensor, copy_shape, scheme_fits, shapes_equal};
use crate::quantize::{
    compute_scheme, dequantize, dq_elem, max_in_unit, min_in_unit, q_elem, quantize,
    quantized_matches, scale_at, unit_scale, unit_zero, zero_at,
};

verus! {

/// The unary elementwise operations the executor knows.
#[derive(Clone, Copy, Debug, PartialEq, Eq, Structural)]
pub enum UnaryOp {
    /// Square root; negative inputs yield the undefined-value sentinel.
    Sqrt,
    /// Absolute value.
    Abs,
    /// Negation.
    Neg,
}

/// The binary elementwise operations the executor knows.
#[derive(Clone, Copy, Debug, PartialEq, Eq, Structural)]
pub enum BinaryOp {
    Add,
    Sub,
    Mul,
}

/// How the executor chooses the output scheme when it requantizes a
/// floating fallback result.
#[derive(Clone, Copy, Debug, PartialEq, Eq, Structural)]
pub enum RequantPolicy {
    /// Keep the input tensor's scheme.
    Reuse,
    /// Compute a fresh scheme from the result's observed range.
    Recompute,
    /// Keep the input's scheme if the result's values still fit its
    /// representable range, else compute a fresh one. This is the
    /// default policy.
    Auto,
}

/// The executor's result: floating or quantized, as the caller asked.
#[derive(Clone, Debug)]
pub enum OpOutput {
    Floating(FloatTensor),
    Quantized(QuantizedTensor),
}

/// What one unary application returns for one element: an undefined
/// input stays undefined, negation and absolute value are exact, and
/// square root of a non-negative value is its microunit floor square
/// root — of a negative value, the undefined sentinel.
pub open spec fn unary_elem_ok(op: UnaryOp, a: Elem, r: Elem) -> bool {
    match a {
        Elem::Undefined => !elem_defined(r),
        Elem::Num(v) => match op {
            UnaryOp::Neg => elem_defined(r) && elem_val(r) == -(v as int),
            UnaryOp::Abs => elem_defined(r) && elem_val(r) == abs_i(v as int),
            UnaryOp::Sqrt => {
                if v < 0 {
                    !elem_defined(r)
                } else {
                    elem_defined(r) && is_floor_sqrt((v as int) * (SCALE_ONE as int), elem_val(r))
                }
            },
        },
    }
}

/// What one binary application returns for one element pair: undefined
/// propagates; otherwise saturating fixed-point arithmetic.
pub open spec fn binary_elem(op: BinaryOp, a: Elem, b: Elem) -> Elem {
    if !elem_defined(a) || !elem_defined(b) {
        Elem::Undefined
    } else {
        let v = match op {
            BinaryOp::Add => add_sat(elem_val(a), elem_val(b)),
            BinaryOp::Sub => sub_sat(elem_val(a), elem_val(b)),
            BinaryOp::Mul => mul_fixed(elem_val(a), elem_val(b)),
        };
        Elem::Num(v as i64)
    }
}

/// Apply a unary operation to a floating tensor. Shape is preserved; a
/// numeric domain error leaves an undefined sentinel in that element
/// only, never a whole-operation failure.
pub fn unary_float(x: &FloatTensor, op: UnaryOp) -> (r: FloatTensor)
    requires
        x.wf(),
    ensures
        r.wf(),
        r.shape@ == x.shape@,
        r.data@.len() == x.data@.len(),
        forall|i: int|
            0 <= i < x.data@.len() ==> unary_elem_ok(op, x.data@[i], #[trigger] r.data@[i]),
{
    let n = x.data.len();
    let mut out: Vec<Elem> = Vec::new();
    let mut i: usize = 0;
    while i < n
        invariant
            0 <= i <= n,
            n == x.data@.len(),
            x.wf(),
            out@.len() == i,
            forall|j: int| 0 <= j < i ==> elem_ok(#[trigger] out@[j]),
            forall|j: int| 0 <= j < i ==> unary_elem_ok(op, x.data@[j], #[trigger] out@[j]),
        decreases n - i,
    {
        let e = match x.data[i] {
            Elem::Undefined => Elem::Undefined,
            Elem::Num(v) => match op {
                UnaryOp::Neg => Elem::Num(-v),
                UnaryOp::Abs => Elem::Num(if v < 0 { -v } else { v }),
                UnaryOp::Sqrt => {
                    if v < 0 {
                        Elem::Undefined
                    } else {
                        Elem::Num(sqrt_fixed(v))
                    }
                },
            },
        };
        out.push(e);
        i = i + 1;
    }
    FloatTensor { shape: copy_shape(&x.shape), data: out }
}

/// Apply a binary operation to two floating tensors of identical shape.
/// Fails with `ShapeMismatch` exactly when the shapes differ; no
/// implicit broadcasting.
pub fn binary_float(a: &FloatTensor, b: &FloatTensor, op: BinaryOp) -> (r: Result<
    FloatTensor,
    TensorError,
>)
    requires
        a.wf(),
        b.wf(),
    ensures
        r is Ok <==> a.shape@ == b.shape@,
        match r {
            Ok(t) => {
                &&& t.wf()
                &&& t.shape@ == a.shape@
                &&& t.data@.len() == a.data@.len()
                &&& forall|i: int|
                    0 <= i < t.data@.len() ==> #[trigger] t.data@[i] == binary_elem(
                        op,
                        a.data@[i],
                        b.data@[i],
                    )
            },
            Err(e) => e == TensorError::ShapeMismatch,
        },
{
    if !shapes_equal(&a.shape, &b.shape) {
        return Err(TensorError::ShapeMismatch);
    }
    let n = a.data.len();
    let mut out: Vec<Elem> = Vec::new();
    let mut i: usize = 0;
    while i < n
        invariant
            0 <= i <= n,
            n == a.data@.len(),
            a.data@.len() == b.data@.len(),
            a.wf(),
            b.wf(),
            out@.len() == i,
            forall|j: int| 0 <= j < i ==> elem_ok(#[trigger] out@[j]),
            forall|j: int|
                0 <= j < i ==> #[trigger] out@[j] == binary_elem(op, a.data@[j], b.data@[j]),
        decreases n - i,
    {
        let e = match (a.data[i], b.data[i]) {
            (Elem::Num(va), Elem::Num(vb)) => {
                let v = match op {
                    BinaryOp::Add => add_sat_i64(va, vb),
                    BinaryOp::Sub => sub_sat_i64(va, vb),
                    BinaryOp::Mul => mul_fixed_i64(va, vb),
                };
                Elem::Num(v)
            },
            _ => Elem::Undefined,
        };
        out.push(e);
        i = i + 1;
    }
    Ok(FloatTensor { shape: copy_shape(&a.shape), data: out })
}

/// The value the element at flat index `i` of a quantized tensor
/// dequantizes to.
pub open spec fn dq_elem_of(x: QuantizedTensor, i: int) -> Elem {
    Elem::Num(
        dq_elem(
            x.data@[i] as int,
            scale_at(x.scheme, x.shape@, i),
            zero_at(x.scheme, x.shape@, i),
        ) as i64,
    )
}

/// `fdata` is a result of applying `op` to the dequantization of `x`.
pub open spec fn unary_on_quantized(x: QuantizedTensor, op: UnaryOp, fdata: Seq<Elem>) -> bool {
    &&& fdata.len() == x.data@.len()
    &&& forall|i: int|
        0 <= i < fdata.len() ==> unary_elem_ok(op, dq_elem_of(x, i), #[trigger] fdata[i])
}

/// A native kernel exists where the operation can be carried out on the
/// stored integers without leaving the scheme: negation under a
/// symmetric scheme.
pub open spec fn has_native_kernel(op: UnaryOp, scheme: Scheme) -> bool {
    op is Neg && scheme.mode is Symmetric
}

/// Every definite value of `fdata` lies within the range the scheme can
/// represent, so the scheme may be reused without clipping.
pub open spec fn fits_scheme(fdata: Seq<Elem>, scheme: Scheme, shape: Seq<usize>) -> bool {
    forall|i: int|
        0 <= i < fdata.len() && elem_defined(#[trigger] fdata[i]) ==> dq_elem(
            qmin_of(scheme.width as int),
            scale_at(scheme, shape, i),
            zero_at(scheme, shape, i),
        ) <= elem_val(fdata[i]) <= dq_elem(
            qmax_of(scheme.width as int),
            scale_at(scheme, shape, i),
            zero_at(scheme, shape, i),
        )
}

/// The fields of `a` equal those of `b`.
pub open spec fn scheme_equiv(a: Scheme, b: Scheme) -> bool {
    &&& a.mode == b.mode
    &&& a.granularity == b.granularity
    &&& a.width == b.width
    &&& a.scales@ == b.scales@
    &&& a.zero_points@ == b.zero_points@
}

/// `s` is the scheme freshly computed from the observed range of
/// `fdata`, keeping `base`'s mode, granularity and width.
pub open spec fn recomputed_scheme(
    fdata: Seq<Elem>,
    shape: Seq<usize>,
    base: Scheme,
    s: Scheme,
) -> bool {
    &&& s.mode == base.mode
    &&& s.granularity == base.granularity
    &&& s.width == base.width
    &&& s.scales@.len() == crate::tensor::unit_count_of(base.granularity, shape)
    &&& s.zero_points@.len() == s.scales@.len()
    &&& forall|u: int|
        0 <= u < s.scales@.len() ==> #[trigger] s.scales@[u] == unit_scale(
            base.mode,
            base.width as int,
            min_in_unit(fdata, shape, base.granularity, u, fdata.len() as int),
            max_in_unit(fdata, shape, base.granularity, u, fdata.len() as int),
        )
    &&& forall|u: int|
        0 <= u < s.zero_points@.len() ==> #[trigger] s.zero_points@[u] == unit_zero(
            base.mode,
            base.width as int,
            min_in_unit(fdata, shape, base.granularity, u, fdata.len() as int),
            max_in_unit(fdata, shape, base.granularity, u, fdata.len() as int),
        )
}

/// The scheme the requantization step settles on under the policy.
pub open spec fn requant_scheme_ok(
    fdata: Seq<Elem>,
    shape: Seq<usize>,
    base: Scheme,
    policy: RequantPolicy,
    s: Scheme,
) -> bool {
    match policy {
        RequantPolicy::Reuse => scheme_equiv(s, base),
        RequantPolicy::Recompute => recomputed_scheme(fdata, shape, base, s),
        RequantPolicy::Auto => {
            if fits_scheme(fdata, base, shape) {
                scheme_equiv(s, base)
            } else {
                recomputed_scheme(fdata, shape, base, s)
            }
        },
    }
}

/// Decide whether a floating tensor's values all fit the representable
/// range of the scheme they would be requantized under.
fn fits_scheme_exec(f: &FloatTensor, scheme: &Scheme) -> (r: bool)
    requires
        f.wf(),
        scheme.wf(),
        scheme_fits(*scheme, f.shape@),
    ensures
        r == fits_scheme(f.data@, *scheme, f.shape@),
{
    let n = f.data.len();
    let layout = crate::tensor::unit_layout(scheme.granularity, &f.shape, n);
    let stride = layout.0;
    let dim = layout.1;
    let bounds = int_bounds(scheme.width);
    let qmin = bounds.0;
    let qmax = bounds.1;
    let ghost fdata = f.data@;
    let ghost shape = f.shape@;
    let mut i: usize = 0;
    let mut ok: bool = true;
    while i < n
        invariant
            0 <= i <= n,
            n == fdata.len(),
            fdata == f.data@,
            shape == f.shape@,
            f.wf(),
            scheme.wf(),
            scheme_fits(*scheme, shape),
            qmin == qmin_of(scheme.width as int),
            qmax == qmax_of(scheme.width as int),
            -32768 <= qmin <= -2,
            1 <= qmax <= 32767,
            n > 0 ==> (scheme.granularity matches Granularity::PerChannel(axis) ==> {
                &&& stride == crate::tensor::prod_from(shape, axis as int + 1)
                &&& dim == shape[axis as int]
                &&& stride >= 1
                &&& dim >= 1
            }),
            ok == forall|j: int|
                0 <= j < i && elem_defined(#[trigger] fdata[j]) ==> dq_elem(
                    qmin as int,
                    scale_at(*scheme, shape, j),
                    zero_at(*scheme, shape, j),
                ) <= elem_val(fdata[j]) <= dq_elem(
                    qmax as int,
                    scale_at(*scheme, shape, j),
                    zero_at(*scheme, shape, j),
                ),
        decreases n - i,
    {
        let u = crate::tensor::unit_at(scheme.granularity, stride, dim, i, Ghost(shape));
        assert(u < scheme.scales@.len());
        let s = scheme.scales[u];
        let z = scheme.zero_points[u];
        match f.data[i] {
            Elem::Num(v) => {
                let lo = crate::quantize::dq_elem_i64(qmin, s, z);
                let hi = crate::quantize::dq_elem_i64(qmax, s, z);
                if v < lo || v > hi {
                    ok = false;
                }
            },
            Elem::Undefined => {},
        }
        i = i + 1;
    }
    ok
}

/// Requantize a floating tensor under the policy, against the scheme of
/// the tensor the floating data came from.
fn requantize(f: &FloatTensor, base: &Scheme, policy: RequantPolicy) -> (r: QuantizedTensor)
    requires
        f.wf(),
        base.wf(),
        scheme_fits(*base, f.shape@),
    ensures
        r.wf(),
        r.shape@ == f.shape@,
        requant_scheme_ok(f.data@, f.shape@, *base, policy, r.scheme),
        quantized_matches(*f, r.scheme, r.data@),
{
    let reuse: bool = match policy {
        RequantPolicy::Reuse => true,
        RequantPolicy::Recompute => false,
        RequantPolicy::Auto => fits_scheme_exec(f, base),
    };
    let scheme2: Scheme = if reuse {
        base.duplicate()
    } else {
        match compute_scheme(f, base.mode, base.granularity, base.width) {
            Ok(s) => s,
            Err(_) => {
                proof {
                    assert(false);
                }
                unreached()
            },
        }
    };
    assert(scheme2.wf() && scheme_fits(scheme2, f.shape@));
    match quantize(f, scheme2) {
        Ok(q) => q,
        Err(_) => {
            proof {
                assert(false);
            }
            unreached()
        },
    }
}

/// Execute a unary operation against a quantized tensor.
///
/// With a native kernel (negation under a symmetric scheme) the stored
/// integers are transformed directly and the scheme is kept. Otherwise
/// the tensor is dequantized, the operation runs in fixed-point
/// arithmetic, and the result is returned floating or requantized under
/// the policy, as requested. Shape is always preserved; the operation
/// itself never fails.
pub fn apply_unary(
    x: &QuantizedTensor,
    op: UnaryOp,
    quantized_output: bool,
    policy: RequantPolicy,
) -> (r: OpOutput)
    requires
        x.wf(),
    ensures
        match r {
            OpOutput::Floating(f) => {
                &&& !quantized_output
                &&& f.wf()
                &&& f.shape@ == x.shape@
                &&& unary_on_quantized(*x, op, f.data@)
            },
            OpOutput::Quantized(q) => {
                &&& quantized_output
                &&& q.wf()
                &&& q.shape@ == x.shape@
                &&& (if has_native_kernel(op, x.scheme) {
                    &&& scheme_equiv(q.scheme, x.scheme)
                    &&& q.data@.len() == x.data@.len()
                    &&& forall|i: int|
                        0 <= i < q.data@.len() ==> #[trigger] q.data@[i] == clamp_i(
                            -x.data@[i],
                            qmin_of(x.scheme.width as int),
                            qmax_of(x.scheme.width as int),
                        )
                } else {
                    exists|fdata: Seq<Elem>|
                        {
                            &&& #[trigger] unary_on_quantized(*x, op, fdata)
                            &&& requant_scheme_ok(fdata, x.shape@, x.scheme, policy, q.scheme)
                            &&& fdata.len() == q.data@.len()
                            &&& forall|i: int|
                                0 <= i < q.data@.len() ==> #[trigger] q.data@[i] == q_elem(
                                    fdata[i],
                                    scale_at(q.scheme, x.shape@, i),
                                    zero_at(q.scheme, x.shape@, i),
                                    qmin_of(q.scheme.width as int),
                                    qmax_of(q.scheme.width as int),
                                )
                        }
                })
            },
        },
{
    let native = match (op, x.scheme.mode) {
        (UnaryOp::Neg, Mode::Symmetric) => true,
        _ => false,
    };
    if quantized_output && native {
        let bounds = int_bounds(x.scheme.width);
        let qmin = bounds.0;
        let qmax = bounds.1;
        let n = x.data.len();
        let mut out: Vec<i64> = Vec::new();
        let mut i: usize = 0;
        while i < n
            invariant
                0 <= i <= n,
                n == x.data@.len(),
                x.wf(),
                qmin == qmin_of(x.scheme.width as int),
                qmax == qmax_of(x.scheme.width as int),
                -32768 <= qmin <= -2,
                1 <= qmax <= 32767,
                out@.len() == i,
                forall|j: int|
                    0 <= j < i ==> #[trigger] out@[j] == clamp_i(
                        -x.data@[j],
                        qmin as int,
                        qmax as int,
                    ),
            decreases n - i,
        {
            let d = x.data[i];
            out.push(clamp_i64(-d, qmin, qmax));
            i = i + 1;
        }
        OpOutput::Quantized(
            QuantizedTensor {
                shape: copy_shape(&x.shape),
                data: out,
                scheme: x.scheme.duplicate(),
            },
        )
    } else {
        let f = dequantize(x);
        let g = unary_float(&f, op);
        proof {
            assert forall|i: int| 0 <= i < g.data@.len() implies unary_elem_ok(
                op,
                dq_elem_of(*x, i),
                #[trigger] g.data@[i],
            ) by {
                assert(f.data@[i] == dq_elem_of(*x, i));
            }
        }
        if quantized_output {
            let q = requantize(&g, &x.scheme, policy);
            proof {
                assert(unary_on_quantized(*x, op, g.data@));
            }
            OpOutput::Quantized(q)
        } else {
            OpOutput::Floating(g)
        }
    }
}

/// Execute a binary operation against two quantized tensors of the same
/// shape: dequantize both, compute in fixed-point arithmetic, and
/// return the result floating or requantized under the policy against
/// the left operand's scheme. Fails with `ShapeMismatch` exactly when
/// the shapes differ.
pub fn apply_binary(
    a: &QuantizedTensor,
    b: &QuantizedTensor,
    op: BinaryOp,
    quantized_output: bool,
    policy: RequantPolicy,
) -> (r: Result<OpOutput, TensorError>)
    requires
        a.wf(),
        b.wf(),
    ensures
        r is Ok <==> a.shape@ == b.shape@,
        match r {
            Ok(out) => match out {
                OpOutput::Floating(f) => {
                    &&& !quantized_output
                    &&& f.wf()
                    &&& f.shape@ == a.shape@
                    &&& f.data@.len() == a.data@.len()
                    &&& forall|i: int|
                        0 <= i < f.data@.len() ==> #[trigger] f.data@[i] == binary_elem(
                            op,
                            dq_elem_of(*a, i),
                            dq_elem_of(*b, i),
                        )
                },
                OpOutput::Quantized(q) => {
                    &&& quantized_output
                    &&& q.wf()
                    &&& q.shape@ == a.shape@
                    &&& exists|fdata: Seq<Elem>|
                        {
                            &&& fdata.len() == a.data@.len()
                            &&& (forall|i: int|
                                0 <= i < fdata.len() ==> #[trigger] fdata[i] == binary_elem(
                                    op,
                                    dq_elem_of(*a, i),
                                    dq_elem_of(*b, i),
                                ))
                            &&& #[trigger] requant_scheme_ok(
                                fdata,
                                a.shape@,
                                a.scheme,
                                policy,
                                q.scheme,
                            )
                            &&& fdata.len() == q.data@.len()
                            &&& forall|i: int|
                                0 <= i < q.data@.len() ==> #[trigger] q.data@[i] == q_elem(
                                    fdata[i],
                                    scale_at(q.scheme, a.shape@, i),
                                    zero_at(q.scheme, a.shape@, i),
                                    qmin_of(q.scheme.width as int),
                                    qmax_of(q.scheme.width as int),
                                )
                        }
                },
            },
            Err(e) => e == TensorError::ShapeMismatch,
        },
{
    if !shapes_equal(&a.shape, &b.shape) {
        return Err(TensorError::ShapeMismatch);
    }
    let fa = dequantize(a);
    let fb = dequantize(b);
    let g = match binary_float(&fa, &fb, op) {
        Ok(t) => t,
        Err(_) => {
            proof {
                assert(false);
            }
            unreached()
        },
    };
    proof {
        assert forall|i: int| 0 <= i < g.data@.len() implies #[trigger] g.data@[i] == binary_elem(
            op,
            dq_elem_of(*a, i),
            dq_elem_of(*b, i),
        ) by {
            assert(fa.data@[i] == dq_elem_of(*a, i));
            assert(fb.data@[i] == dq_elem_of(*b, i));
        }
    }
    if quantized_output {
        let q = requantize(&g, &a.scheme, policy);
        proof {
            let fdata = g.data@;
            assert(requant_scheme_ok(fdata, a.shape@, a.scheme, policy, q.scheme));
        }
        Ok(OpOutput::Quantized(q))
    } else {
        Ok(OpOutput::Floating(g))
    }
}

} // verus!
