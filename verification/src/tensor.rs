//! Tensor containers.
//!
//! A floating tensor is a logical shape plus a flat row-major buffer of
//! fixed-point elements. A quantized tensor is a shape plus a flat
//! buffer of small integers together with the scheme that encodes them.

use vstd::prelude::*;
use vstd::arithmetic::div_mod::lemma_mod_bound;
use crate::fixed::{Elem, elem_ok};
use crate::scheme::{Granularity, Scheme, qmax_of, qmin_of};

verus! {

/// Product of the dimensions from position `k` on (the row-major stride
/// of axis `k - 1`); `1` past the end.
pub open spec fn prod_from(shape: Seq<usize>, k: int) -> int
    decreases shape.len() - k,
{
    if k < 0 || k >= shape.len() {
        1
    } else {
        shape[k] * prod_from(shape, k + 1)
    }
}

/// Number of elements a shape calls for.
pub open spec fn elem_count(shape: Seq<usize>) -> int {
    prod_from(shape, 0)
}

/// The channel that the flat row-major index `i` falls in, along `axis`.
pub open spec fn channel_of(i: int, shape: Seq<usize>, axis: int) -> int {
    (i / prod_from(shape, axis + 1)) % (shape[axis] as int)
}

pub proof fn lemma_prod_from_nonneg(shape: Seq<usize>, k: int)
    ensures
        prod_from(shape, k) >= 0,
    decreases shape.len() - k,
{
    if 0 <= k < shape.len() {
        lemma_prod_from_nonneg(shape, k + 1);
        assert(shape[k] * prod_from(shape, k + 1) >= 0) by (nonlinear_arith)
            requires
                shape[k] >= 0,
                prod_from(shape, k + 1) >= 0;
    }
}

pub proof fn lemma_prod_from_pos(shape: Seq<usize>, k: int)
    requires
        forall|j: int| 0 <= j < shape.len() ==> #[trigger] shape[j] >= 1,
    ensures
        prod_from(shape, k) >= 1,
    decreases shape.len() - k,
{
    if 0 <= k < shape.len() {
        lemma_prod_from_pos(shape, k + 1);
        assert(shape[k] * prod_from(shape, k + 1) >= 1) by (nonlinear_arith)
            requires
                shape[k] >= 1,
                prod_from(shape, k + 1) >= 1;
    }
}

/// With no zero-sized dimension, a suffix product never exceeds the
/// whole product.
pub proof fn lemma_prod_from_le(shape: Seq<usize>, k: int)
    requires
        forall|j: int| 0 <= j < shape.len() ==> #[trigger] shape[j] >= 1,
        0 <= k <= shape.len(),
    ensures
        prod_from(shape, k) <= prod_from(shape, 0),
    decreases k,
{
    if k > 0 {
        lemma_prod_from_le(shape, k - 1);
        lemma_prod_from_pos(shape, k);
        assert(prod_from(shape, k - 1) == shape[k - 1] * prod_from(shape, k));
        assert(shape[k - 1] * prod_from(shape, k) >= prod_from(shape, k)) by (nonlinear_arith)
            requires
                shape[k - 1] >= 1,
                prod_from(shape, k) >= 1;
    }
}

/// A zero element count means some dimension is zero; conversely, a
/// positive count means every dimension is positive.
pub proof fn lemma_elem_count_pos(shape: Seq<usize>, k: int)
    requires
        prod_from(shape, 0) >= 1,
        0 <= k < shape.len(),
    ensures
        shape[k] >= 1,
{
    lemma_prod_pos_step(shape, k);
    assert(prod_from(shape, k) == shape[k] * prod_from(shape, k + 1));
    if shape[k] == 0 {
        assert(prod_from(shape, k) == 0) by (nonlinear_arith)
            requires
                prod_from(shape, k) == shape[k] * prod_from(shape, k + 1),
                shape[k] == 0;
    }
}

proof fn lemma_prod_pos_step(shape: Seq<usize>, j: int)
    requires
        prod_from(shape, 0) >= 1,
        0 <= j < shape.len(),
    ensures
        prod_from(shape, j) >= 1,
    decreases j,
{
    if j == 0 {
    } else {
        lemma_prod_pos_step(shape, j - 1);
        lemma_prod_from_nonneg(shape, j);
        assert(prod_from(shape, j - 1) == shape[j - 1] * prod_from(shape, j));
        assert(prod_from(shape, j) >= 1) by (nonlinear_arith)
            requires
                shape[j - 1] * prod_from(shape, j) >= 1,
                shape[j - 1] >= 0,
                prod_from(shape, j) >= 0,
        ;
    }
}

/// A channel index is always a valid position on its axis.
pub proof fn lemma_channel_in_range(i: int, shape: Seq<usize>, axis: int)
    requires
        0 <= axis < shape.len(),
        shape[axis] >= 1,
    ensures
        0 <= channel_of(i, shape, axis) < shape[axis],
{
    lemma_mod_bound(i / prod_from(shape, axis + 1), shape[axis] as int);
}

/// Row-major stride of the given axis: the product of the dimensions
/// after it.
pub fn suffix_product(shape: &Vec<usize>, k: usize) -> (r: usize)
    requires
        k <= shape@.len(),
        forall|j: int| 0 <= j < shape@.len() ==> #[trigger] shape@[j] >= 1,
        elem_count(shape@) <= usize::MAX,
    ensures
        r == prod_from(shape@, k as int),
        r >= 1,
{
    let mut j: usize = shape.len();
    let mut p: usize = 1;
    while j > k
        invariant
            k <= j <= shape@.len(),
            p == prod_from(shape@, j as int),
            forall|t: int| 0 <= t < shape@.len() ==> #[trigger] shape@[t] >= 1,
            elem_count(shape@) <= usize::MAX,
        decreases j,
    {
        j = j - 1;
        proof {
            lemma_prod_from_le(shape@, j as int);
            lemma_prod_from_pos(shape@, j as int);
        }
        p = shape[j] * p;
    }
    proof {
        lemma_prod_from_pos(shape@, k as int);
    }
    p
}

/// Two shapes are the same sequence of dimensions.
pub fn shapes_equal(a: &Vec<usize>, b: &Vec<usize>) -> (r: bool)
    ensures
        r == (a@ == b@),
{
    if a.len() != b.len() {
        proof {
            assert(a@ != b@);
        }
        return false;
    }
    let mut i: usize = 0;
    while i < a.len()
        invariant
            0 <= i <= a@.len(),
            a@.len() == b@.len(),
            forall|j: int| 0 <= j < i ==> #[trigger] a@[j] == b@[j],
        decreases a@.len() - i,
    {
        if a[i] != b[i] {
            proof {
                assert(a@[i as int] != b@[i as int]);
            }
            return false;
        }
        i = i + 1;
    }
    proof {
        assert(a@ =~= b@);
    }
    true
}

/// A dense tensor of fixed-point values in row-major order.
#[derive(Clone, Debug)]
pub struct FloatTensor {
    pub shape: Vec<usize>,
    pub data: Vec<Elem>,
}

impl FloatTensor {
    pub open spec fn wf(self) -> bool {
        &&& self.data@.len() == elem_count(self.shape@)
        &&& forall|i: int| 0 <= i < self.data@.len() ==> elem_ok(#[trigger] self.data@[i])
    }

    /// Build a tensor from a shape and a row-major buffer, rejecting a
    /// buffer whose element count or value range does not fit.
    pub fn new(shape: Vec<usize>, data: Vec<Elem>) -> (r: Result<FloatTensor, crate::TensorError>)
        ensures
            match r {
                Ok(t) => t.wf() && t.shape@ == shape@ && t.data@ == data@,
                Err(e) => e == crate::TensorError::InvalidBuffer,
            },
    {
        let n = elem_count_checked(&shape);
        match n {
            Some(count) if count == data.len() => {
                let mut i: usize = 0;
                while i < data.len()
                    invariant
                        0 <= i <= data@.len(),
                        forall|j: int| 0 <= j < i ==> elem_ok(#[trigger] data@[j]),
                    decreases data@.len() - i,
                {
                    match data[i] {
                        Elem::Num(v) => {
                            if v < -crate::fixed::VAL_MAX || v > crate::fixed::VAL_MAX {
                                return Err(crate::TensorError::InvalidBuffer);
                            }
                        },
                        Elem::Undefined => {},
                    }
                    i = i + 1;
                }
                Ok(FloatTensor { shape, data })
            },
            _ => Err(crate::TensorError::InvalidBuffer),
        }
    }
}

/// Element count of a shape, or `None` where it does not fit the machine.
pub fn elem_count_checked(shape: &Vec<usize>) -> (r: Option<usize>)
    ensures
        match r {
            Some(n) => n == elem_count(shape@),
            None => elem_count(shape@) > usize::MAX,
        },
{
    let ghost s = shape@;
    let mut i: usize = 0;
    while i < shape.len()
        invariant
            0 <= i <= s.len(),
            s == shape@,
            forall|j: int| 0 <= j < i ==> #[trigger] s[j] >= 1,
        decreases s.len() - i,
    {
        if shape[i] == 0 {
            proof {
                lemma_prod_zero_dim(s, i as int);
            }
            return Some(0);
        }
        i = i + 1;
    }
    let mut j: usize = shape.len();
    let mut p: usize = 1;
    while j > 0
        invariant
            0 <= j <= s.len(),
            s == shape@,
            p == prod_from(s, j as int),
            forall|t: int| 0 <= t < s.len() ==> #[trigger] s[t] >= 1,
        decreases j,
    {
        j = j - 1;
        let d = shape[j];
        let next = d.checked_mul(p);
        match next {
            Some(q) => {
                p = q;
            },
            None => {
                proof {
                    lemma_prod_from_le(s, j as int);
                }
                return None;
            },
        }
    }
    Some(p)
}

/// A zero-sized dimension makes the whole element count zero.
proof fn lemma_prod_zero_dim(shape: Seq<usize>, k: int)
    requires
        0 <= k < shape.len(),
        shape[k] == 0,
    ensures
        prod_from(shape, 0) == 0,
    decreases shape.len(),
{
    assert(prod_from(shape, k) == shape[k] * prod_from(shape, k + 1));
    assert(shape[k] * prod_from(shape, k + 1) == 0) by (nonlinear_arith)
        requires shape[k] == 0;
    lemma_zero_suffix_prefix(shape, k);
}

/// If a suffix product is zero, so is the whole product.
proof fn lemma_zero_suffix_prefix(shape: Seq<usize>, k: int)
    requires
        0 <= k <= shape.len(),
        prod_from(shape, k) == 0,
    ensures
        prod_from(shape, 0) == 0,
    decreases k,
{
    if k > 0 {
        assert(prod_from(shape, k - 1) == shape[k - 1] * prod_from(shape, k));
        assert(shape[k - 1] * prod_from(shape, k) == 0) by (nonlinear_arith)
            requires prod_from(shape, k) == 0;
        lemma_zero_suffix_prefix(shape, k - 1);
    }
}

/// The granularity unit (index into the scheme's scale and zero-point
/// arrays) that the flat index `i` belongs to.
pub open spec fn unit_of(g: Granularity, shape: Seq<usize>, i: int) -> int {
    match g {
        Granularity::PerTensor => 0,
        Granularity::PerChannel(axis) => channel_of(i, shape, axis as int),
    }
}

/// Number of granularity units a scheme of this granularity carries
/// over this shape.
pub open spec fn unit_count_of(g: Granularity, shape: Seq<usize>) -> int {
    match g {
        Granularity::PerTensor => 1,
        Granularity::PerChannel(axis) => shape[axis as int] as int,
    }
}

/// The stride and channel count that turn a flat index into a unit
/// index; `(1, 1)` for per-tensor granularity or an empty tensor.
pub fn unit_layout(g: Granularity, shape: &Vec<usize>, n: usize) -> (r: (usize, usize))
    requires
        n == elem_count(shape@),
        (g matches Granularity::PerChannel(axis) ==> (axis as int) < shape@.len()),
    ensures
        n > 0 ==> match g {
            Granularity::PerTensor => r == (1usize, 1usize),
            Granularity::PerChannel(axis) => {
                &&& r.0 == prod_from(shape@, axis as int + 1)
                &&& r.1 == shape@[axis as int]
                &&& r.0 >= 1
                &&& r.1 >= 1
            },
        },
{
    match g {
        Granularity::PerTensor => (1, 1),
        Granularity::PerChannel(axis) => {
            if n == 0 {
                (1, 1)
            } else {
                proof {
                    assert forall|j: int| 0 <= j < shape@.len() implies #[trigger] shape@[j] >= 1 by {
                        lemma_elem_count_pos(shape@, j);
                    }
                }
                let len = shape.len();
                assert(axis < len);
                let stride = suffix_product(shape, axis + 1);
                (stride, shape[axis])
            }
        },
    }
}

/// The unit that flat index `i` belongs to, from a precomputed layout.
pub fn unit_at(g: Granularity, stride: usize, dim: usize, i: usize, Ghost(shape): Ghost<Seq<usize>>) -> (u: usize)
    requires
        (g matches Granularity::PerChannel(axis) ==> {
            &&& (axis as int) < shape.len()
            &&& stride == prod_from(shape, axis as int + 1)
            &&& dim == shape[axis as int]
            &&& stride >= 1
            &&& dim >= 1
        }),
    ensures
        u == unit_of(g, shape, i as int),
        (g matches Granularity::PerChannel(axis) ==> u < dim),
        (g is PerTensor ==> u == 0),
{
    match g {
        Granularity::PerTensor => 0,
        Granularity::PerChannel(axis) => {
            let u = (i / stride) % dim;
            proof {
                lemma_mod_bound((i as int) / (stride as int), dim as int);
            }
            u
        },
    }
}

/// A copy of a vector of dimension sizes.
pub fn copy_shape(v: &Vec<usize>) -> (r: Vec<usize>)
    ensures
        r@ == v@,
{
    let mut r: Vec<usize> = Vec::new();
    let mut i: usize = 0;
    while i < v.len()
        invariant
            0 <= i <= v@.len(),
            r@ == v@.take(i as int),
        decreases v@.len() - i,
    {
        r.push(v[i]);
        proof {
            assert(r@ =~= v@.take(i as int + 1));
        }
        i = i + 1;
    }
    proof {
        assert(v@.take(v@.len() as int) =~= v@);
    }
    r
}

/// The scheme's granularity is consistent with the shape: a per-channel
/// scheme names an existing axis and carries one unit per channel.
pub open spec fn scheme_fits(scheme: Scheme, shape: Seq<usize>) -> bool {
    match scheme.granularity {
        Granularity::PerTensor => true,
        Granularity::PerChannel(axis) => {
            &&& (axis as int) < shape.len()
            &&& scheme.scales@.len() == shape[axis as int]
        },
    }
}

/// A dense tensor of quantized integers with the scheme that encodes them.
#[derive(Clone, Debug)]
pub struct QuantizedTensor {
    pub shape: Vec<usize>,
    pub data: Vec<i64>,
    pub scheme: Scheme,
}

impl QuantizedTensor {
    pub open spec fn wf(self) -> bool {
        &&& self.scheme.wf()
        &&& scheme_fits(self.scheme, self.shape@)
        &&& self.data@.len() == elem_count(self.shape@)
        &&& forall|i: int|
            0 <= i < self.data@.len()
                ==> qmin_of(self.scheme.width as int) <= #[trigger] self.data@[i]
                    <= qmax_of(self.scheme.width as int)
    }
}

} // verus!
