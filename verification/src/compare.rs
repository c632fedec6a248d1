//! Tolerance-based approximate equality of floating tensors.
//!
//! A pair of elements passes when `|a - e| <= eps_abs + eps_rel * |e|`;
//! the absolute-only and relative-only tolerances are the degenerate
//! cases with the unused term zero. Two undefined sentinels match each
//! other; a sentinel never matches a definite value.

use vstd::prelude::*;
use crate::TensorError;
use crate::fixed::{Elem, SCALE_ONE, VAL_MAX, abs_i, elem_val};
use crate::tensor::{FloatTensor, shapes_equal};

verus! {

/// The allowed deviation of an actual value from an expected value.
#[derive(Clone, Copy, Debug, PartialEq, Eq, Structural)]
pub enum Tolerance {
    /// `|a - e| <= eps`, with `eps` in microunits.
    Absolute(i64),
    /// `|a - e| <= eps * |e|`, with `eps` in microunits per unit.
    Relative(i64),
    /// `|a - e| <= eps_abs + eps_rel * |e|`.
    Combined(i64, i64),
}

impl Tolerance {
    /// Non-negative error terms.
    pub open spec fn wf(self) -> bool {
        tol_abs(self) >= 0 && tol_rel(self) >= 0
    }

    /// An absolute tolerance of `eps` microunits.
    pub fn absolute(eps: i64) -> (r: Tolerance)
        requires
            eps >= 0,
        ensures
            r == Tolerance::Absolute(eps),
    {
        Tolerance::Absolute(eps)
    }

    /// A relative tolerance of `eps` microunits per unit of the
    /// expected value.
    pub fn relative(eps: i64) -> (r: Tolerance)
        requires
            eps >= 0,
        ensures
            r == Tolerance::Relative(eps),
    {
        Tolerance::Relative(eps)
    }

    /// A combined absolute and relative tolerance.
    pub fn combined(eps_abs: i64, eps_rel: i64) -> (r: Tolerance)
        requires
            eps_abs >= 0,
            eps_rel >= 0,
        ensures
            r == Tolerance::Combined(eps_abs, eps_rel),
    {
        Tolerance::Combined(eps_abs, eps_rel)
    }
}

/// The absolute error term, in microunits.
pub open spec fn tol_abs(t: Tolerance) -> int {
    match t {
        Tolerance::Absolute(e) => e as int,
        Tolerance::Relative(_) => 0,
        Tolerance::Combined(a, _) => a as int,
    }
}

/// The relative error term, in microunits per unit.
pub open spec fn tol_rel(t: Tolerance) -> int {
    match t {
        Tolerance::Absolute(_) => 0,
        Tolerance::Relative(e) => e as int,
        Tolerance::Combined(_, r) => r as int,
    }
}

/// One element pair passes the tolerance predicate. Both sides of the
/// comparison are scaled by `SCALE_ONE` so the check is exact integer
/// arithmetic: `|a - e| <= ta + tr * |e| / SCALE_ONE`.
pub open spec fn elem_within(a: Elem, e: Elem, ta: int, tr: int) -> bool {
    match (a, e) {
        (Elem::Undefined, Elem::Undefined) => true,
        (Elem::Num(va), Elem::Num(ve)) => abs_i(va - ve) * (SCALE_ONE as int) <= ta * (
        SCALE_ONE as int) + tr * abs_i(ve as int),
        _ => false,
    }
}

/// Every element pair passes.
pub open spec fn all_within(a: Seq<Elem>, e: Seq<Elem>, ta: int, tr: int) -> bool {
    &&& a.len() == e.len()
    &&& forall|i: int| 0 <= i < a.len() ==> elem_within(#[trigger] a[i], e[i], ta, tr)
}

/// The bound the tolerance allowed for an expected element, in
/// microunits, saturated at the largest representable value; part of
/// the failure diagnostic.
pub open spec fn allowed_of(e: Elem, ta: int, tr: int) -> int {
    let raw = ta + (tr * abs_i(elem_val(e))) / (SCALE_ONE as int);
    if raw > i64::MAX as int {
        i64::MAX as int
    } else {
        raw
    }
}

/// The diagnostic a failed comparison reports: one offending index with
/// what stood there, what was expected, and the bound that was allowed.
#[derive(Clone, Copy, Debug, PartialEq, Eq, Structural)]
pub struct Mismatch {
    pub index: usize,
    pub actual: Elem,
    pub expected: Elem,
    /// `eps_abs + eps_rel * |expected|`, in microunits.
    pub allowed: i64,
}

/// A comparison's verdict.
#[derive(Clone, Copy, Debug, PartialEq, Eq, Structural)]
pub enum CompareOutcome {
    Pass,
    Fail(Mismatch),
}

/// Compare two floating tensors for approximate equality.
///
/// Mismatched shapes are a hard failure independent of the tolerance.
/// Otherwise the result is `Pass` exactly when every element pair
/// passes the tolerance predicate; a failure reports the first
/// offending index with its diagnostic.
pub fn compare(actual: &FloatTensor, expected: &FloatTensor, tol: &Tolerance) -> (r: Result<
    CompareOutcome,
    TensorError,
>)
    requires
        actual.wf(),
        expected.wf(),
        tol.wf(),
    ensures
        r is Ok <==> actual.shape@ == expected.shape@,
        match r {
            Ok(o) => {
                &&& (o is Pass <==> all_within(
                    actual.data@,
                    expected.data@,
                    tol_abs(*tol),
                    tol_rel(*tol),
                ))
                &&& (o matches CompareOutcome::Fail(m) ==> {
                    &&& (m.index as int) < actual.data@.len()
                    &&& !elem_within(
                        actual.data@[m.index as int],
                        expected.data@[m.index as int],
                        tol_abs(*tol),
                        tol_rel(*tol),
                    )
                    &&& m.actual == actual.data@[m.index as int]
                    &&& m.expected == expected.data@[m.index as int]
                    &&& m.allowed == allowed_of(
                        expected.data@[m.index as int],
                        tol_abs(*tol),
                        tol_rel(*tol),
                    )
                })
            },
            Err(e) => e == TensorError::ShapeMismatch,
        },
{
    if !shapes_equal(&actual.shape, &expected.shape) {
        return Err(TensorError::ShapeMismatch);
    }
    let ta: i64 = match *tol {
        Tolerance::Absolute(e) => e,
        Tolerance::Relative(_) => 0,
        Tolerance::Combined(a, _) => a,
    };
    let tr: i64 = match *tol {
        Tolerance::Absolute(_) => 0,
        Tolerance::Relative(e) => e,
        Tolerance::Combined(_, r) => r,
    };
    let n = actual.data.len();
    let mut i: usize = 0;
    while i < n
        invariant
            0 <= i <= n,
            n == actual.data@.len(),
            actual.data@.len() == expected.data@.len(),
            actual.shape@ == expected.shape@,
            actual.wf(),
            expected.wf(),
            ta == tol_abs(*tol),
            tr == tol_rel(*tol),
            ta >= 0,
            tr >= 0,
            forall|j: int|
                0 <= j < i ==> elem_within(
                    #[trigger] actual.data@[j],
                    expected.data@[j],
                    ta as int,
                    tr as int,
                ),
        decreases n - i,
    {
        let a = actual.data[i];
        let e = expected.data[i];
        let pass: bool = match (a, e) {
            (Elem::Undefined, Elem::Undefined) => true,
            (Elem::Num(va), Elem::Num(ve)) => {
                let diff: i64 = if va >= ve { va - ve } else { ve - va };
                let mag: i64 = if ve < 0 { -ve } else { ve };
                proof {
                    assert(crate::fixed::elem_ok(expected.data@[i as int]));
                    assert((tr as int) * (mag as int) <= (i64::MAX as int) * (VAL_MAX as int))
                        by (nonlinear_arith)
                        requires
                            0 <= tr <= i64::MAX,
                            0 <= mag <= VAL_MAX;
                    assert((tr as int) * (mag as int) >= 0) by (nonlinear_arith)
                        requires
                            tr >= 0,
                            mag >= 0;
                }
                let lhs: i128 = (diff as i128) * (SCALE_ONE as i128);
                let rhs: i128 = (ta as i128) * (SCALE_ONE as i128) + (tr as i128) * (mag as i128);
                proof {
                    assert((diff as int) * (SCALE_ONE as int) == abs_i(va - ve) * (
                    SCALE_ONE as int));
                    assert((mag as int) == abs_i(ve as int));
                }
                lhs <= rhs
            },
            _ => false,
        };
        if !pass {
            let allowed = allowed_i64(e, ta, tr);
            return Ok(
                CompareOutcome::Fail(Mismatch { index: i, actual: a, expected: e, allowed }),
            );
        }
        i = i + 1;
    }
    Ok(CompareOutcome::Pass)
}

/// The allowed bound of the failure diagnostic, saturated into `i64`.
fn allowed_i64(e: Elem, ta: i64, tr: i64) -> (r: i64)
    requires
        ta >= 0,
        tr >= 0,
        crate::fixed::elem_ok(e),
    ensures
        r == allowed_of(e, ta as int, tr as int),
{
    let mag: i64 = match e {
        Elem::Num(v) => if v < 0 { -v } else { v },
        Elem::Undefined => 0,
    };
    proof {
        assert((tr as int) * (mag as int) <= (i64::MAX as int) * (VAL_MAX as int))
            by (nonlinear_arith)
            requires
                0 <= tr <= i64::MAX,
                0 <= mag <= VAL_MAX;
        assert((tr as int) * (mag as int) >= 0) by (nonlinear_arith)
            requires
                tr >= 0,
                mag >= 0;
    }
    let rel: i128 = ((tr as i128) * (mag as i128)) / (SCALE_ONE as i128);
    let raw: i128 = (ta as i128) + rel;
    if raw > i64::MAX as i128 {
        i64::MAX
    } else {
        raw as i64
    }
}

/// Comparator reflexivity: any tensor compares equal to itself under
/// any well-formed tolerance, whatever its values — including the
/// undefined sentinel, which matches itself.
pub proof fn lemma_compare_reflexive(x: FloatTensor, ta: int, tr: int)
    requires
        x.wf(),
        ta >= 0,
        tr >= 0,
    ensures
        all_within(x.data@, x.data@, ta, tr),
{
    assert forall|i: int| 0 <= i < x.data@.len() implies elem_within(
        #[trigger] x.data@[i],
        x.data@[i],
        ta,
        tr,
    ) by {
        match x.data@[i] {
            Elem::Num(v) => {
                assert(ta * (SCALE_ONE as int) >= 0) by (nonlinear_arith)
                    requires ta >= 0;
                assert(tr * abs_i(v as int) >= 0) by (nonlinear_arith)
                    requires tr >= 0, abs_i(v as int) >= 0;
            },
            Elem::Undefined => {},
        }
    }
}

/// Comparator monotonicity: a pair that passes under a tolerance passes
/// under any tolerance at least as large in both terms.
pub proof fn lemma_compare_monotonic(
    a: Seq<Elem>,
    e: Seq<Elem>,
    ta1: int,
    tr1: int,
    ta2: int,
    tr2: int,
)
    requires
        all_within(a, e, ta1, tr1),
        ta1 <= ta2,
        tr1 <= tr2,
    ensures
        all_within(a, e, ta2, tr2),
{
    assert forall|i: int| 0 <= i < a.len() implies elem_within(#[trigger] a[i], e[i], ta2, tr2) by {
        assert(elem_within(a[i], e[i], ta1, tr1));
        match (a[i], e[i]) {
            (Elem::Num(va), Elem::Num(ve)) => {
                assert(ta1 * (SCALE_ONE as int) <= ta2 * (SCALE_ONE as int)) by (nonlinear_arith)
                    requires ta1 <= ta2;
                assert(tr1 * abs_i(ve as int) <= tr2 * abs_i(ve as int)) by (nonlinear_arith)
                    requires tr1 <= tr2, abs_i(ve as int) >= 0;
            },
            _ => {},
        }
    }
}

} // verus!
