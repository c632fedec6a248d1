//! Quantization schemes.
//!
//! A scheme is pure data describing how real values map to small
//! integers: a mode (symmetric or affine), a granularity (one scale for
//! the whole tensor, or one per channel along a chosen axis), an integer
//! width, and per granularity unit a positive scale (in microunits) and
//! an integer zero point.

use vstd::prelude::*;
use crate::fixed::VAL_MAX;

verus! {

/// How real values are centred on the integer range.
#[derive(Clone, Copy, Debug, PartialEq, Eq, Structural)]
pub enum Mode {
    /// Zero point is fixed at zero; the range `[-m, m]` maps onto the
    /// signed integer range.
    Symmetric,
    /// The observed range `[min, max]` maps onto the full integer
    /// range, with a derived zero point.
    Affine,
}

/// How a tensor is partitioned into independently scaled groups.
#[derive(Clone, Copy, Debug, PartialEq, Eq, Structural)]
pub enum Granularity {
    /// One scale and zero point for the whole tensor.
    PerTensor,
    /// One scale and zero point per slice along the given axis.
    PerChannel(usize),
}

/// Smallest supported integer width, in bits.
pub const WIDTH_MIN: u32 = 2;

/// Largest supported integer width, in bits.
pub const WIDTH_MAX: u32 = 16;

pub open spec fn two_pow(n: nat) -> int
    decreases n,
{
    if n == 0 { 1 } else { 2 * two_pow((n - 1) as nat) }
}

/// Smallest integer representable at the given width.
pub open spec fn qmin_of(width: int) -> int {
    -two_pow((width - 1) as nat)
}

/// Largest integer representable at the given width.
pub open spec fn qmax_of(width: int) -> int {
    two_pow((width - 1) as nat) - 1
}

pub proof fn lemma_two_pow_pos(n: nat)
    ensures
        two_pow(n) >= 1,
    decreases n,
{
    if n > 0 {
        lemma_two_pow_pos((n - 1) as nat);
    }
}

pub proof fn lemma_two_pow_mono(a: nat, b: nat)
    requires
        a <= b,
    ensures
        two_pow(a) <= two_pow(b),
    decreases b,
{
    if a < b {
        lemma_two_pow_mono(a, (b - 1) as nat);
        lemma_two_pow_pos((b - 1) as nat);
    }
}

pub proof fn lemma_two_pow_15()
    ensures
        two_pow(14) == 16384,
        two_pow(15) == 32768,
{
    assert(two_pow(0) == 1);
    assert(two_pow(1) == 2);
    assert(two_pow(2) == 4);
    assert(two_pow(3) == 8);
    assert(two_pow(4) == 16);
    assert(two_pow(5) == 32);
    assert(two_pow(6) == 64);
    assert(two_pow(7) == 128);
    assert(two_pow(8) == 256);
    assert(two_pow(9) == 512);
    assert(two_pow(10) == 1024);
    assert(two_pow(11) == 2048);
    assert(two_pow(12) == 4096);
    assert(two_pow(13) == 8192);
    assert(two_pow(14) == 16384);
    assert(two_pow(15) == 32768);
}

/// The integer bounds `(qmin, qmax)` of the given width.
pub fn int_bounds(width: u32) -> (r: (i64, i64))
    requires
        WIDTH_MIN <= width <= WIDTH_MAX,
    ensures
        r.0 == qmin_of(width as int),
        r.1 == qmax_of(width as int),
        -32768 <= r.0 <= -2,
        1 <= r.1 <= 32767,
{
    let mut p: i64 = 1;
    let mut i: u32 = 1;
    proof {
        lemma_two_pow_15();
    }
    while i < width
        invariant
            1 <= i <= width <= WIDTH_MAX,
            p == two_pow((i - 1) as nat),
            two_pow(14) == 16384,
            two_pow(15) == 32768,
        decreases width - i,
    {
        proof {
            lemma_two_pow_pos((i - 1) as nat);
            lemma_two_pow_mono((i - 1) as nat, 14);
        }
        p = p * 2;
        i = i + 1;
    }
    proof {
        lemma_two_pow_mono((width - 1) as nat, 15);
        lemma_two_pow_pos((width - 1) as nat);
    }
    (-p, p - 1)
}

/// A quantization scheme: pure data, computed once from an observed
/// value range and immutable thereafter.
#[derive(Clone, Debug)]
pub struct Scheme {
    pub mode: Mode,
    pub granularity: Granularity,
    /// Integer width in bits, between `WIDTH_MIN` and `WIDTH_MAX`.
    pub width: u32,
    /// One positive scale (microunits per integer step) per granularity unit.
    pub scales: Vec<i64>,
    /// One zero point per granularity unit; all zero in symmetric mode.
    pub zero_points: Vec<i64>,
}

impl Scheme {
    /// Internal consistency of a scheme, independent of any tensor.
    pub open spec fn wf(self) -> bool {
        &&& WIDTH_MIN <= self.width <= WIDTH_MAX
        &&& self.zero_points@.len() == self.scales@.len()
        &&& (self.granularity is PerTensor ==> self.scales@.len() == 1)
        &&& forall|i: int|
            0 <= i < self.scales@.len() ==> 1 <= #[trigger] self.scales@[i] <= VAL_MAX
        &&& forall|i: int|
            0 <= i < self.zero_points@.len()
                ==> qmin_of(self.width as int) <= #[trigger] self.zero_points@[i]
                    <= qmax_of(self.width as int)
        &&& (self.mode is Symmetric
            ==> forall|i: int|
                0 <= i < self.zero_points@.len() ==> #[trigger] self.zero_points@[i] == 0)
    }

    /// Number of independently scaled groups the scheme carries.
    pub fn unit_count(&self) -> (r: usize)
        ensures
            r == self.scales@.len(),
    {
        self.scales.len()
    }

    /// A copy of the scheme, equal to it field by field.
    pub fn duplicate(&self) -> (r: Scheme)
        ensures
            r.mode == self.mode,
            r.granularity == self.granularity,
            r.width == self.width,
            r.scales@ == self.scales@,
            r.zero_points@ == self.zero_points@,
    {
        Scheme {
            mode: self.mode,
            granularity: self.granularity,
            width: self.width,
            scales: copy_vec_i64(&self.scales),
            zero_points: copy_vec_i64(&self.zero_points),
        }
    }
}

/// A copy of a vector of integers.
pub fn copy_vec_i64(v: &Vec<i64>) -> (r: Vec<i64>)
    ensures
        r@ == v@,
{
    let mut r: Vec<i64> = Vec::new();
    let mut i: usize = 0;
    while i < v.len()
        invariant
            0 <= i <= v@.len(),
            r@ == v@.take(i as int),
        decreases v@.len() - i,
    {
        r.push(v[i]);
        proof {
            assert(r@ =~= v@.take(i as int + 1));
        }
        i = i + 1;
    }
    proof {
        assert(v@.take(v@.len() as int) =~= v@);
    }
    r
}

} // verus!
