//! Quantized-tensor numeric core.
//!
//! Dense numeric arrays are held in a reduced-precision integer encoding
//! described by a quantization scheme (scale, zero point, granularity,
//! integer width). The library converts between that encoding and a
//! full-precision fixed-point representation, applies elementwise
//! mathematical operations, and checks numeric results for approximate
//! equality under a configurable tolerance.
//!
//! Real values are represented throughout as signed 64-bit counts of
//! microunits (one unit equals `SCALE_ONE` microunits), so that every
//! numeric claim is exact integer arithmetic.

use vstd::prelude::*;

pub mod compare;
pub mod fixed;
pub mod ops;
pub mod progress;
pub mod quantize;
pub mod scheme;
pub mod tensor;

verus! {

/// The failures that the numeric core reports before touching any data.
#[derive(Clone, Copy, Debug, PartialEq, Eq, Structural)]
pub enum TensorError {
    /// A per-channel scheme names an axis the tensor does not have, or
    /// carries a channel count that differs from that axis's length.
    AxisMismatch,
    /// The requested integer width is outside the supported range.
    UnsupportedWidth,
    /// A binary operation or a comparison was given tensors of
    /// different shapes.
    ShapeMismatch,
    /// A tensor was built from a buffer whose element count does not
    /// match the product of the shape dimensions, or whose elements lie
    /// outside the representable value range.
    InvalidBuffer,
}

} // verus!
