use vstd::prelude::*;
use crate::color::Rgb;

verus! {

/// One call against the render context, recorded as plain data.
///
/// The adapter translates every abstract drawing primitive into a sequence of
/// these operations; an unverified shim replays them, in order, on the real
/// 2D render context. Coordinates handed over by the charting library are
/// `i32` pixels; the context itself consumes floating-point values, which the
/// replay produces by exact widening. Quantities the adapter computes itself
/// (rectangle extents from two corners, the text draw point after anchor
/// offsets) are kept as `i64`, wide enough that the arithmetic never wraps.
#[derive(Clone, Debug, PartialEq, Eq)]
pub enum RenderOp {
    /// Register the adapter's font on the context under its fixed logical
    /// name; the replay supplies the font bytes embedded in the program.
    RegisterFont,
    /// Begin a fresh path, dropping any current path state.
    BeginPath,
    /// Set the context's global opacity, as an integer fraction of 255.
    SetAlpha { alpha: u8 },
    /// Set the fill brush to a solid colour.
    SetFillColor { color: Rgb },
    /// Set the stroke brush to a solid colour.
    SetStrokeColor { color: Rgb },
    /// Set the stroke width in pixels.
    SetLineWidth { width: u32 },
    /// Fill the axis-aligned rectangle with corner `(x, y)` and the signed
    /// extents `width` × `height` (negative when the corners were inverted).
    FillRect { x: i32, y: i32, width: i64, height: i64 },
    /// Stroke the outline of the same rectangle.
    StrokeRect { x: i32, y: i32, width: i64, height: i64 },
    /// Start a path segment at the point.
    MoveTo { x: i32, y: i32 },
    /// Extend the current path with a straight segment to the point.
    LineTo { x: i32, y: i32 },
    /// Close the current path back to its starting point.
    ClosePath,
    /// Fill the current path.
    Fill,
    /// Stroke the current path.
    Stroke,
    /// Add a full circle (an arc over the whole turn) around the centre.
    FullArc { cx: i32, cy: i32, radius: u32 },
    /// Save the context's state, the transform included.
    Save,
    /// Restore the context's state saved last.
    Restore,
    /// Replace the transform by the matrix
    /// `[m11 m12; m21 m22]` with translation `(dx, dy)`.
    SetTransform { m11: i32, m12: i32, m21: i32, m22: i32, dx: i32, dy: i32 },
    /// Set the font size in pixels for the following text operations.
    SetFontSize { size: u32 },
    /// Select the adapter's registered font family.
    SetFontFamily,
    /// Fill the text at the point, already offset by the anchor rule.
    FillText { text: String, x: i64, y: i64 },
}

/// The identity transform, as [`RenderOp::SetTransform`] carries it.
pub open spec fn identity_transform() -> RenderOp {
    RenderOp::SetTransform { m11: 1, m12: 0, m21: 0, m22: 1, dx: 0, dy: 0 }
}

} // verus!
