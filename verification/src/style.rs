use vstd::prelude::*;
use crate::color::Rgba;

verus! {

/// The horizontal position of the anchor point relative to a text box.
#[derive(Clone, Copy, Debug, PartialEq, Eq, Structural)]
pub enum HAlign {
    /// The anchor point sits on the left edge of the text.
    Left,
    /// The anchor point sits on the right edge of the text.
    Right,
    /// The anchor point sits in the horizontal centre of the text.
    Center,
}

/// The vertical position of the anchor point relative to a text box.
#[derive(Clone, Copy, Debug, PartialEq, Eq, Structural)]
pub enum VAlign {
    /// The anchor point sits on the top edge of the text.
    Top,
    /// The anchor point sits in the vertical centre of the text.
    Center,
    /// The anchor point sits on the bottom edge of the text.
    Bottom,
}

/// The anchor point within a text bounding box used to offset its draw
/// position.
#[derive(Clone, Copy, Debug, PartialEq, Eq, Structural)]
pub struct Anchor {
    pub h: HAlign,
    pub v: VAlign,
}

/// One of the four discrete rotations a text draw supports, measured
/// clockwise on the screen.
#[derive(Clone, Copy, Debug, PartialEq, Eq, Structural)]
pub enum TextRotation {
    Rotate0,
    Rotate90,
    Rotate180,
    Rotate270,
}

/// The style a shape primitive is drawn with: a colour and a stroke width.
#[derive(Clone, Copy, Debug, PartialEq, Eq, Structural)]
pub struct ShapeStyle {
    pub color: Rgba,
    pub stroke_width: u32,
}

/// The style a text draw is issued with: a colour, the font size in pixels,
/// the anchor rule, and the discrete rotation.
#[derive(Clone, Copy, Debug, PartialEq, Eq, Structural)]
pub struct TextStyle {
    pub color: Rgba,
    pub size: u32,
    pub anchor: Anchor,
    pub rotation: TextRotation,
}

} // verus!
