use vstd::prelude::*;

verus! {

/// A colour as the charting side supplies it: red, green and blue channels
/// plus an opacity, here kept as an integer fraction of 255 (255 = opaque).
#[derive(Clone, Copy, Debug, PartialEq, Eq, Structural)]
pub struct Rgba {
    pub r: u8,
    pub g: u8,
    pub b: u8,
    pub alpha: u8,
}

/// A solid colour as the render context's brush takes it: red, green, blue.
#[derive(Clone, Copy, Debug, PartialEq, Eq, Structural)]
pub struct Rgb {
    pub r: u8,
    pub g: u8,
    pub b: u8,
}

/// The colour an [`Rgba`] is drawn with: the three channels are kept and the
/// opacity is dropped, since the context carries opacity as its own property.
pub open spec fn rgb_of(c: Rgba) -> Rgb {
    Rgb { r: c.r, g: c.g, b: c.b }
}

} // verus!
