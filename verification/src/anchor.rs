use vstd::prelude::*;
use crate::style::{HAlign, VAlign, TextRotation};

verus! {

/// The horizontal draw offset the anchor rule assigns to a text of the given
/// width: left anchors draw at the point itself, right anchors one width to
/// the left, centred anchors half a width to the left (halves of odd widths
/// round towards the point).
pub open spec fn h_offset(h: HAlign, width: int) -> int {
    match h {
        HAlign::Left => 0,
        HAlign::Right => -width,
        HAlign::Center => -(width / 2),
    }
}

/// The vertical draw offset the anchor rule assigns to a text of the given
/// height, mirroring [`h_offset`] with top for left and bottom for right.
pub open spec fn v_offset(v: VAlign, height: int) -> int {
    match v {
        VAlign::Top => 0,
        VAlign::Center => -(height / 2),
        VAlign::Bottom => -height,
    }
}

/// Computes the draw offset for a text box of `width` × `height` pixels under
/// the given anchor: the text's draw point is the anchor point plus this
/// offset.
pub fn anchor_offset(h: HAlign, v: VAlign, width: u32, height: u32) -> (off: (i64, i64))
    ensures
        off.0 == h_offset(h, width as int),
        off.1 == v_offset(v, height as int),
{
    let dx: i64 = match h {
        HAlign::Left => 0,
        HAlign::Right => -(width as i64),
        HAlign::Center => -((width / 2) as i64),
    };
    let dy: i64 = match v {
        VAlign::Top => 0,
        VAlign::Center => -((height / 2) as i64),
        VAlign::Bottom => -(height as i64),
    };
    (dx, dy)
}

/// The cosine of the rotation's angle. The four supported angles are right
/// angles, so the value is exact.
pub open spec fn rot_cos(rot: TextRotation) -> int {
    match rot {
        TextRotation::Rotate0 => 1,
        TextRotation::Rotate90 => 0,
        TextRotation::Rotate180 => -1,
        TextRotation::Rotate270 => 0,
    }
}

/// The sine of the rotation's angle, exact for the four right angles.
pub open spec fn rot_sin(rot: TextRotation) -> int {
    match rot {
        TextRotation::Rotate0 => 0,
        TextRotation::Rotate90 => 1,
        TextRotation::Rotate180 => 0,
        TextRotation::Rotate270 => -1,
    }
}

/// Computes the standard 2D rotation matrix for the rotation, in row order
/// `(m11, m12, m21, m22) == (cos, sin, -sin, cos)`.
pub fn rotation_matrix(rot: TextRotation) -> (m: (i32, i32, i32, i32))
    ensures
        m.0 == rot_cos(rot),
        m.1 == rot_sin(rot),
        m.2 == -rot_sin(rot),
        m.3 == rot_cos(rot),
{
    match rot {
        TextRotation::Rotate0 => (1, 0, 0, 1),
        TextRotation::Rotate90 => (0, 1, -1, 0),
        TextRotation::Rotate180 => (-1, 0, 0, -1),
        TextRotation::Rotate270 => (0, -1, 1, 0),
    }
}

/// The anchor offsets follow the documented table: a left or top anchor
/// leaves the draw point unchanged; a right anchor moves it a full width
/// left and a bottom anchor a full height up; a centred anchor moves it half
/// a width left or half a height up.
pub proof fn lemma_anchor_offset_table(width: int, height: int)
    requires
        0 <= width,
        0 <= height,
    ensures
        h_offset(HAlign::Left, width) == 0,
        h_offset(HAlign::Right, width) == -width,
        h_offset(HAlign::Center, width) == -(width / 2),
        v_offset(VAlign::Top, height) == 0,
        v_offset(VAlign::Center, height) == -(height / 2),
        v_offset(VAlign::Bottom, height) == -height,
{
}

} // verus!
