use vstd::prelude::*;
use crate::OrbtkError;
use crate::anchor::{h_offset, v_offset, rot_cos, rot_sin, anchor_offset, rotation_matrix};
use crate::color::{Rgb, Rgba, rgb_of};
use crate::ops::{RenderOp, identity_transform};
use crate::style::{ShapeStyle, TextStyle, TextRotation};

verus! {

/// The drawing backend that targets the toolkit's 2D render context.
///
/// The backend carries the fixed surface dimensions and records, as plain
/// data, the exact sequence of render-context operations each drawing
/// primitive stands for; an unverified shim replays the recorded tape on the
/// real context. Every contract below pins that sequence down completely.
pub struct OrbtkBackend {
    /// The surface width fixed at construction.
    pub width: u32,
    /// The surface height fixed at construction.
    pub height: u32,
    /// The render-context operations recorded and not yet replayed.
    pub ops: Vec<RenderOp>,
}

/// The operations a pixel draw issues: one path, the fill style from the
/// colour (opacity separate), and a 1 x 1 rectangle at the point.
pub open spec fn pixel_ops(point: (i32, i32), color: Rgba) -> Seq<RenderOp> {
    seq![
        RenderOp::BeginPath,
        RenderOp::SetAlpha { alpha: color.alpha },
        RenderOp::SetFillColor { color: rgb_of(color) },
        RenderOp::FillRect { x: point.0, y: point.1, width: 1, height: 1 },
    ]
}

/// The operations a line draw issues: stroke width and colour from the
/// style, then one straight segment, stroked.
pub open spec fn line_ops(from: (i32, i32), to: (i32, i32), style: ShapeStyle) -> Seq<RenderOp> {
    seq![
        RenderOp::BeginPath,
        RenderOp::SetLineWidth { width: style.stroke_width },
        RenderOp::SetAlpha { alpha: style.color.alpha },
        RenderOp::SetStrokeColor { color: rgb_of(style.color) },
        RenderOp::MoveTo { x: from.0, y: from.1 },
        RenderOp::LineTo { x: to.0, y: to.1 },
        RenderOp::Stroke,
    ]
}

/// The operations a rectangle draw issues. The extents are the signed
/// differences of the two corners: inverted corners give negative extents,
/// handed on unguarded.
pub open spec fn rect_ops(
    upper_left: (i32, i32),
    bottom_right: (i32, i32),
    style: ShapeStyle,
    fill: bool,
) -> Seq<RenderOp> {
    let width = (bottom_right.0 - upper_left.0) as i64;
    let height = (bottom_right.1 - upper_left.1) as i64;
    if fill {
        seq![
            RenderOp::BeginPath,
            RenderOp::SetAlpha { alpha: style.color.alpha },
            RenderOp::SetFillColor { color: rgb_of(style.color) },
            RenderOp::FillRect { x: upper_left.0, y: upper_left.1, width, height },
        ]
    } else {
        seq![
            RenderOp::BeginPath,
            RenderOp::SetAlpha { alpha: style.color.alpha },
            RenderOp::SetLineWidth { width: style.stroke_width },
            RenderOp::SetStrokeColor { color: rgb_of(style.color) },
            RenderOp::StrokeRect { x: upper_left.0, y: upper_left.1, width, height },
        ]
    }
}

/// The path op for the point at position `i` of a polyline: the first point
/// starts the path, every later one extends it.
pub open spec fn polyline_op(i: int, p: (i32, i32)) -> RenderOp {
    if i == 0 {
        RenderOp::MoveTo { x: p.0, y: p.1 }
    } else {
        RenderOp::LineTo { x: p.0, y: p.1 }
    }
}

/// The path ops of a whole polyline: a move to the first point, then one
/// segment per further point.
pub open spec fn polyline_ops(pts: Seq<(i32, i32)>) -> Seq<RenderOp> {
    pts.map(|i: int, p: (i32, i32)| polyline_op(i, p))
}

/// The operations a polyline draw issues: stroke width and colour from the
/// style, the polyline, stroked once.
pub open spec fn path_ops(pts: Seq<(i32, i32)>, style: ShapeStyle) -> Seq<RenderOp> {
    seq![
        RenderOp::BeginPath,
        RenderOp::SetLineWidth { width: style.stroke_width },
        RenderOp::SetAlpha { alpha: style.color.alpha },
        RenderOp::SetStrokeColor { color: rgb_of(style.color) },
    ] + polyline_ops(pts) + seq![RenderOp::Stroke]
}

/// The operations a polygon fill issues: the fill style, the boundary as a
/// polyline, the path closed and filled; no outline is stroked.
pub open spec fn polygon_ops(vert: Seq<(i32, i32)>, style: ShapeStyle) -> Seq<RenderOp> {
    seq![
        RenderOp::BeginPath,
        RenderOp::SetAlpha { alpha: style.color.alpha },
        RenderOp::SetFillColor { color: rgb_of(style.color) },
    ] + polyline_ops(vert) + seq![RenderOp::ClosePath, RenderOp::Fill]
}

/// The operations a circle draw issues: a full arc around the centre, then a
/// fill or a stroke as requested.
pub open spec fn circle_ops(
    center: (i32, i32),
    radius: u32,
    style: ShapeStyle,
    fill: bool,
) -> Seq<RenderOp> {
    if fill {
        seq![
            RenderOp::BeginPath,
            RenderOp::SetAlpha { alpha: style.color.alpha },
            RenderOp::SetFillColor { color: rgb_of(style.color) },
            RenderOp::FullArc { cx: center.0, cy: center.1, radius },
            RenderOp::Fill,
        ]
    } else {
        seq![
            RenderOp::BeginPath,
            RenderOp::SetAlpha { alpha: style.color.alpha },
            RenderOp::SetStrokeColor { color: rgb_of(style.color) },
            RenderOp::SetLineWidth { width: style.stroke_width },
            RenderOp::FullArc { cx: center.0, cy: center.1, radius },
            RenderOp::Stroke,
        ]
    }
}

/// The operations a text draw issues for a text whose measured box is
/// `measured` pixels. A rotated draw brackets the fill between a saved
/// transform set to the rotation matrix translated to the anchor point, and
/// a restore followed by a reset to the identity; the text itself is then
/// drawn at the anchor offsets, laid off from the origin of the rotated
/// frame. An unrotated draw fills at the anchor point offset by the anchor
/// rule.
pub open spec fn text_ops(
    text: String,
    style: TextStyle,
    pos: (i32, i32),
    measured: (u32, u32),
) -> Seq<RenderOp> {
    let rotated = style.rotation != TextRotation::Rotate0;
    let head: Seq<RenderOp> = if rotated {
        seq![
            RenderOp::Save,
            RenderOp::SetTransform {
                m11: rot_cos(style.rotation) as i32,
                m12: rot_sin(style.rotation) as i32,
                m21: (-rot_sin(style.rotation)) as i32,
                m22: rot_cos(style.rotation) as i32,
                dx: pos.0,
                dy: pos.1,
            },
        ]
    } else {
        Seq::empty()
    };
    let draw_at: (i64, i64) = if rotated {
        (
            h_offset(style.anchor.h, measured.0 as int) as i64,
            v_offset(style.anchor.v, measured.1 as int) as i64,
        )
    } else {
        (
            (pos.0 + h_offset(style.anchor.h, measured.0 as int)) as i64,
            (pos.1 + v_offset(style.anchor.v, measured.1 as int)) as i64,
        )
    };
    let tail: Seq<RenderOp> = if rotated {
        seq![RenderOp::Restore, identity_transform()]
    } else {
        Seq::empty()
    };
    head + seq![
        RenderOp::SetFontSize { size: style.size },
        RenderOp::SetFontFamily,
        RenderOp::BeginPath,
        RenderOp::SetAlpha { alpha: style.color.alpha },
        RenderOp::SetFillColor { color: rgb_of(style.color) },
        RenderOp::FillText { text, x: draw_at.0, y: draw_at.1 },
    ] + tail
}

impl OrbtkBackend {
    /// Builds a backend over a surface of the given dimensions. The one
    /// operation recorded at construction registers the font under the
    /// adapter's fixed logical name, once, before any draw. Construction
    /// cannot fail; the `Result` mirrors the interface.
    pub fn new(width: u32, height: u32) -> (r: Result<OrbtkBackend, OrbtkError>)
        ensures
            r matches Ok(b) && b.width == width && b.height == height && b.ops@
                == seq![RenderOp::RegisterFont],
    {
        let mut ops: Vec<RenderOp> = Vec::new();
        ops.push(RenderOp::RegisterFont);
        proof {
            assert(ops@ =~= seq![RenderOp::RegisterFont]);
        }
        Ok(OrbtkBackend { width, height, ops })
    }

    /// Returns the fixed surface dimensions established at construction.
    pub fn get_size(&self) -> (s: (u32, u32))
        ensures
            s == (self.width, self.height),
    {
        (self.width, self.height)
    }

    /// Nothing to prepare: the context has no double-buffering state for the
    /// adapter to manage.
    pub fn ensure_prepared(&mut self) -> (r: Result<(), OrbtkError>)
        ensures
            r is Ok,
            *final(self) == *old(self),
    {
        Ok(())
    }

    /// Nothing to present; see [`Self::ensure_prepared`].
    pub fn present(&mut self) -> (r: Result<(), OrbtkError>)
        ensures
            r is Ok,
            *final(self) == *old(self),
    {
        Ok(())
    }

    /// The solid brush colour a supplied colour is drawn with: the three
    /// channels kept, the opacity dropped here and carried by the context's
    /// own opacity property instead.
    pub fn color_change(&self, color: &Rgba) -> (c: Rgb)
        ensures
            c == rgb_of(*color),
    {
        Rgb { r: color.r, g: color.g, b: color.b }
    }

    /// Hands out the recorded tape and leaves the backend's tape empty; the
    /// dimensions stay.
    pub fn take_ops(&mut self) -> (r: Vec<RenderOp>)
        ensures
            r@ == old(self).ops@,
            final(self).ops@ == Seq::<RenderOp>::empty(),
            final(self).width == old(self).width,
            final(self).height == old(self).height,
    {
        let mut out: Vec<RenderOp> = Vec::new();
        core::mem::swap(&mut out, &mut self.ops);
        out
    }

    /// Records a pixel draw: exactly [`pixel_ops`] is appended to the tape.
    pub fn draw_pixel(&mut self, point: (i32, i32), color: Rgba) -> (r: Result<(), OrbtkError>)
        ensures
            r is Ok,
            final(self).ops@ == old(self).ops@ + pixel_ops(point, color),
            final(self).width == old(self).width,
            final(self).height == old(self).height,
    {
        self.ops.push(RenderOp::BeginPath);
        self.ops.push(RenderOp::SetAlpha { alpha: color.alpha });
        self.ops.push(RenderOp::SetFillColor { color: self.color_change(&color) });
        self.ops.push(RenderOp::FillRect { x: point.0, y: point.1, width: 1, height: 1 });
        proof {
            assert(self.ops@ =~= old(self).ops@ + pixel_ops(point, color));
        }
        Ok(())
    }

    /// Records a line draw: exactly [`line_ops`] is appended to the tape.
    pub fn draw_line(
        &mut self,
        from: (i32, i32),
        to: (i32, i32),
        style: &ShapeStyle,
    ) -> (r: Result<(), OrbtkError>)
        ensures
            r is Ok,
            final(self).ops@ == old(self).ops@ + line_ops(from, to, *style),
            final(self).width == old(self).width,
            final(self).height == old(self).height,
    {
        self.ops.push(RenderOp::BeginPath);
        self.ops.push(RenderOp::SetLineWidth { width: style.stroke_width });
        self.ops.push(RenderOp::SetAlpha { alpha: style.color.alpha });
        self.ops.push(RenderOp::SetStrokeColor { color: self.color_change(&style.color) });
        self.ops.push(RenderOp::MoveTo { x: from.0, y: from.1 });
        self.ops.push(RenderOp::LineTo { x: to.0, y: to.1 });
        self.ops.push(RenderOp::Stroke);
        proof {
            assert(self.ops@ =~= old(self).ops@ + line_ops(from, to, *style));
        }
        Ok(())
    }

    /// Records a rectangle draw: exactly [`rect_ops`] is appended. The
    /// extents are signed corner differences, negative when the corners are
    /// inverted; no normalisation takes place.
    pub fn draw_rect(
        &mut self,
        upper_left: (i32, i32),
        bottom_right: (i32, i32),
        style: &ShapeStyle,
        fill: bool,
    ) -> (r: Result<(), OrbtkError>)
        ensures
            r is Ok,
            final(self).ops@ == old(self).ops@ + rect_ops(upper_left, bottom_right, *style, fill),
            final(self).width == old(self).width,
            final(self).height == old(self).height,
    {
        self.ops.push(RenderOp::BeginPath);
        self.ops.push(RenderOp::SetAlpha { alpha: style.color.alpha });
        let width = bottom_right.0 as i64 - upper_left.0 as i64;
        let height = bottom_right.1 as i64 - upper_left.1 as i64;
        if fill {
            self.ops.push(RenderOp::SetFillColor { color: self.color_change(&style.color) });
            self.ops.push(RenderOp::FillRect { x: upper_left.0, y: upper_left.1, width, height });
        } else {
            self.ops.push(RenderOp::SetLineWidth { width: style.stroke_width });
            self.ops.push(RenderOp::SetStrokeColor { color: self.color_change(&style.color) });
            self.ops.push(
                RenderOp::StrokeRect { x: upper_left.0, y: upper_left.1, width, height },
            );
        }
        proof {
            assert(self.ops@ =~= old(self).ops@ + rect_ops(
                upper_left,
                bottom_right,
                *style,
                fill,
            ));
        }
        Ok(())
    }

    /// Records a polyline draw: exactly [`path_ops`] is appended, a single
    /// pass over the points in their given order.
    pub fn draw_path(
        &mut self,
        path: &Vec<(i32, i32)>,
        style: &ShapeStyle,
    ) -> (r: Result<(), OrbtkError>)
        ensures
            r is Ok,
            final(self).ops@ == old(self).ops@ + path_ops(path@, *style),
            final(self).width == old(self).width,
            final(self).height == old(self).height,
    {
        self.ops.push(RenderOp::BeginPath);
        self.ops.push(RenderOp::SetLineWidth { width: style.stroke_width });
        self.ops.push(RenderOp::SetAlpha { alpha: style.color.alpha });
        self.ops.push(RenderOp::SetStrokeColor { color: self.color_change(&style.color) });
        let ghost header = self.ops@;
        for i in 0..path.len()
            invariant
                self.ops@ == header + polyline_ops(path@.take(i as int)),
                self.width == old(self).width,
                self.height == old(self).height,
                header == old(self).ops@ + seq![
                    RenderOp::BeginPath,
                    RenderOp::SetLineWidth { width: style.stroke_width },
                    RenderOp::SetAlpha { alpha: style.color.alpha },
                    RenderOp::SetStrokeColor { color: rgb_of(style.color) },
                ],
        {
            let p = path[i];
            if i == 0 {
                self.ops.push(RenderOp::MoveTo { x: p.0, y: p.1 });
            } else {
                self.ops.push(RenderOp::LineTo { x: p.0, y: p.1 });
            }
            proof {
                lemma_polyline_step(path@, i as int);
            }
        }
        self.ops.push(RenderOp::Stroke);
        proof {
            assert(path@.take(path@.len() as int) =~= path@);
            assert(self.ops@ =~= old(self).ops@ + path_ops(path@, *style));
        }
        Ok(())
    }

    /// Records a polygon fill: exactly [`polygon_ops`] is appended; the
    /// boundary is closed and filled, never stroked.
    pub fn fill_polygon(
        &mut self,
        vert: &Vec<(i32, i32)>,
        style: &ShapeStyle,
    ) -> (r: Result<(), OrbtkError>)
        ensures
            r is Ok,
            final(self).ops@ == old(self).ops@ + polygon_ops(vert@, *style),
            final(self).width == old(self).width,
            final(self).height == old(self).height,
    {
        self.ops.push(RenderOp::BeginPath);
        self.ops.push(RenderOp::SetAlpha { alpha: style.color.alpha });
        self.ops.push(RenderOp::SetFillColor { color: self.color_change(&style.color) });
        let ghost header = self.ops@;
        for i in 0..vert.len()
            invariant
                self.ops@ == header + polyline_ops(vert@.take(i as int)),
                self.width == old(self).width,
                self.height == old(self).height,
                header == old(self).ops@ + seq![
                    RenderOp::BeginPath,
                    RenderOp::SetAlpha { alpha: style.color.alpha },
                    RenderOp::SetFillColor { color: rgb_of(style.color) },
                ],
        {
            let p = vert[i];
            if i == 0 {
                self.ops.push(RenderOp::MoveTo { x: p.0, y: p.1 });
            } else {
                self.ops.push(RenderOp::LineTo { x: p.0, y: p.1 });
            }
            proof {
                lemma_polyline_step(vert@, i as int);
            }
        }
        self.ops.push(RenderOp::ClosePath);
        self.ops.push(RenderOp::Fill);
        proof {
            assert(vert@.take(vert@.len() as int) =~= vert@);
            assert(self.ops@ =~= old(self).ops@ + polygon_ops(vert@, *style));
        }
        Ok(())
    }

    /// Records a circle draw: exactly [`circle_ops`] is appended.
    pub fn draw_circle(
        &mut self,
        center: (i32, i32),
        radius: u32,
        style: &ShapeStyle,
        fill: bool,
    ) -> (r: Result<(), OrbtkError>)
        ensures
            r is Ok,
            final(self).ops@ == old(self).ops@ + circle_ops(center, radius, *style, fill),
            final(self).width == old(self).width,
            final(self).height == old(self).height,
    {
        self.ops.push(RenderOp::BeginPath);
        self.ops.push(RenderOp::SetAlpha { alpha: style.color.alpha });
        if fill {
            self.ops.push(RenderOp::SetFillColor { color: self.color_change(&style.color) });
            self.ops.push(RenderOp::FullArc { cx: center.0, cy: center.1, radius });
            self.ops.push(RenderOp::Fill);
        } else {
            self.ops.push(RenderOp::SetStrokeColor { color: self.color_change(&style.color) });
            self.ops.push(RenderOp::SetLineWidth { width: style.stroke_width });
            self.ops.push(RenderOp::FullArc { cx: center.0, cy: center.1, radius });
            self.ops.push(RenderOp::Stroke);
        }
        proof {
            assert(self.ops@ =~= old(self).ops@ + circle_ops(center, radius, *style, fill));
        }
        Ok(())
    }

    /// Records a text draw: exactly [`text_ops`] is appended. `measured` is
    /// the text's bounding box as the context's font engine reported it; the
    /// anchor rule offsets the draw point by it, and the four discrete
    /// rotations bracket the fill in a saved, rotated transform.
    pub fn draw_text(
        &mut self,
        text: String,
        style: &TextStyle,
        pos: (i32, i32),
        measured: (u32, u32),
    ) -> (r: Result<(), OrbtkError>)
        ensures
            r is Ok,
            final(self).ops@ == old(self).ops@ + text_ops(text, *style, pos, measured),
            final(self).width == old(self).width,
            final(self).height == old(self).height,
    {
        let rotated = style.rotation != TextRotation::Rotate0;
        if rotated {
            let m = rotation_matrix(style.rotation);
            self.ops.push(RenderOp::Save);
            self.ops.push(
                RenderOp::SetTransform {
                    m11: m.0,
                    m12: m.1,
                    m21: m.2,
                    m22: m.3,
                    dx: pos.0,
                    dy: pos.1,
                },
            );
        }
        self.ops.push(RenderOp::SetFontSize { size: style.size });
        self.ops.push(RenderOp::SetFontFamily);
        let off = anchor_offset(style.anchor.h, style.anchor.v, measured.0, measured.1);
        let draw_at: (i64, i64) = if rotated {
            (off.0, off.1)
        } else {
            (pos.0 as i64 + off.0, pos.1 as i64 + off.1)
        };
        self.ops.push(RenderOp::BeginPath);
        self.ops.push(RenderOp::SetAlpha { alpha: style.color.alpha });
        self.ops.push(RenderOp::SetFillColor { color: self.color_change(&style.color) });
        self.ops.push(RenderOp::FillText { text, x: draw_at.0, y: draw_at.1 });
        if rotated {
            self.ops.push(RenderOp::Restore);
            self.ops.push(RenderOp::SetTransform { m11: 1, m12: 0, m21: 0, m22: 1, dx: 0, dy: 0 });
        }
        proof {
            assert(self.ops@ =~= old(self).ops@ + text_ops(text, *style, pos, measured));
        }
        Ok(())
    }
}

/// Law: a text draw under one of the three proper rotations applies exactly
/// the standard 2D rotation matrix for its angle, translated to the anchor
/// point, inside a save/restore bracket, and leaves the transform reset to
/// the identity; an unrotated draw never touches the transform.
pub proof fn lemma_text_transform_bracket(
    text: String,
    style: TextStyle,
    pos: (i32, i32),
    measured: (u32, u32),
)
    ensures
        style.rotation != TextRotation::Rotate0 ==> {
            let s = text_ops(text, style, pos, measured);
            &&& s.len() == 10
            &&& s[0] == RenderOp::Save
            &&& s[1] == (RenderOp::SetTransform {
                m11: rot_cos(style.rotation) as i32,
                m12: rot_sin(style.rotation) as i32,
                m21: (-rot_sin(style.rotation)) as i32,
                m22: rot_cos(style.rotation) as i32,
                dx: pos.0,
                dy: pos.1,
            })
            &&& s[8] == RenderOp::Restore
            &&& s[9] == identity_transform()
        },
        style.rotation == TextRotation::Rotate0 ==> {
            let s = text_ops(text, style, pos, measured);
            &&& s.len() == 6
            &&& forall|i: int|
                0 <= i < s.len() ==> !(#[trigger] s[i] is SetTransform) && !(s[i] is Save) && !(
                s[i] is Restore)
        },
{
    let s = text_ops(text, style, pos, measured);
    if style.rotation == TextRotation::Rotate0 {
        assert(s =~= seq![
            RenderOp::SetFontSize { size: style.size },
            RenderOp::SetFontFamily,
            RenderOp::BeginPath,
            RenderOp::SetAlpha { alpha: style.color.alpha },
            RenderOp::SetFillColor { color: rgb_of(style.color) },
            s[5],
        ]);
    }
}

/// Taking one more point into a polyline appends exactly that point's op.
proof fn lemma_polyline_step(pts: Seq<(i32, i32)>, i: int)
    requires
        0 <= i < pts.len(),
    ensures
        polyline_ops(pts.take(i + 1)) == polyline_ops(pts.take(i)).push(polyline_op(i, pts[i])),
{
    assert(polyline_ops(pts.take(i + 1)) =~= polyline_ops(pts.take(i)).push(
        polyline_op(i, pts[i]),
    ));
}

} // verus!
