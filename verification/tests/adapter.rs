use orbtk_backend::backend::OrbtkBackend;
use orbtk_backend::color::{Rgb, Rgba};
use orbtk_backend::ops::RenderOp;
use orbtk_backend::style::ShapeStyle;

fn style() -> ShapeStyle {
    ShapeStyle { color: Rgba { r: 200, g: 30, b: 40, alpha: 255 }, stroke_width: 2 }
}

fn rgb() -> Rgb {
    Rgb { r: 200, g: 30, b: 40 }
}

#[test]
fn get_size_returns_construction_dimensions() {
    let backend = OrbtkBackend::new(100, 100).unwrap();
    assert_eq!(backend.get_size(), (100, 100));
}

#[test]
fn new_registers_the_font_once_before_any_draw() {
    let backend = OrbtkBackend::new(640, 480).unwrap();
    assert_eq!(backend.ops, vec![RenderOp::RegisterFont]);
    assert_eq!(backend.get_size(), (640, 480));
}

#[test]
fn ensure_prepared_and_present_do_nothing() {
    let mut backend = OrbtkBackend::new(10, 10).unwrap();
    let _ = backend.take_ops();
    assert!(backend.ensure_prepared().is_ok());
    assert!(backend.present().is_ok());
    assert_eq!(backend.ops.len(), 0);
    assert_eq!(backend.get_size(), (10, 10));
}

#[test]
fn color_change_keeps_channels_and_drops_alpha() {
    let backend = OrbtkBackend::new(1, 1).unwrap();
    let c = backend.color_change(&Rgba { r: 7, g: 8, b: 9, alpha: 13 });
    assert_eq!(c, Rgb { r: 7, g: 8, b: 9 });
}

#[test]
fn draw_pixel_records_one_by_one_fill() {
    let mut backend = OrbtkBackend::new(50, 50).unwrap();
    let _ = backend.take_ops();
    backend.draw_pixel((3, 4), Rgba { r: 1, g: 2, b: 3, alpha: 128 }).unwrap();
    assert_eq!(
        backend.ops,
        vec![
            RenderOp::BeginPath,
            RenderOp::SetAlpha { alpha: 128 },
            RenderOp::SetFillColor { color: Rgb { r: 1, g: 2, b: 3 } },
            RenderOp::FillRect { x: 3, y: 4, width: 1, height: 1 },
        ]
    );
}

#[test]
fn draw_line_records_one_stroked_segment() {
    let mut backend = OrbtkBackend::new(50, 50).unwrap();
    let _ = backend.take_ops();
    backend.draw_line((0, 0), (10, 20), &style()).unwrap();
    assert_eq!(
        backend.ops,
        vec![
            RenderOp::BeginPath,
            RenderOp::SetLineWidth { width: 2 },
            RenderOp::SetAlpha { alpha: 255 },
            RenderOp::SetStrokeColor { color: rgb() },
            RenderOp::MoveTo { x: 0, y: 0 },
            RenderOp::LineTo { x: 10, y: 20 },
            RenderOp::Stroke,
        ]
    );
}

#[test]
fn draw_rect_filled_records_positive_extents() {
    let mut backend = OrbtkBackend::new(50, 50).unwrap();
    let _ = backend.take_ops();
    backend.draw_rect((2, 3), (7, 11), &style(), true).unwrap();
    assert_eq!(
        backend.ops,
        vec![
            RenderOp::BeginPath,
            RenderOp::SetAlpha { alpha: 255 },
            RenderOp::SetFillColor { color: rgb() },
            RenderOp::FillRect { x: 2, y: 3, width: 5, height: 8 },
        ]
    );
}

#[test]
fn draw_rect_outline_records_stroke() {
    let mut backend = OrbtkBackend::new(50, 50).unwrap();
    let _ = backend.take_ops();
    backend.draw_rect((2, 3), (7, 11), &style(), false).unwrap();
    assert_eq!(
        backend.ops,
        vec![
            RenderOp::BeginPath,
            RenderOp::SetAlpha { alpha: 255 },
            RenderOp::SetLineWidth { width: 2 },
            RenderOp::SetStrokeColor { color: rgb() },
            RenderOp::StrokeRect { x: 2, y: 3, width: 5, height: 8 },
        ]
    );
}

#[test]
fn draw_rect_swapped_corners_keeps_negative_extents() {
    // The corners are handed over inverted; the adapter does not normalise
    // and records the signed, here negative, extents unchanged.
    let mut backend = OrbtkBackend::new(50, 50).unwrap();
    let _ = backend.take_ops();
    backend.draw_rect((7, 11), (2, 3), &style(), true).unwrap();
    assert_eq!(
        backend.ops[3],
        RenderOp::FillRect { x: 7, y: 11, width: -5, height: -8 }
    );
}

#[test]
fn draw_rect_extreme_corners_do_not_wrap() {
    let mut backend = OrbtkBackend::new(50, 50).unwrap();
    let _ = backend.take_ops();
    backend.draw_rect((i32::MAX, i32::MAX), (i32::MIN, i32::MIN), &style(), true).unwrap();
    assert_eq!(
        backend.ops[3],
        RenderOp::FillRect {
            x: i32::MAX,
            y: i32::MAX,
            width: i64::from(i32::MIN) - i64::from(i32::MAX),
            height: i64::from(i32::MIN) - i64::from(i32::MAX),
        }
    );
}

#[test]
fn draw_path_records_move_then_lines() {
    let mut backend = OrbtkBackend::new(50, 50).unwrap();
    let _ = backend.take_ops();
    backend.draw_path(&vec![(1, 1), (2, 4), (3, 9)], &style()).unwrap();
    assert_eq!(
        backend.ops,
        vec![
            RenderOp::BeginPath,
            RenderOp::SetLineWidth { width: 2 },
            RenderOp::SetAlpha { alpha: 255 },
            RenderOp::SetStrokeColor { color: rgb() },
            RenderOp::MoveTo { x: 1, y: 1 },
            RenderOp::LineTo { x: 2, y: 4 },
            RenderOp::LineTo { x: 3, y: 9 },
            RenderOp::Stroke,
        ]
    );
}

#[test]
fn draw_path_with_no_points_still_strokes() {
    let mut backend = OrbtkBackend::new(50, 50).unwrap();
    let _ = backend.take_ops();
    backend.draw_path(&vec![], &style()).unwrap();
    assert_eq!(
        backend.ops,
        vec![
            RenderOp::BeginPath,
            RenderOp::SetLineWidth { width: 2 },
            RenderOp::SetAlpha { alpha: 255 },
            RenderOp::SetStrokeColor { color: rgb() },
            RenderOp::Stroke,
        ]
    );
}

#[test]
fn fill_polygon_closes_and_fills_without_stroke() {
    let mut backend = OrbtkBackend::new(50, 50).unwrap();
    let _ = backend.take_ops();
    backend.fill_polygon(&vec![(0, 0), (4, 0), (2, 3)], &style()).unwrap();
    assert_eq!(
        backend.ops,
        vec![
            RenderOp::BeginPath,
            RenderOp::SetAlpha { alpha: 255 },
            RenderOp::SetFillColor { color: rgb() },
            RenderOp::MoveTo { x: 0, y: 0 },
            RenderOp::LineTo { x: 4, y: 0 },
            RenderOp::LineTo { x: 2, y: 3 },
            RenderOp::ClosePath,
            RenderOp::Fill,
        ]
    );
    assert!(!backend.ops.contains(&RenderOp::Stroke));
}

#[test]
fn draw_circle_filled_records_full_arc_and_fill() {
    let mut backend = OrbtkBackend::new(50, 50).unwrap();
    let _ = backend.take_ops();
    backend.draw_circle((25, 25), 7, &style(), true).unwrap();
    assert_eq!(
        backend.ops,
        vec![
            RenderOp::BeginPath,
            RenderOp::SetAlpha { alpha: 255 },
            RenderOp::SetFillColor { color: rgb() },
            RenderOp::FullArc { cx: 25, cy: 25, radius: 7 },
            RenderOp::Fill,
        ]
    );
}

#[test]
fn draw_circle_outline_records_full_arc_and_stroke() {
    let mut backend = OrbtkBackend::new(50, 50).unwrap();
    let _ = backend.take_ops();
    backend.draw_circle((25, 25), 7, &style(), false).unwrap();
    assert_eq!(
        backend.ops,
        vec![
            RenderOp::BeginPath,
            RenderOp::SetAlpha { alpha: 255 },
            RenderOp::SetStrokeColor { color: rgb() },
            RenderOp::SetLineWidth { width: 2 },
            RenderOp::FullArc { cx: 25, cy: 25, radius: 7 },
            RenderOp::Stroke,
        ]
    );
}

#[test]
fn take_ops_hands_out_tape_and_empties_it() {
    let mut backend = OrbtkBackend::new(50, 50).unwrap();
    backend.draw_pixel((1, 1), Rgba { r: 0, g: 0, b: 0, alpha: 255 }).unwrap();
    let tape = backend.take_ops();
    assert_eq!(tape.len(), 5);
    assert_eq!(tape[0], RenderOp::RegisterFont);
    assert_eq!(backend.ops.len(), 0);
    assert_eq!(backend.get_size(), (50, 50));
}

#[test]
fn successive_draws_append_in_order() {
    let mut backend = OrbtkBackend::new(50, 50).unwrap();
    let _ = backend.take_ops();
    backend.draw_pixel((1, 1), Rgba { r: 0, g: 0, b: 0, alpha: 255 }).unwrap();
    backend.draw_line((0, 0), (1, 1), &style()).unwrap();
    assert_eq!(backend.ops.len(), 4 + 7);
    assert_eq!(backend.ops[0], RenderOp::BeginPath);
    assert_eq!(backend.ops[4], RenderOp::BeginPath);
    assert_eq!(backend.ops[10], RenderOp::Stroke);
}

#[test]
fn error_type_describes_itself() {
    let err = orbtk_backend::OrbtkError;
    assert_eq!(err.describe(), "OrbtkError");
}
