use naglfar_window::{
    draw_op, is_visible, on_motion, on_press, render_pass, resize_request, AnchorIndex, Au,
    Color, CursorStyle, DisplayCommand, DrawOp, Font, FontSlant, FontWeight, ImageId, Point, Rect,
    RedrawRegion,
};

fn px_rect(x: i32, y: i32, w: i32, h: i32) -> Rect {
    Rect::new(Au::from_px(x), Au::from_px(y), Au::from_px(w), Au::from_px(h))
}

fn px_point(x: i32, y: i32) -> Point {
    Point::new(Au::from_px(x), Au::from_px(y))
}

fn white() -> Color {
    Color { r: 255, g: 255, b: 255, a: 255 }
}

fn black() -> Color {
    Color { r: 0, g: 0, b: 0, a: 255 }
}

fn plain_font() -> Font {
    Font { size: Au::from_px(16), slant: FontSlant::Normal, weight: FontWeight::Normal }
}

#[test]
fn pixel_conversions_truncate_and_ceil() {
    assert_eq!(Au(119).to_px(), 1);
    assert_eq!(Au(120).to_px(), 2);
    assert_eq!(Au(-119).to_px(), -1);
    assert_eq!(Au(61).ceil_to_px(), 2);
    assert_eq!(Au(60).ceil_to_px(), 1);
    assert_eq!(Au(0).ceil_to_px(), 0);
    assert_eq!(Au(-61).ceil_to_px(), -1);
    assert_eq!(Au(-59).ceil_to_px(), 0);
    assert_eq!(Au::from_px(7), Au(420));
}

#[test]
fn contains_includes_all_edges() {
    let r = px_rect(10, 10, 50, 20);
    assert!(r.contains(px_point(10, 10)));
    assert!(r.contains(px_point(60, 30)));
    assert!(r.contains(px_point(10, 30)));
    assert!(r.contains(px_point(60, 10)));
    assert!(r.contains(px_point(35, 20)));
    assert!(!r.contains(Point::new(Au(599), Au::from_px(20))));
    assert!(!r.contains(Point::new(Au::from_px(30), Au(1801))));
}

#[test]
fn edge_point_hits_anchor() {
    let mut idx = AnchorIndex::new();
    let r = px_rect(10, 10, 50, 20);
    idx.insert(r, "edge".to_string());
    assert_eq!(idx.lookup(Point::new(r.x, Au(r.y.0 + r.height.0))), Some("edge".to_string()));
    assert_eq!(on_motion(&idx, Point::new(r.x, r.y)), CursorStyle::Hand);
}

#[test]
fn first_writer_wins() {
    let mut idx = AnchorIndex::new();
    let r = px_rect(0, 0, 10, 10);
    assert!(idx.insert(r, "a".to_string()));
    assert!(!idx.insert(r, "b".to_string()));
    assert_eq!(idx.len(), 1);
    assert_eq!(idx.lookup(px_point(5, 5)), Some("a".to_string()));
}

#[test]
fn overlapping_anchors_resolve_to_first_inserted() {
    let mut idx = AnchorIndex::new();
    assert!(idx.insert(px_rect(0, 0, 100, 100), "outer".to_string()));
    assert!(idx.insert(px_rect(10, 10, 10, 10), "inner".to_string()));
    assert_eq!(idx.len(), 2);
    assert_eq!(on_press(&idx, px_point(15, 15)), Some("outer".to_string()));
    assert_eq!(on_press(&idx, px_point(200, 15)), None);
}

#[test]
fn motion_shows_hand_only_over_anchor() {
    let mut idx = AnchorIndex::new();
    assert_eq!(on_motion(&idx, px_point(0, 0)), CursorStyle::Arrow);
    idx.insert(px_rect(0, 0, 10, 10), "u".to_string());
    assert_eq!(on_motion(&idx, px_point(3, 4)), CursorStyle::Hand);
    assert_eq!(on_motion(&idx, px_point(11, 4)), CursorStyle::Arrow);
    assert!(idx.hits(px_point(10, 10)));
    assert!(!idx.hits(px_point(10, 11)));
}

#[test]
fn visibility_against_redraw_region() {
    let region = RedrawRegion { start_y: 100, end_y: 200 };
    assert!(is_visible(px_rect(0, 150, 10, 10), region));
    assert!(is_visible(px_rect(0, 50, 10, 60), region));
    assert!(is_visible(px_rect(0, 199, 10, 5), region));
    assert!(!is_visible(px_rect(0, 90, 10, 10), region));
    assert!(!is_visible(px_rect(0, 200, 10, 10), region));
    assert!(!is_visible(px_rect(0, 150, 10, 0), region));
}

#[test]
fn culled_commands_are_not_drawn_but_anchors_are_indexed() {
    let cmds = vec![
        DisplayCommand::SolidColor(white(), px_rect(0, 0, 800, 100)),
        DisplayCommand::SolidColor(black(), px_rect(0, 500, 800, 100)),
        DisplayCommand::Anchor("http://far".to_string(), px_rect(0, 700, 50, 20)),
        DisplayCommand::Image(ImageId(3), px_rect(0, 50, 10, 10)),
        DisplayCommand::Text("off".to_string(), px_rect(0, 900, 10, 10), black(), plain_font()),
    ];
    let mut idx = AnchorIndex::new();
    let plan = render_pass(&cmds, RedrawRegion { start_y: 0, end_y: 200 }, 100, &mut idx);
    assert_eq!(plan.drawn, vec![0, 3]);
    assert_eq!(plan.resize, None);
    assert_eq!(idx.len(), 1);
    assert_eq!(on_press(&idx, px_point(10, 710)), Some("http://far".to_string()));
}

#[test]
fn resize_requested_once_with_ceiled_height() {
    let cmds = vec![DisplayCommand::SolidColor(
        white(),
        Rect::new(Au(0), Au(0), Au::from_px(800), Au(36001)),
    )];
    let mut idx = AnchorIndex::new();
    let plan = render_pass(&cmds, RedrawRegion { start_y: 0, end_y: 520 }, 520, &mut idx);
    assert_eq!(plan.resize, Some(601));
    assert_eq!(resize_request(&cmds, 601), None);
}

#[test]
fn resize_only_for_leading_fill() {
    let cmds = vec![DisplayCommand::Anchor("u".to_string(), px_rect(0, 0, 10, 900))];
    assert_eq!(resize_request(&cmds, 520), None);
}

#[test]
fn empty_list_is_a_no_op() {
    let cmds: Vec<DisplayCommand> = Vec::new();
    let mut idx = AnchorIndex::new();
    let plan = render_pass(&cmds, RedrawRegion { start_y: 0, end_y: 600 }, 520, &mut idx);
    assert_eq!(plan.resize, None);
    assert!(plan.drawn.is_empty());
    assert_eq!(idx.len(), 0);
}

#[test]
fn rerender_is_idempotent() {
    let cmds = vec![
        DisplayCommand::SolidColor(white(), px_rect(0, 0, 800, 600)),
        DisplayCommand::Anchor("a".to_string(), px_rect(0, 0, 10, 10)),
        DisplayCommand::Anchor("b".to_string(), px_rect(0, 0, 10, 10)),
        DisplayCommand::Text("t".to_string(), px_rect(0, 20, 10, 10), black(), plain_font()),
    ];
    let region = RedrawRegion { start_y: 0, end_y: 600 };
    let mut idx = AnchorIndex::new();
    let first = render_pass(&cmds, region, 520, &mut idx);
    assert_eq!(idx.len(), 1);
    let second = render_pass(&cmds, region, first.resize.unwrap(), &mut idx);
    assert_eq!(first.drawn, second.drawn);
    assert_eq!(second.resize, None);
    assert_eq!(idx.len(), 1);
    assert_eq!(idx.lookup(px_point(1, 1)), Some("a".to_string()));
}

#[test]
fn draw_ops_use_pixel_geometry() {
    let fill = DisplayCommand::SolidColor(white(), Rect::new(Au(61), Au(-61), Au(600), Au(59)));
    assert_eq!(
        draw_op(&fill),
        Some(DrawOp::Fill { x: 1, y: -1, width: 10, height: 0, color: white() })
    );
    let image = DisplayCommand::Image(ImageId(7), Rect::new(Au(30), Au(90), Au(1250), Au(659)));
    assert_eq!(
        draw_op(&image),
        Some(DrawOp::Image { image: ImageId(7), origin_x: Au(30), origin_y: Au(90), width: 20, height: 10 })
    );
    let font = Font { size: Au::from_px(12), slant: FontSlant::Italic, weight: FontWeight::Bold };
    let text = DisplayCommand::Text("x".to_string(), Rect::new(Au(125), Au(605), Au(0), Au(0)), black(), font);
    assert_eq!(draw_op(&text), Some(DrawOp::Text { x: 2, y: 10, color: black(), font }));
    let anchor = DisplayCommand::Anchor("u".to_string(), px_rect(0, 0, 1, 1));
    assert_eq!(draw_op(&anchor), None);
    assert_eq!(anchor.rect(), px_rect(0, 0, 1, 1));
}

#[test]
fn end_to_end_scenario() {
    let cmds = vec![
        DisplayCommand::SolidColor(white(), px_rect(0, 0, 800, 600)),
        DisplayCommand::Anchor("http://x".to_string(), px_rect(10, 10, 50, 20)),
        DisplayCommand::Text("Hi".to_string(), px_rect(10, 10, 20, 16), black(), plain_font()),
    ];
    let mut idx = AnchorIndex::new();
    let plan = render_pass(&cmds, RedrawRegion { start_y: 0, end_y: 600 }, 520, &mut idx);
    assert_eq!(plan.resize, Some(600));
    assert_eq!(plan.drawn, vec![0, 2]);
    assert_eq!(
        draw_op(&cmds[0]),
        Some(DrawOp::Fill { x: 0, y: 0, width: 800, height: 600, color: white() })
    );
    assert_eq!(
        draw_op(&cmds[2]),
        Some(DrawOp::Text { x: 10, y: 10, color: black(), font: plain_font() })
    );
    assert_eq!(idx.len(), 1);
    assert_eq!(idx.lookup(px_point(10, 10)), Some("http://x".to_string()));
    assert_eq!(on_press(&idx, px_point(20, 15)), Some("http://x".to_string()));
}
