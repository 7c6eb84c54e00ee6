//! Display-list rendering and hit-testing core of a scrollable document view.
//!
//! The layout engine hands over an ordered list of display commands; this
//! library decides which of them to draw for a redraw region, with what pixel
//! geometry, keeps the index of clickable anchor regions, and answers pointer
//! motion and presses from that index.
mod anchors;
mod command;
mod geometry;
mod pointer;
mod render;

pub use anchors::{
    has_key, hit_from, inserted, key_from, lemma_edge_hit, lemma_first_writer_wins, on_edge,
    spec_lookup, unique_keys, url_of, AnchorEntries, AnchorIndex,
};
pub use command::{spec_rect_of, Color, DisplayCommand, Font, FontSlant, FontWeight, ImageId};
pub use geometry::{ceil_px, spec_contains, trunc_px, Au, Point, Rect, AU_PER_PX};
pub use pointer::{on_motion, on_press, CursorStyle};
pub use render::{
    anchors_upto, draw_op, drawn_upto, is_visible, lemma_culling, lemma_rerender_idempotent,
    render_pass, resize_request, spec_anchors_after, spec_draw_op, spec_drawn, spec_is_drawn,
    spec_resize, spec_visible, DrawOp, RedrawRegion, RenderPlan,
};
