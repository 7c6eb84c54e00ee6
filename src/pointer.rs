use vstd::prelude::*;

use crate::anchors::{spec_lookup, AnchorIndex};
use crate::geometry::Point;

verus! {

/// The pointer shape to show.
#[derive(Clone, Copy, Debug, PartialEq, Eq, Hash, Structural)]
pub enum CursorStyle {
    /// Over a link.
    Hand,
    /// Anywhere else.
    Arrow,
}

/// The pointer shape for a pointer at `p`: a hand over any anchor, an
/// arrow elsewhere.
pub fn on_motion(anchors: &AnchorIndex, p: Point) -> (c: CursorStyle)
    ensures
        c == (if spec_lookup(anchors@, p).is_some() {
            CursorStyle::Hand
        } else {
            CursorStyle::Arrow
        }),
{
    if anchors.hits(p) {
        CursorStyle::Hand
    } else {
        CursorStyle::Arrow
    }
}

/// The URL to navigate to for a press at `p`: that of the first anchor, in
/// insertion order, that holds the point. A hit also calls for a repaint;
/// a miss calls for nothing.
pub fn on_press(anchors: &AnchorIndex, p: Point) -> (url: Option<String>)
    ensures
        match url {
            Some(u) => spec_lookup(anchors@, p) == Some(u@),
            None => spec_lookup(anchors@, p).is_none(),
        },
{
    anchors.lookup(p)
}

} // verus!
