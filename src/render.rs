use vstd::prelude::*;

use crate::anchors::{has_key, inserted, AnchorEntries, AnchorIndex};
use crate::command::{spec_rect_of, Color, DisplayCommand, Font, ImageId};
use crate::geometry::{ceil_px, trunc_px, Au, Rect};

verus! {

/// The vertical pixel interval `[start_y, end_y)` that the host asks to be
/// repainted.
#[derive(Clone, Copy, Debug, PartialEq, Eq, Hash, Structural)]
pub struct RedrawRegion {
    pub start_y: i32,
    pub end_y: i32,
}

/// What the drawing backend is asked to do for one command.
#[derive(Clone, Copy, Debug, PartialEq, Eq, Hash, Structural)]
pub enum DrawOp {
    /// Fill a pixel rectangle with a colour.
    Fill { x: i32, y: i32, width: i32, height: i32, color: Color },
    /// Scale an image to `width` by `height` pixels and paint it at the
    /// sub-pixel origin `(origin_x, origin_y)`.
    Image { image: ImageId, origin_x: Au, origin_y: Au, width: i32, height: i32 },
    /// Shape and paint the command's text at the pixel origin `(x, y)`.
    Text { x: i32, y: i32, color: Color, font: Font },
}

/// The outcome of one render pass, for the host to carry out.
pub struct RenderPlan {
    /// The height in pixels to request for the viewport, when it must change.
    pub resize: Option<i32>,
    /// Positions in the display list of the commands to draw, in list order.
    pub drawn: Vec<usize>,
}

/// Whether the rectangle's vertical pixel span meets the redraw region.
pub open spec fn spec_visible(r: Rect, region: RedrawRegion) -> bool {
    let top = trunc_px(r.y.0 as int);
    let bottom = top + trunc_px(r.height.0 as int);
    let start = if top > region.start_y { top } else { region.start_y as int };
    let end = if bottom < region.end_y { bottom } else { region.end_y as int };
    end - start > 0
}

/// Whether a command is drawn in a pass over the region: anchors never are,
/// the others when their span meets the region.
pub open spec fn spec_is_drawn(c: DisplayCommand, region: RedrawRegion) -> bool {
    !(c is Anchor) && spec_visible(spec_rect_of(c), region)
}

/// Positions below `n` of the commands drawn for the region, in order.
pub open spec fn drawn_upto(cmds: Seq<DisplayCommand>, region: RedrawRegion, n: int) -> Seq<usize>
    decreases n,
{
    if n <= 0 {
        Seq::empty()
    } else if spec_is_drawn(cmds[n - 1], region) {
        drawn_upto(cmds, region, n - 1).push((n - 1) as usize)
    } else {
        drawn_upto(cmds, region, n - 1)
    }
}

/// Positions of all the commands drawn for the region, in order.
pub open spec fn spec_drawn(cmds: Seq<DisplayCommand>, region: RedrawRegion) -> Seq<usize> {
    drawn_upto(cmds, region, cmds.len() as int)
}

/// The anchor index after the anchor commands below position `n` have been
/// inserted, in order.
pub open spec fn anchors_upto(s: AnchorEntries, cmds: Seq<DisplayCommand>, n: int) -> AnchorEntries
    decreases n,
{
    if n <= 0 {
        s
    } else {
        let before = anchors_upto(s, cmds, n - 1);
        match cmds[n - 1] {
            DisplayCommand::Anchor(url, rect) => inserted(before, rect, url@),
            _ => before,
        }
    }
}

/// The anchor index after a pass over the whole list.
pub open spec fn spec_anchors_after(s: AnchorEntries, cmds: Seq<DisplayCommand>) -> AnchorEntries {
    anchors_upto(s, cmds, cmds.len() as int)
}

/// The height to request, when the list starts with a fill whose height in
/// whole pixels (rounded up) differs from the height requested now.
pub open spec fn spec_resize(cmds: Seq<DisplayCommand>, requested_height: i32) -> Option<i32> {
    if cmds.len() > 0 {
        match cmds[0] {
            DisplayCommand::SolidColor(_, r) => {
                if ceil_px(r.height.0 as int) != requested_height as int {
                    Some(ceil_px(r.height.0 as int) as i32)
                } else {
                    None
                }
            },
            _ => None,
        }
    } else {
        None
    }
}

/// The drawing that a command asks for; none for an anchor.
pub open spec fn spec_draw_op(c: DisplayCommand) -> Option<DrawOp> {
    match c {
        DisplayCommand::SolidColor(color, r) => Some(
            DrawOp::Fill {
                x: trunc_px(r.x.0 as int) as i32,
                y: trunc_px(r.y.0 as int) as i32,
                width: trunc_px(r.width.0 as int) as i32,
                height: trunc_px(r.height.0 as int) as i32,
                color,
            },
        ),
        DisplayCommand::Image(image, r) => Some(
            DrawOp::Image {
                image,
                origin_x: r.x,
                origin_y: r.y,
                width: trunc_px(r.width.0 as int) as i32,
                height: trunc_px(r.height.0 as int) as i32,
            },
        ),
        DisplayCommand::Text(_, r, color, font) => Some(
            DrawOp::Text {
                x: trunc_px(r.x.0 as int) as i32,
                y: trunc_px(r.y.0 as int) as i32,
                color,
                font,
            },
        ),
        DisplayCommand::Anchor(_, _) => None,
    }
}

proof fn lemma_drawn_upto(cmds: Seq<DisplayCommand>, region: RedrawRegion, n: int)
    requires
        0 <= n <= cmds.len(),
        cmds.len() <= usize::MAX,
    ensures
        forall|k: int|
            0 <= k < drawn_upto(cmds, region, n).len() ==> {
                let i = #[trigger] drawn_upto(cmds, region, n)[k] as int;
                0 <= i < n && spec_is_drawn(cmds[i], region)
            },
        forall|k1: int, k2: int|
            0 <= k1 < k2 < drawn_upto(cmds, region, n).len() ==> #[trigger] drawn_upto(
                cmds,
                region,
                n,
            )[k1] < #[trigger] drawn_upto(cmds, region, n)[k2],
        forall|i: int|
            0 <= i < n && #[trigger] spec_is_drawn(cmds[i], region) ==> exists|k: int|
                0 <= k < drawn_upto(cmds, region, n).len() && drawn_upto(cmds, region, n)[k] == i,
    decreases n,
{
    if n > 0 {
        lemma_drawn_upto(cmds, region, n - 1);
        let prev = drawn_upto(cmds, region, n - 1);
        if spec_is_drawn(cmds[n - 1], region) {
            let cur = prev.push((n - 1) as usize);
            assert(drawn_upto(cmds, region, n) == cur);
            assert forall|i: int| 0 <= i < n && #[trigger] spec_is_drawn(cmds[i], region) implies exists|k: int|
                0 <= k < cur.len() && cur[k] == i by {
                if i == n - 1 {
                    assert(cur[prev.len() as int] == i);
                } else {
                    let k = choose|k: int| 0 <= k < prev.len() && prev[k] == i;
                    assert(cur[k] == i);
                }
            }
            assert forall|k1: int, k2: int| 0 <= k1 < k2 < cur.len() implies #[trigger] cur[k1] < #[trigger] cur[k2] by {
                assert(prev[k1] as int == cur[k1] as int);
                if k2 < prev.len() {
                    assert(prev[k2] == cur[k2]);
                }
            }
        } else {
            assert(drawn_upto(cmds, region, n) == prev);
            assert forall|i: int| 0 <= i < n && #[trigger] spec_is_drawn(cmds[i], region) implies exists|k: int|
                0 <= k < prev.len() && prev[k] == i by {
                assert(i < n - 1);
            }
        }
    }
}

proof fn lemma_inserted_keeps_keys(s: AnchorEntries, rect: Rect, url: Seq<char>, other: Rect)
    ensures
        has_key(inserted(s, rect, url), rect),
        has_key(s, other) ==> has_key(inserted(s, rect, url), other),
{
    let t = inserted(s, rect, url);
    if !has_key(s, rect) {
        assert(t[s.len() as int].0 == rect);
        if has_key(s, other) {
            let i = choose|i: int| 0 <= i < s.len() && #[trigger] s[i].0 == other;
            assert(t[i].0 == other);
        }
    }
}

proof fn lemma_anchors_upto_keys(s: AnchorEntries, cmds: Seq<DisplayCommand>, n: int)
    requires
        0 <= n <= cmds.len(),
    ensures
        forall|i: int|
            0 <= i < n && (#[trigger] cmds[i]) is Anchor ==> has_key(
                anchors_upto(s, cmds, n),
                spec_rect_of(cmds[i]),
            ),
    decreases n,
{
    if n > 0 {
        let before = anchors_upto(s, cmds, n - 1);
        lemma_anchors_upto_keys(s, cmds, n - 1);
        assert forall|i: int| 0 <= i < n && (#[trigger] cmds[i]) is Anchor implies has_key(
            anchors_upto(s, cmds, n),
            spec_rect_of(cmds[i]),
        ) by {
            match cmds[n - 1] {
                DisplayCommand::Anchor(url, rect) => {
                    lemma_inserted_keeps_keys(before, rect, url@, spec_rect_of(cmds[i]));
                },
                _ => {},
            }
        }
    }
}

proof fn lemma_anchors_upto_known(t: AnchorEntries, cmds: Seq<DisplayCommand>, n: int)
    requires
        0 <= n <= cmds.len(),
        forall|i: int|
            0 <= i < n && (#[trigger] cmds[i]) is Anchor ==> has_key(t, spec_rect_of(cmds[i])),
    ensures
        anchors_upto(t, cmds, n) == t,
    decreases n,
{
    if n > 0 {
        lemma_anchors_upto_known(t, cmds, n - 1);
    }
}

/// Culling: the commands drawn in a pass are exactly those that are not
/// anchors and whose vertical span meets the redraw region, each once and
/// in list order; and after the pass every anchor command's rectangle is in
/// the index, whether or not it meets the region.
pub proof fn lemma_culling(s: AnchorEntries, cmds: Seq<DisplayCommand>, region: RedrawRegion)
    requires
        cmds.len() <= usize::MAX,
    ensures
        forall|k: int|
            0 <= k < spec_drawn(cmds, region).len() ==> {
                let i = #[trigger] spec_drawn(cmds, region)[k] as int;
                0 <= i < cmds.len() && spec_is_drawn(cmds[i], region)
            },
        forall|k1: int, k2: int|
            0 <= k1 < k2 < spec_drawn(cmds, region).len() ==> #[trigger] spec_drawn(cmds, region)[k1]
                < #[trigger] spec_drawn(cmds, region)[k2],
        forall|i: int|
            0 <= i < cmds.len() && #[trigger] spec_is_drawn(cmds[i], region) ==> exists|k: int|
                0 <= k < spec_drawn(cmds, region).len() && spec_drawn(cmds, region)[k] == i,
        forall|i: int|
            0 <= i < cmds.len() && (#[trigger] cmds[i]) is Anchor ==> has_key(
                spec_anchors_after(s, cmds),
                spec_rect_of(cmds[i]),
            ),
{
    lemma_drawn_upto(cmds, region, cmds.len() as int);
    lemma_anchors_upto_keys(s, cmds, cmds.len() as int);
    let d = spec_drawn(cmds, region);
    assert forall|i: int| 0 <= i < cmds.len() && #[trigger] spec_is_drawn(cmds[i], region) implies exists|k: int|
        0 <= k < d.len() && d[k] == i by {
        let k = choose|k: int|
            0 <= k < drawn_upto(cmds, region, cmds.len() as int).len() && drawn_upto(
                cmds,
                region,
                cmds.len() as int,
            )[k] == i;
        assert(d[k] == i);
    }
}

/// Rendering the same list twice over the same region: the second pass adds
/// no anchor entry, and once the host has taken the first pass's resize
/// request, the second asks for none. (The commands drawn depend on the list
/// and the region alone.)
pub proof fn lemma_rerender_idempotent(s: AnchorEntries, cmds: Seq<DisplayCommand>, requested_height: i32)
    ensures
        spec_anchors_after(spec_anchors_after(s, cmds), cmds) == spec_anchors_after(s, cmds),
        match spec_resize(cmds, requested_height) {
            Some(h) => spec_resize(cmds, h) is None,
            None => true,
        },
{
    let t = spec_anchors_after(s, cmds);
    lemma_anchors_upto_keys(s, cmds, cmds.len() as int);
    lemma_anchors_upto_known(t, cmds, cmds.len() as int);
}

/// Whether the rectangle's vertical pixel span meets the redraw region.
pub fn is_visible(r: Rect, region: RedrawRegion) -> (v: bool)
    ensures
        v == spec_visible(r, region),
{
    let top = r.y.to_px();
    let bottom = top + r.height.to_px();
    let start = if top > region.start_y { top } else { region.start_y };
    let end = if bottom < region.end_y { bottom } else { region.end_y };
    end > start
}

/// The drawing that a command asks for; none for an anchor.
pub fn draw_op(c: &DisplayCommand) -> (op: Option<DrawOp>)
    ensures
        op == spec_draw_op(*c),
{
    match c {
        DisplayCommand::SolidColor(color, r) => Some(
            DrawOp::Fill {
                x: r.x.to_px(),
                y: r.y.to_px(),
                width: r.width.to_px(),
                height: r.height.to_px(),
                color: *color,
            },
        ),
        DisplayCommand::Image(image, r) => Some(
            DrawOp::Image {
                image: *image,
                origin_x: r.x,
                origin_y: r.y,
                width: r.width.to_px(),
                height: r.height.to_px(),
            },
        ),
        DisplayCommand::Text(_, r, color, font) => Some(
            DrawOp::Text { x: r.x.to_px(), y: r.y.to_px(), color: *color, font: *font },
        ),
        DisplayCommand::Anchor(_, _) => None,
    }
}

/// The viewport height to request before drawing the list, if it must change.
pub fn resize_request(cmds: &Vec<DisplayCommand>, requested_height: i32) -> (r: Option<i32>)
    ensures
        r == spec_resize(cmds@, requested_height),
{
    if cmds.len() == 0 {
        return None;
    }
    match &cmds[0] {
        DisplayCommand::SolidColor(_, r) => {
            let h = r.height.ceil_to_px();
            if h != requested_height {
                Some(h)
            } else {
                None
            }
        },
        _ => None,
    }
}

/// One render pass: decides the resize request and which commands to draw
/// for the redraw region, and links every anchor command's rectangle in the
/// index, whether or not it lies in the region.
pub fn render_pass(
    cmds: &Vec<DisplayCommand>,
    region: RedrawRegion,
    requested_height: i32,
    anchors: &mut AnchorIndex,
) -> (plan: RenderPlan)
    requires
        old(anchors).wf(),
    ensures
        final(anchors).wf(),
        final(anchors)@ == spec_anchors_after(old(anchors)@, cmds@),
        plan.resize == spec_resize(cmds@, requested_height),
        plan.drawn@ == spec_drawn(cmds@, region),
{
    let resize = resize_request(cmds, requested_height);
    let mut drawn: Vec<usize> = Vec::new();
    let n = cmds.len();
    let mut i: usize = 0;
    while i < n
        invariant
            n == cmds.len(),
            0 <= i <= n,
            anchors.wf(),
            anchors@ == anchors_upto(old(anchors)@, cmds@, i as int),
            drawn@ == drawn_upto(cmds@, region, i as int),
        decreases n - i,
    {
        match &cmds[i] {
            DisplayCommand::Anchor(url, rect) => {
                anchors.insert(*rect, url.clone());
            },
            c => {
                if is_visible(c.rect(), region) {
                    drawn.push(i);
                }
            },
        }
        i = i + 1;
    }
    RenderPlan { resize, drawn }
}

} // verus!
