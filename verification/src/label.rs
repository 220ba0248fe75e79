//! Labels: their boxes, and the decision which of them are drawn.
//!
//! A label is anchored at the left end of its baseline. Its box reaches one
//! font size up from the anchor and the width of its text to the right. A box
//! that leaves the tile by the top, the right or the bottom is dropped
//! before the collider sees it: no label is drawn in part. The others are
//! offered to the collider in order, so that of two labels that overlap the
//! earlier one is drawn.

use vstd::prelude::*;
use crate::collider::{clear_of, pairwise_apart, BoundingBox, Collider};
use crate::draw::{calls, lemma_calls_push, DrawCall, DrawOp, LABEL_FILL, LABEL_OUTLINE};
use crate::units::{Coord, Delta, FONT_SIZE, OUTLINE_WIDTH, TILE_SIZE};

verus! {

/// A label that a tile asks for: where it is anchored and what it says.
#[derive(PartialEq, Eq, Debug)]
pub struct Label {
    pub x: Delta,
    pub y: Delta,
    pub text: String,
}

/// A [`Label`] as a mathematical value.
pub struct LabelView {
    pub x: int,
    pub y: int,
    pub text: Seq<char>,
}

impl View for Label {
    type V = LabelView;

    open spec fn view(&self) -> LabelView {
        LabelView { x: self.x as int, y: self.y as int, text: self.text@ }
    }
}

/// The views of a list of labels.
pub open spec fn label_views(labels: Seq<Label>) -> Seq<LabelView> {
    labels.map_values(|label: Label| label@)
}

/// The box of a label anchored at `(x, y)` whose text is `width` wide. An
/// anchor and a width are each a [`Delta`], so the corners fit a [`Coord`].
pub open spec fn label_box(x: int, y: int, width: int) -> BoundingBox {
    ((x as Coord, (y - FONT_SIZE) as Coord), ((x + width) as Coord, y as Coord))
}

/// Whether the box of such a label leaves the tile: by the top, by the right
/// or by the bottom edge.
pub open spec fn label_clipped(x: int, y: int, width: int) -> bool {
    y - FONT_SIZE < 0 || x + width > TILE_SIZE || y > TILE_SIZE
}

/// Whether a label is drawn, given the boxes placed before it.
pub open spec fn label_fits(placed: Seq<BoundingBox>, x: int, y: int, width: int) -> bool {
    !label_clipped(x, y, width) && clear_of(placed, label_box(x, y, width))
}

/// The two calls that draw a label: first its outline, then its fill.
pub open spec fn text_calls(label: LabelView) -> Seq<DrawCall> {
    seq![
        DrawCall::StrokeText {
            text: label.text,
            x: label.x,
            y: label.y,
            color: LABEL_OUTLINE,
            width: OUTLINE_WIDTH as int,
        },
        DrawCall::DrawText { text: label.text, x: label.x, y: label.y, color: LABEL_FILL },
    ]
}

/// Whether the label number `i` is drawn once the boxes `placed` are taken:
/// it has a measured width, and with that width it fits.
pub open spec fn label_drawn(
    placed: Seq<BoundingBox>,
    labels: Seq<LabelView>,
    widths: Seq<Delta>,
    i: int,
) -> bool {
    i < widths.len() && label_fits(placed, labels[i].x, labels[i].y, widths[i] as int)
}

/// The boxes that are taken after the first `n` labels have been decided, in
/// the order in which they were accepted.
pub open spec fn boxes_after(labels: Seq<LabelView>, widths: Seq<Delta>, n: nat) -> Seq<
    BoundingBox,
>
    decreases n,
{
    if n == 0 {
        Seq::empty()
    } else {
        let placed = boxes_after(labels, widths, (n - 1) as nat);
        if label_drawn(placed, labels, widths, n - 1) {
            placed.push(label_box(labels[n - 1].x, labels[n - 1].y, widths[n - 1] as int))
        } else {
            placed
        }
    }
}

/// The calls that draw those of the first `n` labels that are drawn.
pub open spec fn label_calls(labels: Seq<LabelView>, widths: Seq<Delta>, n: nat) -> Seq<DrawCall>
    decreases n,
{
    if n == 0 {
        Seq::empty()
    } else {
        let drawn = label_calls(labels, widths, (n - 1) as nat);
        if label_drawn(boxes_after(labels, widths, (n - 1) as nat), labels, widths, n - 1) {
            drawn + text_calls(labels[n - 1])
        } else {
            drawn
        }
    }
}

/// No two labels that are drawn overlap: the boxes taken after any number of
/// labels are apart from one another.
pub proof fn lemma_drawn_labels_apart(labels: Seq<LabelView>, widths: Seq<Delta>, n: nat)
    ensures
        pairwise_apart(boxes_after(labels, widths, n)),
    decreases n,
{
    if n > 0 {
        lemma_drawn_labels_apart(labels, widths, (n - 1) as nat);
    }
}

/// Whether a box lies within the tile at its top, right and bottom edges.
pub open spec fn inside_tile(bbox: BoundingBox) -> bool {
    (bbox.0).1 >= 0 && (bbox.1).0 <= TILE_SIZE && (bbox.1).1 <= TILE_SIZE
}

/// Whether the anchors of all labels are lengths that a [`Delta`] can hold,
/// as those of every [`Label`] are.
pub open spec fn anchors_fit(labels: Seq<LabelView>) -> bool {
    forall|i: int|
        0 <= i < labels.len() ==> i64::MIN <= (#[trigger] labels[i]).x <= i64::MAX && i64::MIN
            <= labels[i].y <= i64::MAX
}

/// No label is drawn in part: every box that is taken lies within the tile
/// at its top, right and bottom edges.
pub proof fn lemma_drawn_labels_inside(labels: Seq<LabelView>, widths: Seq<Delta>, n: nat)
    requires
        n <= labels.len(),
        anchors_fit(labels),
    ensures
        forall|j: int|
            0 <= j < boxes_after(labels, widths, n).len() ==> inside_tile(
                #[trigger] boxes_after(labels, widths, n)[j],
            ),
    decreases n,
{
    if n > 0 {
        lemma_drawn_labels_inside(labels, widths, (n - 1) as nat);
        let before = boxes_after(labels, widths, (n - 1) as nat);
        let after = boxes_after(labels, widths, n);
        let label = labels[n - 1];
        assert(i64::MIN <= label.x <= i64::MAX && i64::MIN <= label.y <= i64::MAX);
        assert(FONT_SIZE == 1_441_792 && TILE_SIZE == 134_217_728);
        assert forall|j: int| 0 <= j < after.len() implies inside_tile(#[trigger] after[j]) by {
            if j < before.len() {
                assert(after[j] == before[j]);
            }
        }
    }
}

/// A label whose box leaves the tile is not drawn and takes no box: what is
/// drawn and what is taken are the same with it as without it.
pub proof fn lemma_clipped_label_skipped(labels: Seq<LabelView>, widths: Seq<Delta>, i: nat)
    requires
        label_clipped(labels[i as int].x, labels[i as int].y, widths[i as int] as int),
    ensures
        label_calls(labels, widths, i + 1) == label_calls(labels, widths, i),
        boxes_after(labels, widths, i + 1) == boxes_after(labels, widths, i),
{
}

/// A label whose bottom edge lies below the tile is not drawn and takes no
/// box, however wide its text is and whatever was placed before it.
pub proof fn lemma_label_below_tile_skipped(labels: Seq<LabelView>, widths: Seq<Delta>, i: nat)
    requires
        labels[i as int].y > TILE_SIZE,
    ensures
        label_calls(labels, widths, i + 1) == label_calls(labels, widths, i),
        boxes_after(labels, widths, i + 1) == boxes_after(labels, widths, i),
{
}

/// Decides whether the label anchored at `(x, y)`, with text `width` wide, is
/// drawn, and if so records its box.
///
/// A clipped label is refused and the collider is left as it was. Any other
/// label is offered to the collider and drawn exactly when its box is
/// accepted there.
pub fn place_label(collider: &mut Collider, x: Delta, y: Delta, width: Delta) -> (placed: bool)
    ensures
        placed == label_fits(old(collider).bboxes@, x as int, y as int, width as int),
        placed ==> final(collider).bboxes@ == old(collider).bboxes@.push(
            label_box(x as int, y as int, width as int),
        ),
        !placed ==> final(collider).bboxes@ == old(collider).bboxes@,
        label_clipped(x as int, y as int, width as int) ==> !placed,
        pairwise_apart(old(collider).bboxes@) ==> pairwise_apart(final(collider).bboxes@),
{
    assert(FONT_SIZE == 1_441_792 && TILE_SIZE == 134_217_728);
    let top: Coord = y as Coord - FONT_SIZE as Coord;
    let right: Coord = x as Coord + width as Coord;
    if top < 0 || right > TILE_SIZE as Coord || y > TILE_SIZE {
        return false;
    }
    collider.add((x as Coord, top), (right, y as Coord))
}

/// Decides the labels in order, each with the width measured for it: the
/// outline and the fill of every label that is drawn, in order.
///
/// `widths[i]` is the width of the text of `labels[i]`. A label without a
/// measured width is not drawn; a width without a label is ignored.
pub fn place_labels(labels: &Vec<Label>, widths: &Vec<Delta>) -> (ops: Vec<DrawOp>)
    ensures
        calls(ops@) == label_calls(label_views(labels@), widths@, labels@.len()),
{
    let mut ops: Vec<DrawOp> = Vec::new();
    let mut collider: Collider = Collider::new();
    let count: usize = labels.len();
    let measured: usize = widths.len();
    let mut i: usize = 0;
    assert(calls(ops@) =~= Seq::<DrawCall>::empty());
    while i < count
        invariant
            count == labels@.len(),
            measured == widths@.len(),
            i <= count,
            collider.bboxes@ == boxes_after(label_views(labels@), widths@, i as nat),
            calls(ops@) == label_calls(label_views(labels@), widths@, i as nat),
        decreases count - i,
    {
        let label: &Label = &labels[i];
        let ghost drawn = calls(ops@);
        assert(label_views(labels@)[i as int] == label@);
        if i < measured && place_label(&mut collider, label.x, label.y, widths[i]) {
            let outline: DrawOp = DrawOp::StrokeText {
                text: label.text.clone(),
                x: label.x,
                y: label.y,
                color: LABEL_OUTLINE,
                width: OUTLINE_WIDTH,
            };
            let fill: DrawOp = DrawOp::DrawText {
                text: label.text.clone(),
                x: label.x,
                y: label.y,
                color: LABEL_FILL,
            };
            proof {
                lemma_calls_push(ops@, outline);
                lemma_calls_push(ops@.push(outline), fill);
                assert(drawn + text_calls(label@) =~= drawn.push(outline@).push(fill@));
            }
            ops.push(outline);
            ops.push(fill);
        }
        i = i + 1;
    }
    ops
}

} // verus!
