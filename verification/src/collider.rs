//! Placement of labels so that none overlaps one placed before it.

use vstd::prelude::*;
use crate::units::Coord;

verus! {

/// A corner of a box: `(x, y)`.
pub type Corner = (Coord, Coord);

/// An axis-aligned box: its top-left and its bottom-right corner.
pub type BoundingBox = (Corner, Corner);

/// Whether two boxes are apart on at least one axis. The edges belong to the
/// boxes: two boxes that share an edge or a corner are not apart.
pub open spec fn separated(a: BoundingBox, b: BoundingBox) -> bool {
    ||| (a.1).0 < (b.0).0
    ||| (a.0).0 > (b.1).0
    ||| (a.1).1 < (b.0).1
    ||| (a.0).1 > (b.1).1
}

/// Whether `candidate` is apart from every box of `placed`.
pub open spec fn clear_of(placed: Seq<BoundingBox>, candidate: BoundingBox) -> bool {
    forall|i: int| 0 <= i < placed.len() ==> separated(candidate, #[trigger] placed[i])
}

/// Whether every two boxes of `boxes` are apart.
pub open spec fn pairwise_apart(boxes: Seq<BoundingBox>) -> bool {
    forall|i: int, j: int|
        0 <= i < j < boxes.len() ==> separated(#[trigger] boxes[i], #[trigger] boxes[j])
}

/// Being apart does not depend on which box is named first.
pub proof fn lemma_separated_symmetric(a: BoundingBox, b: BoundingBox)
    ensures
        separated(a, b) == separated(b, a),
{
}

/// Of two boxes that overlap, the one offered first to an empty collider is
/// accepted and the other is then refused, whichever of them comes first.
pub proof fn lemma_first_wins(a: BoundingBox, b: BoundingBox)
    requires
        !separated(a, b),
    ensures
        clear_of(Seq::empty(), a),
        !clear_of(seq![a], b),
        clear_of(Seq::empty(), b),
        !clear_of(seq![b], a),
{
    assert(seq![a][0] == a);
    assert(seq![b][0] == b);
}

/// The boxes of the labels placed so far, in the order in which they were
/// accepted. A linear search: fine for the few labels of one tile.
pub struct Collider {
    pub bboxes: Vec<BoundingBox>,
}

impl Collider {
    /// A collider that holds no box.
    pub fn new() -> (collider: Collider)
        ensures
            collider.bboxes@ == Seq::<BoundingBox>::empty(),
    {
        Collider { bboxes: Vec::new() }
    }

    /// Offers the box with the given corners. It is accepted, and appended,
    /// exactly when it is apart from every box accepted before; otherwise
    /// the collider stays as it was. If no two boxes overlapped before, none
    /// do after.
    pub fn add(&mut self, topleft: Corner, bottomright: Corner) -> (accepted: bool)
        ensures
            accepted == clear_of(old(self).bboxes@, (topleft, bottomright)),
            accepted ==> final(self).bboxes@ == old(self).bboxes@.push((topleft, bottomright)),
            !accepted ==> final(self).bboxes@ == old(self).bboxes@,
            pairwise_apart(old(self).bboxes@) ==> pairwise_apart(final(self).bboxes@),
    {
        let n: usize = self.bboxes.len();
        let mut i: usize = 0;
        while i < n
            invariant
                i <= n,
                n == self.bboxes@.len(),
                self.bboxes@ == old(self).bboxes@,
                forall|j: int|
                    0 <= j < i ==> separated((topleft, bottomright), #[trigger] self.bboxes@[j]),
            decreases n - i,
        {
            let bbox: BoundingBox = self.bboxes[i];
            let apart: bool = bottomright.0 < (bbox.0).0 || topleft.0 > (bbox.1).0
                || bottomright.1 < (bbox.0).1 || topleft.1 > (bbox.1).1;
            if !apart {
                return false;
            }
            i = i + 1;
        }
        self.bboxes.push((topleft, bottomright));
        true
    }
}

} // verus!
