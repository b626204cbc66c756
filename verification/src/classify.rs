use vstd::prelude::*;

use crate::types::{
    BlockType, Cell, CellV, Flip, SlopeType, TreatAsSlopeType, nbr_down, nbr_left, nbr_right,
    nbr_up, spec_is_square, spec_slope_flip, spec_slope_type,
};

verus! {

/// The mathematical values of a sequence of cells.
pub open spec fn views(s: Seq<Cell>) -> Seq<CellV> {
    Seq::new(s.len(), |i: int| s[i]@)
}

/// A cell takes part in slope classification if it is a slope block whose
/// shape is not the full square.
pub open spec fn slope_active(c: CellV) -> bool {
    c.block_type == BlockType::Slope && spec_slope_type(c) != SlopeType::Square
}

/// The classification of the slope cell itself: which side of the diagonal is
/// solid, determined by the slope flip alone.
pub open spec fn own_treat(f: Flip) -> TreatAsSlopeType {
    if f == Flip::NoFlip || f == Flip::Both {
        TreatAsSlopeType::SlopeLeft
    } else {
        TreatAsSlopeType::SlopeRight
    }
}

/// The same cell with only its render classification replaced.
pub open spec fn with_treat(c: CellV, t: TreatAsSlopeType) -> CellV {
    CellV { treat_as_slope: t, ..c }
}

/// The grid neighbor playing the logical-right role for a slope cell:
/// classification reasons in unflipped space, so a horizontal flip relabels
/// the physical left neighbor as the logical right one.
pub open spec fn logical_right(i: int, w: int, f: Flip) -> Option<int> {
    if f == Flip::Horizontal || f == Flip::Both {
        nbr_left(i, w)
    } else {
        nbr_right(i, w)
    }
}

/// How a square logical-right neighbor `r` of the slope cell `i` is revised:
/// fully enclosed corners become Solid, a neighbor straddled by the slope
/// protects the edge facing away from it, and a neighbor missing both a
/// usable up/down pair and a left/right pair keeps its current classification.
pub open spec fn right_revision(s: Seq<CellV>, w: int, h: int, i: int, r: int) -> Option<
    TreatAsSlopeType,
> {
    let up = nbr_up(r, w);
    let down = nbr_down(r, w, h);
    match (up, down) {
        (Some(u), Some(d)) if spec_is_square(s[u]) && spec_is_square(s[d]) => Some(
            TreatAsSlopeType::Solid,
        ),
        _ => match (nbr_left(r, w), nbr_right(r, w)) {
            (Some(l), Some(rr)) => if l == i {
                Some(TreatAsSlopeType::SlopeProtectPosX)
            } else if rr == i {
                Some(TreatAsSlopeType::SlopeProtectNegX)
            } else {
                Some(TreatAsSlopeType::Solid)
            },
            _ => None,
        },
    }
}

/// One step of the forward classification pass: what processing the cell at
/// index `i` does to the whole grid.
pub open spec fn classify_step(s: Seq<CellV>, w: int, h: int, i: int) -> Seq<CellV> {
    if !(0 <= i < s.len()) || !slope_active(s[i]) {
        s
    } else {
        let f = spec_slope_flip(s[i]);
        let s1 = s.update(i, with_treat(s[i], own_treat(f)));
        match logical_right(i, w, f) {
            Some(r) => if 0 <= r < s1.len() && spec_is_square(s1[r]) {
                match right_revision(s1, w, h, i, r) {
                    Some(t) => s1.update(r, with_treat(s1[r], t)),
                    None => s1,
                }
            } else {
                s1
            },
            None => s1,
        }
    }
}

/// The first `n` steps of the forward pass, in row-major order.
pub open spec fn classify_upto(s: Seq<CellV>, w: int, h: int, n: int) -> Seq<CellV>
    decreases n,
{
    if n <= 0 {
        s
    } else {
        classify_step(classify_upto(s, w, h, n - 1), w, h, n - 1)
    }
}

/// The complete classification pass over a `w` by `h` grid.
pub open spec fn classify_all(s: Seq<CellV>, w: int, h: int) -> Seq<CellV> {
    classify_upto(s, w, h, w * h)
}

/// Classification never adds or removes cells, and never touches anything but
/// the render classification: coordinates, block type, flip, the auxiliary
/// byte and the boundary vectors of every cell are preserved, and every cell
/// is assigned exactly one classification value.
pub proof fn lemma_classify_preserves_shape(s: Seq<CellV>, w: int, h: int, n: int)
    ensures
        classify_upto(s, w, h, n).len() == s.len(),
        forall|j: int|
            0 <= j < s.len() ==> {
                let c = #[trigger] classify_upto(s, w, h, n)[j];
                c.x == s[j].x && c.y == s[j].y && c.block_type == s[j].block_type && c.flip
                    == s[j].flip && c.bts == s[j].bts && c.slope_vectors == s[j].slope_vectors
            },
    decreases n,
{
    if n > 0 {
        lemma_classify_preserves_shape(s, w, h, n - 1);
        let prev = classify_upto(s, w, h, n - 1);
        let cur = classify_step(prev, w, h, n - 1);
        assert forall|j: int| 0 <= j < s.len() implies {
            let c = #[trigger] cur[j];
            c.x == prev[j].x && c.y == prev[j].y && c.block_type == prev[j].block_type && c.flip
                == prev[j].flip && c.bts == prev[j].bts && c.slope_vectors == prev[j].slope_vectors
        } by {
            assert(prev.len() == s.len());
        }
    }
}

} // verus!
