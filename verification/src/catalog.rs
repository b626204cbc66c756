use vstd::prelude::*;

use crate::shapes::{Point, Polygon};
use crate::types::SlopeType;
use crate::vectors::Vector;

verus! {

/// The canonical polygon of each modeled slope shape, in local coordinates of
/// the 16-by-16 cell square; unmapped shapes yield the empty polygon, which is
/// intentional for not-yet-modeled slope types.
pub open spec fn spec_polygon_for(slope: SlopeType) -> Seq<Point> {
    match slope {
        SlopeType::HalfSolidH => seq![
            Point { x: 0, y: 8 },
            Point { x: 15, y: 8 },
            Point { x: 15, y: 15 },
            Point { x: 0, y: 15 },
        ],
        SlopeType::HalfSolidV => seq![
            Point { x: 8, y: 0 },
            Point { x: 8, y: 15 },
            Point { x: 15, y: 15 },
            Point { x: 15, y: 0 },
        ],
        SlopeType::SmallTriangle => seq![
            Point { x: 0, y: 15 },
            Point { x: 15, y: 15 },
            Point { x: 8, y: 8 },
        ],
        SlopeType::BigTriangle => seq![
            Point { x: 0, y: 15 },
            Point { x: 15, y: 15 },
            Point { x: 8, y: 0 },
        ],
        SlopeType::HalfPlat => seq![
            Point { x: 0, y: 8 },
            Point { x: 15, y: 8 },
            Point { x: 15, y: 15 },
            Point { x: 0, y: 15 },
        ],
        SlopeType::Slope45 => seq![
            Point { x: 0, y: 15 },
            Point { x: 15, y: 15 },
            Point { x: 15, y: 0 },
        ],
        SlopeType::Square => seq![
            Point { x: 0, y: 0 },
            Point { x: 0, y: 15 },
            Point { x: 15, y: 15 },
            Point { x: 15, y: 0 },
        ],
        SlopeType::HillPart1 => seq![
            Point { x: 8, y: 15 },
            Point { x: 15, y: 15 },
            Point { x: 15, y: 8 },
        ],
        SlopeType::HillPart2 => seq![
            Point { x: 0, y: 7 },
            Point { x: 7, y: 0 },
            Point { x: 15, y: 0 },
            Point { x: 15, y: 15 },
            Point { x: 0, y: 15 },
        ],
        SlopeType::SmoothHillPart1 => seq![
            Point { x: 0, y: 15 },
            Point { x: 15, y: 8 },
            Point { x: 15, y: 15 },
        ],
        SlopeType::SmoothHillPart2 => seq![
            Point { x: 0, y: 8 },
            Point { x: 15, y: 0 },
            Point { x: 15, y: 15 },
            Point { x: 0, y: 15 },
        ],
        SlopeType::SmootherHillPart1 => seq![
            Point { x: 0, y: 15 },
            Point { x: 15, y: 10 },
            Point { x: 15, y: 15 },
        ],
        SlopeType::SmootherHillPart2 => seq![
            Point { x: 0, y: 10 },
            Point { x: 15, y: 5 },
            Point { x: 15, y: 15 },
            Point { x: 0, y: 15 },
        ],
        SlopeType::SmootherHillPart3 => seq![
            Point { x: 0, y: 5 },
            Point { x: 15, y: 0 },
            Point { x: 15, y: 15 },
        ],
        SlopeType::SteepHillPart1 => seq![
            Point { x: 8, y: 15 },
            Point { x: 15, y: 0 },
            Point { x: 15, y: 15 },
        ],
        SlopeType::SteepHillPart2 => seq![
            Point { x: 0, y: 15 },
            Point { x: 8, y: 0 },
            Point { x: 15, y: 0 },
            Point { x: 15, y: 15 },
        ],
        _ => Seq::empty(),
    }
}

/// The canonical boundary vectors of each modeled slope shape; unmapped shapes
/// yield the empty list.
pub open spec fn spec_vectors_for(slope: SlopeType) -> Seq<Vector> {
    match slope {
        SlopeType::HalfSolidH => seq![
            Vector { start: Point { x: 0, y: 8 }, end: Point { x: 16, y: 8 } },
        ],
        SlopeType::HalfSolidV => seq![
            Vector { start: Point { x: 8, y: 0 }, end: Point { x: 8, y: 16 } },
        ],
        SlopeType::SmallTriangle => seq![
            Vector { start: Point { x: 0, y: 16 }, end: Point { x: 8, y: 8 } },
            Vector { start: Point { x: 16, y: 16 }, end: Point { x: 8, y: 8 } },
        ],
        SlopeType::BigTriangle => seq![
            Vector { start: Point { x: 0, y: 16 }, end: Point { x: 8, y: 0 } },
            Vector { start: Point { x: 16, y: 16 }, end: Point { x: 8, y: 0 } },
        ],
        SlopeType::Slope45 => seq![
            Vector { start: Point { x: 0, y: 16 }, end: Point { x: 16, y: 0 } },
        ],
        SlopeType::HillPart1 => seq![
            Vector { start: Point { x: 8, y: 16 }, end: Point { x: 16, y: 8 } },
        ],
        SlopeType::HillPart2 => seq![
            Vector { start: Point { x: 0, y: 8 }, end: Point { x: 8, y: 0 } },
        ],
        _ => Seq::empty(),
    }
}

/// Every catalog polygon lies inside the local cell square.
pub proof fn lemma_catalog_bounds(slope: SlopeType)
    ensures
        forall|j: int|
            0 <= j < spec_polygon_for(slope).len() ==> 0 <= (#[trigger] spec_polygon_for(
                slope,
            )[j]).x <= 15 && 0 <= spec_polygon_for(slope)[j].y <= 15,
{
}

fn pt(x: i32, y: i32) -> (p: Point)
    ensures
        p == (Point { x, y }),
{
    Point { x, y }
}

/// Look up the canonical polygon of a slope shape. Total: unmapped shapes
/// return an empty polygon rather than failing.
pub fn polygon_for(slope: SlopeType) -> (p: Polygon)
    ensures
        p.points@ == spec_polygon_for(slope),
{
    let points: Vec<Point> = match slope {
        SlopeType::HalfSolidH => vec![pt(0, 8), pt(15, 8), pt(15, 15), pt(0, 15)],
        SlopeType::HalfSolidV => vec![pt(8, 0), pt(8, 15), pt(15, 15), pt(15, 0)],
        SlopeType::SmallTriangle => vec![pt(0, 15), pt(15, 15), pt(8, 8)],
        SlopeType::BigTriangle => vec![pt(0, 15), pt(15, 15), pt(8, 0)],
        SlopeType::HalfPlat => vec![pt(0, 8), pt(15, 8), pt(15, 15), pt(0, 15)],
        SlopeType::Slope45 => vec![pt(0, 15), pt(15, 15), pt(15, 0)],
        SlopeType::Square => vec![pt(0, 0), pt(0, 15), pt(15, 15), pt(15, 0)],
        SlopeType::HillPart1 => vec![pt(8, 15), pt(15, 15), pt(15, 8)],
        SlopeType::HillPart2 => vec![pt(0, 7), pt(7, 0), pt(15, 0), pt(15, 15), pt(0, 15)],
        SlopeType::SmoothHillPart1 => vec![pt(0, 15), pt(15, 8), pt(15, 15)],
        SlopeType::SmoothHillPart2 => vec![pt(0, 8), pt(15, 0), pt(15, 15), pt(0, 15)],
        SlopeType::SmootherHillPart1 => vec![pt(0, 15), pt(15, 10), pt(15, 15)],
        SlopeType::SmootherHillPart2 => vec![pt(0, 10), pt(15, 5), pt(15, 15), pt(0, 15)],
        SlopeType::SmootherHillPart3 => vec![pt(0, 5), pt(15, 0), pt(15, 15)],
        SlopeType::SteepHillPart1 => vec![pt(8, 15), pt(15, 0), pt(15, 15)],
        SlopeType::SteepHillPart2 => vec![pt(0, 15), pt(8, 0), pt(15, 0), pt(15, 15)],
        _ => Vec::new(),
    };
    proof {
        assert(points@ =~= spec_polygon_for(slope));
    }
    Polygon::new(points)
}

fn vc(sx: i32, sy: i32, ex: i32, ey: i32) -> (v: Vector)
    ensures
        v == (Vector { start: Point { x: sx, y: sy }, end: Point { x: ex, y: ey } }),
{
    Vector { start: Point { x: sx, y: sy }, end: Point { x: ex, y: ey } }
}

/// Look up the canonical boundary vectors of a slope shape. Total: unmapped
/// shapes return an empty list rather than failing.
pub fn vectors_for(slope: SlopeType) -> (v: Vec<Vector>)
    ensures
        v@ == spec_vectors_for(slope),
{
    let vectors: Vec<Vector> = match slope {
        SlopeType::HalfSolidH => vec![vc(0, 8, 16, 8)],
        SlopeType::HalfSolidV => vec![vc(8, 0, 8, 16)],
        SlopeType::SmallTriangle => vec![vc(0, 16, 8, 8), vc(16, 16, 8, 8)],
        SlopeType::BigTriangle => vec![vc(0, 16, 8, 0), vc(16, 16, 8, 0)],
        SlopeType::Slope45 => vec![vc(0, 16, 16, 0)],
        SlopeType::HillPart1 => vec![vc(8, 16, 16, 8)],
        SlopeType::HillPart2 => vec![vc(0, 8, 8, 0)],
        _ => Vec::new(),
    };
    proof {
        assert(vectors@ =~= spec_vectors_for(slope));
    }
    vectors
}

} // verus!
