use roomgrid::{Point, Polygon, SlopeType, Vector};
use roomgrid::{polygon_for, vectors_for};

fn pts(v: &[(i32, i32)]) -> Vec<Point> {
    let mut out = Vec::new();
    for &(x, y) in v {
        out.push(Point { x, y });
    }
    out
}

#[test]
fn mirror_x_values() {
    let mut p = Polygon::new(pts(&[(0, 15), (15, 15), (15, 0)]));
    p.mirror_x();
    assert_eq!(p.points, pts(&[(15, 15), (0, 15), (0, 0)]));
}

#[test]
fn mirror_x_twice_is_identity() {
    let original = pts(&[(0, 15), (15, 15), (15, 0), (3, 7)]);
    let mut p = Polygon::new(original.clone());
    p.mirror_x();
    p.mirror_x();
    assert_eq!(p.points, original);
}

#[test]
fn mirror_y_twice_is_identity() {
    let original = pts(&[(0, 15), (15, 15), (15, 0), (3, 7)]);
    let mut p = Polygon::new(original.clone());
    p.mirror_y();
    p.mirror_y();
    assert_eq!(p.points, original);
}

#[test]
fn clamp_restricts_to_cell_square() {
    let mut p = Polygon::new(pts(&[(-5, 20), (8, 8), (100, -1)]));
    p.clamp();
    assert_eq!(p.points, pts(&[(0, 15), (8, 8), (15, 0)]));
}

#[test]
fn shift_offsets_points() {
    let mut p = Polygon::new(pts(&[(1, 2), (3, 4)]));
    p.shift(10, -2);
    assert_eq!(p.points, pts(&[(11, 0), (13, 2)]));
}

#[test]
fn symmetrize_slope45() {
    // the crossing edge gains a center-line point, the right half is
    // discarded, and the left half is mirrored back in reverse order
    let mut p = Polygon::new(pts(&[(0, 15), (15, 15), (15, 0)]));
    p.symmetrize();
    assert_eq!(p.points, pts(&[(0, 15), (8, 15), (7, 15), (15, 15)]));
}

#[test]
fn symmetrize_keeps_x_in_cell() {
    let mut p = Polygon::new(pts(&[(0, 0), (15, 7), (4, 15)]));
    p.symmetrize();
    for q in &p.points {
        assert!(0 <= q.x && q.x <= 15);
    }
}

#[test]
fn symmetrize_point_set_is_symmetric() {
    let mut p = Polygon::new(pts(&[(0, 0), (15, 7), (4, 15)]));
    p.symmetrize();
    for q in &p.points {
        let m = Point { x: 15 - q.x, y: q.y };
        assert!(p.points.contains(&m));
    }
}

#[test]
fn vector_dot_product() {
    let a = Vector::new(Point { x: 0, y: 0 }, Point { x: 3, y: 4 });
    let b = Vector::new(Point { x: 1, y: 1 }, Point { x: 3, y: 0 });
    assert_eq!(a.dot(&a), 25);
    assert_eq!(a.dot(&b), 3 * 2 + 4 * (-1));
}

#[test]
fn catalog_polygon_slope45() {
    let p = polygon_for(SlopeType::Slope45);
    assert_eq!(p.points, pts(&[(0, 15), (15, 15), (15, 0)]));
}

#[test]
fn catalog_polygon_unmapped_is_empty() {
    let p = polygon_for(SlopeType::QuarterSolid);
    assert!(p.points.is_empty());
    let p = polygon_for(SlopeType::Unknown);
    assert!(p.points.is_empty());
}

#[test]
fn catalog_vectors_slope45() {
    let v = vectors_for(SlopeType::Slope45);
    assert_eq!(v.len(), 1);
    assert_eq!(v[0].start, Point { x: 0, y: 16 });
    assert_eq!(v[0].end, Point { x: 16, y: 0 });
}

#[test]
fn catalog_vectors_unmapped_is_empty() {
    assert!(vectors_for(SlopeType::StairBigSteps).is_empty());
}

#[test]
fn symplify_is_identity() {
    let original = pts(&[(0, 0), (0, 0), (1, 1), (2, 2)]);
    let mut p = Polygon::new(original.clone());
    p.symplify();
    assert_eq!(p.points, original);
}
