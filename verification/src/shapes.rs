use vstd::prelude::*;

use crate::constants::CELL_SIZE;

verus! {

/// An integer point in local per-cell pixel coordinates.
#[derive(Debug, Clone, Copy, PartialEq, Eq, Structural)]
pub struct Point {
    pub x: i32,
    pub y: i32,
}

/// An ordered sequence of integer points describing a closed shape in local
/// per-cell coordinates; mutable via in-place affine transforms.
#[derive(Debug)]
pub struct Polygon {
    pub points: Vec<Point>,
}

/// Reflection of one point about the cell's vertical center line on the
/// discrete pixel grid: `new_x = -old_x + CELL_SIZE - 1`.
pub open spec fn mirror_x_pt(p: Point) -> Point {
    Point { x: (CELL_SIZE as int - 1 - p.x) as i32, y: p.y }
}

/// Reflection of one point about the cell's horizontal center line.
pub open spec fn mirror_y_pt(p: Point) -> Point {
    Point { x: p.x, y: (CELL_SIZE as int - 1 - p.y) as i32 }
}

pub open spec fn spec_mirror_x(s: Seq<Point>) -> Seq<Point> {
    Seq::new(s.len(), |i: int| mirror_x_pt(s[i]))
}

pub open spec fn spec_mirror_y(s: Seq<Point>) -> Seq<Point> {
    Seq::new(s.len(), |i: int| mirror_y_pt(s[i]))
}

pub open spec fn clamp_coord(v: int) -> int {
    if v < 0 {
        0
    } else if v > CELL_SIZE - 1 {
        CELL_SIZE - 1
    } else {
        v
    }
}

pub open spec fn spec_clamp(s: Seq<Point>) -> Seq<Point> {
    Seq::new(s.len(), |i: int| (Point { x: clamp_coord(s[i].x as int) as i32, y: clamp_coord(s[i].y as int) as i32 }))
}

pub open spec fn spec_shift(s: Seq<Point>, dx: int, dy: int) -> Seq<Point> {
    Seq::new(s.len(), |i: int| (Point { x: (s[i].x + dx) as i32, y: (s[i].y + dy) as i32 }))
}

/// Rust's truncating integer division (rounding toward zero), as opposed to
/// the Euclidean `/` of specification arithmetic.
pub open spec fn tdiv(a: int, b: int) -> int {
    let m = if a >= 0 {
        a
    } else {
        -a
    };
    let n = if b >= 0 {
        b
    } else {
        -b
    };
    if (a >= 0) <==> (b >= 0) {
        m / n
    } else {
        -(m / n)
    }
}

/// Whether the edge from `p1` to `p2` strictly crosses the vertical center
/// line; an edge lying exactly on the line does not count.
pub open spec fn crosses_center(p1: Point, p2: Point) -> bool {
    (p1.x - CELL_SIZE as int / 2) * (p2.x - CELL_SIZE as int / 2) < 0
}

/// The intersection of a crossing edge with the vertical center line, by
/// linear interpolation in integer arithmetic rounding toward zero.
pub open spec fn crossing_point(p1: Point, p2: Point) -> Point {
    Point {
        x: (CELL_SIZE as int / 2) as i32,
        y: (p1.y + tdiv((p2.y - p1.y) * (CELL_SIZE as int / 2 - p1.x), p2.x - p1.x)) as i32,
    }
}

/// One pass over the first `end` edges of the evolving point list, inserting a
/// center-line intersection point after each crossing edge. An inserted point
/// lies exactly on the center line and therefore never produces a second
/// crossing itself.
pub open spec fn insert_crossings_rec(s: Seq<Point>, i: int, end: int) -> Seq<Point>
    decreases end - i,
{
    if i >= end || i < 0 || end > s.len() {
        s
    } else {
        let p1 = s[i];
        let p2 = s[(i + 1) % (s.len() as int)];
        if crosses_center(p1, p2) {
            insert_crossings_rec(s.insert(i + 1, crossing_point(p1, p2)), i + 1, end)
        } else {
            insert_crossings_rec(s, i + 1, end)
        }
    }
}

/// The subsequence of points on or left of the vertical center line, in order.
pub open spec fn keep_left(s: Seq<Point>) -> Seq<Point>
    decreases s.len(),
{
    if s.len() == 0 {
        Seq::empty()
    } else {
        let rest = keep_left(s.drop_last());
        if s.last().x <= CELL_SIZE as int / 2 {
            rest.push(s.last())
        } else {
            rest
        }
    }
}

/// Every point kept by `keep_left` lies on or left of the center line and was
/// already present in the input sequence.
pub proof fn lemma_keep_left_props(s: Seq<Point>)
    ensures
        forall|j: int|
            0 <= j < keep_left(s).len() ==> (#[trigger] keep_left(s)[j]).x <= CELL_SIZE as int / 2
                && s.contains(keep_left(s)[j]),
    decreases s.len(),
{
    if s.len() > 0 {
        lemma_keep_left_props(s.drop_last());
        assert forall|j: int| 0 <= j < keep_left(s).len() implies (#[trigger] keep_left(
            s,
        )[j]).x <= CELL_SIZE as int / 2 && s.contains(keep_left(s)[j]) by {
            let rest = keep_left(s.drop_last());
            if j < rest.len() {
                assert(keep_left(s)[j] == rest[j]);
                let wi = choose|wi: int|
                    0 <= wi < s.drop_last().len() && s.drop_last()[wi] == rest[j];
                assert(s[wi] == rest[j]);
            } else {
                assert(keep_left(s)[j] == s.last());
                assert(s[s.len() - 1] == s.last());
            }
        }
    }
}

/// The mirrored copy of `u` in reverse order that closes a symmetric shape.
pub open spec fn mirrored_reverse(u: Seq<Point>) -> Seq<Point> {
    Seq::new(u.len(), |j: int| mirror_x_pt(u[u.len() - 1 - j]))
}

/// The full symmetrize operation: insert center-line intersection points,
/// discard everything right of the center, then append a mirrored copy of the
/// remaining points in reverse order.
pub open spec fn spec_symmetrize(s: Seq<Point>) -> Seq<Point> {
    let t = insert_crossings_rec(s, 0, s.len() as int);
    let u = keep_left(t);
    u + mirrored_reverse(u)
}

/// Inserting center-line intersection points never introduces a point with a
/// negative x coordinate: every inserted point sits exactly on the center line.
proof fn lemma_icr_x_nonneg(s: Seq<Point>, i: int, end: int)
    requires
        forall|j: int| 0 <= j < s.len() ==> 0 <= #[trigger] s[j].x,
    ensures
        insert_crossings_rec(s, i, end).len() >= s.len(),
        forall|j: int|
            0 <= j < insert_crossings_rec(s, i, end).len() ==> 0 <= #[trigger] insert_crossings_rec(
                s,
                i,
                end,
            )[j].x,
    decreases end - i,
{
    if i >= end || i < 0 || end > s.len() {
    } else {
        let p1 = s[i];
        let p2 = s[(i + 1) % (s.len() as int)];
        if crosses_center(p1, p2) {
            let s2 = s.insert(i + 1, crossing_point(p1, p2));
            assert(forall|j: int| 0 <= j < s2.len() ==> 0 <= #[trigger] s2[j].x);
            lemma_icr_x_nonneg(s2, i + 1, end);
        } else {
            lemma_icr_x_nonneg(s, i + 1, end);
        }
    }
}

/// Applying `mirror_x` twice returns every point to its original value.
pub proof fn lemma_mirror_x_involutive(s: Seq<Point>)
    requires
        forall|j: int| 0 <= j < s.len() ==> #[trigger] s[j].x >= i32::MIN + CELL_SIZE,
    ensures
        spec_mirror_x(spec_mirror_x(s)) == s,
{
    assert(spec_mirror_x(spec_mirror_x(s)) =~= s);
}

/// Applying `mirror_y` twice returns every point to its original value.
pub proof fn lemma_mirror_y_involutive(s: Seq<Point>)
    requires
        forall|j: int| 0 <= j < s.len() ==> #[trigger] s[j].y >= i32::MIN + CELL_SIZE,
    ensures
        spec_mirror_y(spec_mirror_y(s)) == s,
{
    assert(spec_mirror_y(spec_mirror_y(s)) =~= s);
}

/// A symmetrized polygon keeps every point inside the cell horizontally:
/// `0 <= x <= CELL_SIZE - 1` for every resulting point.
pub proof fn lemma_symmetrize_bounded(s: Seq<Point>)
    requires
        forall|j: int| 0 <= j < s.len() ==> 0 <= #[trigger] s[j].x,
    ensures
        forall|j: int|
            0 <= j < spec_symmetrize(s).len() ==> 0 <= #[trigger] spec_symmetrize(s)[j].x
                <= CELL_SIZE - 1,
{
    let t = insert_crossings_rec(s, 0, s.len() as int);
    let u = keep_left(t);
    lemma_icr_x_nonneg(s, 0, s.len() as int);
    lemma_keep_left_props(t);
    assert forall|m: int| 0 <= m < u.len() implies 0 <= #[trigger] u[m].x
        <= CELL_SIZE as int / 2 by {
        assert(t.contains(u[m]));
        let wi = choose|wi: int| 0 <= wi < t.len() && t[wi] == u[m];
        assert(0 <= t[wi].x);
    }
    assert forall|j: int| 0 <= j < spec_symmetrize(s).len() implies 0 <= #[trigger] spec_symmetrize(
        s,
    )[j].x <= CELL_SIZE - 1 by {
        if j >= u.len() {
            assert(spec_symmetrize(s)[j] == mirrored_reverse(u)[j - u.len()]);
        }
    }
}

/// The symmetrized polygon is symmetric about the vertical center line: its
/// point set is invariant under `mirror_x`, up to reordering.
pub proof fn lemma_symmetrize_symmetric(s: Seq<Point>)
    requires
        forall|j: int| 0 <= j < s.len() ==> 0 <= #[trigger] s[j].x,
    ensures
        spec_symmetrize(s).map_values(|p: Point| mirror_x_pt(p)).to_set() == spec_symmetrize(
            s,
        ).to_set(),
{
    let t = insert_crossings_rec(s, 0, s.len() as int);
    let u = keep_left(t);
    let v = mirrored_reverse(u);
    let r = spec_symmetrize(s);
    let n = u.len() as int;
    lemma_icr_x_nonneg(s, 0, s.len() as int);
    lemma_keep_left_props(t);
    assert forall|m: int| 0 <= m < n implies 0 <= #[trigger] u[m].x <= CELL_SIZE as int / 2 by {
        assert(t.contains(u[m]));
        let wi = choose|wi: int| 0 <= wi < t.len() && t[wi] == u[m];
        assert(0 <= t[wi].x);
    }
    let mr = r.map_values(|p: Point| mirror_x_pt(p));
    assert(mr.len() == r.len());
    assert forall|p: Point| mr.to_set().contains(p) implies r.to_set().contains(p) by {
        let i = choose|i: int| 0 <= i < mr.len() && mr[i] == p;
        assert(mr[i] == mirror_x_pt(r[i]));
        if i < n {
            assert(r[i] == u[i]);
            assert(v[n - 1 - i] == mirror_x_pt(u[i]));
            assert(r[n + (n - 1 - i)] == v[n - 1 - i]);
            assert(r.contains(r[n + (n - 1 - i)]));
        } else {
            let k = n - 1 - (i - n);
            assert(r[i] == v[i - n]);
            assert(v[i - n] == mirror_x_pt(u[k]));
            assert(mirror_x_pt(mirror_x_pt(u[k])) == u[k]);
            assert(r[k] == u[k]);
            assert(r.contains(r[k]));
        }
    }
    assert forall|p: Point| r.to_set().contains(p) implies mr.to_set().contains(p) by {
        let i = choose|i: int| 0 <= i < r.len() && r[i] == p;
        if i < n {
            assert(r[i] == u[i]);
            assert(r[n + (n - 1 - i)] == v[n - 1 - i]);
            assert(mr[n + (n - 1 - i)] == mirror_x_pt(v[n - 1 - i]));
            assert(v[n - 1 - i] == mirror_x_pt(u[i]));
            assert(mirror_x_pt(mirror_x_pt(u[i])) == u[i]);
            assert(mr.contains(mr[n + (n - 1 - i)]));
        } else {
            let k = n - 1 - (i - n);
            assert(r[i] == v[i - n]);
            assert(v[i - n] == mirror_x_pt(u[k]));
            assert(mr[k] == mirror_x_pt(r[k]));
            assert(r[k] == u[k]);
            assert(mr.contains(mr[k]));
        }
    }
    assert(mr.to_set() =~= r.to_set());
}

impl Polygon {
    pub fn new(points: Vec<Point>) -> (p: Polygon)
        ensures
            p.points@ == points@,
    {
        Polygon { points }
    }

    /// Reflect every point about the cell's vertical center line.
    pub fn mirror_x(&mut self)
        requires
            forall|j: int|
                0 <= j < old(self).points@.len() ==> #[trigger] old(self).points@[j].x >= i32::MIN
                    + CELL_SIZE,
        ensures
            final(self).points@ == spec_mirror_x(old(self).points@),
    {
        let n = self.points.len();
        let ghost orig = self.points@;
        for i in 0..n
            invariant
                self.points@.len() == n,
                orig.len() == n,
                forall|j: int| i <= j < n ==> self.points@[j] == orig[j],
                forall|j: int| 0 <= j < i ==> self.points@[j] == mirror_x_pt(orig[j]),
                forall|j: int| 0 <= j < n ==> #[trigger] orig[j].x >= i32::MIN + CELL_SIZE,
        {
            let p = self.points[i];
            proof {
                assert(p == orig[i as int]);
                assert(orig[i as int].x >= i32::MIN + CELL_SIZE);
            }
            self.points[i] = Point { x: (-p.x) + (CELL_SIZE as i32 - 1), y: p.y };
        }
        proof {
            assert(self.points@ =~= spec_mirror_x(orig));
        }
    }

    /// Reflect every point about the cell's horizontal center line.
    pub fn mirror_y(&mut self)
        requires
            forall|j: int|
                0 <= j < old(self).points@.len() ==> #[trigger] old(self).points@[j].y >= i32::MIN
                    + CELL_SIZE,
        ensures
            final(self).points@ == spec_mirror_y(old(self).points@),
    {
        let n = self.points.len();
        let ghost orig = self.points@;
        for i in 0..n
            invariant
                self.points@.len() == n,
                orig.len() == n,
                forall|j: int| i <= j < n ==> self.points@[j] == orig[j],
                forall|j: int| 0 <= j < i ==> self.points@[j] == mirror_y_pt(orig[j]),
                forall|j: int| 0 <= j < n ==> #[trigger] orig[j].y >= i32::MIN + CELL_SIZE,
        {
            let p = self.points[i];
            proof {
                assert(p == orig[i as int]);
                assert(orig[i as int].y >= i32::MIN + CELL_SIZE);
            }
            self.points[i] = Point { x: p.x, y: (-p.y) + (CELL_SIZE as i32 - 1) };
        }
        proof {
            assert(self.points@ =~= spec_mirror_y(orig));
        }
    }

    /// Restrict every coordinate to the local cell square `[0, CELL_SIZE-1]`.
    pub fn clamp(&mut self)
        ensures
            final(self).points@ == spec_clamp(old(self).points@),
    {
        let n = self.points.len();
        let ghost orig = self.points@;
        for i in 0..n
            invariant
                self.points@.len() == n,
                orig.len() == n,
                forall|j: int| i <= j < n ==> self.points@[j] == orig[j],
                forall|j: int|
                    0 <= j < i ==> self.points@[j] == (Point {
                        x: clamp_coord(orig[j].x as int) as i32,
                        y: clamp_coord(orig[j].y as int) as i32,
                    }),
        {
            let p = self.points[i];
            let cx = if p.x < 0 {
                0
            } else if p.x > CELL_SIZE as i32 - 1 {
                CELL_SIZE as i32 - 1
            } else {
                p.x
            };
            let cy = if p.y < 0 {
                0
            } else if p.y > CELL_SIZE as i32 - 1 {
                CELL_SIZE as i32 - 1
            } else {
                p.y
            };
            self.points[i] = Point { x: cx, y: cy };
        }
        proof {
            assert(self.points@ =~= spec_clamp(orig));
        }
    }

    /// Offset every point by an integer displacement.
    pub fn shift(&mut self, x: i32, y: i32)
        requires
            forall|j: int|
                0 <= j < old(self).points@.len() ==> i32::MIN <= #[trigger] old(
                    self,
                ).points@[j].x + x <= i32::MAX && i32::MIN <= old(self).points@[j].y + y
                    <= i32::MAX,
        ensures
            final(self).points@ == spec_shift(old(self).points@, x as int, y as int),
    {
        let n = self.points.len();
        let ghost orig = self.points@;
        for i in 0..n
            invariant
                self.points@.len() == n,
                orig.len() == n,
                forall|j: int| i <= j < n ==> self.points@[j] == orig[j],
                forall|j: int|
                    0 <= j < i ==> self.points@[j] == (Point {
                        x: (orig[j].x + x) as i32,
                        y: (orig[j].y + y) as i32,
                    }),
                forall|j: int|
                    0 <= j < n ==> i32::MIN <= #[trigger] orig[j].x + x <= i32::MAX && i32::MIN
                        <= orig[j].y + y <= i32::MAX,
        {
            let p = self.points[i];
            proof {
                assert(p == orig[i as int]);
                assert(i32::MIN <= orig[i as int].x + x <= i32::MAX);
                assert(i32::MIN <= orig[i as int].y + y <= i32::MAX);
            }
            self.points[i] = Point { x: p.x + x, y: p.y + y };
        }
        proof {
            assert(self.points@ =~= spec_shift(orig, x as int, y as int));
        }
    }

    /// Simplification of duplicate and collinear points is deliberately not
    /// modeled: a total identity, so callers can rely on the polygon being
    /// left exactly as it was.
    pub fn symplify(&mut self)
        ensures
            final(self).points@ == old(self).points@,
    {
    }

    /// Halve-and-mirror the shape about the vertical center line: insert
    /// center-line intersection points on crossing edges, discard points right
    /// of the center, and append a mirrored copy of the rest in reverse order.
    pub fn symmetrize(&mut self)
        requires
            forall|j: int|
                0 <= j < old(self).points@.len() ==> 0 <= #[trigger] old(self).points@[j].x
                    <= CELL_SIZE - 1 && 0 <= old(self).points@[j].y <= CELL_SIZE - 1,
        ensures
            final(self).points@ == spec_symmetrize(old(self).points@),
    {
        let ghost orig = self.points@;
        let half = CELL_SIZE as i32 / 2;

        // first insert points into the list where an edge of the polygon
        // crosses the vertical center line
        let end = self.points.len();
        let mut i: usize = 0;
        while i < end
            invariant
                i <= end,
                end <= self.points@.len(),
                half == CELL_SIZE as int / 2,
                insert_crossings_rec(self.points@, i as int, end as int) == insert_crossings_rec(
                    orig,
                    0,
                    end as int,
                ),
                orig.len() == end,
                forall|j: int|
                    0 <= j < self.points@.len() ==> 0 <= #[trigger] self.points@[j].x <= CELL_SIZE
                        - 1 && -120 <= self.points@[j].y <= 135,
                forall|j: int|
                    0 <= j < self.points@.len() && #[trigger] self.points@[j].x != CELL_SIZE as int
                        / 2 ==> 0 <= self.points@[j].y <= CELL_SIZE - 1,
            decreases end - i,
        {
            let len = self.points.len();
            let p1 = self.points[i];
            let p2 = self.points[(i + 1) % len];

            proof {
                assert(-64 <= (p1.x - half as int) * (p2.x - half as int) <= 64)
                    by (nonlinear_arith)
                    requires
                        -8 <= p1.x - half as int <= 8,
                        -8 <= p2.x - half as int <= 8,
                ;
            }
            if (p1.x - half) * (p2.x - half) < 0 {
                proof {
                    assert(p1.x != half && p2.x != half && p1.x != p2.x) by {
                        if p1.x == half || p2.x == half || p1.x == p2.x {
                            assert((p1.x - half as int) * (p2.x - half as int) >= 0)
                                by (nonlinear_arith)
                                requires
                                    p1.x == half as int || p2.x == half as int || p1.x == p2.x,
                            ;
                        }
                    }
                    assert(0 <= p1.y <= 15 && 0 <= p2.y <= 15);
                    assert(-120 <= (p2.y - p1.y) * (half as int - p1.x) <= 120)
                        by (nonlinear_arith)
                        requires
                            -15 <= p2.y - p1.y <= 15,
                            -8 <= half as int - p1.x <= 8,
                    ;
                }
                let ghost num0 = (p2.y - p1.y) * (half as int - p1.x);
                let ghost den0 = p2.x - p1.x;
                let mut num = (p2.y - p1.y) * (half - p1.x);
                let mut den = p2.x - p1.x;
                if den < 0 {
                    num = -num;
                    den = -den;
                }
                let q = num / den;
                proof {
                    if num >= 0 {
                        vstd::arithmetic::div_mod::lemma_div_nonincreasing(num as int, den as int);
                        vstd::arithmetic::div_mod::lemma_div_pos_is_pos(num as int, den as int);
                        assert(q == num as int / den as int);
                    } else {
                        vstd::arithmetic::div_mod::lemma_div_nonincreasing(
                            -(num as int),
                            den as int,
                        );
                        vstd::arithmetic::div_mod::lemma_div_pos_is_pos(
                            -(num as int),
                            den as int,
                        );
                        assert(q == -((-(num as int)) / (den as int)));
                    }
                    assert(q == tdiv(num0, den0));
                    assert(-120 <= q <= 120);
                }
                let y = p1.y + q;
                let ghost cur = self.points@;
                self.points.insert(i + 1, Point { x: half, y });
                proof {
                    assert((Point { x: half, y }) == crossing_point(p1, p2));
                    assert(self.points@ == cur.insert(i + 1, crossing_point(p1, p2)));
                    assert(insert_crossings_rec(cur, i as int, end as int)
                        == insert_crossings_rec(self.points@, i as int + 1, end as int));
                    assert forall|j: int| 0 <= j < self.points@.len() implies 0 <= (
                    #[trigger] self.points@[j]).x <= CELL_SIZE - 1 && -120 <= self.points@[j].y
                        <= 135 by {
                        if j <= i {
                            assert(self.points@[j] == cur[j]);
                        } else if j > i + 1 {
                            assert(self.points@[j] == cur[j - 1]);
                        }
                    }
                    assert forall|j: int|
                        0 <= j < self.points@.len() && (#[trigger] self.points@[j]).x
                            != CELL_SIZE as int / 2 implies 0 <= self.points@[j].y <= CELL_SIZE
                        - 1 by {
                        if j <= i {
                            assert(self.points@[j] == cur[j]);
                        } else if j > i + 1 {
                            assert(self.points@[j] == cur[j - 1]);
                        }
                    }
                }
            }
            i += 1;
        }

        assert(self.points@ == insert_crossings_rec(orig, 0, end as int));

        // delete the right half of the polygon
        let ghost t = self.points@;
        let len2 = self.points.len();
        let mut kept: Vec<Point> = Vec::new();
        let mut j: usize = 0;
        while j < len2
            invariant
                j <= len2,
                len2 == t.len(),
                self.points@ == t,
                half == CELL_SIZE as int / 2,
                kept@ == keep_left(t.take(j as int)),
            decreases len2 - j,
        {
            let p = self.points[j];
            proof {
                assert(t.take(j + 1).drop_last() =~= t.take(j as int));
                assert(t.take(j + 1).last() == t[j as int]);
            }
            if p.x <= half {
                kept.push(p);
            }
            j += 1;
        }
        proof {
            assert(t.take(len2 as int) =~= t);
        }
        self.points = kept;

        // mirror the left half of the polygon: from the last element to the
        // first, append the mirrored point
        let ghost u = self.points@;
        proof {
            lemma_keep_left_props(t);
            assert forall|m: int| 0 <= m < u.len() implies i32::MIN + CELL_SIZE <= #[trigger] u[m].x by {
                assert(t.contains(u[m]));
                let wi = choose|wi: int| 0 <= wi < t.len() && t[wi] == u[m];
                assert(0 <= t[wi].x);
            }
        }
        let n_kept = self.points.len();
        let mut k: usize = 0;
        while k < n_kept
            invariant
                k <= n_kept,
                u.len() == n_kept,
                self.points@.len() == n_kept + k,
                forall|m: int| 0 <= m < n_kept ==> self.points@[m] == u[m],
                forall|m: int|
                    n_kept <= m < n_kept + k ==> self.points@[m] == mirror_x_pt(
                        u[n_kept - 1 - (m - n_kept)],
                    ),
                forall|m: int|
                    0 <= m < n_kept ==> i32::MIN + CELL_SIZE <= #[trigger] u[m].x,
            decreases n_kept - k,
        {
            let p = self.points[n_kept - 1 - k];
            proof {
                assert(p == u[n_kept - 1 - k as int]);
                assert(i32::MIN + CELL_SIZE <= u[n_kept - 1 - k as int].x);
            }
            self.points.push(Point { x: (-p.x) + (CELL_SIZE as i32 - 1), y: p.y });
            k += 1;
        }
        proof {
            assert(self.points@ =~= u + mirrored_reverse(u));
            assert(u == keep_left(t));
            assert(self.points@ == spec_symmetrize(orig));
        }
    }
}

} // verus!
