use vstd::prelude::*;

use crate::catalog::{polygon_for, spec_polygon_for};
use crate::classify::views;
use crate::constants::CELL_SIZE;
use crate::room::Room;
use crate::shapes::{Point, spec_mirror_x, spec_mirror_y, spec_shift};
use crate::types::{BlockType, CellV, Flip, TreatAsSlopeType, spec_slope_flip, spec_slope_type};

verus! {

/// One RGBA pixel as plain bytes.
#[derive(Debug, Clone, Copy, PartialEq, Eq, Structural)]
pub struct Px {
    pub r: u8,
    pub g: u8,
    pub b: u8,
    pub a: u8,
}

pub open spec fn green_px() -> Px {
    Px { r: 0, g: 255, b: 0, a: 255 }
}

pub open spec fn yellow_px() -> Px {
    Px { r: 255, g: 255, b: 0, a: 255 }
}

pub open spec fn magenta_px() -> Px {
    Px { r: 255, g: 0, b: 255, a: 255 }
}

pub open spec fn clear_px() -> Px {
    Px { r: 0, g: 0, b: 0, a: 0 }
}

/// The draw color of each render classification.
pub open spec fn color_of(t: TreatAsSlopeType) -> Px {
    match t {
        TreatAsSlopeType::Solid => green_px(),
        TreatAsSlopeType::SlopeLeft => yellow_px(),
        TreatAsSlopeType::SlopeRight => magenta_px(),
        TreatAsSlopeType::SlopeProtectNegX => yellow_px(),
        TreatAsSlopeType::SlopeProtectPosX => magenta_px(),
    }
}

/// The pixel buffer a room renders into; holds the outside crate's RGBA
/// image buffer, which Verus sees only through the named contents below.
#[verifier::external_body]
pub struct RoomImage {
    buf: image::ImageBuffer<image::Rgba<u8>, Vec<u8>>,
}

/// What a `RoomImage` holds: its pixels in row-major order.
pub uninterp spec fn img_pixels(img: RoomImage) -> Seq<Px>;

impl RoomImage {
    /// Relies on image::ImageBuffer::width.
    #[verifier::external_body]
    pub fn width(&self) -> (w: u32)
        ensures
            w == img_width(*self),
    {
        self.buf.width()
    }

    /// Relies on image::ImageBuffer::height.
    #[verifier::external_body]
    pub fn height(&self) -> (h: u32)
        ensures
            h == img_height(*self),
    {
        self.buf.height()
    }

    /// Relies on image::ImageBuffer::as_raw: the flat sample container, four
    /// bytes per pixel in row-major red, green, blue, alpha order.
    #[verifier::external_body]
    pub fn to_bytes(&self) -> (r: Vec<u8>)
        ensures
            r@.len() == 4 * img_pixels(*self).len(),
            forall|i: int|
                0 <= i < img_pixels(*self).len() ==> {
                    let p = #[trigger] img_pixels(*self)[i];
                    r@[4 * i] == p.r && r@[4 * i + 1] == p.g && r@[4 * i + 2] == p.b && r@[4 * i
                        + 3] == p.a
                },
    {
        self.buf.as_raw().clone()
    }
}

/// The width a `RoomImage` was created with.
pub uninterp spec fn img_width(img: RoomImage) -> u32;

/// The height a `RoomImage` was created with.
pub uninterp spec fn img_height(img: RoomImage) -> u32;

/// Whether row-major pixel index `i` of a `w`-wide buffer lies inside the
/// rectangle at `(x, y)` of size `rw` by `rh`.
pub open spec fn px_in_rect(i: int, w: int, x: int, y: int, rw: int, rh: int) -> bool {
    let cx = i % w;
    let cy = i / w;
    x <= cx < x + rw && y <= cy < y + rh
}

/// Filling a rectangle, clipped to the buffer: every pixel inside the
/// rectangle takes the color, every other pixel is unchanged.
pub open spec fn spec_fill_rect(
    g: Seq<Px>,
    w: int,
    x: int,
    y: int,
    rw: int,
    rh: int,
    c: Px,
) -> Seq<Px> {
    Seq::new(g.len(), |i: int| if px_in_rect(i, w, x, y, rw, rh) { c } else { g[i] })
}

/// Whether pixel `i` lies on the one-pixel border of the rectangle.
pub open spec fn px_on_rect_border(i: int, w: int, x: int, y: int, rw: int, rh: int) -> bool {
    let cx = i % w;
    let cy = i / w;
    px_in_rect(i, w, x, y, rw, rh) && (cx == x || cx == x + rw - 1 || cy == y || cy == y + rh - 1)
}

/// Drawing a hollow rectangle, clipped to the buffer: every border pixel
/// takes the color, every other pixel is unchanged.
pub open spec fn spec_hollow_rect(
    g: Seq<Px>,
    w: int,
    x: int,
    y: int,
    rw: int,
    rh: int,
    c: Px,
) -> Seq<Px> {
    Seq::new(g.len(), |i: int| if px_on_rect_border(i, w, x, y, rw, rh) { c } else { g[i] })
}

/// What drawing a filled polygon leaves in the buffer. Rasterization depends
/// on the buffer, its dimensions, the points and the color alone, so its
/// effect is only named, never spelled out.
pub uninterp spec fn poly_painted(g: Seq<Px>, w: int, h: int, poly: Seq<Point>, c: Px) -> Seq<Px>;

/// Painting cells that are neither solid nor slope leaves the buffer as it
/// was: every other block type contributes nothing.
proof fn lemma_paint_cells_id(g: Seq<Px>, w: int, h: int, cells: Seq<CellV>, n: int)
    requires
        n <= cells.len(),
        forall|k: int|
            0 <= k < cells.len() ==> (#[trigger] cells[k]).block_type != BlockType::Solid
                && cells[k].block_type != BlockType::Slope,
    ensures
        spec_paint_cells(g, w, h, cells, n) == g,
    decreases n,
{
    if n > 0 {
        lemma_paint_cells_id(g, w, h, cells, n - 1);
    }
}

/// A fully transparent buffer is a fixed point of the cleanup pass: border
/// pixels are kept as they are, and every interior pixel is cleared again
/// because its left neighbor is already fully transparent.
proof fn lemma_cleanup_blank(w: int, h: int, n: int)
    requires
        w >= 0,
        h >= 0,
        n >= 0,
    ensures
        cleanup_iter(Seq::new((w * h) as nat, |i: int| clear_px()), w, h, n) == Seq::new(
            (w * h) as nat,
            |i: int| clear_px(),
        ),
    decreases n,
{
    let g = Seq::new((w * h) as nat, |i: int| clear_px());
    if n > 0 {
        lemma_cleanup_blank(w, h, n - 1);
        assert forall|i: int| 0 <= i < g.len() implies cleanup_step(g, w, h)[i] == g[i] by {
            assert(w * h >= g.len() > 0);
            assert(w > 0 && h > 0) by (nonlinear_arith)
                requires
                    w >= 0,
                    h >= 0,
                    w * h > 0,
            ;
            crate::types::lemma_grid_coords(i, w, h);
            let x = i % w;
            let y = i / w;
            assert(y * w == w * y) by (nonlinear_arith);
            assert(y * w + x == i);
            if !(x == 0 || x == w - 1 || y == 0 || y == h - 1) {
                assert(g[y * w + x - 1] == clear_px());
                assert(cleanup_px(g, w, h, x, y) == clear_px());
            }
        }
        assert(cleanup_step(g, w, h) =~= g);
    }
}

/// A room with no solid and no slope cell rasterizes nothing: the produced
/// buffer is the one-pixel green room outline over fully transparent pixels.
pub proof fn lemma_render_outline_only(cells: Seq<CellV>, wt: int, ht: int)
    requires
        wt >= 0,
        ht >= 0,
        forall|k: int|
            0 <= k < cells.len() ==> (#[trigger] cells[k]).block_type != BlockType::Solid
                && cells[k].block_type != BlockType::Slope,
    ensures
        spec_render(cells, wt, ht).len() == ((16 * wt) * (16 * ht)) as nat,
        forall|i: int|
            0 <= i < spec_render(cells, wt, ht).len() ==> #[trigger] spec_render(cells, wt, ht)[i]
                == (if px_on_rect_border(i, 16 * wt, 0, 0, 16 * wt, 16 * ht) {
                green_px()
            } else {
                clear_px()
            }),
{
    let w = 16 * wt;
    let h = 16 * ht;
    let g0 = Seq::new((w * h) as nat, |i: int| clear_px());
    assert(w * h >= 0) by (nonlinear_arith)
        requires
            w >= 0,
            h >= 0,
    ;
    lemma_paint_cells_id(g0, w, h, cells, cells.len() as int);
    lemma_cleanup_blank(w, h, 10);
    assert(spec_render(cells, wt, ht) == spec_hollow_rect(g0, w, 0, 0, w, h, green_px()));
}

/// Relies on image::ImageBuffer::new: a buffer of the given dimensions with
/// every sample zeroed, so every pixel fully transparent black.
#[verifier::external_body]
fn new_image(w: u32, h: u32) -> (img: RoomImage)
    requires
        w * h * 4 <= usize::MAX,
    ensures
        img_width(img) == w,
        img_height(img) == h,
        img_pixels(img) == Seq::new((w * h) as nat, |i: int| clear_px()),
{
    RoomImage { buf: image::ImageBuffer::new(w, h) }
}

/// Relies on image::ImageBuffer::get_pixel: the pixel at column x, row y.
#[verifier::external_body]
fn get_px(img: &RoomImage, x: u32, y: u32) -> (p: Px)
    requires
        x < img_width(*img),
        y < img_height(*img),
    ensures
        p == img_pixels(*img)[y * img_width(*img) + x],
{
    let q = img.buf.get_pixel(x, y);
    Px { r: q.0[0], g: q.0[1], b: q.0[2], a: q.0[3] }
}

/// Relies on image::ImageBuffer::put_pixel: overwrites the pixel at (x, y),
/// leaving everything else as it was.
#[verifier::external_body]
fn put_px(img: &mut RoomImage, x: u32, y: u32, p: Px)
    requires
        x < img_width(*old(img)),
        y < img_height(*old(img)),
    ensures
        img_width(*final(img)) == img_width(*old(img)),
        img_height(*final(img)) == img_height(*old(img)),
        img_pixels(*final(img)) == img_pixels(*old(img)).update(
            y * img_width(*old(img)) + x,
            p,
        ),
{
    img.buf.put_pixel(x, y, image::Rgba([p.r, p.g, p.b, p.a]));
}

/// Relies on image::ImageBuffer's Clone: an identical, independent buffer.
#[verifier::external_body]
fn clone_img(img: &RoomImage) -> (r: RoomImage)
    ensures
        img_width(r) == img_width(*img),
        img_height(r) == img_height(*img),
        img_pixels(r) == img_pixels(*img),
{
    RoomImage { buf: img.buf.clone() }
}

/// Relies on imageproc::drawing::draw_filled_rect_mut: fills as much of the
/// rectangle as lies inside the buffer, leaving other pixels unchanged. The
/// size and dimension bounds keep the call inside the i32 range its rectangle
/// arithmetic converts into.
#[verifier::external_body]
fn fill_rect(img: &mut RoomImage, x: i32, y: i32, rw: u32, rh: u32, p: Px)
    requires
        rw >= 1,
        rh >= 1,
        rw <= i32::MAX,
        rh <= i32::MAX,
        x + rw <= i32::MAX,
        y + rh <= i32::MAX,
        img_width(*old(img)) <= i32::MAX,
        img_height(*old(img)) <= i32::MAX,
    ensures
        img_width(*final(img)) == img_width(*old(img)),
        img_height(*final(img)) == img_height(*old(img)),
        img_pixels(*final(img)) == spec_fill_rect(
            img_pixels(*old(img)),
            img_width(*old(img)) as int,
            x as int,
            y as int,
            rw as int,
            rh as int,
            p,
        ),
{
    let rect = imageproc::rect::Rect::at(x, y).of_size(rw, rh);
    imageproc::drawing::draw_filled_rect_mut(&mut img.buf, rect, image::Rgba([p.r, p.g, p.b, p.a]));
}

/// Relies on imageproc::drawing::draw_hollow_rect_mut: draws as much of the
/// rectangle's one-pixel border as lies inside the buffer. The border is
/// plotted through f32 line segments, so every coordinate and dimension is
/// kept within 2^24, where the conversion to f32 is exact.
#[verifier::external_body]
fn hollow_rect(img: &mut RoomImage, x: i32, y: i32, rw: u32, rh: u32, p: Px)
    requires
        rw >= 1,
        rh >= 1,
        -0x100_0000 <= x,
        -0x100_0000 <= y,
        x + rw <= 0x100_0000,
        y + rh <= 0x100_0000,
        img_width(*old(img)) <= 0x100_0000,
        img_height(*old(img)) <= 0x100_0000,
    ensures
        img_width(*final(img)) == img_width(*old(img)),
        img_height(*final(img)) == img_height(*old(img)),
        img_pixels(*final(img)) == spec_hollow_rect(
            img_pixels(*old(img)),
            img_width(*old(img)) as int,
            x as int,
            y as int,
            rw as int,
            rh as int,
            p,
        ),
{
    let rect = imageproc::rect::Rect::at(x, y).of_size(rw, rh);
    imageproc::drawing::draw_hollow_rect_mut(&mut img.buf, rect, image::Rgba([p.r, p.g, p.b, p.a]));
}

/// Relies on imageproc::drawing::draw_polygon_mut: rasterizes the filled
/// polygon into the buffer; an empty point list leaves it untouched. Both
/// dimensions must be positive: the scanline fill clamps its row range into
/// the buffer and touches row zero even when there is none. Coordinates are
/// kept within 2^24 so the i32 differences and f32 conversions its crossing
/// interpolation computes can neither overflow nor lose exactness.
#[verifier::external_body]
fn draw_poly(img: &mut RoomImage, points: &Vec<Point>, p: Px)
    requires
        1 <= img_width(*old(img)),
        1 <= img_height(*old(img)),
        forall|j: int|
            0 <= j < points@.len() ==> -0x100_0000 <= (#[trigger] points@[j]).x <= 0x100_0000
                && -0x100_0000 <= points@[j].y <= 0x100_0000,
    ensures
        img_width(*final(img)) == img_width(*old(img)),
        img_height(*final(img)) == img_height(*old(img)),
        img_pixels(*final(img)).len() == img_pixels(*old(img)).len(),
        img_pixels(*final(img)) == poly_painted(
            img_pixels(*old(img)),
            img_width(*old(img)) as int,
            img_height(*old(img)) as int,
            points@,
            p,
        ),
        points@.len() == 0 ==> img_pixels(*final(img)) == img_pixels(*old(img)),
{
    let pts: Vec<imageproc::point::Point<i32>> = points.iter().map(
        |q| imageproc::point::Point::new(q.x, q.y),
    ).collect();
    imageproc::drawing::draw_polygon_mut(&mut img.buf, &pts, image::Rgba([p.r, p.g, p.b, p.a]));
}

/// The polygon a slope cell draws: its catalog shape, mirrored according to
/// the slope flip, then moved to the cell's pixel position.
pub open spec fn spec_cell_polygon(c: CellV) -> Seq<Point> {
    let base = spec_polygon_for(spec_slope_type(c));
    let mirrored = match spec_slope_flip(c) {
        Flip::NoFlip => base,
        Flip::Horizontal => spec_mirror_x(base),
        Flip::Vertical => spec_mirror_y(base),
        Flip::Both => spec_mirror_y(spec_mirror_x(base)),
    };
    spec_shift(mirrored, c.x * CELL_SIZE, c.y * CELL_SIZE)
}

/// What one cell contributes to the buffer: slope cells draw their polygon;
/// solid cells draw a filled square, with protected edges overdrawn in green;
/// all other block types draw nothing.
pub open spec fn spec_paint_cell(g: Seq<Px>, w: int, h: int, c: CellV) -> Seq<Px> {
    let px = c.x * CELL_SIZE;
    let py = c.y * CELL_SIZE;
    if c.block_type == BlockType::Slope {
        poly_painted(g, w, h, spec_cell_polygon(c), color_of(c.treat_as_slope))
    } else if c.block_type == BlockType::Solid {
        match c.treat_as_slope {
            TreatAsSlopeType::Solid => spec_fill_rect(g, w, px, py, 16, 16, green_px()),
            TreatAsSlopeType::SlopeLeft => g,
            TreatAsSlopeType::SlopeRight => g,
            TreatAsSlopeType::SlopeProtectNegX => spec_fill_rect(
                spec_fill_rect(g, w, px, py, 16, 16, yellow_px()),
                w,
                px,
                py,
                1,
                16,
                green_px(),
            ),
            TreatAsSlopeType::SlopeProtectPosX => spec_fill_rect(
                spec_fill_rect(g, w, px, py, 16, 16, magenta_px()),
                w,
                px + 15,
                py,
                1,
                16,
                green_px(),
            ),
        }
    } else {
        g
    }
}

/// The first `n` cells painted in order.
pub open spec fn spec_paint_cells(g: Seq<Px>, w: int, h: int, cells: Seq<CellV>, n: int) -> Seq<
    Px,
>
    decreases n,
{
    if n <= 0 {
        g
    } else {
        spec_paint_cell(spec_paint_cells(g, w, h, cells, n - 1), w, h, cells[n - 1])
    }
}

/// The new value of one pixel after a cleanup round: border pixels and green
/// pixels are kept; otherwise the pixel is cleared when a horizontal neighbor
/// is fully transparent, or when it breaks a horizontal run while one
/// vertical neighbor is transparent and the other green.
pub open spec fn cleanup_px(g: Seq<Px>, w: int, h: int, x: int, y: int) -> Px {
    let p = g[y * w + x];
    if x == 0 || x == w - 1 || y == 0 || y == h - 1 {
        p
    } else if p == green_px() {
        p
    } else {
        let l = g[y * w + x - 1];
        let r = g[y * w + x + 1];
        let u = g[(y - 1) * w + x];
        let d = g[(y + 1) * w + x];
        let vert = (p != l || p != r) && (l != green_px() || r != green_px()) && ((u.a == 0 && d
            == green_px()) || (d.a == 0 && u == green_px()));
        let horiz = l.a == 0 || r.a == 0;
        if vert || horiz {
            clear_px()
        } else {
            p
        }
    }
}

/// One whole cleanup round, reading every decision from the round's starting
/// buffer.
pub open spec fn cleanup_step(g: Seq<Px>, w: int, h: int) -> Seq<Px> {
    Seq::new(g.len(), |i: int| cleanup_px(g, w, h, i % w, i / w))
}

/// `n` cleanup rounds.
pub open spec fn cleanup_iter(g: Seq<Px>, w: int, h: int, n: int) -> Seq<Px>
    decreases n,
{
    if n <= 0 {
        g
    } else {
        cleanup_step(cleanup_iter(g, w, h, n - 1), w, h)
    }
}

/// The first `k` pixels of a cleanup round applied, the rest untouched.
pub open spec fn cleanup_prefix(g: Seq<Px>, w: int, h: int, k: int) -> Seq<Px> {
    Seq::new(g.len(), |i: int| if i < k { cleanup_px(g, w, h, i % w, i / w) } else { g[i] })
}

/// The complete rendering of a classified room into pixels: paint every cell
/// over a transparent buffer, run ten cleanup rounds, then draw the one-pixel
/// room outline.
pub open spec fn spec_render(cells: Seq<CellV>, wt: int, ht: int) -> Seq<Px> {
    let w = 16 * wt;
    let h = 16 * ht;
    let g0 = Seq::new((w * h) as nat, |i: int| clear_px());
    let g1 = spec_paint_cells(g0, w, h, cells, cells.len() as int);
    let g2 = cleanup_iter(g1, w, h, 10);
    spec_hollow_rect(g2, w, 0, 0, w, h, green_px())
}

/// The ten-round artifact cleanup pass over seam pixels: each round reads a
/// snapshot of the buffer and clears boundary pixels adjacent to fully
/// transparent neighbors under the rules of `cleanup_px`.
fn cleanup_seams(img: &mut RoomImage)
    requires
        img_pixels(*old(img)).len() == img_width(*old(img)) * img_height(*old(img)),
        img_width(*old(img)) * img_height(*old(img)) <= usize::MAX,
    ensures
        img_width(*final(img)) == img_width(*old(img)),
        img_height(*final(img)) == img_height(*old(img)),
        img_pixels(*final(img)) == cleanup_iter(
            img_pixels(*old(img)),
            img_width(*old(img)) as int,
            img_height(*old(img)) as int,
            10,
        ),
{
    let w = img.width();
    let h = img.height();
    let gr = Px { r: 0, g: 255, b: 0, a: 255 };
    let ghost orig = img_pixels(*img);
    for round in 0..10usize
        invariant
            w == img_width(*img),
            h == img_height(*img),
            gr == green_px(),
            orig.len() == w * h,
            img_pixels(*img).len() == w * h,
            img_pixels(*img) == cleanup_iter(orig, w as int, h as int, round as int),
    {
        let copy = clone_img(img);
        let ghost cv = img_pixels(copy);
        proof {
            assert(0int * (w as int) == 0) by (nonlinear_arith);
            assert(cleanup_prefix(cv, w as int, h as int, 0) =~= cv);
        }
        for y in 0..h
            invariant
                w == img_width(*img),
                h == img_height(*img),
                w == img_width(copy),
                h == img_height(copy),
                gr == green_px(),
                cv == img_pixels(copy),
                cv.len() == w * h,
                img_pixels(*img) == cleanup_prefix(cv, w as int, h as int, y * w),
        {
            for x in 0..w
                invariant
                    w == img_width(*img),
                    h == img_height(*img),
                    w == img_width(copy),
                    h == img_height(copy),
                    gr == green_px(),
                    cv == img_pixels(copy),
                    cv.len() == w * h,
                    y < h,
                    img_pixels(*img) == cleanup_prefix(cv, w as int, h as int, y * w + x),
            {
                let ghost k = y * w + x;
                proof {
                    vstd::arithmetic::div_mod::lemma_fundamental_div_mod_converse(
                        k,
                        w as int,
                        y as int,
                        x as int,
                    );
                    assert(k % (w as int) == x as int && k / (w as int) == y as int);
                    assert(k < w * h) by (nonlinear_arith)
                        requires
                            k == y * w + x,
                            y < h,
                            x < w,
                            w > 0,
                    ;
                }
                let border = x == 0 || x == w - 1 || y == 0 || y == h - 1;
                if !border {
                    let p = get_px(&copy, x, y);
                    if p != gr {
                        let l = get_px(&copy, x - 1, y);
                        let r = get_px(&copy, x + 1, y);
                        let u = get_px(&copy, x, y - 1);
                        let d = get_px(&copy, x, y + 1);
                        let vert = (p != l || p != r) && (l != gr || r != gr) && ((u.a == 0 && d
                            == gr) || (d.a == 0 && u == gr));
                        let horiz = l.a == 0 || r.a == 0;
                        if vert || horiz {
                            put_px(img, x, y, Px { r: 0, g: 0, b: 0, a: 0 });
                        }
                    }
                }
                proof {
                    assert(img_pixels(*img) =~= cleanup_prefix(cv, w as int, h as int, k + 1));
                }
            }
            proof {
                assert(y * w + w == (y + 1) * w) by (nonlinear_arith);
            }
        }
        proof {
            assert((h as int) * (w as int) == (w as int) * (h as int)) by (nonlinear_arith);
            assert(cleanup_prefix(cv, w as int, h as int, (h as int) * (w as int)) =~= cleanup_step(
                cv,
                w as int,
                h as int,
            ));
        }
    }
}

impl Room {
    /// Rasterize the classified cell grid at CELL_SIZE pixels per tile: solid
    /// rectangles and slope polygons in classification colors, protected
    /// edges overdrawn in green, the seam cleanup pass, and the one-pixel
    /// room outline.
    pub fn render_image(&self) -> (img: RoomImage)
        requires
            self.wf(),
            self.room_width >= 1,
            self.room_height >= 1,
            (16 * (self.room_width * CELL_SIZE)) * (16 * (self.room_height * CELL_SIZE)) * 4
                <= usize::MAX,
        ensures
            img_width(img) == 16 * (self.room_width * CELL_SIZE),
            img_height(img) == 16 * (self.room_height * CELL_SIZE),
            img_pixels(img) == spec_render(
                views(self.cells@),
                self.room_width * CELL_SIZE,
                self.room_height * CELL_SIZE,
            ),
    {
        let wt = self.get_room_width_tiles();
        let ht = self.get_room_height_tiles();
        let pw: u32 = 16u32 * wt as u32;
        let ph: u32 = 16u32 * ht as u32;
        let mut img = new_image(pw, ph);

        let n = self.cells.len();
        let ghost cellsv = views(self.cells@);
        let ghost g0 = img_pixels(img);
        let mut k: usize = 0;
        while k < n
            invariant
                k <= n,
                n == self.cells@.len(),
                cellsv == views(self.cells@),
                cellsv.len() == n,
                1 <= pw <= 65280,
                1 <= ph <= 65280,
                img_width(img) == pw,
                img_height(img) == ph,
                g0.len() == pw * ph,
                img_pixels(img).len() == g0.len(),
                img_pixels(img) == spec_paint_cells(g0, pw as int, ph as int, cellsv, k as int),
            decreases n - k,
        {
            let ghost gpre = img_pixels(img);
            let ghost cv = cellsv[k as int];
            proof {
                assert(cv == self.cells@[k as int]@);
            }
            let block = self.cells[k].block_type;
            let treat = self.cells[k].treat_as_slope;
            let color = match treat {
                TreatAsSlopeType::Solid => Px { r: 0, g: 255, b: 0, a: 255 },
                TreatAsSlopeType::SlopeLeft => Px { r: 255, g: 255, b: 0, a: 255 },
                TreatAsSlopeType::SlopeRight => Px { r: 255, g: 0, b: 255, a: 255 },
                TreatAsSlopeType::SlopeProtectNegX => Px { r: 255, g: 255, b: 0, a: 255 },
                TreatAsSlopeType::SlopeProtectPosX => Px { r: 255, g: 0, b: 255, a: 255 },
            };
            proof {
                assert(color == color_of(cv.treat_as_slope));
            }
            let px = self.cells[k].x as i32 * CELL_SIZE as i32;
            let py = self.cells[k].y as i32 * CELL_SIZE as i32;
            if block == BlockType::Slope {
                let slope_type = self.cells[k].get_slope_type();
                let slope_flip = self.cells[k].get_slope_flip();
                let mut shape = polygon_for(slope_type);
                proof {
                    crate::catalog::lemma_catalog_bounds(spec_slope_type(cv));
                    assert forall|j: int| 0 <= j < shape.points@.len() implies 0 <= (
                    #[trigger] shape.points@[j]).x <= 15 && 0 <= shape.points@[j].y <= 15 by {
                        assert(shape.points@[j] == spec_polygon_for(spec_slope_type(cv))[j]);
                    }
                }
                match slope_flip {
                    Flip::NoFlip => {},
                    Flip::Horizontal => {
                        shape.mirror_x();
                    },
                    Flip::Vertical => {
                        shape.mirror_y();
                    },
                    Flip::Both => {
                        shape.mirror_x();
                        proof {
                            assert forall|j: int| 0 <= j < shape.points@.len() implies (
                            #[trigger] shape.points@[j]).y >= i32::MIN + CELL_SIZE by {
                                assert(shape.points@[j] == spec_mirror_x(
                                    spec_polygon_for(spec_slope_type(cv)),
                                )[j]);
                            }
                        }
                        shape.mirror_y();
                    },
                }
                proof {
                    let base = spec_polygon_for(spec_slope_type(cv));
                    let mirrored = match spec_slope_flip(cv) {
                        Flip::NoFlip => base,
                        Flip::Horizontal => spec_mirror_x(base),
                        Flip::Vertical => spec_mirror_y(base),
                        Flip::Both => spec_mirror_y(spec_mirror_x(base)),
                    };
                    assert(shape.points@ == mirrored);
                    assert forall|j: int| 0 <= j < shape.points@.len() implies i32::MIN <= (
                    #[trigger] shape.points@[j]).x + px <= i32::MAX && i32::MIN
                        <= shape.points@[j].y + py <= i32::MAX by {
                        assert(0 <= base[j].x <= 15 && 0 <= base[j].y <= 15);
                    }
                }
                shape.shift(px, py);
                proof {
                    let base = spec_polygon_for(spec_slope_type(cv));
                    assert forall|j: int| 0 <= j < shape.points@.len() implies -0x100_0000 <= (
                    #[trigger] shape.points@[j]).x <= 0x100_0000 && -0x100_0000
                        <= shape.points@[j].y <= 0x100_0000 by {
                        assert(0 <= base[j].x <= 15 && 0 <= base[j].y <= 15);
                        assert(0 <= px <= 1048560 && 0 <= py <= 1048560);
                    }
                }
                draw_poly(&mut img, &shape.points, color);
                proof {
                    assert(shape.points@ == spec_cell_polygon(cv));
                    assert(img_pixels(img) == spec_paint_cell(gpre, pw as int, ph as int, cv));
                }
            } else if block == BlockType::Solid {
                match treat {
                    TreatAsSlopeType::Solid => {
                        fill_rect(&mut img, px, py, CELL_SIZE as u32, CELL_SIZE as u32, color);
                    },
                    TreatAsSlopeType::SlopeLeft => {},
                    TreatAsSlopeType::SlopeRight => {},
                    TreatAsSlopeType::SlopeProtectNegX => {
                        fill_rect(&mut img, px, py, CELL_SIZE as u32, CELL_SIZE as u32, color);
                        fill_rect(&mut img, px, py, 1, CELL_SIZE as u32, Px {
                            r: 0,
                            g: 255,
                            b: 0,
                            a: 255,
                        });
                    },
                    TreatAsSlopeType::SlopeProtectPosX => {
                        fill_rect(&mut img, px, py, CELL_SIZE as u32, CELL_SIZE as u32, color);
                        fill_rect(&mut img, px + CELL_SIZE as i32 - 1, py, 1, CELL_SIZE as u32, Px {
                            r: 0,
                            g: 255,
                            b: 0,
                            a: 255,
                        });
                    },
                }
                proof {
                    assert(img_pixels(img) == spec_paint_cell(gpre, pw as int, ph as int, cv));
                }
            } else {
                proof {
                    assert(img_pixels(img) == spec_paint_cell(gpre, pw as int, ph as int, cv));
                }
            }
            proof {
                assert(img_pixels(img) == spec_paint_cells(
                    g0,
                    pw as int,
                    ph as int,
                    cellsv,
                    k as int + 1,
                ));
            }
            k += 1;
        }

        cleanup_seams(&mut img);
        hollow_rect(&mut img, 0, 0, pw, ph, Px { r: 0, g: 255, b: 0, a: 255 });
        img
    }
}

} // verus!
