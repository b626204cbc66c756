use vstd::prelude::*;

use crate::constants::{BTS_SLOPE_FLIP_MASK, BTS_SLOPE_TYPE_MASK};
use crate::vectors::Vector;

verus! {

/// The eight areas a room can belong to; any out-of-range code falls back to
/// the first member (intentional silent normalization, not an error).
#[derive(Debug, Clone, Copy, PartialEq, Eq, Structural)]
pub enum AreaIndex {
    Crateria,
    Brinstar,
    Norfair,
    WreckedShip,
    Maridia,
    Tourian,
    Colony,
    Debug,
}

pub open spec fn area_of_code(v: u8) -> AreaIndex {
    if v == 1u8 {
        AreaIndex::Brinstar
    } else if v == 2u8 {
        AreaIndex::Norfair
    } else if v == 3u8 {
        AreaIndex::WreckedShip
    } else if v == 4u8 {
        AreaIndex::Maridia
    } else if v == 5u8 {
        AreaIndex::Tourian
    } else if v == 6u8 {
        AreaIndex::Colony
    } else if v == 7u8 {
        AreaIndex::Debug
    } else {
        AreaIndex::Crateria
    }
}

impl AreaIndex {
    /// Total mapping from a raw byte to an area; codes above 7 yield Crateria.
    pub fn from_code(v: u8) -> (r: AreaIndex)
        ensures
            r == area_of_code(v),
    {
        match v {
            0x0 => AreaIndex::Crateria,
            0x1 => AreaIndex::Brinstar,
            0x2 => AreaIndex::Norfair,
            0x3 => AreaIndex::WreckedShip,
            0x4 => AreaIndex::Maridia,
            0x5 => AreaIndex::Tourian,
            0x6 => AreaIndex::Colony,
            0x7 => AreaIndex::Debug,
            _ => AreaIndex::Crateria,
        }
    }
}

/// Mirroring applied to a tile, either as stored in the type/flip pair or as
/// carried in the top bits of the auxiliary byte.
#[derive(Debug, Clone, Copy, PartialEq, Eq, Structural)]
pub enum Flip {
    NoFlip,
    Horizontal,
    Vertical,
    Both,
}

pub open spec fn flip_of_code(v: u8) -> Flip {
    if v == 1u8 {
        Flip::Horizontal
    } else if v == 2u8 {
        Flip::Vertical
    } else if v == 3u8 {
        Flip::Both
    } else {
        Flip::NoFlip
    }
}

impl Flip {
    /// Total mapping from a raw two-bit code to a flip; codes above 3 yield NoFlip.
    pub fn from_code(v: u8) -> (r: Flip)
        ensures
            r == flip_of_code(v),
    {
        match v {
            0x0 => Flip::NoFlip,
            0x1 => Flip::Horizontal,
            0x2 => Flip::Vertical,
            0x3 => Flip::Both,
            _ => Flip::NoFlip,
        }
    }
}

/// The sixteen block types a tile can carry in the high nibble of its
/// type/flip pair.
#[derive(Debug, Clone, Copy, PartialEq, Eq, Structural)]
pub enum BlockType {
    Air,
    Slope,
    AirXray,
    Treadmill,
    AirShot,
    HCopy,
    Unused,
    AirBomb,
    Solid,
    Door,
    Spike,
    Crumble,
    Shot,
    VCopy,
    Grapple,
    Bomb,
}

pub open spec fn block_of_code(v: u8) -> BlockType {
    if v == 1u8 {
        BlockType::Slope
    } else if v == 2u8 {
        BlockType::AirXray
    } else if v == 3u8 {
        BlockType::Treadmill
    } else if v == 4u8 {
        BlockType::AirShot
    } else if v == 5u8 {
        BlockType::HCopy
    } else if v == 6u8 {
        BlockType::Unused
    } else if v == 7u8 {
        BlockType::AirBomb
    } else if v == 8u8 {
        BlockType::Solid
    } else if v == 9u8 {
        BlockType::Door
    } else if v == 10u8 {
        BlockType::Spike
    } else if v == 11u8 {
        BlockType::Crumble
    } else if v == 12u8 {
        BlockType::Shot
    } else if v == 13u8 {
        BlockType::VCopy
    } else if v == 14u8 {
        BlockType::Grapple
    } else if v == 15u8 {
        BlockType::Bomb
    } else {
        BlockType::Air
    }
}

impl BlockType {
    /// Total mapping from a raw nibble to a block type; codes above 15 yield Air.
    pub fn from_code(v: u8) -> (r: BlockType)
        ensures
            r == block_of_code(v),
    {
        match v {
            0x0 => BlockType::Air,
            0x1 => BlockType::Slope,
            0x2 => BlockType::AirXray,
            0x3 => BlockType::Treadmill,
            0x4 => BlockType::AirShot,
            0x5 => BlockType::HCopy,
            0x6 => BlockType::Unused,
            0x7 => BlockType::AirBomb,
            0x8 => BlockType::Solid,
            0x9 => BlockType::Door,
            0xA => BlockType::Spike,
            0xB => BlockType::Crumble,
            0xC => BlockType::Shot,
            0xD => BlockType::VCopy,
            0xE => BlockType::Grapple,
            0xF => BlockType::Bomb,
            _ => BlockType::Air,
        }
    }
}

/// The thirty-two slope shapes selectable through the low five bits of the
/// auxiliary byte; `Unknown` is the explicit default for out-of-range codes.
#[derive(Debug, Clone, Copy, PartialEq, Eq, Structural)]
pub enum SlopeType {
    HalfSolidH,
    HalfSolidV,
    QuarterSolid,
    StairBigSteps,
    FullSolidUnused,
    SmallTriangle,
    BigTriangle,
    HalfPlat,
    SquareDuplicate1,
    SquareDuplicate2,
    SquareDuplicate3,
    SquareDuplicate4,
    SquareDuplicate5,
    SquareDuplicate6,
    StairSmallSteps,
    ConcaveTriangle,
    HorizontalLines,
    VerticalLines,
    Slope45,
    Square,
    HillPart1,
    HillPart2,
    SmoothHillPart1,
    SmoothHillPart2,
    SmootherHillPart1,
    SmootherHillPart2,
    SmootherHillPart3,
    SteepHillPart1,
    SteepHillPart2,
    SteeperHillPart1,
    SteeperHillPart2,
    SteeperHillPart3,
    Unknown,
}

pub open spec fn slope_of_code(v: u8) -> SlopeType {
    if v == 0u8 {
        SlopeType::HalfSolidH
    } else if v == 1u8 {
        SlopeType::HalfSolidV
    } else if v == 2u8 {
        SlopeType::QuarterSolid
    } else if v == 3u8 {
        SlopeType::StairBigSteps
    } else if v == 4u8 {
        SlopeType::FullSolidUnused
    } else if v == 5u8 {
        SlopeType::SmallTriangle
    } else if v == 6u8 {
        SlopeType::BigTriangle
    } else if v == 7u8 {
        SlopeType::HalfPlat
    } else if v == 8u8 {
        SlopeType::SquareDuplicate1
    } else if v == 9u8 {
        SlopeType::SquareDuplicate2
    } else if v == 10u8 {
        SlopeType::SquareDuplicate3
    } else if v == 11u8 {
        SlopeType::SquareDuplicate4
    } else if v == 12u8 {
        SlopeType::SquareDuplicate5
    } else if v == 13u8 {
        SlopeType::SquareDuplicate6
    } else if v == 14u8 {
        SlopeType::StairSmallSteps
    } else if v == 15u8 {
        SlopeType::ConcaveTriangle
    } else if v == 16u8 {
        SlopeType::HorizontalLines
    } else if v == 17u8 {
        SlopeType::VerticalLines
    } else if v == 18u8 {
        SlopeType::Slope45
    } else if v == 19u8 {
        SlopeType::Square
    } else if v == 20u8 {
        SlopeType::HillPart1
    } else if v == 21u8 {
        SlopeType::HillPart2
    } else if v == 22u8 {
        SlopeType::SmoothHillPart1
    } else if v == 23u8 {
        SlopeType::SmoothHillPart2
    } else if v == 24u8 {
        SlopeType::SmootherHillPart1
    } else if v == 25u8 {
        SlopeType::SmootherHillPart2
    } else if v == 26u8 {
        SlopeType::SmootherHillPart3
    } else if v == 27u8 {
        SlopeType::SteepHillPart1
    } else if v == 28u8 {
        SlopeType::SteepHillPart2
    } else if v == 29u8 {
        SlopeType::SteeperHillPart1
    } else if v == 30u8 {
        SlopeType::SteeperHillPart2
    } else if v == 31u8 {
        SlopeType::SteeperHillPart3
    } else {
        SlopeType::Unknown
    }
}

impl SlopeType {
    /// Total mapping from a raw five-bit code to a slope shape; codes above 31
    /// yield the explicit Unknown member.
    pub fn from_code(v: u8) -> (r: SlopeType)
        ensures
            r == slope_of_code(v),
    {
        match v {
            0x0 => SlopeType::HalfSolidH,
            0x1 => SlopeType::HalfSolidV,
            0x2 => SlopeType::QuarterSolid,
            0x3 => SlopeType::StairBigSteps,
            0x4 => SlopeType::FullSolidUnused,
            0x5 => SlopeType::SmallTriangle,
            0x6 => SlopeType::BigTriangle,
            0x7 => SlopeType::HalfPlat,
            0x8 => SlopeType::SquareDuplicate1,
            0x9 => SlopeType::SquareDuplicate2,
            0xA => SlopeType::SquareDuplicate3,
            0xB => SlopeType::SquareDuplicate4,
            0xC => SlopeType::SquareDuplicate5,
            0xD => SlopeType::SquareDuplicate6,
            0xE => SlopeType::StairSmallSteps,
            0xF => SlopeType::ConcaveTriangle,
            0x10 => SlopeType::HorizontalLines,
            0x11 => SlopeType::VerticalLines,
            0x12 => SlopeType::Slope45,
            0x13 => SlopeType::Square,
            0x14 => SlopeType::HillPart1,
            0x15 => SlopeType::HillPart2,
            0x16 => SlopeType::SmoothHillPart1,
            0x17 => SlopeType::SmoothHillPart2,
            0x18 => SlopeType::SmootherHillPart1,
            0x19 => SlopeType::SmootherHillPart2,
            0x1A => SlopeType::SmootherHillPart3,
            0x1B => SlopeType::SteepHillPart1,
            0x1C => SlopeType::SteepHillPart2,
            0x1D => SlopeType::SteeperHillPart1,
            0x1E => SlopeType::SteeperHillPart2,
            0x1F => SlopeType::SteeperHillPart3,
            _ => SlopeType::Unknown,
        }
    }
}

/// How the renderer must treat a tile's edges once slopes have been resolved.
#[derive(Debug, Clone, Copy, PartialEq, Eq, Structural)]
pub enum TreatAsSlopeType {
    Solid,
    SlopeRight,
    SlopeLeft,
    SlopeProtectNegX,
    SlopeProtectPosX,
}

/// One grid tile. Slope type and slope flip are never stored: they are always
/// recomputed from the raw auxiliary byte `bts`.
#[derive(Debug, PartialEq)]
pub struct Cell {
    pub x: u16,
    pub y: u16,
    pub treat_as_slope: TreatAsSlopeType,
    pub block_type: BlockType,
    pub flip: Flip,
    pub bts: u8,
    pub slope_vectors: Vec<Vector>,
}

/// The mathematical value of a `Cell`: the same fields with the boundary
/// vector list abstracted to a sequence.
#[verifier::ext_equal]
pub ghost struct CellV {
    pub x: u16,
    pub y: u16,
    pub treat_as_slope: TreatAsSlopeType,
    pub block_type: BlockType,
    pub flip: Flip,
    pub bts: u8,
    pub slope_vectors: Seq<Vector>,
}

impl View for Cell {
    type V = CellV;

    open spec fn view(&self) -> CellV {
        CellV {
            x: self.x,
            y: self.y,
            treat_as_slope: self.treat_as_slope,
            block_type: self.block_type,
            flip: self.flip,
            bts: self.bts,
            slope_vectors: self.slope_vectors@,
        }
    }
}

/// The slope shape encoded in a cell's auxiliary byte (its low five bits).
pub open spec fn spec_slope_type(c: CellV) -> SlopeType {
    slope_of_code(c.bts & BTS_SLOPE_TYPE_MASK)
}

/// The slope flip encoded in a cell's auxiliary byte (its top two bits).
pub open spec fn spec_slope_flip(c: CellV) -> Flip {
    flip_of_code((c.bts & BTS_SLOPE_FLIP_MASK) >> 6u8)
}

/// A cell counts as square if it is a solid block, or a slope whose shape is
/// the full square or its first duplicate.
pub open spec fn spec_is_square(c: CellV) -> bool {
    c.block_type == BlockType::Solid || (c.block_type == BlockType::Slope && (spec_slope_type(c)
        == SlopeType::Square || spec_slope_type(c) == SlopeType::SquareDuplicate1))
}

/// The value every cell starts from before decode fills it in.
pub open spec fn spec_empty_cell() -> CellV {
    CellV {
        x: 0u16,
        y: 0u16,
        treat_as_slope: TreatAsSlopeType::Solid,
        block_type: BlockType::Air,
        flip: Flip::NoFlip,
        bts: 0u8,
        slope_vectors: Seq::empty(),
    }
}

impl Cell {
    pub fn new() -> (c: Cell)
        ensures
            c@ == spec_empty_cell(),
    {
        let c = Cell {
            x: 0,
            y: 0,
            treat_as_slope: TreatAsSlopeType::Solid,
            block_type: BlockType::Air,
            flip: Flip::NoFlip,
            bts: 0,
            slope_vectors: Vec::new(),
        };
        proof {
            assert(c@ =~= spec_empty_cell());
        }
        c
    }

    pub fn get_slope_flip(&self) -> (f: Flip)
        ensures
            f == spec_slope_flip(self@),
    {
        match (self.bts & BTS_SLOPE_FLIP_MASK) >> 6u8 {
            0x0 => Flip::NoFlip,
            0x1 => Flip::Horizontal,
            0x2 => Flip::Vertical,
            0x3 => Flip::Both,
            _ => Flip::NoFlip,
        }
    }

    pub fn get_slope_type(&self) -> (t: SlopeType)
        ensures
            t == spec_slope_type(self@),
    {
        SlopeType::from_code(self.bts & BTS_SLOPE_TYPE_MASK)
    }

    pub fn is_square(&self) -> (r: bool)
        ensures
            r == spec_is_square(self@),
    {
        let slope_type = self.get_slope_type();
        self.block_type == BlockType::Solid || (self.block_type == BlockType::Slope && (slope_type
            == SlopeType::Square || slope_type == SlopeType::SquareDuplicate1))
    }
}

/// The up-to-four grid-adjacent cell indices of a tile, computed from a flat
/// row-major index and the grid bounds alone; never stored.
pub struct CellNeighbors {
    pub left: Option<usize>,
    pub right: Option<usize>,
    pub up: Option<usize>,
    pub down: Option<usize>,
}

pub open spec fn nbr_left(i: int, w: int) -> Option<int> {
    if i % w > 0 {
        Some(i - 1)
    } else {
        None
    }
}

pub open spec fn nbr_right(i: int, w: int) -> Option<int> {
    if i % w < w - 1 {
        Some(i + 1)
    } else {
        None
    }
}

pub open spec fn nbr_up(i: int, w: int) -> Option<int> {
    if i / w > 0 {
        Some(i - w)
    } else {
        None
    }
}

pub open spec fn nbr_down(i: int, w: int, h: int) -> Option<int> {
    if i / w < h - 1 {
        Some(i + w)
    } else {
        None
    }
}

/// A flat row-major index inside a `w` by `h` grid has column `i % w` and row
/// `i / w`, both inside the grid bounds.
pub proof fn lemma_grid_coords(i: int, w: int, h: int)
    requires
        0 < w,
        0 <= i < w * h,
    ensures
        0 <= i % w < w,
        0 <= i / w < h,
        i == w * (i / w) + i % w,
{
    vstd::arithmetic::div_mod::lemma_fundamental_div_mod(i, w);
    vstd::arithmetic::div_mod::lemma_mod_bound(i, w);
    vstd::arithmetic::div_mod::lemma_div_pos_is_pos(i, w);
    let q = i / w;
    assert(q < h) by {
        if q >= h {
            assert(w * q >= w * h) by (nonlinear_arith)
                requires
                    q >= h,
                    w > 0,
            ;
        }
    }
}

/// Every neighbor index of a cell inside the grid is itself inside the grid.
pub proof fn lemma_neighbors_in_bounds(i: int, w: int, h: int)
    requires
        0 < w,
        0 < h,
        0 <= i < w * h,
    ensures
        nbr_left(i, w) matches Some(l) ==> 0 <= l < w * h,
        nbr_right(i, w) matches Some(r) ==> 0 <= r < w * h,
        nbr_up(i, w) matches Some(u) ==> 0 <= u < w * h,
        nbr_down(i, w, h) matches Some(d) ==> 0 <= d < w * h,
{
    vstd::arithmetic::div_mod::lemma_fundamental_div_mod(i, w);
    assert(i == w * (i / w) + i % w);
    vstd::arithmetic::div_mod::lemma_mod_bound(i, w);
    vstd::arithmetic::div_mod::lemma_div_pos_is_pos(i, w);
    let q = i / w;
    let r = i % w;
    assert(0 <= r < w);
    assert(q >= 0);
    assert(q < h) by {
        if q >= h {
            assert(w * q >= w * h) by (nonlinear_arith)
                requires
                    q >= h,
                    w > 0,
            ;
        }
    }
    if i % w < w - 1 {
        assert(i + 1 <= w * q + w - 1);
        assert(w * q + w == w * (q + 1)) by (nonlinear_arith);
        assert(w * (q + 1) <= w * h) by (nonlinear_arith)
            requires
                q + 1 <= h,
                w > 0,
        ;
    }
    if q < h - 1 {
        assert(i + w == w * (q + 1) + r) by (nonlinear_arith)
            requires
                i == w * q + r,
        ;
        assert(w * (q + 1) + r < w * (q + 2)) by (nonlinear_arith)
            requires
                0 <= r < w,
        ;
        assert(w * (q + 2) <= w * h) by (nonlinear_arith)
            requires
                q + 2 <= h,
                w > 0,
        ;
    }
    if q > 0 {
        assert(i - w == w * (q - 1) + r) by (nonlinear_arith)
            requires
                i == w * q + r,
        ;
        assert(w * (q - 1) >= 0) by (nonlinear_arith)
            requires
                q >= 1,
                w > 0,
        ;
    }
}

/// Grid adjacency from index arithmetic alone: no wraparound, and existence is
/// determined purely by the grid bounds.
pub fn get_neighbors(index: usize, room_width: usize, room_height: usize) -> (r: CellNeighbors)
    requires
        0 < room_width,
        0 < room_height,
        index < room_width * room_height,
        room_width * room_height <= usize::MAX,
    ensures
        r.left == (if index % room_width > 0 {
            Some((index - 1) as usize)
        } else {
            None::<usize>
        }),
        r.right == (if index % room_width < room_width - 1 {
            Some((index + 1) as usize)
        } else {
            None::<usize>
        }),
        r.up == (if index / room_width > 0 {
            Some((index - room_width) as usize)
        } else {
            None::<usize>
        }),
        r.down == (if index / room_width < room_height - 1 {
            Some((index + room_width) as usize)
        } else {
            None::<usize>
        }),
{
    proof {
        lemma_neighbors_in_bounds(index as int, room_width as int, room_height as int);
    }
    let mut neighbors: CellNeighbors = CellNeighbors {
        left: None,
        right: None,
        up: None,
        down: None,
    };

    let x = index % room_width;
    let y = index / room_width;

    if x > 0 {
        neighbors.left = Some(index - 1);
    }

    if x < room_width - 1 {
        neighbors.right = Some(index + 1);
    }

    if y > 0 {
        proof {
            vstd::arithmetic::div_mod::lemma_fundamental_div_mod(index as int, room_width as int);
            assert(room_width * (index as int / room_width as int) >= room_width * 1)
                by (nonlinear_arith)
                requires
                    index as int / room_width as int >= 1,
                    room_width >= 1,
            ;
        }
        neighbors.up = Some(index - room_width);
    }

    if y < room_height - 1 {
        neighbors.down = Some(index + room_width);
    }

    neighbors
}

} // verus!
