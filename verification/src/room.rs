use vstd::prelude::*;

use crate::catalog::{spec_vectors_for, vectors_for};
use crate::classify::{
    classify_all, classify_step, classify_upto, logical_right, own_treat, right_revision,
    slope_active, views, with_treat,
};
use crate::constants::{BTS_SLOPE_TYPE_MASK, CELL_SIZE};
use crate::types::{
    AreaIndex, BlockType, Cell, CellV, Flip, SlopeType, TreatAsSlopeType, area_of_code,
    block_of_code, flip_of_code, get_neighbors, lemma_neighbors_in_bounds, slope_of_code,
    spec_slope_flip,
};

verus! {

/// The one decode failure: the byte buffer is too short for the declared
/// header or the declared grid dimensions.
#[derive(Debug, Clone, Copy, PartialEq, Eq, Structural)]
pub enum DecodeError {
    TooShort,
}

/// A decoded room record: fixed header fields plus the row-major cell grid.
#[derive(Debug)]
pub struct Room {
    pub room_id: String,
    pub area_index: AreaIndex,
    pub room_index: u8,
    pub map_x: u8,
    pub map_y: u8,
    pub room_width: u8,
    pub room_height: u8,
    pub up_scroll: u8,
    pub down_scroll: u8,
    pub special_graphics_bitflag: u8,
    pub door_out_pointer: u8,
    pub unk3: u8,
    pub unk4: u8,
    pub unk5: u8,
    pub unk6: u8,
    pub unk7: u8,
    pub cells: Vec<Cell>,
}

/// Room width in tiles declared by a raw record: block width times CELL_SIZE.
pub open spec fn spec_width_tiles(b: Seq<u8>) -> int {
    b[4] * CELL_SIZE
}

/// Room height in tiles declared by a raw record.
pub open spec fn spec_height_tiles(b: Seq<u8>) -> int {
    b[5] * CELL_SIZE
}

/// The cell count declared by a raw record.
pub open spec fn spec_total_cells(b: Seq<u8>) -> int {
    spec_width_tiles(b) * spec_height_tiles(b)
}

/// A record decodes successfully exactly when it holds the 15 header bytes
/// plus two type/flip bytes and one auxiliary byte per declared cell.
pub open spec fn decode_ok(b: Seq<u8>) -> bool {
    b.len() >= 15 && b.len() >= 15 + 3 * spec_total_cells(b)
}

/// Cell `i` after the first decode pass: grid coordinates, block type and
/// flip from the high byte of its type/flip pair; everything else default.
pub open spec fn spec_pre_cell(b: Seq<u8>, i: int) -> CellV {
    let w = spec_width_tiles(b);
    let hi = b[15 + 2 * i + 1];
    CellV {
        x: (i % w) as u16,
        y: (i / w) as u16,
        treat_as_slope: TreatAsSlopeType::Solid,
        block_type: block_of_code((hi & 0xF0) >> 4u8),
        flip: flip_of_code((hi & 0x0C) >> 2u8),
        bts: 0u8,
        slope_vectors: Seq::empty(),
    }
}

/// Cell `i` after the second decode pass: the auxiliary byte is applied, and
/// slope cells receive the canonical boundary vectors of their slope shape.
pub open spec fn spec_raw_cell(b: Seq<u8>, i: int) -> CellV {
    let c = spec_pre_cell(b, i);
    let bts = b[15 + 2 * spec_total_cells(b) + i];
    CellV {
        bts,
        slope_vectors: if c.block_type == BlockType::Slope {
            spec_vectors_for(slope_of_code(bts & BTS_SLOPE_TYPE_MASK))
        } else {
            Seq::empty()
        },
        ..c
    }
}

/// The whole cell grid of a raw record, before classification.
pub open spec fn spec_raw_cells(b: Seq<u8>) -> Seq<CellV> {
    Seq::new(spec_total_cells(b) as nat, |i: int| spec_raw_cell(b, i))
}

/// The whole cell grid of a raw record, after slope classification.
pub open spec fn spec_room_cells(b: Seq<u8>) -> Seq<CellV> {
    classify_all(spec_raw_cells(b), spec_width_tiles(b), spec_height_tiles(b))
}

/// Decoding is a pure function of the byte buffer alone: any two cell grids
/// decoded from the same bytes are identical, the caller-supplied identifier
/// aside.
pub proof fn lemma_decode_deterministic(b: Seq<u8>, c1: Seq<CellV>, c2: Seq<CellV>)
    requires
        c1 == spec_room_cells(b),
        c2 == spec_room_cells(b),
    ensures
        c1 == c2,
{
}

impl Room {
    /// A room is well formed when its cell count matches its declared grid.
    pub open spec fn wf(self) -> bool {
        self.cells@.len() == (self.room_width * CELL_SIZE) * (self.room_height * CELL_SIZE)
    }

    pub fn get_room_width_tiles(&self) -> (r: u16)
        ensures
            r == self.room_width * CELL_SIZE,
    {
        self.room_width as u16 * CELL_SIZE
    }

    pub fn get_room_height_tiles(&self) -> (r: u16)
        ensures
            r == self.room_height * CELL_SIZE,
    {
        self.room_height as u16 * CELL_SIZE
    }

    /// The header fields alone, mapped positionally from the first 15 bytes,
    /// with an empty cell grid.
    fn new_from_bytes(bytes: &[u8]) -> (r: Room)
        requires
            bytes@.len() >= 15,
        ensures
            r.room_id@.len() == 0,
            r.area_index == area_of_code(bytes@[0]),
            r.room_index == bytes@[1],
            r.map_x == bytes@[2],
            r.map_y == bytes@[3],
            r.room_width == bytes@[4],
            r.room_height == bytes@[5],
            r.up_scroll == bytes@[6],
            r.down_scroll == bytes@[7],
            r.special_graphics_bitflag == bytes@[8],
            r.door_out_pointer == bytes@[9],
            r.unk3 == bytes@[10],
            r.unk4 == bytes@[11],
            r.unk5 == bytes@[12],
            r.unk6 == bytes@[13],
            r.unk7 == bytes@[14],
            r.cells@.len() == 0,
    {
        Room {
            room_id: String::new(),
            area_index: AreaIndex::from_code(bytes[0]),
            room_index: bytes[1],
            map_x: bytes[2],
            map_y: bytes[3],
            room_width: bytes[4],
            room_height: bytes[5],
            up_scroll: bytes[6],
            down_scroll: bytes[7],
            special_graphics_bitflag: bytes[8],
            door_out_pointer: bytes[9],
            unk3: bytes[10],
            unk4: bytes[11],
            unk5: bytes[12],
            unk6: bytes[13],
            unk7: bytes[14],
            cells: Vec::new(),
        }
    }

    /// Decode one raw record: 15 header bytes, then one 2-byte type/flip pair
    /// per cell, then one auxiliary byte per cell, then an ignored trailer.
    /// All-or-nothing: a buffer too short for the declared grid is rejected.
    pub fn from_bytes(bytes: &[u8]) -> (r: Result<Room, DecodeError>)
        ensures
            r is Ok <==> decode_ok(bytes@),
            r is Err ==> r == Err::<Room, DecodeError>(DecodeError::TooShort),
            r matches Ok(room) ==> {
                &&& room.room_id@.len() == 0
                &&& room.area_index == area_of_code(bytes@[0])
                &&& room.room_index == bytes@[1]
                &&& room.map_x == bytes@[2]
                &&& room.map_y == bytes@[3]
                &&& room.room_width == bytes@[4]
                &&& room.room_height == bytes@[5]
                &&& room.up_scroll == bytes@[6]
                &&& room.down_scroll == bytes@[7]
                &&& room.special_graphics_bitflag == bytes@[8]
                &&& room.door_out_pointer == bytes@[9]
                &&& room.unk3 == bytes@[10]
                &&& room.unk4 == bytes@[11]
                &&& room.unk5 == bytes@[12]
                &&& room.unk6 == bytes@[13]
                &&& room.unk7 == bytes@[14]
                &&& room.wf()
                &&& room.cells@.len() == spec_total_cells(bytes@)
                &&& views(room.cells@) == spec_room_cells(bytes@)
            },
    {
        if bytes.len() < 15 {
            return Err(DecodeError::TooShort);
        }
        let mut room = Room::new_from_bytes(bytes);

        let room_width = room.get_room_width_tiles();
        let room_height = room.get_room_height_tiles();
        let w = room_width as usize;
        let h = room_height as usize;
        proof {
            assert(w * h <= 4080 * 4080) by (nonlinear_arith)
                requires
                    w <= 4080,
                    h <= 4080,
            ;
        }
        let total = w * h;

        if bytes.len() < 15 + 3 * total {
            return Err(DecodeError::TooShort);
        }

        // first pass: block type, flip and grid coordinates from the
        // type/flip byte pairs
        let mut cells: Vec<Cell> = Vec::new();
        let mut i: usize = 0;
        while i < total
            invariant
                i <= total,
                total == w * h,
                total <= 16646400,
                w == spec_width_tiles(bytes@),
                h == spec_height_tiles(bytes@),
                w <= 4080,
                bytes@.len() >= 15 + 3 * total,
                views(cells@) == Seq::new(i as nat, |j: int| spec_pre_cell(bytes@, j)),
                cells@.len() == i,
            decreases total - i,
        {
            proof {
                crate::types::lemma_grid_coords(i as int, w as int, h as int);
            }
            let hi = bytes[15 + 2 * i + 1];
            let mut c = Cell::new();
            c.block_type = BlockType::from_code((hi & 0xF0) >> 4u8);
            c.flip = Flip::from_code((hi & 0x0C) >> 2u8);
            c.x = (i % w) as u16;
            c.y = (i / w) as u16;
            let ghost prev = cells@;
            cells.push(c);
            proof {
                assert(c@ =~= spec_pre_cell(bytes@, i as int));
                assert forall|j: int| 0 <= j < i + 1 implies cells@[j]@ == spec_pre_cell(
                    bytes@,
                    j,
                ) by {
                    if j < i {
                        assert(cells@[j] == prev[j]);
                        assert(views(prev)[j] == prev[j]@);
                    } else {
                        assert(cells@[j] == c);
                    }
                }
                assert(views(cells@) =~= Seq::new((i + 1) as nat, |j: int| spec_pre_cell(bytes@, j)));
            }
            i += 1;
        }

        // second pass: apply the auxiliary byte region by position, copying
        // canonical boundary vectors into slope cells
        let mut i2: usize = 0;
        while i2 < total
            invariant
                i2 <= total,
                total == w * h,
                total <= 16646400,
                w == spec_width_tiles(bytes@),
                h == spec_height_tiles(bytes@),
                bytes@.len() >= 15 + 3 * total,
                cells@.len() == total,
                views(cells@) == Seq::new(
                    total as nat,
                    |j: int|
                        if j < i2 {
                            spec_raw_cell(bytes@, j)
                        } else {
                            spec_pre_cell(bytes@, j)
                        },
                ),
            decreases total - i2,
        {
            let ghost prev = cells@;
            proof {
                assert(views(prev)[i2 as int] == prev[i2 as int]@);
                assert(prev[i2 as int]@ == spec_pre_cell(bytes@, i2 as int));
            }
            let b = bytes[15 + 2 * total + i2];
            cells[i2].bts = b;
            if cells[i2].block_type == BlockType::Slope {
                let slope_type = cells[i2].get_slope_type();
                let vectors = vectors_for(slope_type);
                cells[i2].slope_vectors = vectors;
            }
            proof {
                assert(cells@[i2 as int]@ =~= spec_raw_cell(bytes@, i2 as int));
                assert forall|j: int| 0 <= j < total implies cells@[j]@ == (if j < i2 + 1 {
                    spec_raw_cell(bytes@, j)
                } else {
                    spec_pre_cell(bytes@, j)
                }) by {
                    if j != i2 {
                        assert(cells@[j] == prev[j]);
                        assert(views(prev)[j] == prev[j]@);
                    }
                }
                assert(views(cells@) =~= Seq::new(
                    total as nat,
                    |j: int|
                        if j < i2 + 1 {
                            spec_raw_cell(bytes@, j)
                        } else {
                            spec_pre_cell(bytes@, j)
                        },
                ));
            }
            i2 += 1;
        }

        room.cells = cells;
        proof {
            assert(views(room.cells@) =~= spec_raw_cells(bytes@));
        }

        room.set_data_visual();

        Ok(room)
    }

    /// The forward classification pass: assign every slope cell its own
    /// classification and revise square logical-right neighbors, in row-major
    /// order with last-writer-wins semantics.
    pub fn set_data_visual(&mut self)
        requires
            old(self).wf(),
        ensures
            final(self).wf(),
            final(self).room_id == old(self).room_id,
            final(self).area_index == old(self).area_index,
            final(self).room_index == old(self).room_index,
            final(self).map_x == old(self).map_x,
            final(self).map_y == old(self).map_y,
            final(self).room_width == old(self).room_width,
            final(self).room_height == old(self).room_height,
            final(self).up_scroll == old(self).up_scroll,
            final(self).down_scroll == old(self).down_scroll,
            final(self).special_graphics_bitflag == old(self).special_graphics_bitflag,
            final(self).door_out_pointer == old(self).door_out_pointer,
            final(self).unk3 == old(self).unk3,
            final(self).unk4 == old(self).unk4,
            final(self).unk5 == old(self).unk5,
            final(self).unk6 == old(self).unk6,
            final(self).unk7 == old(self).unk7,
            views(final(self).cells@) == classify_all(
                views(old(self).cells@),
                old(self).room_width * CELL_SIZE,
                old(self).room_height * CELL_SIZE,
            ),
    {
        let room_width = self.get_room_width_tiles() as usize;
        let room_height = self.get_room_height_tiles() as usize;
        proof {
            assert(room_width * room_height <= 4080 * 4080) by (nonlinear_arith)
                requires
                    room_width <= 4080,
                    room_height <= 4080,
            ;
        }
        let total = room_width * room_height;
        let ghost orig = views(self.cells@);
        let ghost w = room_width as int;
        let ghost h = room_height as int;
        let ghost header = *self;

        let mut i: usize = 0;
        while i < total
            invariant
                i <= total,
                total == w * h,
                w == room_width,
                h == room_height,
                room_width == header.room_width * CELL_SIZE,
                room_height == header.room_height * CELL_SIZE,
                self.cells@.len() == total,
                orig.len() == total,
                views(self.cells@) == classify_upto(orig, w, h, i as int),
                self.room_id == header.room_id,
                self.area_index == header.area_index,
                self.room_index == header.room_index,
                self.map_x == header.map_x,
                self.map_y == header.map_y,
                self.room_width == header.room_width,
                self.room_height == header.room_height,
                self.up_scroll == header.up_scroll,
                self.down_scroll == header.down_scroll,
                self.special_graphics_bitflag == header.special_graphics_bitflag,
                self.door_out_pointer == header.door_out_pointer,
                self.unk3 == header.unk3,
                self.unk4 == header.unk4,
                self.unk5 == header.unk5,
                self.unk6 == header.unk6,
                self.unk7 == header.unk7,
            decreases total - i,
        {
            let ghost pre = views(self.cells@);
            proof {
                assert(pre[i as int] == self.cells@[i as int]@);
            }
            let active = self.cells[i].block_type == BlockType::Slope && self.cells[
                i
            ].get_slope_type() != SlopeType::Square;
            if !active {
                proof {
                    assert(!slope_active(pre[i as int]));
                    assert(classify_upto(orig, w, h, i + 1) == pre);
                }
                i += 1;
                continue ;
            }

            let slope_flip = self.cells[i].get_slope_flip();
            let own = if slope_flip == Flip::NoFlip || slope_flip == Flip::Both {
                TreatAsSlopeType::SlopeLeft
            } else {
                TreatAsSlopeType::SlopeRight
            };
            self.cells[i].treat_as_slope = own;
            let ghost s1 = pre.update(i as int, with_treat(pre[i as int], own_treat(spec_slope_flip(pre[i as int]))));
            proof {
                assert(views(self.cells@) =~= s1);
            }

            let mut neighbors = get_neighbors(i, room_width, room_height);
            match slope_flip {
                Flip::NoFlip => {},
                Flip::Horizontal => {
                    let tmp = neighbors.left;
                    neighbors.left = neighbors.right;
                    neighbors.right = tmp;
                },
                Flip::Vertical => {
                    let tmp = neighbors.up;
                    neighbors.up = neighbors.down;
                    neighbors.down = tmp;
                },
                Flip::Both => {
                    let tmp = neighbors.left;
                    neighbors.left = neighbors.right;
                    neighbors.right = tmp;
                    let tmp2 = neighbors.up;
                    neighbors.up = neighbors.down;
                    neighbors.down = tmp2;
                },
            }
            proof {
                lemma_neighbors_in_bounds(i as int, w, h);
                let f = spec_slope_flip(pre[i as int]);
                assert(neighbors.right matches Some(r0) ==> logical_right(i as int, w, f)
                    == Some(r0 as int));
                assert(neighbors.right is None ==> logical_right(i as int, w, f) is None);
            }

            if let Some(right) = neighbors.right {
                if self.cells[right].is_square() {
                    let rn = get_neighbors(right, room_width, room_height);
                    proof {
                        lemma_neighbors_in_bounds(right as int, w, h);
                    }
                    let both_square = match (rn.up, rn.down) {
                        (Some(u), Some(d)) => self.cells[u].is_square() && self.cells[
                            d
                        ].is_square(),
                        _ => false,
                    };
                    if both_square {
                        self.cells[right].treat_as_slope = TreatAsSlopeType::Solid;
                        proof {
                            assert(right_revision(s1, w, h, i as int, right as int) == Some(
                                TreatAsSlopeType::Solid,
                            ));
                            assert(views(self.cells@) =~= classify_step(pre, w, h, i as int));
                        }
                    } else {
                        match (rn.left, rn.right) {
                            (Some(l), Some(rr)) => {
                                let t = if l == i {
                                    TreatAsSlopeType::SlopeProtectPosX
                                } else if rr == i {
                                    TreatAsSlopeType::SlopeProtectNegX
                                } else {
                                    TreatAsSlopeType::Solid
                                };
                                self.cells[right].treat_as_slope = t;
                                proof {
                                    assert(right_revision(s1, w, h, i as int, right as int)
                                        == Some(t));
                                    assert(views(self.cells@) =~= classify_step(
                                        pre,
                                        w,
                                        h,
                                        i as int,
                                    ));
                                }
                            },
                            _ => {
                                proof {
                                    assert(right_revision(s1, w, h, i as int, right as int)
                                        is None);
                                    assert(views(self.cells@) =~= classify_step(
                                        pre,
                                        w,
                                        h,
                                        i as int,
                                    ));
                                }
                            },
                        }
                    }
                } else {
                    proof {
                        assert(views(self.cells@) =~= classify_step(pre, w, h, i as int));
                    }
                }
            } else {
                proof {
                    assert(views(self.cells@) =~= classify_step(pre, w, h, i as int));
                }
            }
            proof {
                assert(views(self.cells@) == classify_upto(orig, w, h, i + 1));
            }
            i += 1;
        }
    }
}

} // verus!
