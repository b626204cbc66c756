use roomgrid::{AreaIndex, BlockType, DecodeError, Flip, Room, SlopeType, TreatAsSlopeType, Vector};
use roomgrid::{Point, get_neighbors};

fn room_bytes(width_blocks: u8, height_blocks: u8) -> Vec<u8> {
    let wt = width_blocks as usize * 16;
    let ht = height_blocks as usize * 16;
    let total = wt * ht;
    let mut b = vec![0u8; 15 + 3 * total];
    b[4] = width_blocks;
    b[5] = height_blocks;
    b
}

fn set_type_hi(b: &mut Vec<u8>, i: usize, hi: u8) {
    b[15 + 2 * i + 1] = hi;
}

fn set_bts(b: &mut Vec<u8>, total: usize, i: usize, v: u8) {
    b[15 + 2 * total + i] = v;
}

#[test]
fn decode_air_room_defaults() {
    let b = room_bytes(1, 1);
    let room = Room::from_bytes(&b).unwrap();
    assert_eq!(room.get_room_width_tiles(), 16);
    assert_eq!(room.get_room_height_tiles(), 16);
    assert_eq!(room.cells.len(), 256);
    for c in &room.cells {
        assert_eq!(c.block_type, BlockType::Air);
        assert_eq!(c.treat_as_slope, TreatAsSlopeType::Solid);
        assert_eq!(c.flip, Flip::NoFlip);
        assert_eq!(c.bts, 0);
        assert!(c.slope_vectors.is_empty());
    }
}

#[test]
fn decode_header_fields() {
    let mut b = room_bytes(1, 1);
    b[0] = 3;
    b[1] = 42;
    b[2] = 7;
    b[3] = 8;
    b[6] = 0x90;
    b[7] = 0xA0;
    b[8] = 0x01;
    b[9] = 0x02;
    b[10] = 10;
    b[11] = 11;
    b[12] = 12;
    b[13] = 13;
    b[14] = 14;
    let room = Room::from_bytes(&b).unwrap();
    assert_eq!(room.area_index, AreaIndex::WreckedShip);
    assert_eq!(room.room_index, 42);
    assert_eq!(room.map_x, 7);
    assert_eq!(room.map_y, 8);
    assert_eq!(room.room_width, 1);
    assert_eq!(room.room_height, 1);
    assert_eq!(room.up_scroll, 0x90);
    assert_eq!(room.down_scroll, 0xA0);
    assert_eq!(room.special_graphics_bitflag, 0x01);
    assert_eq!(room.door_out_pointer, 0x02);
    assert_eq!(room.unk3, 10);
    assert_eq!(room.unk7, 14);
    assert_eq!(room.room_id, "");
}

#[test]
fn decode_area_index_fallback() {
    let mut b = room_bytes(1, 1);
    b[0] = 9;
    let room = Room::from_bytes(&b).unwrap();
    assert_eq!(room.area_index, AreaIndex::Crateria);
}

#[test]
fn decode_too_short_header() {
    let b = vec![0u8; 10];
    assert_eq!(Room::from_bytes(&b).err(), Some(DecodeError::TooShort));
}

#[test]
fn decode_too_short_grid() {
    let mut b = room_bytes(1, 1);
    b.truncate(100);
    assert_eq!(Room::from_bytes(&b).err(), Some(DecodeError::TooShort));
}

#[test]
fn decode_trailer_ignored() {
    let b1 = room_bytes(1, 1);
    let mut b2 = b1.clone();
    b2.extend_from_slice(&[0xAA, 0xBB, 0xCC, 0xDD, 0xEE]);
    let r1 = Room::from_bytes(&b1).unwrap();
    let r2 = Room::from_bytes(&b2).unwrap();
    assert_eq!(r1.cells, r2.cells);
}

#[test]
fn decode_block_type_and_flip_bits() {
    let mut b = room_bytes(1, 1);
    set_type_hi(&mut b, 0, 0x80);
    set_type_hi(&mut b, 1, 0xF0);
    set_type_hi(&mut b, 2, 0x1C);
    let room = Room::from_bytes(&b).unwrap();
    assert_eq!(room.cells[0].block_type, BlockType::Solid);
    assert_eq!(room.cells[1].block_type, BlockType::Bomb);
    assert_eq!(room.cells[2].block_type, BlockType::Slope);
    assert_eq!(room.cells[2].flip, Flip::Both);
}

#[test]
fn decode_grid_coordinates() {
    let b = room_bytes(1, 1);
    let room = Room::from_bytes(&b).unwrap();
    assert_eq!(room.cells[0].x, 0);
    assert_eq!(room.cells[0].y, 0);
    assert_eq!(room.cells[17].x, 1);
    assert_eq!(room.cells[17].y, 1);
    assert_eq!(room.cells[255].x, 15);
    assert_eq!(room.cells[255].y, 15);
}

#[test]
fn slope_cell_bts_slope45() {
    // BTS 0x12: bits 0-4 select Slope45, bits 6-7 give flip NoFlip
    let mut b = room_bytes(1, 1);
    set_type_hi(&mut b, 0, 0x10);
    set_bts(&mut b, 256, 0, 0x12);
    let room = Room::from_bytes(&b).unwrap();
    let c = &room.cells[0];
    assert_eq!(c.block_type, BlockType::Slope);
    assert_eq!(c.get_slope_type(), SlopeType::Slope45);
    assert_eq!(c.get_slope_flip(), Flip::NoFlip);
    assert_eq!(c.treat_as_slope, TreatAsSlopeType::SlopeLeft);
}

#[test]
fn slope_cell_vectors_copied() {
    let mut b = room_bytes(1, 1);
    set_type_hi(&mut b, 0, 0x10);
    set_bts(&mut b, 256, 0, 0x12);
    let room = Room::from_bytes(&b).unwrap();
    let expected = vec![Vector {
        start: Point { x: 0, y: 16 },
        end: Point { x: 16, y: 0 },
    }];
    assert_eq!(room.cells[0].slope_vectors, expected);
}

#[test]
fn slope_flip_from_bts_bits() {
    let mut b = room_bytes(1, 1);
    set_type_hi(&mut b, 0, 0x10);
    set_bts(&mut b, 256, 0, 0x12 | 0x80);
    let room = Room::from_bytes(&b).unwrap();
    assert_eq!(room.cells[0].get_slope_flip(), Flip::Vertical);
    assert_eq!(room.cells[0].get_slope_type(), SlopeType::Slope45);
    // flip Vertical classifies the slope cell itself as SlopeRight
    assert_eq!(room.cells[0].treat_as_slope, TreatAsSlopeType::SlopeRight);
}

#[test]
fn classify_enclosed_right_neighbor_solid() {
    // Slope45 at (1,1); its Solid right neighbor has square cells above and
    // below, so it is fully enclosed and reclassified Solid.
    let mut b = room_bytes(1, 1);
    set_type_hi(&mut b, 17, 0x10);
    set_bts(&mut b, 256, 17, 0x12);
    set_type_hi(&mut b, 18, 0x80);
    set_type_hi(&mut b, 2, 0x80);
    set_type_hi(&mut b, 34, 0x80);
    let room = Room::from_bytes(&b).unwrap();
    assert_eq!(room.cells[17].treat_as_slope, TreatAsSlopeType::SlopeLeft);
    assert_eq!(room.cells[18].treat_as_slope, TreatAsSlopeType::Solid);
}

#[test]
fn classify_protect_pos_x() {
    // Slope45 at (1,1); its Solid right neighbor is not enclosed above and
    // below, and its left neighbor is the slope itself.
    let mut b = room_bytes(1, 1);
    set_type_hi(&mut b, 17, 0x10);
    set_bts(&mut b, 256, 17, 0x12);
    set_type_hi(&mut b, 18, 0x80);
    let room = Room::from_bytes(&b).unwrap();
    assert_eq!(room.cells[17].treat_as_slope, TreatAsSlopeType::SlopeLeft);
    assert_eq!(
        room.cells[18].treat_as_slope,
        TreatAsSlopeType::SlopeProtectPosX
    );
}

#[test]
fn classify_protect_neg_x() {
    // A horizontally flipped slope treats its physical left neighbor as the
    // logical right one; that neighbor sees the slope on its physical right.
    let mut b = room_bytes(1, 1);
    set_type_hi(&mut b, 18, 0x10);
    set_bts(&mut b, 256, 18, 0x12 | 0x40);
    set_type_hi(&mut b, 17, 0x80);
    let room = Room::from_bytes(&b).unwrap();
    assert_eq!(room.cells[18].treat_as_slope, TreatAsSlopeType::SlopeRight);
    assert_eq!(
        room.cells[17].treat_as_slope,
        TreatAsSlopeType::SlopeProtectNegX
    );
}

#[test]
fn classify_skips_square_slopes() {
    let mut b = room_bytes(1, 1);
    set_type_hi(&mut b, 17, 0x10);
    set_bts(&mut b, 256, 17, 0x13);
    set_type_hi(&mut b, 18, 0x80);
    let room = Room::from_bytes(&b).unwrap();
    assert_eq!(room.cells[17].treat_as_slope, TreatAsSlopeType::Solid);
    assert_eq!(room.cells[18].treat_as_slope, TreatAsSlopeType::Solid);
}

#[test]
fn decode_deterministic() {
    let mut b = room_bytes(1, 1);
    set_type_hi(&mut b, 17, 0x10);
    set_bts(&mut b, 256, 17, 0x12);
    set_type_hi(&mut b, 18, 0x80);
    let r1 = Room::from_bytes(&b).unwrap();
    let r2 = Room::from_bytes(&b).unwrap();
    assert_eq!(r1.cells, r2.cells);
}

#[test]
fn neighbors_interior_cell() {
    let n = get_neighbors(17, 16, 16);
    assert_eq!(n.left, Some(16));
    assert_eq!(n.right, Some(18));
    assert_eq!(n.up, Some(1));
    assert_eq!(n.down, Some(33));
}

#[test]
fn neighbors_corner_cells() {
    let n = get_neighbors(0, 16, 16);
    assert_eq!(n.left, None);
    assert_eq!(n.right, Some(1));
    assert_eq!(n.up, None);
    assert_eq!(n.down, Some(16));
    let n = get_neighbors(255, 16, 16);
    assert_eq!(n.left, Some(254));
    assert_eq!(n.right, None);
    assert_eq!(n.up, Some(239));
    assert_eq!(n.down, None);
}

#[test]
fn is_square_variants() {
    let mut c = roomgrid::Cell::new();
    assert!(!c.is_square());
    c.block_type = BlockType::Solid;
    assert!(c.is_square());
    c.block_type = BlockType::Slope;
    c.bts = 0x13;
    assert!(c.is_square());
    c.bts = 0x08;
    assert!(c.is_square());
    c.bts = 0x12;
    assert!(!c.is_square());
}
