use roomgrid::Room;

fn room_bytes(width_blocks: u8, height_blocks: u8) -> Vec<u8> {
    let wt = width_blocks as usize * 16;
    let ht = height_blocks as usize * 16;
    let total = wt * ht;
    let mut b = vec![0u8; 15 + 3 * total];
    b[4] = width_blocks;
    b[5] = height_blocks;
    b
}

fn set_type_hi(b: &mut Vec<u8>, i: usize, hi: u8) {
    b[15 + 2 * i + 1] = hi;
}

fn set_bts(b: &mut Vec<u8>, total: usize, i: usize, v: u8) {
    b[15 + 2 * total + i] = v;
}

fn px(bytes: &[u8], w: u32, x: u32, y: u32) -> [u8; 4] {
    let i = ((y * w + x) * 4) as usize;
    [bytes[i], bytes[i + 1], bytes[i + 2], bytes[i + 3]]
}

const GREEN: [u8; 4] = [0, 255, 0, 255];
const CLEAR: [u8; 4] = [0, 0, 0, 0];

#[test]
fn render_air_room_outline_only() {
    let b = room_bytes(1, 1);
    let room = Room::from_bytes(&b).unwrap();
    let img = room.render_image();
    assert_eq!(img.width(), 256);
    assert_eq!(img.height(), 256);
    let raw = img.to_bytes();
    assert_eq!(raw.len(), 4 * 256 * 256);
    // one-pixel room outline in green, nothing inside
    assert_eq!(px(&raw, 256, 0, 0), GREEN);
    assert_eq!(px(&raw, 256, 255, 255), GREEN);
    assert_eq!(px(&raw, 256, 100, 0), GREEN);
    assert_eq!(px(&raw, 256, 5, 5), CLEAR);
    assert_eq!(px(&raw, 256, 128, 128), CLEAR);
}

#[test]
fn render_solid_cell_filled_green() {
    let mut b = room_bytes(1, 1);
    set_type_hi(&mut b, 0, 0x80);
    let room = Room::from_bytes(&b).unwrap();
    let raw = room.render_image().to_bytes();
    // the solid tile at the origin covers pixels 0..16 in both directions
    assert_eq!(px(&raw, 256, 4, 4), GREEN);
    assert_eq!(px(&raw, 256, 15, 15), GREEN);
    assert_eq!(px(&raw, 256, 20, 20), CLEAR);
}

#[test]
fn render_square_slope_draws_polygon() {
    // a Square slope keeps classification Solid, so its polygon is drawn in
    // green and survives the cleanup pass untouched
    let mut b = room_bytes(1, 1);
    set_type_hi(&mut b, 0, 0x10);
    set_bts(&mut b, 256, 0, 0x13);
    let room = Room::from_bytes(&b).unwrap();
    let raw = room.render_image().to_bytes();
    assert_eq!(px(&raw, 256, 8, 8), GREEN);
    assert_eq!(px(&raw, 256, 2, 13), GREEN);
    assert_eq!(px(&raw, 256, 30, 30), CLEAR);
}

#[test]
fn render_protected_edge_drawn_green() {
    // the SlopeProtectPosX neighbor of a slope gets a green line on its
    // positive-x edge; green pixels survive the cleanup pass
    let mut b = room_bytes(1, 1);
    set_type_hi(&mut b, 17, 0x10);
    set_bts(&mut b, 256, 17, 0x12);
    set_type_hi(&mut b, 18, 0x80);
    let room = Room::from_bytes(&b).unwrap();
    assert_eq!(
        room.cells[18].treat_as_slope,
        roomgrid::TreatAsSlopeType::SlopeProtectPosX
    );
    let raw = room.render_image().to_bytes();
    // cell (2,1) spans pixels 32..48 by 16..32; its right edge column is 47
    assert_eq!(px(&raw, 256, 47, 24), GREEN);
    assert_eq!(px(&raw, 256, 47, 16), GREEN);
}

#[test]
fn render_cleanup_erodes_lone_slope() {
    // a lone Slope45 tile is drawn in yellow, and the cleanup pass clears its
    // pixels next to transparent neighbors round by round
    let mut b = room_bytes(1, 1);
    set_type_hi(&mut b, 0, 0x10);
    set_bts(&mut b, 256, 0, 0x12);
    let room = Room::from_bytes(&b).unwrap();
    let raw = room.render_image().to_bytes();
    const YELLOW: [u8; 4] = [255, 255, 0, 255];
    // deep inside the surviving bottom run of the triangle
    assert_eq!(px(&raw, 256, 3, 15), YELLOW);
    // eroded: its left neighbor starts transparent
    assert_eq!(px(&raw, 256, 1, 14), CLEAR);
    // eroded from the right edge of the triangle
    assert_eq!(px(&raw, 256, 15, 15), CLEAR);
}
