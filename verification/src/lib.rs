pub mod catalog;
pub mod classify;
pub mod constants;
pub mod render;
pub mod room;
pub mod shapes;
pub mod types;
pub mod vectors;

pub use catalog::{polygon_for, spec_polygon_for, spec_vectors_for, vectors_for};
pub use classify::{classify_all, classify_step, classify_upto, lemma_classify_preserves_shape, views};
pub use constants::{BTS_SLOPE_FLIP_MASK, BTS_SLOPE_TYPE_MASK, CELL_SIZE};
pub use render::{Px, RoomImage, cleanup_iter, color_of, img_height, img_pixels, img_width, lemma_render_outline_only, spec_render};
pub use room::{DecodeError, Room, decode_ok, lemma_decode_deterministic, spec_raw_cells, spec_room_cells, spec_total_cells};
pub use shapes::{Point, Polygon, lemma_mirror_x_involutive, lemma_mirror_y_involutive, lemma_symmetrize_bounded, lemma_symmetrize_symmetric, spec_mirror_x, spec_mirror_y, spec_symmetrize};
pub use types::{
    AreaIndex, BlockType, Cell, CellNeighbors, CellV, Flip, SlopeType, TreatAsSlopeType,
    get_neighbors,
};
pub use vectors::Vector;
