//! A 9×9 shogi board: piece catalog, board state, move reachability and a
//! cursor/selection controller, with their behaviour proved by Verus.

mod board;
mod catalog;
mod chessboard;
mod laws;
mod piece;
mod reach;

pub use board::{back_rank_kind, in_bounds, start_cell, start_is_point_symmetric, Board};
pub use catalog::{directions, forward, pattern, range, range_of, sliding_directions_are_unit};
pub use chessboard::{new, next_focus, Chessboard, Command};
pub use laws::{
    path_clear, reachable_depends_only_on_contents, same_contents, sliding_ray_stops_at_first_piece,
    step_square, vacant,
};
pub use piece::{name_of, Piece, PieceType};
pub use reach::{enterable, push_reachable, ray, rays, reachable, reachable_squares};
