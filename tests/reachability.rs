use shogi_board::{reachable_squares, Board, Piece, PieceType};

fn sorted(mut v: Vec<(usize, usize)>) -> Vec<(usize, usize)> {
    v.sort();
    v
}

fn lone(kind: PieceType, side: bool, square: (usize, usize)) -> Board {
    let mut b = Board::empty();
    b.set(square, Some(Piece { kind, side }));
    b
}

#[test]
fn empty_square_reaches_nothing() {
    let b = Board::starting();
    for rank in 3..6 {
        for file in 0..9 {
            assert!(reachable_squares(&b, (file, rank)).is_empty());
        }
    }
    assert!(reachable_squares(&Board::empty(), (0, 0)).is_empty());
}

#[test]
fn starting_rook_is_blocked_along_its_file() {
    // The rook of side false stands on file 1, rank 1: its own knight is
    // behind it and its own pawn in front, so it moves only along rank 1, up
    // to its own bishop on file 7.
    let b = Board::starting();
    let r = sorted(reachable_squares(&b, (1, 1)));
    assert_eq!(r, vec![(0, 1), (2, 1), (3, 1), (4, 1), (5, 1), (6, 1)]);
    assert!(r.iter().all(|&(f, _)| f != 1));
    let r = sorted(reachable_squares(&b, (7, 7)));
    assert_eq!(r, vec![(2, 7), (3, 7), (4, 7), (5, 7), (6, 7), (8, 7)]);
}

#[test]
fn rook_boxed_in_by_own_pieces_reaches_nothing() {
    let mut b = lone(PieceType::Rook, false, (1, 1));
    for sq in [(0, 1), (2, 1), (1, 0), (1, 2)] {
        b.set(sq, Some(Piece { kind: PieceType::Pawn, side: false }));
    }
    assert!(reachable_squares(&b, (1, 1)).is_empty());
}

#[test]
fn starting_bishops_are_blocked() {
    let b = Board::starting();
    assert!(reachable_squares(&b, (7, 1)).is_empty());
    assert!(reachable_squares(&b, (1, 7)).is_empty());
}

#[test]
fn lone_king_in_centre_reaches_eight_squares() {
    let b = lone(PieceType::King, true, (4, 4));
    let r = sorted(reachable_squares(&b, (4, 4)));
    assert_eq!(
        r,
        vec![(3, 3), (3, 4), (3, 5), (4, 3), (4, 5), (5, 3), (5, 4), (5, 5)]
    );
    let b = lone(PieceType::King, false, (4, 4));
    assert_eq!(sorted(reachable_squares(&b, (4, 4))).len(), 8);
}

#[test]
fn king_in_corner_is_clipped() {
    let b = lone(PieceType::King, false, (0, 0));
    assert_eq!(sorted(reachable_squares(&b, (0, 0))), vec![(0, 1), (1, 0), (1, 1)]);
}

#[test]
fn lance_facing_the_edge_reaches_nothing() {
    let b = lone(PieceType::Lance, true, (3, 0));
    assert!(reachable_squares(&b, (3, 0)).is_empty());
    let b = lone(PieceType::Lance, false, (3, 8));
    assert!(reachable_squares(&b, (3, 8)).is_empty());
}

#[test]
fn lance_slides_forward_to_the_edge() {
    let b = lone(PieceType::Lance, true, (3, 4));
    assert_eq!(reachable_squares(&b, (3, 4)), vec![(3, 3), (3, 2), (3, 1), (3, 0)]);
    let b = lone(PieceType::Lance, false, (3, 4));
    assert_eq!(reachable_squares(&b, (3, 4)), vec![(3, 5), (3, 6), (3, 7), (3, 8)]);
}

#[test]
fn knight_jumps_two_forward() {
    let b = lone(PieceType::Knight, true, (4, 4));
    assert_eq!(sorted(reachable_squares(&b, (4, 4))), vec![(3, 2), (5, 2)]);
    let b = lone(PieceType::Knight, false, (4, 4));
    assert_eq!(sorted(reachable_squares(&b, (4, 4))), vec![(3, 6), (5, 6)]);
}

#[test]
fn knight_jumps_over_pieces() {
    let mut b = lone(PieceType::Knight, true, (4, 4));
    b.set((4, 3), Some(Piece { kind: PieceType::Pawn, side: true }));
    b.set((3, 3), Some(Piece { kind: PieceType::Pawn, side: true }));
    b.set((5, 2), Some(Piece { kind: PieceType::Pawn, side: false }));
    b.set((3, 2), Some(Piece { kind: PieceType::Pawn, side: true }));
    assert_eq!(reachable_squares(&b, (4, 4)), vec![(5, 2)]);
}

#[test]
fn knight_near_edge_is_clipped() {
    let b = lone(PieceType::Knight, true, (0, 1));
    assert!(reachable_squares(&b, (0, 1)).is_empty());
    let b = lone(PieceType::Knight, true, (0, 2));
    assert_eq!(reachable_squares(&b, (0, 2)), vec![(1, 0)]);
}

#[test]
fn silver_has_five_directions() {
    let b = lone(PieceType::Silver, true, (4, 4));
    assert_eq!(
        sorted(reachable_squares(&b, (4, 4))),
        vec![(3, 3), (3, 5), (4, 3), (5, 3), (5, 5)]
    );
    let b = lone(PieceType::Silver, false, (4, 4));
    assert_eq!(
        sorted(reachable_squares(&b, (4, 4))),
        vec![(3, 3), (3, 5), (4, 5), (5, 3), (5, 5)]
    );
}

#[test]
fn gold_has_six_directions() {
    let b = lone(PieceType::Gold, true, (4, 4));
    assert_eq!(
        sorted(reachable_squares(&b, (4, 4))),
        vec![(3, 3), (3, 4), (4, 3), (4, 5), (5, 3), (5, 4)]
    );
    let b = lone(PieceType::Gold, false, (4, 4));
    assert_eq!(
        sorted(reachable_squares(&b, (4, 4))),
        vec![(3, 4), (3, 5), (4, 3), (4, 5), (5, 4), (5, 5)]
    );
}

#[test]
fn pawn_steps_forward_once() {
    let b = lone(PieceType::Pawn, true, (2, 6));
    assert_eq!(reachable_squares(&b, (2, 6)), vec![(2, 5)]);
    let b = lone(PieceType::Pawn, false, (2, 2));
    assert_eq!(reachable_squares(&b, (2, 2)), vec![(2, 3)]);
    let b = lone(PieceType::Pawn, true, (2, 0));
    assert!(reachable_squares(&b, (2, 0)).is_empty());
}

#[test]
fn pawn_captures_but_does_not_take_own_piece() {
    let mut b = lone(PieceType::Pawn, true, (2, 6));
    b.set((2, 5), Some(Piece { kind: PieceType::Gold, side: false }));
    assert_eq!(reachable_squares(&b, (2, 6)), vec![(2, 5)]);
    b.set((2, 5), Some(Piece { kind: PieceType::Gold, side: true }));
    assert!(reachable_squares(&b, (2, 6)).is_empty());
}

#[test]
fn starting_pawns_advance_one_square() {
    let b = Board::starting();
    assert_eq!(reachable_squares(&b, (0, 6)), vec![(0, 5)]);
    assert_eq!(reachable_squares(&b, (8, 2)), vec![(8, 3)]);
}

#[test]
fn rook_slides_until_blocked_or_capturing() {
    let mut b = lone(PieceType::Rook, true, (4, 4));
    b.set((4, 1), Some(Piece { kind: PieceType::Pawn, side: false }));
    b.set((6, 4), Some(Piece { kind: PieceType::Pawn, side: true }));
    let r = reachable_squares(&b, (4, 4));
    // Directions in order: towards file 0, towards file 8, towards rank 0,
    // towards rank 8; nearer squares first.
    assert_eq!(
        r,
        vec![
            (3, 4), (2, 4), (1, 4), (0, 4),
            (5, 4),
            (4, 3), (4, 2), (4, 1),
            (4, 5), (4, 6), (4, 7), (4, 8),
        ]
    );
}

#[test]
fn bishop_slides_along_diagonals() {
    let mut b = lone(PieceType::Bishop, false, (2, 2));
    b.set((4, 4), Some(Piece { kind: PieceType::Rook, side: true }));
    b.set((1, 1), Some(Piece { kind: PieceType::Pawn, side: false }));
    let r = sorted(reachable_squares(&b, (2, 2)));
    assert_eq!(r, vec![(0, 4), (1, 3), (3, 1), (3, 3), (4, 0), (4, 4)]);
}

#[test]
fn sliding_ray_is_a_prefix_ending_at_first_piece() {
    let mut b = lone(PieceType::Lance, false, (5, 0));
    b.set((5, 4), Some(Piece { kind: PieceType::Knight, side: true }));
    assert_eq!(reachable_squares(&b, (5, 0)), vec![(5, 1), (5, 2), (5, 3), (5, 4)]);
    b.set((5, 4), Some(Piece { kind: PieceType::Knight, side: false }));
    assert_eq!(reachable_squares(&b, (5, 0)), vec![(5, 1), (5, 2), (5, 3)]);
    b.set((5, 1), Some(Piece { kind: PieceType::Knight, side: true }));
    assert_eq!(reachable_squares(&b, (5, 0)), vec![(5, 1)]);
}

#[test]
fn single_steps_never_land_on_own_piece_or_off_board() {
    let b = Board::starting();
    for rank in 0..9 {
        for file in 0..9 {
            if let Some(p) = b.at((file, rank)) {
                for (f, r) in reachable_squares(&b, (file, rank)) {
                    assert!(f <= 8 && r <= 8);
                    if let Some(q) = b.at((f, r)) {
                        assert_ne!(q.side, p.side);
                    }
                }
            }
        }
    }
}

#[test]
fn asking_twice_gives_the_same_answer() {
    let b = Board::starting();
    for rank in 0..9 {
        for file in 0..9 {
            assert_eq!(reachable_squares(&b, (file, rank)), reachable_squares(&b, (file, rank)));
        }
    }
    let b = lone(PieceType::Rook, true, (4, 4));
    assert_eq!(reachable_squares(&b, (4, 4)), reachable_squares(&b, (4, 4)));
}
