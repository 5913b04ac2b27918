use reversi::board::{Board, PlayerColor};

fn assert_start_counts(b: &Board) {
    assert_eq!(b.count_pieces(PlayerColor::Black), 2);
    assert_eq!(b.count_pieces(PlayerColor::White), 2);
}

#[test]
fn start_state_has_central_diamond() {
    let b = Board::new();
    assert_start_counts(&b);
    // black on (3,4) and (4,3); white on (3,3) and (4,4)
    assert_eq!(b.get_piece(28), Some(PlayerColor::Black));
    assert_eq!(b.get_piece(35), Some(PlayerColor::Black));
    assert_eq!(b.get_piece(27), Some(PlayerColor::White));
    assert_eq!(b.get_piece(36), Some(PlayerColor::White));
    let mut empty = 0;
    for pos in 0..64u8 {
        if b.is_empty(pos) {
            empty += 1;
        }
    }
    assert_eq!(empty, 60);
    assert_eq!(b.get_empty_squares(), !(b.black | b.white));
}

#[test]
fn default_is_start_state() {
    let b: Board = Default::default();
    assert_eq!(b.black, Board::new().black);
    assert_eq!(b.white, Board::new().white);
}

#[test]
fn black_has_exactly_four_openings() {
    let b = Board::new();
    let moves = b.get_valid_moves_list(PlayerColor::Black);
    let positions: Vec<u8> = moves.iter().map(|m| m.position).collect();
    assert_eq!(positions, vec![19, 26, 37, 44]);
    assert_eq!(b.get_valid_moves(PlayerColor::Black).count_ones(), 4);
}

#[test]
fn each_opening_flips_exactly_one_disc() {
    let b = Board::new();
    for pos in [19u8, 26, 37, 44] {
        let mut nb = b;
        assert!(nb.make_move(pos, PlayerColor::Black));
        assert_eq!(nb.count_pieces(PlayerColor::Black), 4);
        assert_eq!(nb.count_pieces(PlayerColor::White), 1);
        // placed 1 disc, flipped 4 - 2 - 1 = 1
        assert_eq!(nb.black & nb.white, 0);
    }
}

#[test]
fn make_move_keeps_masks_disjoint_and_adds_one_disc() {
    let mut b = Board::new();
    let mut player = PlayerColor::Black;
    // play a short deterministic sequence, checking the invariant throughout
    for _ in 0..10 {
        if b.is_game_over() {
            break;
        }
        if !b.has_valid_moves(player) {
            player = player.opposite();
            continue;
        }
        let total_before = b.count_pieces(PlayerColor::Black) + b.count_pieces(PlayerColor::White);
        let mv = b.get_valid_moves_list(player)[0];
        assert!(b.make_move(mv.position, player));
        assert_eq!(b.black & b.white, 0);
        let total_after = b.count_pieces(PlayerColor::Black) + b.count_pieces(PlayerColor::White);
        assert_eq!(total_after, total_before + 1);
        player = player.opposite();
    }
}

#[test]
fn illegal_move_rejected_twice_leaves_board_identical() {
    let mut b = Board::new();
    let black0 = b.black;
    let white0 = b.white;
    // empty cell that flips nothing
    assert!(!b.make_move(0, PlayerColor::Black));
    assert_eq!((b.black, b.white), (black0, white0));
    assert!(!b.make_move(0, PlayerColor::Black));
    assert_eq!((b.black, b.white), (black0, white0));
    // occupied cell
    assert!(!b.make_move(27, PlayerColor::Black));
    assert_eq!((b.black, b.white), (black0, white0));
    // out of range
    assert!(!b.make_move(64, PlayerColor::Black));
    assert!(!b.make_move(255, PlayerColor::White));
    assert_eq!((b.black, b.white), (black0, white0));
}

#[test]
fn is_valid_move_matches_move_list() {
    let b = Board::new();
    for player in [PlayerColor::Black, PlayerColor::White] {
        let listed: Vec<u8> =
            b.get_valid_moves_list(player).iter().map(|m| m.position).collect();
        for pos in 0..64u8 {
            assert_eq!(b.is_valid_move(pos, player), listed.contains(&pos));
        }
    }
}

#[test]
fn one_sided_block_is_not_game_over() {
    // black on (0,1), white on the corner (0,0): black cannot capture the
    // cornered white disc, white can capture along the top row
    let b = Board { black: 2, white: 1 };
    assert!(!b.has_valid_moves(PlayerColor::Black));
    assert!(b.has_valid_moves(PlayerColor::White));
    assert!(!b.is_game_over());
    assert_eq!(b.get_winner(), None);
}

#[test]
fn no_moves_for_both_is_game_over() {
    let b = Board { black: 1, white: 0 };
    assert!(!b.has_valid_moves(PlayerColor::Black));
    assert!(!b.has_valid_moves(PlayerColor::White));
    assert!(b.is_game_over());
    assert_eq!(b.get_winner(), Some(PlayerColor::Black));

    let w = Board { black: 0, white: 1 };
    assert!(w.is_game_over());
    assert_eq!(w.get_winner(), Some(PlayerColor::White));
}

#[test]
fn full_board_with_equal_counts_is_a_draw() {
    let b = Board { black: 0x00000000FFFFFFFF, white: 0xFFFFFFFF00000000 };
    assert!(b.is_game_over());
    assert_eq!(b.count_pieces(PlayerColor::Black), 32);
    assert_eq!(b.count_pieces(PlayerColor::White), 32);
    assert_eq!(b.get_winner(), None);
}

#[test]
fn coordinate_conversions_are_inverse() {
    assert_eq!(Board::position_to_coords(19), (2, 3));
    assert_eq!(Board::coords_to_position(2, 3), 19);
    for pos in 0..64u8 {
        let (row, col) = Board::position_to_coords(pos);
        assert_eq!(Board::coords_to_position(row, col), pos);
    }
}

#[test]
fn opposite_is_an_involution() {
    assert_eq!(PlayerColor::Black.opposite(), PlayerColor::White);
    assert_eq!(PlayerColor::White.opposite(), PlayerColor::Black);
    for c in [PlayerColor::Black, PlayerColor::White] {
        assert_eq!(c.opposite().opposite(), c);
    }
}
