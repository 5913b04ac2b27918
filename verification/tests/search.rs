use reversi::board::{Board, PlayerColor};
use reversi::evaluation::evaluate_board;
use reversi::minimax::{find_best_move, find_best_move_with_time_limit, minimax};

/// Reference search: plain minimax without any pruning.
fn plain_minimax(board: &Board, depth: u8, maximizing: bool, player: PlayerColor) -> i32 {
    if depth == 0 || board.is_game_over() {
        return evaluate_board(board, player);
    }
    let side = if maximizing { player } else { player.opposite() };
    let moves = board.get_valid_moves_list(side);
    if moves.is_empty() {
        return plain_minimax(board, depth - 1, !maximizing, player);
    }
    let mut best = if maximizing { i32::MIN } else { i32::MAX };
    for m in moves {
        let mut nb = *board;
        nb.make_move(m.position, side);
        let v = plain_minimax(&nb, depth - 1, !maximizing, player);
        if maximizing {
            best = best.max(v);
        } else {
            best = best.min(v);
        }
    }
    best
}

/// Reference selection: first-seen maximum over the move list.
fn plain_best(board: &Board, depth: u8, player: PlayerColor) -> Option<(u8, i32)> {
    let moves = board.get_valid_moves_list(player);
    let mut best: Option<(u8, i32)> = None;
    for m in moves {
        let mut nb = *board;
        nb.make_move(m.position, player);
        let v = plain_minimax(&nb, depth - 1, false, player);
        match best {
            None => best = Some((m.position, v)),
            Some((_, bv)) if v > bv => best = Some((m.position, v)),
            _ => {}
        }
    }
    best
}

fn test_positions() -> Vec<Board> {
    let mut boards = vec![Board::new()];
    // a few positions from a deterministic playout
    let mut b = Board::new();
    let mut player = PlayerColor::Black;
    for _ in 0..6 {
        if !b.has_valid_moves(player) {
            player = player.opposite();
        }
        let mv = b.get_valid_moves_list(player)[0];
        b.make_move(mv.position, player);
        player = player.opposite();
        boards.push(b);
    }
    // a position with a forced pass
    boards.push(Board { black: 2, white: 1 });
    boards
}

#[test]
fn depth_zero_is_the_static_score() {
    for b in test_positions() {
        for player in [PlayerColor::Black, PlayerColor::White] {
            assert_eq!(
                minimax(&b, 0, i32::MIN, i32::MAX, true, player),
                evaluate_board(&b, player)
            );
        }
    }
}

#[test]
fn pruned_search_equals_exhaustive_search() {
    for b in test_positions() {
        for depth in 1..=3u8 {
            for player in [PlayerColor::Black, PlayerColor::White] {
                assert_eq!(
                    minimax(&b, depth, i32::MIN, i32::MAX, true, player),
                    plain_minimax(&b, depth, true, player),
                );
            }
        }
    }
}

#[test]
fn best_move_matches_exhaustive_first_max() {
    for b in test_positions() {
        for depth in 1..=3u8 {
            for player in [PlayerColor::Black, PlayerColor::White] {
                let r = find_best_move(&b, depth, player);
                match plain_best(&b, depth, player) {
                    None => {
                        assert_eq!(r.best_move, None);
                        assert!(!r.completed);
                    }
                    Some((pos, v)) => {
                        assert_eq!(r.best_move.map(|m| m.position), Some(pos));
                        assert_eq!(r.evaluation, v);
                        assert_eq!(r.depth_reached, depth);
                        assert!(r.completed);
                        assert_eq!(r.nodes_evaluated, 0);
                    }
                }
            }
        }
    }
}

#[test]
fn search_without_moves_returns_the_empty_result() {
    let b = Board { black: 1, white: 0 };
    let r = find_best_move(&b, 3, PlayerColor::White);
    assert_eq!(r.best_move, None);
    assert_eq!(r.evaluation, 0);
    assert_eq!(r.depth_reached, 0);
    assert!(!r.completed);
}

#[test]
fn generous_time_limit_reaches_the_full_depth() {
    let b = Board::new();
    let r = find_best_move_with_time_limit(&b, 1_000_000, 3, PlayerColor::Black);
    assert_eq!(r.depth_reached, 3);
    assert!(r.completed);
    let fixed = find_best_move(&b, 3, PlayerColor::Black);
    assert_eq!(r.best_move, fixed.best_move);
    assert_eq!(r.evaluation, fixed.evaluation);
}

#[test]
fn zero_depth_budget_finds_nothing() {
    let b = Board::new();
    let r = find_best_move_with_time_limit(&b, 1_000_000, 0, PlayerColor::Black);
    assert_eq!(r.best_move, None);
    assert_eq!(r.depth_reached, 0);
    assert!(!r.completed);
}
