use reversi::board::{Board, PlayerColor};
use reversi::evaluation::{evaluate_board, evaluate_corners, evaluate_mobility,
    evaluate_parity, evaluate_positional, evaluate_stability, EvaluationWeights};

#[test]
fn stage_weight_table() {
    for n in [0u32, 10, 20] {
        let w = EvaluationWeights::for_stage(n);
        assert_eq!(
            (w.corner, w.stability, w.mobility, w.positional, w.parity),
            (8, 6, 10, 8, 2)
        );
    }
    for n in [21u32, 30, 45] {
        let w = EvaluationWeights::for_stage(n);
        assert_eq!(
            (w.corner, w.stability, w.mobility, w.positional, w.parity),
            (10, 8, 6, 6, 4)
        );
    }
    for n in [46u32, 60, 64] {
        let w = EvaluationWeights::for_stage(n);
        assert_eq!(
            (w.corner, w.stability, w.mobility, w.positional, w.parity),
            (10, 10, 2, 4, 8)
        );
    }
}

#[test]
fn start_board_sub_scores() {
    let b = Board::new();
    for player in [PlayerColor::Black, PlayerColor::White] {
        assert_eq!(evaluate_corners(&b, player), 0);
        assert_eq!(evaluate_stability(&b, player), 0);
        assert_eq!(evaluate_mobility(&b, player), 0);
        assert_eq!(evaluate_positional(&b, player), 0);
        // 60 empty cells: even
        assert_eq!(evaluate_parity(&b, player), -10);
        // only the parity term contributes: -10 * 0.2 = -2
        assert_eq!(evaluate_board(&b, player), -2);
    }
}

#[test]
fn corner_scores_are_symmetric() {
    let b = Board { black: 1, white: 0 };
    assert_eq!(evaluate_corners(&b, PlayerColor::Black), 100);
    assert_eq!(evaluate_corners(&b, PlayerColor::White), -100);
    let both = Board { black: 1, white: 1u64 << 63 };
    assert_eq!(evaluate_corners(&both, PlayerColor::Black), 0);
    assert_eq!(evaluate_corners(&both, PlayerColor::White), 0);
}

#[test]
fn stability_counts_own_border_discs_only() {
    let corner = Board { black: 1, white: 0 };
    assert_eq!(evaluate_stability(&corner, PlayerColor::Black), 50);
    // opponent border discs do not subtract
    assert_eq!(evaluate_stability(&corner, PlayerColor::White), 0);
    let interior = Board { black: 1u64 << 27, white: 0 };
    assert_eq!(evaluate_stability(&interior, PlayerColor::Black), 0);
}

#[test]
fn positional_uses_the_weight_table() {
    let corner = Board { black: 1, white: 0 };
    assert_eq!(evaluate_positional(&corner, PlayerColor::Black), 100);
    assert_eq!(evaluate_positional(&corner, PlayerColor::White), -100);
    // cell (0,1) is corner-adjacent: -20
    let x = Board { black: 2, white: 0 };
    assert_eq!(evaluate_positional(&x, PlayerColor::Black), -20);
    // cell (1,1) is the diagonal corner neighbour: -50
    let y = Board { black: 1u64 << 9, white: 0 };
    assert_eq!(evaluate_positional(&y, PlayerColor::Black), -50);
    // interior cell (3,3): -1
    let z = Board { black: 1u64 << 27, white: 0 };
    assert_eq!(evaluate_positional(&z, PlayerColor::Black), -1);
}

#[test]
fn parity_ignores_the_player() {
    let odd = Board { black: 1, white: 0 };
    assert_eq!(evaluate_parity(&odd, PlayerColor::Black), 10);
    assert_eq!(evaluate_parity(&odd, PlayerColor::White), 10);
    let even = Board::new();
    assert_eq!(evaluate_parity(&even, PlayerColor::Black), -10);
    assert_eq!(evaluate_parity(&even, PlayerColor::White), -10);
}

#[test]
fn full_score_combines_weighted_sub_scores() {
    // single black disc in the corner, opening weights
    let b = Board { black: 1, white: 0 };
    // 100*0.8 + 50*0.6 + 0 + 100*0.8 + 10*0.2 = 192
    assert_eq!(evaluate_board(&b, PlayerColor::Black), 192);
    // -100*0.8 + 0 + 0 - 100*0.8 + 10*0.2 = -158
    assert_eq!(evaluate_board(&b, PlayerColor::White), -158);
}

#[test]
fn final_score_truncates_toward_zero() {
    // three interior black discs (cell (1,2) weighs -2, the center cells -1
    // each): positional -4, parity +10 (61 empties), opening weights:
    // -4*0.8 + 10*0.2 = -1.2, truncated to -1
    let b = Board { black: (1u64 << 10) | (1u64 << 27) | (1u64 << 28), white: 0 };
    assert_eq!(evaluate_positional(&b, PlayerColor::Black), -4);
    assert_eq!(evaluate_board(&b, PlayerColor::Black), -1);
    // from white's side: +4*0.8 + 10*0.2 = 5.2, truncated to 5
    assert_eq!(evaluate_board(&b, PlayerColor::White), 5);
}
