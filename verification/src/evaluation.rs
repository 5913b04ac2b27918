//! Static position scoring.
//!
//! Five sub-scores (corners, border stability, mobility, a per-cell weight
//! table, and empty-cell parity) are combined with stage-dependent weights.
//! Weights are kept in tenths, so the weighted sum is an exact integer; the
//! final score is that sum divided by ten, truncated toward zero.

use vstd::prelude::*;
use crate::bits::{bit64, count_bits, popcount64};
use crate::bits::lemma_count_nonneg;
use crate::board::{Board, PlayerColor, own_mask, opp_mask, piece_at};
use crate::rules::valid_mask;

verus! {

/// Stage-dependent multipliers for the five sub-scores, in tenths.
#[derive(Clone, Copy, Debug, PartialEq, Eq, Structural)]
pub struct EvaluationWeights {
    pub corner: i32,
    pub stability: i32,
    pub mobility: i32,
    pub positional: i32,
    pub parity: i32,
}

/// The weights for a board holding `discs` discs in total: opening up to 20
/// discs, midgame up to 45, endgame beyond.
pub open spec fn weights_for_stage(discs: int) -> EvaluationWeights {
    if discs <= 20 {
        EvaluationWeights { corner: 8, stability: 6, mobility: 10, positional: 8, parity: 2 }
    } else if discs <= 45 {
        EvaluationWeights { corner: 10, stability: 8, mobility: 6, positional: 6, parity: 4 }
    } else {
        EvaluationWeights { corner: 10, stability: 10, mobility: 2, positional: 4, parity: 8 }
    }
}

impl EvaluationWeights {
    pub fn for_stage(move_number: u32) -> (r: Self)
        ensures
            r == weights_for_stage(move_number as int),
    {
        if move_number <= 20 {
            Self { corner: 8, stability: 6, mobility: 10, positional: 8, parity: 2 }
        } else if move_number <= 45 {
            Self { corner: 10, stability: 8, mobility: 6, positional: 6, parity: 4 }
        } else {
            Self { corner: 10, stability: 10, mobility: 2, positional: 4, parity: 8 }
        }
    }
}

/// The corner contribution of one cell: owning it is worth 100, losing it
/// costs 100.
pub open spec fn corner_term(b: Board, player: PlayerColor, p: u64) -> int {
    match piece_at(b, p) {
        Some(c) => if c == player {
            100int
        } else {
            -100int
        },
        None => 0int,
    }
}

/// Corner sub-score over the four corner cells.
pub open spec fn corners_spec(b: Board, player: PlayerColor) -> int {
    corner_term(b, player, 0) + corner_term(b, player, 7) + corner_term(b, player, 56)
        + corner_term(b, player, 63)
}

/// A border cell: first or last row or column.
pub open spec fn is_border(p: u64) -> bool {
    p as int / 8 == 0 || p as int / 8 == 7 || p as int % 8 == 0 || p as int % 8 == 7
}

/// Number of the player's discs on border cells among positions `[0, n)`.
pub open spec fn stable_count(b: Board, player: PlayerColor, n: int) -> int
    decreases n,
{
    if n <= 0 {
        0
    } else {
        stable_count(b, player, n - 1) + if bit64(own_mask(b, player), (n - 1) as u64)
            && is_border((n - 1) as u64) {
            1int
        } else {
            0int
        }
    }
}

/// Stability sub-score: 50 per own border disc.  Border occupancy is a
/// proxy; true flip-immunity is not traced.
pub open spec fn stability_spec(b: Board, player: PlayerColor) -> int {
    50 * stable_count(b, player, 64)
}

/// Mobility sub-score: 30 times the legal-move count difference.
pub open spec fn mobility_spec(b: Board, player: PlayerColor) -> int {
    30 * (count_bits(valid_mask(b, player), 64) - count_bits(
        valid_mask(b, player.opp_spec()),
        64,
    ))
}

/// The fixed per-cell weight: corners high, corner-adjacent cells negative,
/// edges mildly positive, interior mildly negative.  The table is symmetric
/// in both axes, so a cell is looked up by its distance to the nearer edges.
pub open spec fn pos_weight(p: u64) -> int {
    let r = p as int / 8;
    let c = p as int % 8;
    let rr = if r <= 3 {
        r
    } else {
        7 - r
    };
    let cc = if c <= 3 {
        c
    } else {
        7 - c
    };
    if rr == 0 {
        if cc == 0 {
            100int
        } else if cc == 1 {
            -20int
        } else if cc == 2 {
            10int
        } else {
            5int
        }
    } else if rr == 1 {
        if cc == 0 {
            -20int
        } else if cc == 1 {
            -50int
        } else {
            -2int
        }
    } else {
        if cc == 0 {
            if rr == 2 {
                10int
            } else {
                5int
            }
        } else if cc == 1 {
            -2int
        } else {
            -1int
        }
    }
}

/// Positional sub-score over positions `[0, n)`: own cells add the cell
/// weight, opponent cells subtract it.
pub open spec fn positional_sum(b: Board, player: PlayerColor, n: int) -> int
    decreases n,
{
    if n <= 0 {
        0
    } else {
        positional_sum(b, player, n - 1) + match piece_at(b, (n - 1) as u64) {
            Some(c) => if c == player {
                pos_weight((n - 1) as u64)
            } else {
                -pos_weight((n - 1) as u64)
            },
            None => 0int,
        }
    }
}

pub open spec fn positional_spec(b: Board, player: PlayerColor) -> int {
    positional_sum(b, player, 64)
}

/// Parity sub-score: 10 if the number of empty cells is odd, -10 if even.
/// Deliberately independent of which player is asked (a tempo heuristic).
pub open spec fn parity_spec(b: Board) -> int {
    if count_bits(!(b.black | b.white), 64) % 2 == 1 {
        10int
    } else {
        -10int
    }
}

/// Total number of discs on the board.
pub open spec fn disc_total(b: Board) -> int {
    count_bits(b.black, 64) + count_bits(b.white, 64)
}

/// Integer division by ten, truncated toward zero.
pub open spec fn tdiv10(x: int) -> int {
    if x >= 0 {
        x / 10
    } else {
        -((-x) / 10)
    }
}

/// The full static score of `b` from `player`'s perspective.
pub open spec fn eval_spec(b: Board, player: PlayerColor) -> int {
    let w = weights_for_stage(disc_total(b));
    tdiv10(
        corners_spec(b, player) * w.corner + stability_spec(b, player) * w.stability
            + mobility_spec(b, player) * w.mobility + positional_spec(b, player) * w.positional
            + parity_spec(b) * w.parity,
    )
}

proof fn lemma_stable_count_bounds(b: Board, player: PlayerColor, n: int)
    ensures
        0 <= stable_count(b, player, n) <= if n <= 0 {
            0int
        } else {
            n
        },
    decreases n,
{
    if n > 0 {
        lemma_stable_count_bounds(b, player, n - 1);
    }
}

proof fn lemma_positional_sum_bounds(b: Board, player: PlayerColor, n: int)
    ensures
        -100 * (if n <= 0 {
            0int
        } else {
            n
        }) <= positional_sum(b, player, n) <= 100 * (if n <= 0 {
            0int
        } else {
            n
        }),
    decreases n,
{
    if n > 0 {
        lemma_positional_sum_bounds(b, player, n - 1);
    }
}

proof fn lemma_mul_bound(x: int, lo: int, hi: int, w: int)
    by (nonlinear_arith)
    requires
        lo <= x <= hi,
        0 <= w <= 10,
        lo <= 0 <= hi,
    ensures
        10 * lo <= x * w <= 10 * hi,
{
}

/// Every static score lies strictly between -12000 and 12000.
pub proof fn lemma_eval_bounds(b: Board, player: PlayerColor)
    ensures
        -12000 <= eval_spec(b, player) <= 12000,
{
    lemma_stable_count_bounds(b, player, 64);
    lemma_positional_sum_bounds(b, player, 64);
    lemma_count_nonneg(valid_mask(b, player), 64);
    lemma_count_nonneg(valid_mask(b, player.opp_spec()), 64);
    let w = weights_for_stage(disc_total(b));
    lemma_mul_bound(corners_spec(b, player), -400, 400, w.corner as int);
    lemma_mul_bound(stability_spec(b, player), -3200, 3200, w.stability as int);
    lemma_mul_bound(mobility_spec(b, player), -1920, 1920, w.mobility as int);
    lemma_mul_bound(positional_spec(b, player), -6400, 6400, w.positional as int);
    lemma_mul_bound(parity_spec(b), -10, 10, w.parity as int);
}

/// Corner sub-score: 100 per owned corner, -100 per opponent corner.
pub fn evaluate_corners(board: &Board, player: PlayerColor) -> (r: i32)
    ensures
        r == corners_spec(*board, player),
{
    let mut score: i32 = 0;
    score = score + corner_value(board, 0, player);
    score = score + corner_value(board, 7, player);
    score = score + corner_value(board, 56, player);
    score = score + corner_value(board, 63, player);
    score
}

fn corner_value(board: &Board, corner: u8, player: PlayerColor) -> (r: i32)
    requires
        corner < 64,
    ensures
        r == corner_term(*board, player, corner as u64),
{
    match board.get_piece(corner) {
        Some(color) => if color == player {
            100
        } else {
            -100
        },
        None => 0,
    }
}

/// Whether the disc on `position` counts as stable: border cells only, a
/// deliberate simplification of true flip-immunity.
fn is_stable_piece(position: u8) -> (r: bool)
    requires
        position < 64,
    ensures
        r == is_border(position as u64),
{
    let row = position / 8;
    let col = position % 8;
    row == 0 || row == 7 || col == 0 || col == 7
}

/// Stability sub-score: 50 per own disc on a border cell.
pub fn evaluate_stability(board: &Board, player: PlayerColor) -> (r: i32)
    ensures
        r == stability_spec(*board, player),
{
    let player_pieces = match player {
        PlayerColor::Black => board.black,
        PlayerColor::White => board.white,
    };
    let mut stable: i32 = 0;
    let mut position: u8 = 0;
    while position < 64
        invariant
            position <= 64,
            player_pieces == own_mask(*board, player),
            stable == stable_count(*board, player, position as int),
        decreases 64 - position,
    {
        proof {
            lemma_stable_count_bounds(*board, player, position as int);
        }
        if player_pieces & (1u64 << position) != 0 && is_stable_piece(position) {
            stable = stable + 1;
        }
        position = position + 1;
    }
    proof {
        lemma_stable_count_bounds(*board, player, 64);
    }
    stable * 50
}

/// Mobility sub-score: 30 times (own legal moves - opponent legal moves).
pub fn evaluate_mobility(board: &Board, player: PlayerColor) -> (r: i32)
    ensures
        r == mobility_spec(*board, player),
{
    let player_moves = popcount64(board.get_valid_moves(player)) as i32;
    let opponent_moves = popcount64(board.get_valid_moves(player.opposite())) as i32;
    proof {
        lemma_count_nonneg(valid_mask(*board, player), 64);
        lemma_count_nonneg(valid_mask(*board, player.opp_spec()), 64);
    }
    (player_moves - opponent_moves) * 30
}

fn position_weight(position: u8) -> (w: i32)
    requires
        position < 64,
    ensures
        w == pos_weight(position as u64),
{
    let r = position / 8;
    let c = position % 8;
    let rr = if r <= 3 {
        r
    } else {
        7 - r
    };
    let cc = if c <= 3 {
        c
    } else {
        7 - c
    };
    if rr == 0 {
        if cc == 0 {
            100
        } else if cc == 1 {
            -20
        } else if cc == 2 {
            10
        } else {
            5
        }
    } else if rr == 1 {
        if cc == 0 {
            -20
        } else if cc == 1 {
            -50
        } else {
            -2
        }
    } else {
        if cc == 0 {
            if rr == 2 {
                10
            } else {
                5
            }
        } else if cc == 1 {
            -2
        } else {
            -1
        }
    }
}

/// Positional sub-score from the fixed per-cell weight table.
pub fn evaluate_positional(board: &Board, player: PlayerColor) -> (r: i32)
    ensures
        r == positional_spec(*board, player),
{
    let mut score: i32 = 0;
    let mut position: u8 = 0;
    while position < 64
        invariant
            position <= 64,
            score == positional_sum(*board, player, position as int),
        decreases 64 - position,
    {
        proof {
            lemma_positional_sum_bounds(*board, player, position as int);
        }
        match board.get_piece(position) {
            Some(color) => {
                let w = position_weight(position);
                if color == player {
                    score = score + w;
                } else {
                    score = score - w;
                }
            },
            None => {},
        }
        position = position + 1;
    }
    score
}

/// Parity sub-score: +10 for an odd number of empty cells, -10 for even.
pub fn evaluate_parity(board: &Board, _player: PlayerColor) -> (r: i32)
    ensures
        r == parity_spec(*board),
{
    let empty_squares = popcount64(board.get_empty_squares());
    if empty_squares % 2 == 1 {
        10
    } else {
        -10
    }
}

/// The full static score of `board` from `player`'s perspective: the five
/// weighted sub-scores, combined and truncated to an integer.
pub fn evaluate_board(board: &Board, player: PlayerColor) -> (r: i32)
    ensures
        r == eval_spec(*board, player),
        -12000 <= r <= 12000,
{
    proof {
        lemma_count_nonneg(board.black, 64);
        lemma_count_nonneg(board.white, 64);
    }
    let move_count = board.count_pieces(PlayerColor::Black) + board.count_pieces(
        PlayerColor::White,
    );
    let weights = EvaluationWeights::for_stage(move_count);

    let corner_score = evaluate_corners(board, player);
    let stability_score = evaluate_stability(board, player);
    let mobility_score = evaluate_mobility(board, player);
    let positional_score = evaluate_positional(board, player);
    let parity_score = evaluate_parity(board, player);
    proof {
        lemma_stable_count_bounds(*board, player, 64);
        lemma_positional_sum_bounds(*board, player, 64);
        lemma_count_nonneg(valid_mask(*board, player), 64);
        lemma_count_nonneg(valid_mask(*board, player.opp_spec()), 64);
        lemma_eval_bounds(*board, player);
        assert(-400 <= corner_score <= 400);
        assert(0 <= stability_score <= 3200);
        assert(-1920 <= mobility_score <= 1920);
        assert(-6400 <= positional_score <= 6400);
        assert(-10 <= parity_score <= 10);
        assert(0 <= weights.corner <= 10 && 0 <= weights.stability <= 10 && 0 <= weights.mobility
            <= 10 && 0 <= weights.positional <= 10 && 0 <= weights.parity <= 10);
        lemma_mul_bound(corner_score as int, -400, 400, weights.corner as int);
        lemma_mul_bound(stability_score as int, -3200, 3200, weights.stability as int);
        lemma_mul_bound(mobility_score as int, -1920, 1920, weights.mobility as int);
        lemma_mul_bound(positional_score as int, -6400, 6400, weights.positional as int);
        lemma_mul_bound(parity_score as int, -10, 10, weights.parity as int);
    }

    let total: i32 = corner_score * weights.corner + stability_score * weights.stability
        + mobility_score * weights.mobility + positional_score * weights.positional + parity_score
        * weights.parity;
    if total >= 0 {
        ((total as u32) / 10) as i32
    } else {
        let neg = (-total) as u32;
        -((neg / 10) as i32)
    }
}

} // verus!
