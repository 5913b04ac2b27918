//! Depth-limited adversarial search.
//!
//! `minimax_spec` is the exhaustive game value: no pruning, every legal move
//! of the side to move explored.  The executable `minimax` prunes with an
//! alpha-beta window; its contract states the classic equivalence: inside the
//! window it returns exactly the exhaustive value, outside it fails in the
//! same direction.

use vstd::prelude::*;
use rayon::iter::IntoParallelRefIterator;
use rayon::iter::ParallelIterator;
use crate::board::{Board, PlayerColor, Move};
use crate::rules::{is_legal, valid_mask, board_after, game_over_spec, legal_moves,
    legal_moves_prefix, lemma_mask_zero_iff_none_legal, lemma_moves_len_iff_mask};
use crate::evaluation::{eval_spec, evaluate_board, lemma_eval_bounds};

verus! {

/// The side that moves at a ply: the root player on maximizing plies, the
/// opponent on minimizing plies.
pub open spec fn side_to_move(player: PlayerColor, maximizing: bool) -> PlayerColor {
    if maximizing {
        player
    } else {
        player.opp_spec()
    }
}

/// The exhaustive (unpruned) minimax value of `b` at `depth`, scored from
/// `player`'s perspective.  A side with no legal move passes: the ply is
/// skipped and the search continues one level deeper for the other side.
pub open spec fn minimax_spec(b: Board, depth: nat, maximizing: bool, player: PlayerColor) -> int
    decreases depth, 1nat, 0int,
{
    if depth == 0 || game_over_spec(b) {
        eval_spec(b, player)
    } else if valid_mask(b, side_to_move(player, maximizing)) == 0 {
        minimax_spec(b, (depth - 1) as nat, !maximizing, player)
    } else {
        kids_fold(b, depth, maximizing, player, 64)
    }
}

/// The running best (max or min) of the child values of the legal moves at
/// positions `[0, n)`; `i32::MIN` resp. `i32::MAX` when none is legal.
pub open spec fn kids_fold(b: Board, depth: nat, maximizing: bool, player: PlayerColor, n: int) -> int
    decreases depth, 0nat, n when depth >= 1
{
    if n <= 0 {
        if maximizing {
            i32::MIN as int
        } else {
            i32::MAX as int
        }
    } else {
        let rest = kids_fold(b, depth, maximizing, player, n - 1);
        let side = side_to_move(player, maximizing);
        if is_legal(b, side, (n - 1) as u64) {
            let v = minimax_spec(
                board_after(b, side, (n - 1) as u64),
                (depth - 1) as nat,
                !maximizing,
                player,
            );
            if maximizing {
                if v > rest {
                    v
                } else {
                    rest
                }
            } else {
                if v < rest {
                    v
                } else {
                    rest
                }
            }
        } else {
            rest
        }
    }
}

/// Exhaustive values stay within the static-score bounds.
pub proof fn lemma_minimax_bounds(b: Board, depth: nat, maximizing: bool, player: PlayerColor)
    ensures
        -12000 <= minimax_spec(b, depth, maximizing, player) <= 12000,
    decreases depth, 1nat, 0int,
{
    if depth == 0 || game_over_spec(b) {
        lemma_eval_bounds(b, player);
    } else if valid_mask(b, side_to_move(player, maximizing)) == 0 {
        lemma_minimax_bounds(b, (depth - 1) as nat, !maximizing, player);
    } else {
        lemma_mask_zero_iff_none_legal(b, side_to_move(player, maximizing), 64);
        lemma_kids_bounds(b, depth, maximizing, player, 64);
    }
}

/// Fold bounds: one legal child inside the range pins the fold into the
/// static-score bounds; the fold never passes the bound away from its
/// identity value.
pub proof fn lemma_kids_bounds(b: Board, depth: nat, maximizing: bool, player: PlayerColor, n: int)
    requires
        depth >= 1,
        n <= 64,
    ensures
        maximizing ==> kids_fold(b, depth, maximizing, player, n) <= 12000,
        !maximizing ==> kids_fold(b, depth, maximizing, player, n) >= -12000,
        (exists|p: u64| p < n && is_legal(b, side_to_move(player, maximizing), p)) ==> -12000
            <= kids_fold(b, depth, maximizing, player, n) <= 12000,
    decreases depth, 0nat, n,
{
    if n > 0 {
        lemma_kids_bounds(b, depth, maximizing, player, n - 1);
        let side = side_to_move(player, maximizing);
        if is_legal(b, side, (n - 1) as u64) {
            lemma_minimax_bounds(
                board_after(b, side, (n - 1) as u64),
                (depth - 1) as nat,
                !maximizing,
                player,
            );
        }
        assert forall|p: u64|
            p < n && is_legal(b, side, p) && p != n - 1 implies p < n - 1 by {}
    }
}

/// The fold only improves as more positions are considered: it grows on
/// maximizing plies and shrinks on minimizing plies.
proof fn lemma_kids_monotone(
    b: Board,
    depth: nat,
    maximizing: bool,
    player: PlayerColor,
    n: int,
    m: int,
)
    requires
        depth >= 1,
        n <= m,
    ensures
        maximizing ==> kids_fold(b, depth, maximizing, player, n) <= kids_fold(
            b,
            depth,
            maximizing,
            player,
            m,
        ),
        !maximizing ==> kids_fold(b, depth, maximizing, player, n) >= kids_fold(
            b,
            depth,
            maximizing,
            player,
            m,
        ),
    decreases m - n,
{
    if n < m {
        lemma_kids_monotone(b, depth, maximizing, player, n, m - 1);
    }
}

/// Minimax with alpha-beta pruning.  Relative to the exhaustive value `v` of
/// the same position: a result inside the open window `(alpha, beta)` equals
/// `v` exactly; when `v` falls at or outside a window edge, the result falls
/// off the same edge.
pub fn minimax(
    board: &Board,
    depth: u8,
    alpha: i32,
    beta: i32,
    maximizing: bool,
    player: PlayerColor,
) -> (r: i32)
    requires
        alpha < beta,
    ensures
        ({
            let v = minimax_spec(*board, depth as nat, maximizing, player);
            &&& (v <= alpha ==> r <= alpha)
            &&& (v >= beta ==> r >= beta)
            &&& (alpha < v < beta ==> r == v)
        }),
    decreases depth,
{
    if depth == 0 || board.is_game_over() {
        return evaluate_board(board, player);
    }
    let current_player = if maximizing {
        player
    } else {
        player.opposite()
    };

    if !board.has_valid_moves(current_player) {
        return minimax(board, depth - 1, alpha, beta, !maximizing, player);
    }

    let ghost v = minimax_spec(*board, depth as nat, maximizing, player);
    proof {
        assert(v == kids_fold(*board, depth as nat, maximizing, player, 64));
    }

    if maximizing {
        let mut max_eval = i32::MIN;
        let mut a = alpha;
        let mut pos: u8 = 0;
        while pos < 64
            invariant_except_break
                alpha < beta,
                pos <= 64,
                current_player == side_to_move(player, maximizing),
                maximizing,
                depth >= 1,
                alpha <= a < beta,
                if max_eval > alpha {
                    a == max_eval
                } else {
                    a == alpha
                },
                ({
                    let p = kids_fold(*board, depth as nat, true, player, pos as int);
                    &&& (p <= alpha ==> max_eval <= alpha)
                    &&& (alpha < p < beta ==> max_eval == p)
                    &&& p < beta
                }),
            ensures
                ({
                    let w = kids_fold(*board, depth as nat, true, player, 64);
                    &&& (w <= alpha ==> max_eval <= alpha)
                    &&& (alpha < w < beta ==> max_eval == w)
                    &&& (w >= beta ==> max_eval >= beta)
                }),
            decreases 64 - pos,
        {
            if board.is_valid_move(pos, current_player) {
                let mut new_board = *board;
                new_board.make_move(pos, current_player);
                let e = minimax(&new_board, depth - 1, a, beta, false, player);
                let ghost p0 = kids_fold(*board, depth as nat, true, player, pos as int);
                let ghost cv = minimax_spec(
                    board_after(*board, current_player, pos as u64),
                    (depth - 1) as nat,
                    false,
                    player,
                );
                let ghost p1 = kids_fold(*board, depth as nat, true, player, pos as int + 1);
                proof {
                    assert(p1 == if cv > p0 {
                        cv
                    } else {
                        p0
                    });
                }
                if e > max_eval {
                    max_eval = e;
                }
                if e > a {
                    a = e;
                }
                if beta <= a {
                    proof {
                        assert(e >= beta);
                        assert(cv >= beta);
                        lemma_kids_monotone(
                            *board,
                            depth as nat,
                            true,
                            player,
                            pos as int + 1,
                            64,
                        );
                    }
                    break;
                }
            }
            pos = pos + 1;
        }
        max_eval
    } else {
        let mut min_eval = i32::MAX;
        let mut bb = beta;
        let mut pos: u8 = 0;
        while pos < 64
            invariant_except_break
                alpha < beta,
                pos <= 64,
                current_player == side_to_move(player, maximizing),
                !maximizing,
                depth >= 1,
                alpha < bb <= beta,
                if min_eval < beta {
                    bb == min_eval
                } else {
                    bb == beta
                },
                ({
                    let p = kids_fold(*board, depth as nat, false, player, pos as int);
                    &&& (p >= beta ==> min_eval >= beta)
                    &&& (alpha < p < beta ==> min_eval == p)
                    &&& p > alpha
                }),
            ensures
                ({
                    let w = kids_fold(*board, depth as nat, false, player, 64);
                    &&& (w >= beta ==> min_eval >= beta)
                    &&& (alpha < w < beta ==> min_eval == w)
                    &&& (w <= alpha ==> min_eval <= alpha)
                }),
            decreases 64 - pos,
        {
            if board.is_valid_move(pos, current_player) {
                let mut new_board = *board;
                new_board.make_move(pos, current_player);
                let e = minimax(&new_board, depth - 1, alpha, bb, true, player);
                let ghost p0 = kids_fold(*board, depth as nat, false, player, pos as int);
                let ghost cv = minimax_spec(
                    board_after(*board, current_player, pos as u64),
                    (depth - 1) as nat,
                    true,
                    player,
                );
                let ghost p1 = kids_fold(*board, depth as nat, false, player, pos as int + 1);
                proof {
                    assert(p1 == if cv < p0 {
                        cv
                    } else {
                        p0
                    });
                }
                if e < min_eval {
                    min_eval = e;
                }
                if e < bb {
                    bb = e;
                }
                if bb <= alpha {
                    proof {
                        assert(e <= alpha);
                        assert(cv <= alpha);
                        lemma_kids_monotone(
                            *board,
                            depth as nat,
                            false,
                            player,
                            pos as int + 1,
                            64,
                        );
                    }
                    break;
                }
            }
            pos = pos + 1;
        }
        min_eval
    }
}

/// Everything a search reports: the chosen move, its score, the depth that
/// produced it, an advisory node count, and whether the search ran to
/// completion rather than being cut short by the time budget.
#[derive(Clone, Copy, Debug)]
pub struct SearchResult {
    pub best_move: Option<Move>,
    pub evaluation: i32,
    pub depth_reached: u8,
    pub nodes_evaluated: u64,
    pub completed: bool,
}

/// The result of a search that found nothing.
pub open spec fn empty_result() -> SearchResult {
    SearchResult {
        best_move: None,
        evaluation: 0,
        depth_reached: 0,
        nodes_evaluated: 0,
        completed: false,
    }
}

impl Default for SearchResult {
    fn default() -> (r: Self)
        ensures
            r == empty_result(),
    {
        Self { best_move: None, evaluation: 0, depth_reached: 0, nodes_evaluated: 0, completed: false }
    }
}

/// The exhaustive value, for the opponent's reply, of one candidate root
/// move (the root player has already played `m`).
pub open spec fn child_value(b: Board, player: PlayerColor, depth: u8, m: Move) -> int
    recommends
        depth >= 1,
{
    minimax_spec(board_after(b, player, m.position as u64), (depth - 1) as nat, false, player)
}

/// The first-seen maximum among the child values of `ms[..i]`: the index of
/// the best candidate and its value; ties keep the earlier move.
pub open spec fn fb_fold(b: Board, player: PlayerColor, depth: u8, ms: Seq<Move>, i: int) -> (
    int,
    int,
)
    decreases i,
{
    if i <= 1 {
        (0int, child_value(b, player, depth, ms[0]))
    } else {
        let prev = fb_fold(b, player, depth, ms, i - 1);
        let v = child_value(b, player, depth, ms[i - 1]);
        if v > prev.1 {
            (i - 1, v)
        } else {
            prev
        }
    }
}

/// What a fixed-depth root search returns: the first-seen best legal move by
/// exhaustive value, or the empty result when there is no legal move.
pub open spec fn fb_result(b: Board, player: PlayerColor, depth: u8) -> SearchResult {
    let ms = legal_moves(b, player);
    if ms.len() == 0 {
        empty_result()
    } else {
        let best = fb_fold(b, player, depth, ms, ms.len() as int);
        SearchResult {
            best_move: Some(ms[best.0]),
            evaluation: best.1 as i32,
            depth_reached: depth,
            nodes_evaluated: 0,
            completed: true,
        }
    }
}

/// Scores one candidate root move by a full-window search of the opponent's
/// reply: exactly the exhaustive value of the resulting position.
fn score_move(board: &Board, chess_move: Move, depth: u8, player: PlayerColor) -> (r: i32)
    ensures
        r == minimax_spec(
            board_after(*board, player, chess_move.position as u64),
            depth as nat,
            false,
            player,
        ),
{
    let mut new_board = *board;
    new_board.make_move(chess_move.position, player);
    proof {
        lemma_minimax_bounds(
            board_after(*board, player, chess_move.position as u64),
            depth as nat,
            false,
            player,
        );
    }
    minimax(&new_board, depth, i32::MIN, i32::MAX, false, player)
}

/// Relies on rayon's parallel map over a slice (`par_iter().map().collect()`
/// on an indexed parallel iterator): the collected `Vec` holds, at each
/// index, the closure's result for the input at the same index.  The closure
/// only calls the verified `score_move`.
#[verifier::external_body]
fn scores_of_moves(board: &Board, moves: &Vec<Move>, depth: u8, player: PlayerColor) -> (r: Vec<
    i32,
>)
    ensures
        r@.len() == moves@.len(),
        forall|i: int|
            0 <= i < moves@.len() ==> r@[i] == minimax_spec(
                board_after(*board, player, moves@[i].position as u64),
                depth as nat,
                false,
                player,
            ),
{
    moves.par_iter().map(|m| score_move(board, *m, depth, player)).collect()
}

/// Fixed-depth root search: every legal move of `player` is scored by a
/// search of the opponent's reply at `depth - 1`, and the first-seen
/// maximum is chosen.  Candidate moves are scored in parallel.
pub fn find_best_move(board: &Board, depth: u8, player: PlayerColor) -> (r: SearchResult)
    requires
        depth >= 1,
    ensures
        r == fb_result(*board, player, depth),
{
    let moves = board.get_valid_moves_list(player);
    if moves.len() == 0 {
        return SearchResult::default();
    }
    let scores = scores_of_moves(board, &moves, depth - 1, player);
    let mut best_index: usize = 0;
    let mut best_eval: i32 = scores[0];
    let mut i: usize = 1;
    while i < moves.len()
        invariant
            depth >= 1,
            moves@ == legal_moves(*board, player),
            scores@.len() == moves@.len(),
            forall|j: int|
                0 <= j < moves@.len() ==> scores@[j] == child_value(*board, player, depth, moves@[j]),
            1 <= i <= moves@.len(),
            best_index < i,
            best_index as int == fb_fold(*board, player, depth, moves@, i as int).0,
            best_eval as int == fb_fold(*board, player, depth, moves@, i as int).1,
        decreases moves.len() - i,
    {
        let s = scores[i];
        if s > best_eval {
            best_index = i;
            best_eval = s;
        }
        i = i + 1;
    }
    SearchResult {
        best_move: Some(moves[best_index]),
        evaluation: best_eval,
        depth_reached: depth,
        nodes_evaluated: 0,
        completed: true,
    }
}

proof fn lemma_fb_fold_push(
    b: Board,
    player: PlayerColor,
    depth: u8,
    s: Seq<Move>,
    x: Move,
    i: int,
)
    requires
        1 <= i <= s.len(),
    ensures
        fb_fold(b, player, depth, s.push(x), i) == fb_fold(b, player, depth, s, i),
    decreases i,
{
    if i > 1 {
        lemma_fb_fold_push(b, player, depth, s, x, i - 1);
    }
    assert(s.push(x)[i - 1] == s[i - 1]);
    assert(s.push(x)[0] == s[0]);
}

proof fn lemma_fb_eq_kids(b: Board, player: PlayerColor, depth: u8, n: int)
    requires
        depth >= 1,
        0 <= n <= 64,
    ensures
        ({
            let ms = legal_moves_prefix(b, player, n);
            &&& (ms.len() == 0 ==> kids_fold(b, depth as nat, true, player, n) == i32::MIN as int)
            &&& (ms.len() > 0 ==> fb_fold(b, player, depth, ms, ms.len() as int).1 == kids_fold(
                b,
                depth as nat,
                true,
                player,
                n,
            ))
        }),
    decreases n,
{
    if n > 0 {
        lemma_fb_eq_kids(b, player, depth, n - 1);
        let ms0 = legal_moves_prefix(b, player, n - 1);
        let ms = legal_moves_prefix(b, player, n);
        if is_legal(b, player, (n - 1) as u64) {
            let mv = Move { position: (n - 1) as u8 };
            let cv = child_value(b, player, depth, mv);
            lemma_minimax_bounds(
                board_after(b, player, (n - 1) as u64),
                (depth - 1) as nat,
                false,
                player,
            );
            if ms0.len() == 0 {
                assert(ms[0] == mv);
            } else {
                lemma_fb_fold_push(b, player, depth, ms0, mv, ms0.len() as int);
                assert(ms[ms.len() - 1] == mv);
            }
        }
    }
}

/// Alpha-beta equivalence at the root: the value `find_best_move` selects is
/// exactly the exhaustive (unpruned) minimax value of the position.
pub proof fn lemma_fb_value_is_minimax(b: Board, player: PlayerColor, depth: u8)
    requires
        depth >= 1,
        legal_moves(b, player).len() > 0,
    ensures
        fb_fold(b, player, depth, legal_moves(b, player), legal_moves(b, player).len() as int).1
            == minimax_spec(b, depth as nat, true, player),
{
    lemma_moves_len_iff_mask(b, player, 64);
    assert(valid_mask(b, player) != 0);
    assert(!game_over_spec(b));
    assert(side_to_move(player, true) == player);
    lemma_fb_eq_kids(b, player, depth, 64);
}

/// The index `fb_fold` selects always points into the scanned prefix.
pub proof fn lemma_fb_fold_index_range(
    b: Board,
    player: PlayerColor,
    depth: u8,
    ms: Seq<Move>,
    i: int,
)
    requires
        1 <= i,
    ensures
        0 <= fb_fold(b, player, depth, ms, i).0 < i,
    decreases i,
{
    if i > 1 {
        lemma_fb_fold_index_range(b, player, depth, ms, i - 1);
    }
}

#[verifier::external_type_specification]
#[verifier::external_body]
pub struct ExInstant(std::time::Instant);

/// Relies on std::time::Instant::now: a reading of the monotonic clock.
#[verifier::external_body]
fn clock_now() -> std::time::Instant {
    std::time::Instant::now()
}

/// Relies on std::time::Instant::elapsed: the wall-clock time since `start`,
/// in milliseconds.  Time is outside the program, so nothing is promised of
/// the value.
#[verifier::external_body]
fn millis_since(start: &std::time::Instant) -> u64 {
    start.elapsed().as_millis() as u64
}

/// Iterative deepening under a time budget: fixed-depth searches at depths
/// 1, 2, ... up to `max_depth`.  A deeper level is only started while less
/// than nine tenths of the budget is spent, and its result is only kept if
/// it finished inside the budget.  Whatever the clock does, the result is
/// either the empty result (the budget ran out before depth 1 finished) or
/// exactly the fixed-depth search result at the depth it reports.
pub fn find_best_move_with_time_limit(
    board: &Board,
    time_limit_millis: u64,
    max_depth: u8,
    player: PlayerColor,
) -> (r: SearchResult)
    ensures
        r == empty_result() || (1 <= r.depth_reached <= max_depth && r == fb_result(
            *board,
            player,
            r.depth_reached,
        )),
{
    let start_time = clock_now();
    let mut best_result = SearchResult::default();
    let mut depth: u16 = 1;
    while depth <= max_depth as u16
        invariant
            1 <= depth <= max_depth as u16 + 1,
            best_result == empty_result() || (1 <= best_result.depth_reached <= max_depth
                && best_result == fb_result(*board, player, best_result.depth_reached)),
        ensures
            best_result == empty_result() || (1 <= best_result.depth_reached <= max_depth
                && best_result == fb_result(*board, player, best_result.depth_reached)),
        decreases max_depth as int + 1 - depth,
    {
        let elapsed = millis_since(&start_time);
        if elapsed >= time_limit_millis / 10 * 9 {
            break;
        }
        let result = find_best_move(board, depth as u8, player);
        if millis_since(&start_time) < time_limit_millis {
            best_result = result;
        } else {
            break;
        }
        depth = depth + 1;
    }
    best_result
}

} // verus!
