//! Difficulty tiers and the move policy built on the search engine.
//!
//! Each tier fixes a search depth, a time budget and a mistake rate.  The
//! chosen move is the time-boxed search's best move, except that with the
//! tier's mistake probability a uniformly random legal move is returned
//! instead, as a full replacement.

use vstd::prelude::*;
use rand::Rng;
use crate::board::{Board, PlayerColor, Move};
use crate::rules::{is_legal, valid_mask, legal_moves, lemma_legal_moves_elems,
    lemma_moves_len_iff_mask};
use crate::minimax::{find_best_move_with_time_limit, fb_result, empty_result,
    lemma_fb_fold_index_range};

verus! {

#[derive(Clone, Copy, Debug, PartialEq, Eq, Structural)]
pub enum AiDifficulty {
    Beginner,
    Intermediate,
    Advanced,
    Expert,
}

/// Search configuration of a tier.  The mistake rate is kept in hundredths
/// (a probability of 0.30 is 30), so a uniform draw below 100 decides it.
#[derive(Clone, Copy, Debug, PartialEq, Eq, Structural)]
pub struct SearchParams {
    pub max_depth: u8,
    pub time_limit_millis: u64,
    pub mistake_percent: u8,
    pub use_opening_book: bool,
}

/// The fixed parameter table: deeper search, longer budget and fewer
/// mistakes as the tier rises.
pub open spec fn params_spec(d: AiDifficulty) -> SearchParams {
    match d {
        AiDifficulty::Beginner => SearchParams {
            max_depth: 2,
            time_limit_millis: 100,
            mistake_percent: 30,
            use_opening_book: false,
        },
        AiDifficulty::Intermediate => SearchParams {
            max_depth: 4,
            time_limit_millis: 500,
            mistake_percent: 15,
            use_opening_book: false,
        },
        AiDifficulty::Advanced => SearchParams {
            max_depth: 6,
            time_limit_millis: 2000,
            mistake_percent: 5,
            use_opening_book: true,
        },
        AiDifficulty::Expert => SearchParams {
            max_depth: 12,
            time_limit_millis: 5000,
            mistake_percent: 0,
            use_opening_book: true,
        },
    }
}

/// Whatever move the policy hands back is legal on the given board.
pub open spec fn move_choice_ok(b: Board, player: PlayerColor, r: Option<Move>) -> bool {
    match r {
        Some(m) => is_legal(b, player, m.position as u64),
        None => true,
    }
}

/// Relies on rand::Rng::gen_range over rand::thread_rng: a uniformly random
/// value in `[0, n)`.  It panics only on an empty range, which the
/// precondition excludes.
#[verifier::external_body]
fn random_below(n: usize) -> (r: usize)
    requires
        n > 0,
    ensures
        r < n,
{
    rand::thread_rng().gen_range(0..n)
}

impl AiDifficulty {
    pub fn get_search_params(&self) -> (r: SearchParams)
        ensures
            r == params_spec(*self),
    {
        match self {
            Self::Beginner => SearchParams {
                max_depth: 2,
                time_limit_millis: 100,
                mistake_percent: 30,
                use_opening_book: false,
            },
            Self::Intermediate => SearchParams {
                max_depth: 4,
                time_limit_millis: 500,
                mistake_percent: 15,
                use_opening_book: false,
            },
            Self::Advanced => SearchParams {
                max_depth: 6,
                time_limit_millis: 2000,
                mistake_percent: 5,
                use_opening_book: true,
            },
            Self::Expert => SearchParams {
                max_depth: 12,
                time_limit_millis: 5000,
                mistake_percent: 0,
                use_opening_book: true,
            },
        }
    }

    /// The tier's move for `player` on `board`: the time-boxed search's best
    /// move, or - with the tier's mistake probability - a uniformly random
    /// legal move in its place.  `None` when `player` has no legal move, and
    /// only otherwise when the time budget ran out before any depth
    /// completed.
    pub fn get_ai_move(&self, board: &Board, player: PlayerColor) -> (r: Option<Move>)
        ensures
            move_choice_ok(*board, player, r),
            valid_mask(*board, player) == 0 ==> r is None,
    {
        let params = self.get_search_params();

        let result = find_best_move_with_time_limit(
            board,
            params.time_limit_millis,
            params.max_depth,
            player,
        );

        if params.mistake_percent > 0 && random_below(100) < params.mistake_percent as usize {
            self.make_random_mistake(board, player)
        } else {
            proof {
                lemma_moves_len_iff_mask(*board, player, 64);
                lemma_legal_moves_elems(*board, player, 64);
                if legal_moves(*board, player).len() > 0 {
                    lemma_fb_fold_index_range(
                        *board,
                        player,
                        result.depth_reached,
                        legal_moves(*board, player),
                        legal_moves(*board, player).len() as int,
                    );
                }
            }
            result.best_move
        }
    }

    /// A deliberate mistake: a uniformly random legal move, or `None` when
    /// there is none.
    fn make_random_mistake(&self, board: &Board, player: PlayerColor) -> (r: Option<Move>)
        ensures
            move_choice_ok(*board, player, r),
            (r is None) == (valid_mask(*board, player) == 0),
    {
        let valid_moves = board.get_valid_moves_list(player);
        proof {
            lemma_moves_len_iff_mask(*board, player, 64);
            lemma_legal_moves_elems(*board, player, 64);
        }
        if valid_moves.len() == 0 {
            return None;
        }
        let random_index = random_below(valid_moves.len());
        Some(valid_moves[random_index])
    }
}

} // verus!
