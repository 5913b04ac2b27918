//! Move legality and move application.
//!
//! A move at cell `pos` is legal for a player iff the cell is empty and, in at
//! least one of the eight ray directions, the cells adjacent to `pos` hold one
//! or more opponent discs immediately followed by a disc of the player's own
//! color.  Applying a legal move places a disc on `pos` and flips every
//! opponent disc on such a ray.

use vstd::prelude::*;
use crate::bits::{bit64, count_bits};
use crate::bits::{lemma_count_disjoint_or, lemma_count_single, lemma_count_remove,
    lemma_or_zero, lemma_shl_nonzero, lemma_subset_or, lemma_single_subset,
    lemma_nonzero_count};
use crate::board::{Board, PlayerColor, Move, own_mask, opp_mask, occupied, board_wf};

verus! {

pub open spec fn in_board(r: int, c: int) -> bool {
    0 <= r < 8 && 0 <= c < 8
}

/// The single-bit mask of the cell at row `r`, column `c`.
pub open spec fn cell_bit(r: int, c: int) -> u64 {
    1u64 << ((r * 8 + c) as u64)
}

pub open spec fn valid_dir(dr: int, dc: int) -> bool {
    -1 <= dr <= 1 && -1 <= dc <= 1 && !(dr == 0 && dc == 0)
}

pub open spec fn axis_steps(x: int, s: int) -> int {
    if s > 0 {
        8 - x
    } else if s < 0 {
        x + 1
    } else {
        0
    }
}

/// An upper bound on how many steps a ray can take before leaving the board.
pub open spec fn ray_measure(r: int, c: int, dr: int, dc: int) -> int {
    axis_steps(r, dr) + axis_steps(c, dc)
}

/// Walking from `(r, c)` in direction `(dr, dc)`: every cell holds an
/// opponent disc until a cell with an own disc is reached.
pub open spec fn ray_closed(own: u64, opp: u64, r: int, c: int, dr: int, dc: int) -> bool
    decreases ray_measure(r, c, dr, dc) when valid_dir(dr, dc)
{
    if !in_board(r, c) {
        false
    } else if opp & cell_bit(r, c) != 0 {
        ray_closed(own, opp, r + dr, c + dc, dr, dc)
    } else if own & cell_bit(r, c) != 0 {
        true
    } else {
        false
    }
}

/// The mask of the contiguous run of opponent discs starting at `(r, c)`.
pub open spec fn ray_run(opp: u64, r: int, c: int, dr: int, dc: int) -> u64
    decreases ray_measure(r, c, dr, dc) when valid_dir(dr, dc)
{
    if !in_board(r, c) {
        0
    } else if opp & cell_bit(r, c) != 0 {
        cell_bit(r, c) | ray_run(opp, r + dr, c + dc, dr, dc)
    } else {
        0
    }
}

/// The discs flipped along one ray: the leading opponent run, provided it is
/// closed off by an own disc.
pub open spec fn ray_flips(own: u64, opp: u64, r: int, c: int, dr: int, dc: int) -> u64 {
    if ray_closed(own, opp, r, c, dr, dc) {
        ray_run(opp, r, c, dr, dc)
    } else {
        0
    }
}

/// Row offset of direction `d` (0..8), in the fixed scan order.
pub open spec fn dir_dr(d: int) -> int {
    if d <= 2 {
        -1
    } else if d <= 4 {
        0
    } else {
        1
    }
}

/// Column offset of direction `d` (0..8), in the fixed scan order.
pub open spec fn dir_dc(d: int) -> int {
    if d == 0 || d == 3 || d == 5 {
        -1
    } else if d == 1 || d == 6 {
        0
    } else {
        1
    }
}

/// The union of the flips of the first `d` directions, for a move at `(r, c)`.
pub open spec fn dirs_flips(own: u64, opp: u64, r: int, c: int, d: int) -> u64
    decreases d,
{
    if d <= 0 {
        0
    } else {
        dirs_flips(own, opp, r, c, d - 1) | ray_flips(
            own,
            opp,
            r + dir_dr(d - 1),
            c + dir_dc(d - 1),
            dir_dr(d - 1),
            dir_dc(d - 1),
        )
    }
}

/// The full set of discs a move at `pos` would flip for `player`.
pub open spec fn move_flips(b: Board, player: PlayerColor, pos: u64) -> u64 {
    dirs_flips(own_mask(b, player), opp_mask(b, player), pos as int / 8, pos as int % 8, 8)
}

/// A move at `pos` is legal: in range, on an empty cell, and flipping at
/// least one opponent disc.
pub open spec fn is_legal(b: Board, player: PlayerColor, pos: u64) -> bool {
    pos < 64 && !bit64(occupied(b), pos) && move_flips(b, player, pos) != 0
}

/// The legality bitmask restricted to positions `[0, n)`.
pub open spec fn valid_mask_prefix(b: Board, player: PlayerColor, n: int) -> u64
    decreases n,
{
    if n <= 0 {
        0
    } else if is_legal(b, player, (n - 1) as u64) {
        valid_mask_prefix(b, player, n - 1) | (1u64 << ((n - 1) as u64))
    } else {
        valid_mask_prefix(b, player, n - 1)
    }
}

/// The legality bitmask: bit `p` is set iff a move at `p` is legal.
pub open spec fn valid_mask(b: Board, player: PlayerColor) -> u64 {
    valid_mask_prefix(b, player, 64)
}

/// The legal moves among positions `[0, n)`, in increasing position order.
pub open spec fn legal_moves_prefix(b: Board, player: PlayerColor, n: int) -> Seq<Move>
    decreases n,
{
    if n <= 0 {
        Seq::empty()
    } else if is_legal(b, player, (n - 1) as u64) {
        legal_moves_prefix(b, player, n - 1).push(Move { position: (n - 1) as u8 })
    } else {
        legal_moves_prefix(b, player, n - 1)
    }
}

/// All legal moves, in increasing position order.
pub open spec fn legal_moves(b: Board, player: PlayerColor) -> Seq<Move> {
    legal_moves_prefix(b, player, 64)
}

/// The board after a move: unchanged if the move is illegal; otherwise the
/// mover gains the placed disc and the flipped discs, the opponent loses the
/// flipped discs.
pub open spec fn board_after(b: Board, player: PlayerColor, pos: u64) -> Board {
    if is_legal(b, player, pos) {
        let f = move_flips(b, player, pos);
        let m = 1u64 << pos;
        match player {
            PlayerColor::Black => Board { black: b.black | m | f, white: b.white & !f },
            PlayerColor::White => Board { black: b.black & !f, white: b.white | m | f },
        }
    } else {
        b
    }
}

/// The game is over iff neither color has a legal move.
pub open spec fn game_over_spec(b: Board) -> bool {
    valid_mask(b, PlayerColor::Black) == 0 && valid_mask(b, PlayerColor::White) == 0
}

/// The winner of a finished game: the color with more discs, `None` on a
/// draw or while the game is still running.
pub open spec fn winner_spec(b: Board) -> Option<PlayerColor> {
    if !game_over_spec(b) {
        None
    } else if count_bits(b.black, 64) > count_bits(b.white, 64) {
        Some(PlayerColor::Black)
    } else if count_bits(b.white, 64) > count_bits(b.black, 64) {
        Some(PlayerColor::White)
    } else {
        None
    }
}

/// Row and column offsets of direction `d`, in the fixed scan order.
fn direction(d: usize) -> (r: (i8, i8))
    requires
        d < 8,
    ensures
        r.0 == dir_dr(d as int),
        r.1 == dir_dc(d as int),
        valid_dir(r.0 as int, r.1 as int),
{
    if d == 0 {
        (-1, -1)
    } else if d == 1 {
        (-1, 0)
    } else if d == 2 {
        (-1, 1)
    } else if d == 3 {
        (0, -1)
    } else if d == 4 {
        (0, 1)
    } else if d == 5 {
        (1, -1)
    } else if d == 6 {
        (1, 0)
    } else {
        (1, 1)
    }
}

/// Walks one ray and reports whether it is closed and the leading opponent
/// run it passes over.
fn ray_scan(own: u64, opp: u64, r: i8, c: i8, dr: i8, dc: i8) -> (res: (bool, u64))
    requires
        valid_dir(dr as int, dc as int),
        -2 <= r <= 9,
        -2 <= c <= 9,
    ensures
        res.0 == ray_closed(own, opp, r as int, c as int, dr as int, dc as int),
        res.1 == ray_run(opp, r as int, c as int, dr as int, dc as int),
    decreases ray_measure(r as int, c as int, dr as int, dc as int),
{
    if r < 0 || r >= 8 || c < 0 || c >= 8 {
        (false, 0)
    } else {
        let check_pos = (r * 8 + c) as u8;
        let check_mask = 1u64 << check_pos;
        if opp & check_mask != 0 {
            let rest = ray_scan(own, opp, r + dr, c + dc, dr, dc);
            (rest.0, check_mask | rest.1)
        } else if own & check_mask != 0 {
            (true, 0)
        } else {
            (false, 0)
        }
    }
}

impl Board {
    /// The mask of discs a move at `position` would flip for `player`.
    fn get_flipped_discs(&self, position: u8, player: PlayerColor) -> (f: u64)
        requires
            position < 64,
        ensures
            f == move_flips(*self, player, position as u64),
    {
        let own = match player {
            PlayerColor::Black => self.black,
            PlayerColor::White => self.white,
        };
        let opp = match player {
            PlayerColor::Black => self.white,
            PlayerColor::White => self.black,
        };
        let row = (position / 8) as i8;
        let col = (position % 8) as i8;
        let mut flipped: u64 = 0;
        let mut d: usize = 0;
        while d < 8
            invariant
                d <= 8,
                own == own_mask(*self, player),
                opp == opp_mask(*self, player),
                row == position as int / 8,
                col == position as int % 8,
                0 <= row < 8,
                0 <= col < 8,
                flipped == dirs_flips(own, opp, row as int, col as int, d as int),
            decreases 8 - d,
        {
            let (dr, dc) = direction(d);
            let (closed, run) = ray_scan(own, opp, row + dr, col + dc, dr, dc);
            let ray: u64 = if closed {
                run
            } else {
                0
            };
            flipped = flipped | ray;
            d = d + 1;
        }
        flipped
    }

    /// Whether a move at `position` is legal for `player`.
    pub fn is_valid_move(&self, position: u8, player: PlayerColor) -> (r: bool)
        ensures
            r == is_legal(*self, player, position as u64),
    {
        if position >= 64 {
            return false;
        }
        if !self.is_empty(position) {
            return false;
        }
        self.get_flipped_discs(position, player) != 0
    }

    /// Applies a move for `player`: returns `false` and leaves the board
    /// unchanged if the move is illegal; otherwise places the disc, flips
    /// the trapped opponent discs and returns `true`.
    pub fn make_move(&mut self, position: u8, player: PlayerColor) -> (r: bool)
        ensures
            *final(self) == board_after(*old(self), player, position as u64),
            r == is_legal(*old(self), player, position as u64),
    {
        if !self.is_valid_move(position, player) {
            return false;
        }
        let mask = 1u64 << position;
        let flipped = self.get_flipped_discs(position, player);
        match player {
            PlayerColor::Black => {
                self.black = self.black | mask | flipped;
                self.white = self.white & !flipped;
            },
            PlayerColor::White => {
                self.white = self.white | mask | flipped;
                self.black = self.black & !flipped;
            },
        }
        true
    }

    /// The legality bitmask for `player`: bit `p` is set iff a move at `p`
    /// is legal.
    pub fn get_valid_moves(&self, player: PlayerColor) -> (r: u64)
        ensures
            r == valid_mask(*self, player),
    {
        let mut moves: u64 = 0;
        let mut position: u8 = 0;
        while position < 64
            invariant
                position <= 64,
                moves == valid_mask_prefix(*self, player, position as int),
            decreases 64 - position,
        {
            if self.is_valid_move(position, player) {
                moves = moves | (1u64 << position);
            }
            position = position + 1;
        }
        moves
    }

    /// All legal moves for `player`, in increasing position order.
    pub fn get_valid_moves_list(&self, player: PlayerColor) -> (r: Vec<Move>)
        ensures
            r@ == legal_moves(*self, player),
    {
        let mut moves: Vec<Move> = Vec::new();
        let mut position: u8 = 0;
        while position < 64
            invariant
                position <= 64,
                moves@ == legal_moves_prefix(*self, player, position as int),
            decreases 64 - position,
        {
            if self.is_valid_move(position, player) {
                moves.push(Move { position });
            }
            position = position + 1;
        }
        moves
    }

    /// Whether `player` has at least one legal move.
    pub fn has_valid_moves(&self, player: PlayerColor) -> (r: bool)
        ensures
            r == (valid_mask(*self, player) != 0),
    {
        self.get_valid_moves(player) != 0
    }

    /// Whether neither color has a legal move.  A board where only one color
    /// lacks moves is not over: that side passes.
    pub fn is_game_over(&self) -> (r: bool)
        ensures
            r == game_over_spec(*self),
    {
        self.get_valid_moves(PlayerColor::Black) == 0 && self.get_valid_moves(PlayerColor::White)
            == 0
    }

    /// The winner once the game is over: the color with more discs, `None`
    /// on a draw, and `None` while either side can still move.
    pub fn get_winner(&self) -> (r: Option<PlayerColor>)
        ensures
            r == winner_spec(*self),
    {
        if !self.is_game_over() {
            return None;
        }
        let black_count = self.count_pieces(PlayerColor::Black);
        let white_count = self.count_pieces(PlayerColor::White);
        if black_count > white_count {
            Some(PlayerColor::Black)
        } else if white_count > black_count {
            Some(PlayerColor::White)
        } else {
            None
        }
    }
}

proof fn lemma_ray_run_subset(opp: u64, r: int, c: int, dr: int, dc: int)
    requires
        valid_dir(dr, dc),
    ensures
        ray_run(opp, r, c, dr, dc) & opp == ray_run(opp, r, c, dr, dc),
    decreases ray_measure(r, c, dr, dc),
{
    if in_board(r, c) && opp & cell_bit(r, c) != 0 {
        lemma_ray_run_subset(opp, r + dr, c + dc, dr, dc);
        lemma_single_subset(opp, (r * 8 + c) as u64);
        lemma_subset_or(cell_bit(r, c), ray_run(opp, r + dr, c + dc, dr, dc), opp);
    } else {
        assert(0u64 & opp == 0) by (bit_vector);
    }
}

proof fn lemma_dirs_flips_subset(own: u64, opp: u64, r: int, c: int, d: int)
    requires
        0 <= d <= 8,
    ensures
        dirs_flips(own, opp, r, c, d) & opp == dirs_flips(own, opp, r, c, d),
    decreases d,
{
    if d <= 0 {
        assert(0u64 & opp == 0) by (bit_vector);
    } else {
        lemma_dirs_flips_subset(own, opp, r, c, d - 1);
        let dr = dir_dr(d - 1);
        let dc = dir_dc(d - 1);
        let rf = ray_flips(own, opp, r + dr, c + dc, dr, dc);
        if ray_closed(own, opp, r + dr, c + dc, dr, dc) {
            lemma_ray_run_subset(opp, r + dr, c + dc, dr, dc);
        } else {
            assert(0u64 & opp == 0) by (bit_vector);
        }
        lemma_subset_or(dirs_flips(own, opp, r, c, d - 1), rf, opp);
    }
}

/// Every disc a move flips is an opponent disc.
pub proof fn lemma_move_flips_subset(b: Board, player: PlayerColor, pos: u64)
    ensures
        move_flips(b, player, pos) & opp_mask(b, player) == move_flips(b, player, pos),
{
    lemma_dirs_flips_subset(
        own_mask(b, player),
        opp_mask(b, player),
        pos as int / 8,
        pos as int % 8,
        8,
    );
}

/// Soundness of move generation: a legal move stands on an empty cell and
/// flips at least one opponent disc (its flip set is a nonempty submask of
/// the opponent's discs).
pub proof fn lemma_move_soundness(b: Board, player: PlayerColor, pos: u64)
    requires
        is_legal(b, player, pos),
    ensures
        !bit64(occupied(b), pos),
        move_flips(b, player, pos) != 0,
        move_flips(b, player, pos) & opp_mask(b, player) == move_flips(b, player, pos),
        count_bits(move_flips(b, player, pos), 64) >= 1,
{
    lemma_move_flips_subset(b, player, pos);
    lemma_nonzero_count(move_flips(b, player, pos));
}

/// Completeness of move generation: an empty cell that is not a legal move
/// would flip no disc at all if it were played.
pub proof fn lemma_move_completeness(b: Board, player: PlayerColor, pos: u64)
    requires
        pos < 64,
        !bit64(occupied(b), pos),
        !is_legal(b, player, pos),
    ensures
        move_flips(b, player, pos) == 0,
{
}

/// The legality bitmask is empty exactly when no position is legal.
pub proof fn lemma_mask_zero_iff_none_legal(b: Board, player: PlayerColor, n: int)
    requires
        0 <= n <= 64,
    ensures
        (valid_mask_prefix(b, player, n) == 0) <==> (forall|p: u64|
            p < n ==> !is_legal(b, player, p)),
    decreases n,
{
    if n > 0 {
        lemma_mask_zero_iff_none_legal(b, player, n - 1);
        if is_legal(b, player, (n - 1) as u64) {
            lemma_shl_nonzero((n - 1) as u64);
            lemma_or_zero(valid_mask_prefix(b, player, n - 1), 1u64 << ((n - 1) as u64));
        }
    }
}

/// Every entry of the legal-move list is a legal move.
pub proof fn lemma_legal_moves_elems(b: Board, player: PlayerColor, n: int)
    requires
        0 <= n <= 64,
    ensures
        forall|i: int|
            0 <= i < legal_moves_prefix(b, player, n).len() ==> (#[trigger] legal_moves_prefix(
                b,
                player,
                n,
            )[i]).position < 64 && is_legal(
                b,
                player,
                legal_moves_prefix(b, player, n)[i].position as u64,
            ),
    decreases n,
{
    if n > 0 {
        lemma_legal_moves_elems(b, player, n - 1);
        let s0 = legal_moves_prefix(b, player, n - 1);
        let s = legal_moves_prefix(b, player, n);
        assert forall|i: int| 0 <= i < s.len() implies (#[trigger] s[i]).position < 64 && is_legal(
            b,
            player,
            s[i].position as u64,
        ) by {
            if i < s0.len() {
                assert(s[i] == s0[i]);
            }
        }
    }
}

/// The legal-move list is empty exactly when the legality bitmask is zero.
pub proof fn lemma_moves_len_iff_mask(b: Board, player: PlayerColor, n: int)
    requires
        0 <= n <= 64,
    ensures
        (legal_moves_prefix(b, player, n).len() == 0) <==> (valid_mask_prefix(b, player, n) == 0),
    decreases n,
{
    if n > 0 {
        lemma_moves_len_iff_mask(b, player, n - 1);
        if is_legal(b, player, (n - 1) as u64) {
            lemma_shl_nonzero((n - 1) as u64);
            lemma_or_zero(valid_mask_prefix(b, player, n - 1), 1u64 << ((n - 1) as u64));
        }
    }
}

/// Invariant preservation: applying a legal move to a well-formed board
/// keeps the two color masks disjoint; the mover gains the placed disc plus
/// every flipped disc, the opponent loses exactly the flipped discs, and the
/// total disc count grows by one.
pub proof fn lemma_make_move_preserves(b: Board, player: PlayerColor, pos: u64)
    requires
        board_wf(b),
        is_legal(b, player, pos),
    ensures
        ({
            let after = board_after(b, player, pos);
            let f = move_flips(b, player, pos);
            &&& board_wf(after)
            &&& count_bits(own_mask(after, player), 64) == count_bits(own_mask(b, player), 64) + 1
                + count_bits(f, 64)
            &&& count_bits(opp_mask(after, player), 64) == count_bits(opp_mask(b, player), 64)
                - count_bits(f, 64)
            &&& count_bits(after.black, 64) + count_bits(after.white, 64) == count_bits(b.black, 64)
                + count_bits(b.white, 64) + 1
        }),
{
    let own = own_mask(b, player);
    let opp = opp_mask(b, player);
    let f = move_flips(b, player, pos);
    let m = 1u64 << pos;
    lemma_move_flips_subset(b, player, pos);
    let bb = b.black;
    let bw = b.white;
    assert(own & opp == 0 && opp & own == 0) by {
        assert(bb & bw == 0 ==> bw & bb == 0) by (bit_vector);
    }
    assert((bb | bw) & m == 0 ==> bb & m == 0 && bw & m == 0) by (bit_vector);
    assert(own & m == 0 && opp & m == 0);
    assert(own & f == 0 && m & f == 0 && opp & f == f) by {
        assert(f & opp == f && own & opp == 0 && opp & m == 0 ==> own & f == 0 && m & f == 0
            && opp & f == f) by (bit_vector);
    }
    assert((own | m) & f == 0) by {
        assert(own & f == 0 && m & f == 0 ==> (own | m) & f == 0) by (bit_vector);
    }
    lemma_count_disjoint_or(own, m, 64);
    lemma_count_single(pos, 64);
    lemma_count_disjoint_or(own | m, f, 64);
    lemma_count_remove(opp, f, 64);
    assert(((own | m) | f) & (opp & !f) == 0 && (opp & !f) & ((own | m) | f) == 0) by {
        assert(own & opp == 0 && opp & m == 0 && f & opp == f ==> ((own | m) | f) & (opp & !f)
            == 0 && (opp & !f) & ((own | m) | f) == 0) by (bit_vector);
    }
}

/// An illegal move leaves the board bit-for-bit unchanged, however often it
/// is attempted.
pub proof fn lemma_illegal_move_rejected(b: Board, player: PlayerColor, pos: u64)
    requires
        !is_legal(b, player, pos),
    ensures
        board_after(b, player, pos) == b,
        board_after(board_after(b, player, pos), player, pos) == b,
{
}

/// The game is over exactly when neither color has any legal move; a board
/// where only one color lacks moves is not over.
pub proof fn lemma_game_over_iff(b: Board)
    ensures
        game_over_spec(b) <==> ((forall|p: u64| p < 64 ==> !is_legal(b, PlayerColor::Black, p))
            && (forall|p: u64| p < 64 ==> !is_legal(b, PlayerColor::White, p))),
        game_over_spec(b) <==> (valid_mask(b, PlayerColor::Black) == 0 && valid_mask(
            b,
            PlayerColor::White,
        ) == 0),
{
    lemma_mask_zero_iff_none_legal(b, PlayerColor::Black, 64);
    lemma_mask_zero_iff_none_legal(b, PlayerColor::White, 64);
}

} // verus!
