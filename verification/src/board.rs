//! Bitboard representation of the 8x8 Reversi board: two 64-bit masks, one
//! per color, with bit `row * 8 + col` standing for that cell.

use vstd::prelude::*;
use crate::bits::{bit64, count_bits};
use crate::bits::popcount64;

verus! {

#[derive(Clone, Copy, Debug, PartialEq, Eq, Structural)]
pub struct Board {
    pub black: u64,
    pub white: u64,
}

#[derive(Clone, Copy, Debug, PartialEq, Eq, Structural)]
pub enum PlayerColor {
    Black,
    White,
}

/// A single board position (0..64) a player may place a disc on.
#[derive(Clone, Copy, Debug, PartialEq, Eq, Structural)]
pub struct Move {
    pub position: u8,
}

impl PlayerColor {
    pub open spec fn opp_spec(self) -> PlayerColor {
        match self {
            PlayerColor::Black => PlayerColor::White,
            PlayerColor::White => PlayerColor::Black,
        }
    }

    pub fn opposite(&self) -> (r: PlayerColor)
        ensures
            r == self.opp_spec(),
    {
        match self {
            PlayerColor::Black => PlayerColor::White,
            PlayerColor::White => PlayerColor::Black,
        }
    }
}

/// `opposite` is an involution and never fixes a color.
pub proof fn lemma_opposite_involutive(c: PlayerColor)
    ensures
        c.opp_spec().opp_spec() == c,
        c.opp_spec() != c,
{
}

/// The mask of the discs `c` owns.
pub open spec fn own_mask(b: Board, c: PlayerColor) -> u64 {
    match c {
        PlayerColor::Black => b.black,
        PlayerColor::White => b.white,
    }
}

/// The mask of the discs `c`'s opponent owns.
pub open spec fn opp_mask(b: Board, c: PlayerColor) -> u64 {
    own_mask(b, c.opp_spec())
}

/// The mask of all occupied cells.
pub open spec fn occupied(b: Board) -> u64 {
    b.black | b.white
}

/// No cell is owned by both colors.
pub open spec fn board_wf(b: Board) -> bool {
    b.black & b.white == 0
}

/// The color occupying cell `p`, if any.
pub open spec fn piece_at(b: Board, p: u64) -> Option<PlayerColor> {
    if bit64(b.black, p) {
        Some(PlayerColor::Black)
    } else if bit64(b.white, p) {
        Some(PlayerColor::White)
    } else {
        None
    }
}

/// The canonical starting position: four center discs in a diagonal pattern.
pub open spec fn start_board() -> Board {
    Board { black: 0x0000000810000000u64, white: 0x0000001008000000u64 }
}

impl Board {
    pub fn new() -> (r: Self)
        ensures
            r == start_board(),
    {
        Self { black: 0x0000000810000000, white: 0x0000001008000000 }
    }

    pub fn get_piece(&self, position: u8) -> (r: Option<PlayerColor>)
        requires
            position < 64,
        ensures
            r == piece_at(*self, position as u64),
    {
        let mask = 1u64 << position;
        if self.black & mask != 0 {
            Some(PlayerColor::Black)
        } else if self.white & mask != 0 {
            Some(PlayerColor::White)
        } else {
            None
        }
    }

    pub fn is_empty(&self, position: u8) -> (r: bool)
        requires
            position < 64,
        ensures
            r == !bit64(occupied(*self), position as u64),
    {
        let mask = 1u64 << position;
        (self.black | self.white) & mask == 0
    }

    pub fn count_pieces(&self, color: PlayerColor) -> (r: u32)
        ensures
            r == count_bits(own_mask(*self, color), 64),
    {
        match color {
            PlayerColor::Black => popcount64(self.black),
            PlayerColor::White => popcount64(self.white),
        }
    }

    pub fn get_empty_squares(&self) -> (r: u64)
        ensures
            r == !(self.black | self.white),
    {
        !(self.black | self.white)
    }

    pub fn position_to_coords(position: u8) -> (r: (usize, usize))
        ensures
            r.0 == position as int / 8,
            r.1 == position as int % 8,
    {
        let row = (position / 8) as usize;
        let col = (position % 8) as usize;
        (row, col)
    }

    pub fn coords_to_position(row: usize, col: usize) -> (r: u8)
        requires
            row < 8,
            col < 8,
        ensures
            r == row * 8 + col,
    {
        (row * 8 + col) as u8
    }
}

impl Default for Board {
    fn default() -> (r: Self)
        ensures
            r == start_board(),
    {
        Self::new()
    }
}

} // verus!
