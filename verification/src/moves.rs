//! Plain data for chess-variant moves.
//!
//! A move is either a board move (origin, destination, optional promotion
//! role) or a drop of a pocketed piece onto a square. Two moves are equal
//! iff those components are equal. Squares are numbered 0 (a1) to 63 (h8).

use vstd::prelude::*;

verus! {

/// A piece type.
#[derive(Clone, Copy, PartialEq, Eq, Structural, Debug)]
pub enum Role {
    Pawn,
    Knight,
    Bishop,
    Rook,
    Queen,
    King,
}

impl Role {
    /// The role for the engine's index 1 (pawn) through 6 (king).
    /// Indices outside that range give a pawn.
    pub fn from_index(n: u8) -> (r: Role)
        ensures
            r == Role::spec_from_index(n as int),
    {
        match n {
            2 => Role::Knight,
            3 => Role::Bishop,
            4 => Role::Rook,
            5 => Role::Queen,
            6 => Role::King,
            _ => Role::Pawn,
        }
    }

    pub open spec fn spec_from_index(n: int) -> Role {
        if n == 2 {
            Role::Knight
        } else if n == 3 {
            Role::Bishop
        } else if n == 4 {
            Role::Rook
        } else if n == 5 {
            Role::Queen
        } else if n == 6 {
            Role::King
        } else {
            Role::Pawn
        }
    }
}

/// A move as the trainee and the puzzles see it.
#[derive(Clone, Copy, PartialEq, Eq, Structural, Debug)]
pub enum PuzzleMove {
    /// A move of a piece already on the board. For a castling move the
    /// origin is the king's square and the destination the rook's square.
    Board { from: u8, to: u8, promotion: Option<Role> },
    /// A drop of a pocketed piece onto a square.
    Put { role: Role, to: u8 },
}

} // verus!
