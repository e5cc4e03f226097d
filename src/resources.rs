use vstd::prelude::*;
use crate::components::{Color, GamePiece, Square, opposite};

verus! {

/// The side whose turn it is.
#[derive(Clone, Copy, Debug, PartialEq, Eq, Structural)]
pub struct ColorToMove(pub Color);

impl Default for ColorToMove {
    /// White moves first.
    fn default() -> (r: Self)
        ensures
            r.0 == Color::White,
    {
        ColorToMove(Color::White)
    }
}

impl ColorToMove {
    /// Passes the turn to the other side.
    pub fn switch(&mut self)
        ensures
            final(self).0 == opposite(old(self).0),
    {
        match self.0 {
            Color::White => self.0 = Color::Black,
            Color::Black => self.0 = Color::White,
        }
    }
}

/// The piece that is being carried, if any.
#[derive(Clone, Copy, Debug, Default)]
pub struct SelectedPiece(pub Option<GamePiece>);

/// The square that the carried piece was lifted from, if any.
#[derive(Clone, Copy, Debug, Default)]
pub struct SelectedPieceOriginalPosition(pub Option<Square>);

/// Whether the legal moves must be computed again before they are read.
#[derive(Clone, Copy, Debug, PartialEq, Eq, Structural)]
pub struct MustRecalculateLegalMoves(pub bool);

impl Default for MustRecalculateLegalMoves {
    /// At the start nothing has been computed yet.
    fn default() -> (r: Self)
        ensures
            r.0,
    {
        MustRecalculateLegalMoves(true)
    }
}

/// Which castling moves each side may still make.
#[derive(Clone, Copy, Debug, PartialEq, Eq, Structural)]
pub struct RightToCastle {
    pub white_kingside: bool,
    pub white_queenside: bool,
    pub black_kingside: bool,
    pub black_queenside: bool,
}

impl Default for RightToCastle {
    /// Every right is held at the start of a game.
    fn default() -> (r: Self)
        ensures
            r.white_kingside,
            r.white_queenside,
            r.black_kingside,
            r.black_queenside,
    {
        RightToCastle {
            white_kingside: true,
            white_queenside: true,
            black_kingside: true,
            black_queenside: true,
        }
    }
}

/// The rights `r` once a move has left the square `(x, y)`: leaving a
/// corner loses the right on that rook's side, leaving a king's home square
/// loses both rights of that side.
pub open spec fn rights_after_leaving(r: RightToCastle, x: int, y: int) -> RightToCastle {
    RightToCastle {
        white_kingside: r.white_kingside && !(y == 0 && (x == 7 || x == 4)),
        white_queenside: r.white_queenside && !(y == 0 && (x == 0 || x == 4)),
        black_kingside: r.black_kingside && !(y == 7 && (x == 7 || x == 4)),
        black_queenside: r.black_queenside && !(y == 7 && (x == 0 || x == 4)),
    }
}

/// The kingside right of `c` in `r`.
pub open spec fn kingside_right(r: RightToCastle, c: Color) -> bool {
    match c {
        Color::White => r.white_kingside,
        Color::Black => r.black_kingside,
    }
}

/// The queenside right of `c` in `r`.
pub open spec fn queenside_right(r: RightToCastle, c: Color) -> bool {
    match c {
        Color::White => r.white_queenside,
        Color::Black => r.black_queenside,
    }
}

impl RightToCastle {
    /// Records that a move started on `origin`.
    pub fn revoke_for_origin(&mut self, origin: Square)
        ensures
            *final(self) == rights_after_leaving(*old(self), origin.x as int, origin.y as int),
    {
        if origin.y == 0 {
            if origin.x == 0 {
                self.white_queenside = false;
            } else if origin.x == 7 {
                self.white_kingside = false;
            } else if origin.x == 4 {
                self.white_kingside = false;
                self.white_queenside = false;
            }
        } else if origin.y == 7 {
            if origin.x == 0 {
                self.black_queenside = false;
            } else if origin.x == 7 {
                self.black_kingside = false;
            } else if origin.x == 4 {
                self.black_kingside = false;
                self.black_queenside = false;
            }
        }
    }
}

} // verus!
