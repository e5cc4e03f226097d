use vstd::prelude::*;
use crate::components::{Color, GamePiece, Piece, Square, on_board, sq};

verus! {

/// Index in the flat square array of the square `(x, y)`.
pub open spec fn index_of(x: int, y: int) -> int {
    8 * y + x
}

/// An 8x8 board: each square holds at most one piece.
#[derive(Clone, Copy, Debug)]
pub struct Board {
    squares: [Option<GamePiece>; 64],
}

/// What a square holds, seen from one side.
#[derive(Clone, Copy, Debug, PartialEq, Eq, Structural)]
pub enum SquareStatus {
    Empty,
    Enemy,
    Friendly,
}

/// `o` holds a piece of the side that plays against `c`.
pub open spec fn is_enemy(o: Option<GamePiece>, c: Color) -> bool {
    match o {
        Some(p) => p.color != c,
        None => false,
    }
}

/// What the square content `o` is to the side `c`.
pub open spec fn status_of(o: Option<GamePiece>, c: Color) -> SquareStatus {
    match o {
        None => SquareStatus::Empty,
        Some(p) => if p.color == c { SquareStatus::Friendly } else { SquareStatus::Enemy },
    }
}

/// The first square at flat index `i` or later that holds the king of `c`.
pub open spec fn king_from(b: Seq<Option<GamePiece>>, c: Color, i: int) -> Option<Square>
    decreases 64 - i,
{
    if i >= 64 || i < 0 {
        None
    } else if b[i] == Some(GamePiece { piece: Piece::King, color: c }) {
        Some(sq(i % 8, i / 8))
    } else {
        king_from(b, c, i + 1)
    }
}

impl View for Board {
    type V = Seq<Option<GamePiece>>;

    closed spec fn view(&self) -> Seq<Option<GamePiece>> {
        self.squares@
    }
}

impl Board {
    /// The content of the square `(x, y)`; `None` off the board.
    pub open spec fn at(self, x: int, y: int) -> Option<GamePiece> {
        if on_board(x, y) {
            self@[index_of(x, y)]
        } else {
            None
        }
    }

    /// The board has 64 squares.
    pub broadcast proof fn lemma_len(b: Board)
        ensures
            (#[trigger] b@).len() == 64,
    {
    }

    /// The square of the king of `c`, found by scanning the ranks from the
    /// bottom, each from left to right.
    pub open spec fn king_square_spec(self, c: Color) -> Option<Square> {
        king_from(self@, c, 0)
    }

    /// A board with no piece on it.
    pub fn empty() -> (r: Board)
        ensures
            forall|x: int, y: int| #[trigger] r.at(x, y) == None::<GamePiece>,
    {
        Board { squares: [None; 64] }
    }

    /// The piece on square `s`, if any.
    pub fn piece_at(&self, s: Square) -> (r: Option<GamePiece>)
        requires
            s.wf(),
        ensures
            r == self.at(s.x as int, s.y as int),
    {
        self.squares[(8 * s.y + s.x) as usize]
    }

    /// Puts `p` on square `s` (`None` empties it); every other square is kept.
    pub fn set_piece(&mut self, s: Square, p: Option<GamePiece>)
        requires
            s.wf(),
        ensures
            final(self)@ == old(self)@.update(index_of(s.x as int, s.y as int), p),
            final(self).at(s.x as int, s.y as int) == p,
            forall|x: int, y: int|
                (x != s.x || y != s.y) ==> #[trigger] final(self).at(x, y) == old(self).at(x, y),
    {
        self.squares[(8 * s.y + s.x) as usize] = p;
    }

    /// Whether square `s` is empty, holds an enemy of `c`, or a piece of `c`.
    pub fn is_square_empty_or_enemy(&self, s: Square, c: Color) -> (r: SquareStatus)
        requires
            s.wf(),
        ensures
            r == status_of(self.at(s.x as int, s.y as int), c),
    {
        match self.piece_at(s) {
            None => SquareStatus::Empty,
            Some(p) => if p.color == c { SquareStatus::Friendly } else { SquareStatus::Enemy },
        }
    }

    /// The square of the king of `c`, or `None` when `c` has no king.
    pub fn king_square(&self, c: Color) -> (r: Option<Square>)
        ensures
            r == self.king_square_spec(c),
            r matches Some(k) ==> k.wf() && self.at(k.x as int, k.y as int) == Some(
                GamePiece { piece: Piece::King, color: c },
            ),
    {
        let mut i: usize = 0;
        while i < 64
            invariant
                0 <= i <= 64,
                king_from(self@, c, 0) == king_from(self@, c, i as int),
            decreases 64 - i,
        {
            if self.squares[i] == Some(GamePiece { piece: Piece::King, color: c }) {
                return Some(Square { x: (i % 8) as u32, y: (i / 8) as u32 });
            }
            i = i + 1;
        }
        None
    }
}

} // verus!
