use vstd::prelude::*;

verus! {

/// The kind of a chess piece.
#[derive(Clone, Copy, Debug, PartialEq, Eq, Structural)]
pub enum Piece {
    Bishop,
    King,
    Knight,
    Pawn,
    Queen,
    Rook,
}

/// The side a piece belongs to.
#[derive(Clone, Copy, Debug, PartialEq, Eq, Structural)]
pub enum Color {
    White,
    Black,
}

/// The color that plays against `c`.
pub open spec fn opposite(c: Color) -> Color {
    match c {
        Color::White => Color::Black,
        Color::Black => Color::White,
    }
}

impl Color {
    /// The other side.
    pub fn opposite(&self) -> (r: Color)
        ensures
            r == opposite(*self),
    {
        match self {
            Color::White => Color::Black,
            Color::Black => Color::White,
        }
    }
}

/// A piece of a given kind and color, as it stands on a square.
#[derive(Clone, Copy, Debug, PartialEq, Eq, Structural)]
pub struct GamePiece {
    pub piece: Piece,
    pub color: Color,
}

/// The sprite file that shows a piece of kind `p` and color `c`.
pub open spec fn asset_path(p: Piece, c: Color) -> Seq<char> {
    match (p, c) {
        (Piece::Bishop, Color::White) => "pieces/bishop_white.png"@,
        (Piece::King, Color::White) => "pieces/king_white.png"@,
        (Piece::Knight, Color::White) => "pieces/knight_white.png"@,
        (Piece::Pawn, Color::White) => "pieces/pawn_white.png"@,
        (Piece::Queen, Color::White) => "pieces/queen_white.png"@,
        (Piece::Rook, Color::White) => "pieces/rook_white.png"@,
        (Piece::Bishop, Color::Black) => "pieces/bishop_black.png"@,
        (Piece::King, Color::Black) => "pieces/king_black.png"@,
        (Piece::Knight, Color::Black) => "pieces/knight_black.png"@,
        (Piece::Pawn, Color::Black) => "pieces/pawn_black.png"@,
        (Piece::Queen, Color::Black) => "pieces/queen_black.png"@,
        (Piece::Rook, Color::Black) => "pieces/rook_black.png"@,
    }
}

impl GamePiece {
    /// Path of the sprite that shows this piece.
    pub fn get_asset_path(&self) -> (r: &'static str)
        ensures
            r@ == asset_path(self.piece, self.color),
    {
        match (self.piece, self.color) {
            (Piece::Bishop, Color::White) => "pieces/bishop_white.png",
            (Piece::King, Color::White) => "pieces/king_white.png",
            (Piece::Knight, Color::White) => "pieces/knight_white.png",
            (Piece::Pawn, Color::White) => "pieces/pawn_white.png",
            (Piece::Queen, Color::White) => "pieces/queen_white.png",
            (Piece::Rook, Color::White) => "pieces/rook_white.png",
            (Piece::Bishop, Color::Black) => "pieces/bishop_black.png",
            (Piece::King, Color::Black) => "pieces/king_black.png",
            (Piece::Knight, Color::Black) => "pieces/knight_black.png",
            (Piece::Pawn, Color::Black) => "pieces/pawn_black.png",
            (Piece::Queen, Color::Black) => "pieces/queen_black.png",
            (Piece::Rook, Color::Black) => "pieces/rook_black.png",
        }
    }
}

/// A square of the board: `x` is the file and `y` the rank, both counted
/// from zero at White's queenside corner.
#[derive(Clone, Copy, Debug, PartialEq, Eq, Structural)]
pub struct Square {
    pub x: u32,
    pub y: u32,
}

/// Whether the integer coordinates `(x, y)` name a square of the 8x8 board.
pub open spec fn on_board(x: int, y: int) -> bool {
    0 <= x < 8 && 0 <= y < 8
}

impl Square {
    /// The square lies on the board.
    pub open spec fn wf(self) -> bool {
        on_board(self.x as int, self.y as int)
    }
}

/// The square with coordinates `(x, y)`.
pub open spec fn sq(x: int, y: int) -> Square {
    Square { x: x as u32, y: y as u32 }
}

/// A destination that a piece may move to. A castling move also moves a rook.
#[derive(Clone, Copy, Debug, PartialEq, Eq, Structural)]
pub struct LegalMove {
    pub destination: Square,
    pub is_castling: bool,
}

/// The ordinary (non-castling) move to `(x, y)`.
pub open spec fn step_to(x: int, y: int) -> LegalMove {
    LegalMove { destination: sq(x, y), is_castling: false }
}

/// The moves of one piece, in the order in which they were found.
#[derive(Clone, Debug)]
pub struct LegalMoves(pub Vec<LegalMove>);

} // verus!
