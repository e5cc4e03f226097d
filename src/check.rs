use vstd::prelude::*;
use crate::board::Board;
use crate::components::{Color, GamePiece, Piece, Square, on_board, opposite};
use crate::moves::directions;

verus! {

/// Whether `(x, y)` is the square `s`.
pub open spec fn is_at(s: Square, x: int, y: int) -> bool {
    s.x as int == x && s.y as int == y
}

/// The first piece met when walking from `(x, y)` along `(dx, dy)`, at most
/// `n` steps, once the piece on `from` has moved to `to`; with it, whether
/// it was met on the first step (`adjacent` says whether the next step is the
/// first). The square `to` now holds a piece of the mover, which can threaten
/// nothing, so meeting it yields `None`; the square `from` is now empty. The
/// edge of the board yields `None` too.
pub open spec fn first_piece(
    b: Board,
    from: Square,
    to: Square,
    x: int,
    y: int,
    dx: int,
    dy: int,
    adjacent: bool,
    n: nat,
) -> Option<(GamePiece, bool)>
    decreases n,
{
    let nx = x + dx;
    let ny = y + dy;
    if n == 0 || !on_board(nx, ny) || is_at(to, nx, ny) {
        None
    } else if !is_at(from, nx, ny) && b.at(nx, ny) is Some {
        Some((b.at(nx, ny)->Some_0, adjacent))
    } else {
        first_piece(b, from, to, nx, ny, dx, dy, false, (n - 1) as nat)
    }
}

/// Whether the piece met along a line threatens the king: an enemy of kind
/// `slider` or an enemy queen at any distance, an enemy king next to it, and,
/// when `pawn_attacks`, an enemy pawn next to it.
pub open spec fn line_threat(hit: Option<(GamePiece, bool)>, enemy: Color, slider: Piece, pawn_attacks: bool) -> bool {
    match hit {
        None => false,
        Some((p, adjacent)) => p == (GamePiece { piece: slider, color: enemy }) || p == (GamePiece {
            piece: Piece::Queen,
            color: enemy,
        }) || (adjacent && p == (GamePiece { piece: Piece::King, color: enemy })) || (pawn_attacks
            && adjacent && p == (GamePiece { piece: Piece::Pawn, color: enemy })),
    }
}

/// Whether an enemy knight stands one knight's move `(dx, dy)` away from
/// `(x, y)` once the mover has gone to `to` (a knight on `to` is captured).
pub open spec fn knight_threat(b: Board, to: Square, x: int, y: int, dx: int, dy: int, enemy: Color) -> bool {
    on_board(x + dx, y + dy) && !is_at(to, x + dx, y + dy) && b.at(x + dx, y + dy) == Some(
        GamePiece { piece: Piece::Knight, color: enemy },
    )
}

/// The square of the king of `c` after the move `from` to `to`, which was on `king`.
pub open spec fn king_after(from: Square, to: Square, king: Square) -> Square {
    if from == king { to } else { king }
}

/// Whether the king of color `c`, on `king` before the move of the piece on
/// `from` to `to`, is attacked once that move is made: along the ranks and
/// files by a rook or queen (or an adjacent king); along the diagonals by a
/// bishop or queen (or an adjacent king, or an adjacent pawn that attacks
/// towards the king); or by a knight.
pub open spec fn king_threatened_after_move(b: Board, from: Square, to: Square, king: Square, c: Color) -> bool {
    let k = king_after(from, to, king);
    let x = k.x as int;
    let y = k.y as int;
    let e = opposite(c);
    let hit = |dx: int, dy: int| first_piece(b, from, to, x, y, dx, dy, true, 7);
    let kd = directions(Piece::Knight);
    line_threat(hit(0, 1), e, Piece::Rook, false) || line_threat(hit(1, 0), e, Piece::Rook, false)
        || line_threat(hit(0, -1), e, Piece::Rook, false) || line_threat(hit(-1, 0), e, Piece::Rook, false)
        || line_threat(hit(1, 1), e, Piece::Bishop, c == Color::White) || line_threat(
        hit(-1, 1),
        e,
        Piece::Bishop,
        c == Color::White,
    ) || line_threat(hit(1, -1), e, Piece::Bishop, c == Color::Black) || line_threat(
        hit(-1, -1),
        e,
        Piece::Bishop,
        c == Color::Black,
    ) || exists|i: int| 0 <= i < kd.len() && #[trigger] knight_threat(b, to, x, y, kd[i].0 as int, kd[i].1 as int, e)
}

/// The first piece met from `king` along `(dx, dy)` once the piece on `from`
/// has moved to `to`, and whether it is adjacent to `king`.
fn find_piece_in_direction(board: &Board, from: Square, to: Square, king: Square, dx: i32, dy: i32) -> (r: Option<(GamePiece, bool)>)
    requires
        king.wf(),
        -1 <= dx <= 1,
        -1 <= dy <= 1,
    ensures
        r == first_piece(*board, from, to, king.x as int, king.y as int, dx as int, dy as int, true, 7),
{
    let ghost goal = first_piece(*board, from, to, king.x as int, king.y as int, dx as int, dy as int, true, 7);
    let mut x: i32 = king.x as i32;
    let mut y: i32 = king.y as i32;
    let mut adjacent = true;
    let mut n: u32 = 7;
    while n > 0
        invariant
            on_board(x as int, y as int),
            -1 <= dx <= 1,
            -1 <= dy <= 1,
            n <= 7,
            goal == first_piece(*board, from, to, king.x as int, king.y as int, dx as int, dy as int, true, 7),
            first_piece(*board, from, to, x as int, y as int, dx as int, dy as int, adjacent, n as nat) == goal,
        decreases n,
    {
        let nx: i32 = x + dx;
        let ny: i32 = y + dy;
        if nx < 0 || nx >= 8 || ny < 0 || ny >= 8 {
            return None;
        }
        let next = Square { x: nx as u32, y: ny as u32 };
        if next == to {
            return None;
        }
        if next != from {
            match board.piece_at(next) {
                Some(p) => {
                    return Some((p, adjacent));
                },
                None => {},
            }
        }
        x = nx;
        y = ny;
        adjacent = false;
        n = n - 1;
    }
    None
}

/// Whether the piece met along a line threatens the king (see `line_threat`).
fn is_line_threat(hit: Option<(GamePiece, bool)>, enemy: Color, slider: Piece, pawn_attacks: bool) -> (r: bool)
    ensures
        r == line_threat(hit, enemy, slider, pawn_attacks),
{
    match hit {
        None => false,
        Some((p, adjacent)) => {
            p == (GamePiece { piece: slider, color: enemy }) || p == (GamePiece {
                piece: Piece::Queen,
                color: enemy,
            }) || (adjacent && p == (GamePiece { piece: Piece::King, color: enemy })) || (pawn_attacks
                && adjacent && p == (GamePiece { piece: Piece::Pawn, color: enemy }))
        },
    }
}

/// Whether, after the piece on `starting_tile` moves to `end_tile`, the king
/// of color `color`, which stood on `king_tile`, is attacked. The board
/// itself is not changed.
#[verifier::loop_isolation(false)]
pub fn is_king_threatened_after_move(
    starting_tile: Square,
    end_tile: Square,
    king_tile: Square,
    color: Color,
    board: &Board,
) -> (r: bool)
    requires
        end_tile.wf(),
        king_tile.wf(),
    ensures
        r == king_threatened_after_move(*board, starting_tile, end_tile, king_tile, color),
{
    let king = if starting_tile == king_tile { end_tile } else { king_tile };
    let enemy = color.opposite();
    let ghost x = king.x as int;
    let ghost y = king.y as int;
    let ghost kd = directions(Piece::Knight);
    let up_pawns = color == Color::White;
    let down_pawns = color == Color::Black;
    let orth = is_line_threat(find_piece_in_direction(board, starting_tile, end_tile, king, 0, 1), enemy, Piece::Rook, false)
        || is_line_threat(find_piece_in_direction(board, starting_tile, end_tile, king, 1, 0), enemy, Piece::Rook, false)
        || is_line_threat(find_piece_in_direction(board, starting_tile, end_tile, king, 0, -1), enemy, Piece::Rook, false)
        || is_line_threat(find_piece_in_direction(board, starting_tile, end_tile, king, -1, 0), enemy, Piece::Rook, false);
    if orth {
        return true;
    }
    let diag = is_line_threat(find_piece_in_direction(board, starting_tile, end_tile, king, 1, 1), enemy, Piece::Bishop, up_pawns)
        || is_line_threat(find_piece_in_direction(board, starting_tile, end_tile, king, -1, 1), enemy, Piece::Bishop, up_pawns)
        || is_line_threat(find_piece_in_direction(board, starting_tile, end_tile, king, 1, -1), enemy, Piece::Bishop, down_pawns)
        || is_line_threat(find_piece_in_direction(board, starting_tile, end_tile, king, -1, -1), enemy, Piece::Bishop, down_pawns);
    if diag {
        return true;
    }
    let knight: [(i32, i32); 8] = [(1, 2), (2, 1), (2, -1), (1, -2), (-1, -2), (-2, -1), (-2, 1), (-1, 2)];
    assert(knight@ == kd);
    let mut i: usize = 0;
    while i < 8
        invariant
            king.wf(),
            x == king.x as int,
            y == king.y as int,
            knight@ == kd,
            forall|j: int| 0 <= j < 8 ==> -2 <= #[trigger] knight@[j].0 <= 2 && -2 <= knight@[j].1 <= 2,
            0 <= i <= 8,
            forall|j: int| 0 <= j < i ==> !#[trigger] knight_threat(*board, end_tile, x, y, kd[j].0 as int, kd[j].1 as int, enemy),
        decreases 8 - i,
    {
        let (dx, dy) = knight[i];
        let nx: i32 = king.x as i32 + dx;
        let ny: i32 = king.y as i32 + dy;
        if 0 <= nx && nx < 8 && 0 <= ny && ny < 8 {
            let s = Square { x: nx as u32, y: ny as u32 };
            if s != end_tile && board.piece_at(s) == Some(GamePiece { piece: Piece::Knight, color: enemy }) {
                assert(knight_threat(*board, end_tile, x, y, kd[i as int].0 as int, kd[i as int].1 as int, enemy));
                return true;
            }
        }
        i = i + 1;
    }
    false
}

} // verus!
