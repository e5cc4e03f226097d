use vstd::prelude::*;
use crate::board::{Board, index_of};
use crate::components::{Color, GamePiece, LegalMove, LegalMoves, Piece, Square, on_board, opposite};
use crate::legal::{MoveSet, generate_legal_moves, move_set_spec};
use crate::moves::sound_move;
use crate::resources::{
    ColorToMove, MustRecalculateLegalMoves, RightToCastle, SelectedPiece,
    SelectedPieceOriginalPosition, rights_after_leaving,
};

verus! {

/// Flat index of the square `s`.
pub open spec fn idx(s: Square) -> int {
    index_of(s.x as int, s.y as int)
}

/// The first of `moves` that goes to `d`.
pub open spec fn first_to(moves: Seq<LegalMove>, d: Square) -> Option<LegalMove>
    decreases moves.len(),
{
    if moves.len() == 0 {
        None
    } else if moves[0].destination == d {
        Some(moves[0])
    } else {
        first_to(moves.drop_first(), d)
    }
}

/// The first move to `d` is one of `moves`, and goes to `d`.
pub proof fn lemma_first_to(moves: Seq<LegalMove>, d: Square)
    ensures
        first_to(moves, d) matches Some(m) ==> m.destination == d && moves.contains(m),
    decreases moves.len(),
{
    if moves.len() > 0 && moves[0].destination != d {
        lemma_first_to(moves.drop_first(), d);
        if first_to(moves, d) is Some {
            let m = first_to(moves, d)->Some_0;
            let j = choose|j: int| 0 <= j < moves.drop_first().len() && moves.drop_first()[j] == m;
            assert(moves[j + 1] == m);
        }
    }
}

/// For a king landing on the castling square `to`: the rook's square
/// before, its square after, and its color.
pub open spec fn castling_rook(to: Square) -> (Square, Square, Color) {
    if to.y == 0 {
        if to.x == 2 {
            (Square { x: 0, y: 0 }, Square { x: 3, y: 0 }, Color::White)
        } else {
            (Square { x: 7, y: 0 }, Square { x: 5, y: 0 }, Color::White)
        }
    } else {
        if to.x == 2 {
            (Square { x: 0, y: 7 }, Square { x: 3, y: 7 }, Color::Black)
        } else {
            (Square { x: 7, y: 7 }, Square { x: 5, y: 7 }, Color::Black)
        }
    }
}

/// The squares of `b` once `piece` has left `from` for `to`; a castling
/// move also brings the rook from its corner to the square the king passed.
pub open spec fn board_after_move(
    b: Seq<Option<GamePiece>>,
    from: Square,
    to: Square,
    piece: GamePiece,
    is_castling: bool,
) -> Seq<Option<GamePiece>> {
    let moved = b.update(idx(from), None).update(idx(to), Some(piece));
    if is_castling {
        let (rook_from, rook_to, c) = castling_rook(to);
        moved.update(idx(rook_from), None).update(idx(rook_to), Some(GamePiece { piece: Piece::Rook, color: c }))
    } else {
        moved
    }
}

/// The entry `e` of a move set lists at least one move.
pub open spec fn has_moves(e: Option<Seq<LegalMove>>) -> bool {
    match e {
        Some(ms) => ms.len() > 0,
        None => false,
    }
}

/// The first move of `moves` that goes to `destination`, if any.
pub fn find_legal_move(moves: &LegalMoves, destination: Square) -> (r: Option<LegalMove>)
    ensures
        r == first_to(moves.0@, destination),
        r matches Some(m) ==> m.destination == destination && exists|j: int|
            0 <= j < moves.0@.len() && moves.0@[j] == m,
{
    let mut i: usize = 0;
    assert(moves.0@.subrange(0, moves.0@.len() as int) =~= moves.0@);
    while i < moves.0.len()
        invariant
            0 <= i <= moves.0@.len(),
            first_to(moves.0@, destination) == first_to(moves.0@.subrange(i as int, moves.0@.len() as int), destination),
        decreases moves.0@.len() - i,
    {
        let m = moves.0[i];
        let ghost rest = moves.0@.subrange(i as int, moves.0@.len() as int);
        if m.destination == destination {
            assert(moves.0@[i as int] == m);
            return Some(m);
        }
        assert(rest.drop_first() =~= moves.0@.subrange(i + 1, moves.0@.len() as int));
        i = i + 1;
    }
    None
}

/// Lifts the piece on `tile` when nothing is carried yet and the piece has
/// at least one legal move; says whether it did.
pub fn pick_up_piece(
    selected_piece: &mut SelectedPiece,
    selected_piece_original_position: &mut SelectedPieceOriginalPosition,
    board: &Board,
    moves: &MoveSet,
    tile: Square,
) -> (picked: bool)
    requires
        tile.wf(),
    ensures
        picked == (old(selected_piece).0 is None && board.at(tile.x as int, tile.y as int) is Some
            && has_moves(moves@[idx(tile)])),
        picked ==> final(selected_piece).0 == board.at(tile.x as int, tile.y as int)
            && final(selected_piece_original_position).0 == Some(tile),
        !picked ==> *final(selected_piece) == *old(selected_piece)
            && *final(selected_piece_original_position) == *old(selected_piece_original_position),
{
    if selected_piece.0.is_some() {
        return false;
    }
    let piece = board.piece_at(tile);
    if piece.is_none() {
        return false;
    }
    match moves.legal_moves_at(tile) {
        Some(legal_moves) => {
            if legal_moves.0.len() == 0 {
                return false;
            }
        },
        None => {
            return false;
        },
    }
    *selected_piece = SelectedPiece(piece);
    *selected_piece_original_position = SelectedPieceOriginalPosition(Some(tile));
    true
}

/// What a put-down on `tile` completes, if anything: the carried piece, the
/// square it was lifted from, and the first legal move of that square that
/// goes to `tile`.
pub open spec fn put_down_target(
    selected: SelectedPiece,
    original: SelectedPieceOriginalPosition,
    moves: Seq<Option<Seq<LegalMove>>>,
    tile: Square,
) -> Option<(GamePiece, Square, LegalMove)> {
    match (selected.0, original.0) {
        (Some(p), Some(o)) => if o.wf() {
            match moves[idx(o)] {
                Some(ms) => match first_to(ms, tile) {
                    Some(m) => Some((p, o, m)),
                    None => None,
                },
                None => None,
            }
        } else {
            None
        },
        _ => None,
    }
}

/// Puts the carried piece down on `tile` when that completes one of its
/// legal moves: the piece leaves its square for `tile` (a castling move
/// brings the rook along), castling rights are revoked for the square it
/// left, nothing is carried any more, the turn passes and the legal moves
/// must be computed again. Otherwise nothing changes. Says whether the move
/// was made.
pub fn put_down_piece(
    selected_piece: &mut SelectedPiece,
    selected_piece_original_position: &mut SelectedPieceOriginalPosition,
    board: &mut Board,
    right_to_castle: &mut RightToCastle,
    color_to_move: &mut ColorToMove,
    must_recalculate_legal_moves: &mut MustRecalculateLegalMoves,
    moves: &MoveSet,
    tile: Square,
) -> (moved: bool)
    requires
        tile.wf(),
    ensures
        moved == put_down_target(*old(selected_piece), *old(selected_piece_original_position), moves@, tile) is Some,
        match put_down_target(*old(selected_piece), *old(selected_piece_original_position), moves@, tile) {
            Some((p, o, m)) => {
                &&& final(board)@ == board_after_move(old(board)@, o, tile, p, m.is_castling)
                &&& *final(right_to_castle) == rights_after_leaving(*old(right_to_castle), o.x as int, o.y as int)
                &&& final(selected_piece).0 is None
                &&& final(selected_piece_original_position).0 is None
                &&& final(color_to_move).0 == opposite(old(color_to_move).0)
                &&& final(must_recalculate_legal_moves).0
            },
            None => {
                &&& *final(board) == *old(board)
                &&& *final(right_to_castle) == *old(right_to_castle)
                &&& *final(selected_piece) == *old(selected_piece)
                &&& *final(selected_piece_original_position) == *old(selected_piece_original_position)
                &&& *final(color_to_move) == *old(color_to_move)
                &&& *final(must_recalculate_legal_moves) == *old(must_recalculate_legal_moves)
            },
        },
{
    let piece = match selected_piece.0 {
        Some(p) => p,
        None => {
            return false;
        },
    };
    let origin = match selected_piece_original_position.0 {
        Some(o) => o,
        None => {
            return false;
        },
    };
    if origin.x >= 8 || origin.y >= 8 {
        return false;
    }
    let legal_moves = match moves.legal_moves_at(origin) {
        Some(l) => l,
        None => {
            return false;
        },
    };
    let legal_move = match find_legal_move(legal_moves, tile) {
        Some(m) => m,
        None => {
            return false;
        },
    };
    assert(sound_move(legal_move));
    board.set_piece(origin, None);
    board.set_piece(tile, Some(piece));
    if legal_move.is_castling {
        let (rook_from, rook_to, color) = if tile.y == 0 {
            if tile.x == 2 {
                (Square { x: 0, y: 0 }, Square { x: 3, y: 0 }, Color::White)
            } else {
                (Square { x: 7, y: 0 }, Square { x: 5, y: 0 }, Color::White)
            }
        } else {
            if tile.x == 2 {
                (Square { x: 0, y: 7 }, Square { x: 3, y: 7 }, Color::Black)
            } else {
                (Square { x: 7, y: 7 }, Square { x: 5, y: 7 }, Color::Black)
            }
        };
        board.set_piece(rook_from, None);
        board.set_piece(rook_to, Some(GamePiece { piece: Piece::Rook, color }));
    }
    right_to_castle.revoke_for_origin(origin);
    *selected_piece = SelectedPiece(None);
    *selected_piece_original_position = SelectedPieceOriginalPosition(None);
    color_to_move.switch();
    *must_recalculate_legal_moves = MustRecalculateLegalMoves(true);
    true
}

/// The piece that stands on `(x, y)` when a game starts.
pub open spec fn starting_piece(x: int, y: int) -> Option<GamePiece> {
    let back_rank = if x == 0 || x == 7 {
        Piece::Rook
    } else if x == 1 || x == 6 {
        Piece::Knight
    } else if x == 2 || x == 5 {
        Piece::Bishop
    } else if x == 3 {
        Piece::Queen
    } else {
        Piece::King
    };
    if y == 0 {
        Some(GamePiece { piece: back_rank, color: Color::White })
    } else if y == 1 {
        Some(GamePiece { piece: Piece::Pawn, color: Color::White })
    } else if y == 6 {
        Some(GamePiece { piece: Piece::Pawn, color: Color::Black })
    } else if y == 7 {
        Some(GamePiece { piece: back_rank, color: Color::Black })
    } else {
        None
    }
}

/// The piece that stands on `(x, y)` when a game starts.
fn starting_piece_at(x: u32, y: u32) -> (r: Option<GamePiece>)
    ensures
        r == starting_piece(x as int, y as int),
{
    let back_rank = if x == 0 || x == 7 {
        Piece::Rook
    } else if x == 1 || x == 6 {
        Piece::Knight
    } else if x == 2 || x == 5 {
        Piece::Bishop
    } else if x == 3 {
        Piece::Queen
    } else {
        Piece::King
    };
    if y == 0 {
        Some(GamePiece { piece: back_rank, color: Color::White })
    } else if y == 1 {
        Some(GamePiece { piece: Piece::Pawn, color: Color::White })
    } else if y == 6 {
        Some(GamePiece { piece: Piece::Pawn, color: Color::Black })
    } else if y == 7 {
        Some(GamePiece { piece: back_rank, color: Color::Black })
    } else {
        None
    }
}

/// The board at the start of a game.
pub fn setup_pieces() -> (r: Board)
    ensures
        forall|x: int, y: int| on_board(x, y) ==> #[trigger] r.at(x, y) == starting_piece(x, y),
{
    let mut board = Board::empty();
    let mut i: u32 = 0;
    while i < 64
        invariant
            0 <= i <= 64,
            forall|j: int| 0 <= j < i ==> #[trigger] board@[j] == starting_piece(j % 8, j / 8),
        decreases 64 - i,
    {
        let s = Square { x: i % 8, y: i / 8 };
        proof {
            Board::lemma_len(board);
        }
        assert(index_of(s.x as int, s.y as int) == i);
        board.set_piece(s, starting_piece_at(i % 8, i / 8));
        i = i + 1;
    }
    assert forall|x: int, y: int| on_board(x, y) implies #[trigger] board.at(x, y) == starting_piece(x, y) by {
        let j = index_of(x, y);
        assert(j % 8 == x && j / 8 == y);
    }
    board
}

/// Whether some move of `moves` goes to `tile`.
pub open spec fn is_destination(moves: Seq<LegalMove>, tile: Square) -> bool {
    exists|j: int| 0 <= j < moves.len() && #[trigger] moves[j].destination == tile
}

/// The texture of `tile`: light or dark by the parity of its coordinates,
/// in the mouseover shade under the cursor, else in the highlight shade when
/// it is a destination of the piece under the cursor.
pub open spec fn tile_texture(tile: Square, mouseover: Option<Square>, destinations: Option<Seq<LegalMove>>) -> int {
    let shade = (tile.x as int + tile.y as int) % 2;
    if mouseover == Some(tile) {
        shade + 2
    } else if destinations matches Some(ms) && is_destination(ms, tile) {
        shade + 4
    } else {
        shade
    }
}

/// The texture index of `tile`, given the square under the cursor and the
/// legal moves of the piece there.
#[verifier::loop_isolation(false)]
pub fn highlight_tile(tile: Square, mouseover: Option<Square>, legal_moves: Option<&LegalMoves>) -> (r: u32)
    requires
        tile.wf(),
    ensures
        r as int == tile_texture(
            tile,
            mouseover,
            match legal_moves {
                Some(lm) => Some(lm.0@),
                None => None,
            },
        ),
{
    let shade = (tile.x + tile.y) % 2;
    if mouseover == Some(tile) {
        return shade + 2;
    }
    match legal_moves {
        Some(lm) => {
            let mut i: usize = 0;
            while i < lm.0.len()
                invariant
                    0 <= i <= lm.0@.len(),
                    forall|j: int| 0 <= j < i ==> #[trigger] lm.0@[j].destination != tile,
                decreases lm.0@.len() - i,
            {
                if lm.0[i].destination == tile {
                    assert(lm.0@[i as int].destination == tile);
                    return shade + 4;
                }
                i = i + 1;
            }
            shade
        },
        None => shade,
    }
}

/// Computes the legal moves of the side to move when they must be computed
/// again, and then clears that need; returns `None` when they need not be.
pub fn recalculate_legal_moves(
    must_recalculate_legal_moves: &mut MustRecalculateLegalMoves,
    color_to_move: &ColorToMove,
    right_to_castle: &RightToCastle,
    board: &Board,
) -> (r: Option<MoveSet>)
    ensures
        !final(must_recalculate_legal_moves).0,
        old(must_recalculate_legal_moves).0 <==> r is Some,
        r matches Some(ms) ==> ms@ == move_set_spec(*board, *right_to_castle, color_to_move.0),
{
    if must_recalculate_legal_moves.0 {
        let moves = generate_legal_moves(board, color_to_move.0, right_to_castle);
        *must_recalculate_legal_moves = MustRecalculateLegalMoves(false);
        Some(moves)
    } else {
        None
    }
}

} // verus!
