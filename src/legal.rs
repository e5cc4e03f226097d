use vstd::prelude::*;
use crate::board::{Board, index_of};
use crate::check::{is_king_threatened_after_move, king_threatened_after_move};
use crate::components::{Color, LegalMove, LegalMoves, Piece, Square, on_board, sq};
use crate::moves::{find_pseudo_legal_moves, lemma_pseudo_legal_moves_sound, pseudo_legal_moves, sound_move};
use crate::resources::RightToCastle;

verus! {

/// Whether the move `m` of the piece on `from` leaves the king of `c`,
/// standing on `king`, unattacked.
pub open spec fn keeps_king_safe(b: Board, from: Square, king: Square, c: Color, m: LegalMove) -> bool {
    !king_threatened_after_move(b, from, m.destination, king, c)
}

/// The legal moves of a piece of kind `p` and color `c` on `(x, y)`: the
/// moves of its movement rules that do not leave the king of `c` attacked.
/// When `c` has no king nothing is removed.
pub open spec fn legal_moves_from(b: Board, r: RightToCastle, c: Color, p: Piece, x: int, y: int) -> Seq<LegalMove> {
    let pseudo = pseudo_legal_moves(b, r, c, p, x, y);
    match b.king_square_spec(c) {
        None => pseudo,
        Some(k) => pseudo.filter(|m: LegalMove| keeps_king_safe(b, sq(x, y), k, c, m)),
    }
}

/// The entry of the move set for the square with flat index `i`: the legal
/// moves of the piece there when it belongs to `c`, else nothing.
pub open spec fn move_set_entry(b: Board, r: RightToCastle, c: Color, i: int) -> Option<Seq<LegalMove>> {
    match b@[i] {
        Some(p) => if p.color == c {
            Some(legal_moves_from(b, r, c, p.piece, i % 8, i / 8))
        } else {
            None
        },
        None => None,
    }
}

/// The move set of side `c`: one entry per square, by flat index.
pub open spec fn move_set_spec(b: Board, r: RightToCastle, c: Color) -> Seq<Option<Seq<LegalMove>>> {
    Seq::new(64, |i: int| move_set_entry(b, r, c, i))
}

/// The view of one entry of a move set.
pub open spec fn entry_view(e: Option<LegalMoves>) -> Option<Seq<LegalMove>> {
    match e {
        Some(m) => Some(m.0@),
        None => None,
    }
}

/// The legal moves of every piece of the side to move, by square.
#[derive(Debug)]
pub struct MoveSet {
    entries: Vec<Option<LegalMoves>>,
}

impl View for MoveSet {
    type V = Seq<Option<Seq<LegalMove>>>;

    closed spec fn view(&self) -> Seq<Option<Seq<LegalMove>>> {
        self.entries@.map_values(|e: Option<LegalMoves>| entry_view(e))
    }
}

impl MoveSet {
    /// There is one entry per square, and each move is sound.
    #[verifier::type_invariant]
    spec fn inv(self) -> bool {
        &&& self.entries@.len() == 64
        &&& forall|i: int, j: int|
            #![trigger self.entries@[i]->Some_0.0@[j]]
            0 <= i < 64 && self.entries@[i] is Some && 0 <= j < self.entries@[i]->Some_0.0@.len()
                ==> sound_move(self.entries@[i]->Some_0.0@[j])
    }

    /// The moves of the piece on `s`, or `None` when no piece of the side to
    /// move stands there.
    pub fn legal_moves_at(&self, s: Square) -> (r: Option<&LegalMoves>)
        requires
            s.wf(),
        ensures
            self@.len() == 64,
            match r {
                Some(m) => self@[index_of(s.x as int, s.y as int)] == Some(m.0@),
                None => self@[index_of(s.x as int, s.y as int)] is None,
            },
            r matches Some(m) ==> forall|j: int| 0 <= j < m.0@.len() ==> sound_move(#[trigger] m.0@[j]),
    {
        proof {
            use_type_invariant(self);
        }
        self.entries[(8 * s.y + s.x) as usize].as_ref()
    }
}

/// Every legal move goes to a square of the board, and a castling move to a
/// castling square.
pub proof fn lemma_legal_moves_sound(b: Board, r: RightToCastle, c: Color, p: Piece, x: int, y: int)
    requires
        on_board(x, y),
    ensures
        forall|i: int| 0 <= i < legal_moves_from(b, r, c, p, x, y).len() ==> sound_move(
            #[trigger] legal_moves_from(b, r, c, p, x, y)[i],
        ),
{
    lemma_pseudo_legal_moves_sound(b, r, c, p, x, y);
    let pseudo = pseudo_legal_moves(b, r, c, p, x, y);
    let legal = legal_moves_from(b, r, c, p, x, y);
    match b.king_square_spec(c) {
        None => {},
        Some(k) => {
            assert forall|i: int| 0 <= i < legal.len() implies sound_move(#[trigger] legal[i]) by {
                assert(legal.contains(legal[i]));
                pseudo.lemma_filter_contains_rev(|m: LegalMove| keeps_king_safe(b, sq(x, y), k, c, m), legal[i]);
            }
        },
    }
}

/// Keeps those of `moves` that leave the king of `color`, on `king`, unattacked.
fn retain_safe_moves(moves: Vec<LegalMove>, from: Square, king: Square, color: Color, board: &Board) -> (r: Vec<LegalMove>)
    requires
        king.wf(),
        forall|i: int| 0 <= i < moves@.len() ==> sound_move(#[trigger] moves@[i]),
    ensures
        r@ == moves@.filter(|m: LegalMove| keeps_king_safe(*board, from, king, color, m)),
{
    let ghost pred = |m: LegalMove| keeps_king_safe(*board, from, king, color, m);
    let mut kept: Vec<LegalMove> = Vec::new();
    let mut i: usize = 0;
    while i < moves.len()
        invariant
            king.wf(),
            0 <= i <= moves@.len(),
            forall|i: int| 0 <= i < moves@.len() ==> sound_move(#[trigger] moves@[i]),
            pred == (|m: LegalMove| keeps_king_safe(*board, from, king, color, m)),
            kept@ == moves@.subrange(0, i as int).filter(pred),
        decreases moves@.len() - i,
    {
        let m = moves[i];
        assert(sound_move(moves@[i as int]));
        let threatened = is_king_threatened_after_move(from, m.destination, king, color, board);
        proof {
            reveal(Seq::filter);
            let prefix = moves@.subrange(0, i + 1);
            assert(prefix.drop_last() =~= moves@.subrange(0, i as int));
            assert(prefix.last() == m);
            assert(pred(m) == !threatened);
        }
        if !threatened {
            kept.push(m);
        }
        i = i + 1;
    }
    assert(moves@.subrange(0, moves@.len() as int) =~= moves@);
    kept
}

/// The legal moves of a piece of kind `piece` and color `color` on `position`,
/// with the king of `color` on `king` (no filtering when `None`).
fn find_legal_moves(
    piece: Piece,
    position: Square,
    color: Color,
    king: Option<Square>,
    right_to_castle: &RightToCastle,
    board: &Board,
) -> (r: Vec<LegalMove>)
    requires
        position.wf(),
        king == board.king_square_spec(color),
        king matches Some(k) ==> k.wf(),
    ensures
        r@ == legal_moves_from(*board, *right_to_castle, color, piece, position.x as int, position.y as int),
        forall|i: int| 0 <= i < r@.len() ==> sound_move(#[trigger] r@[i]),
{
    let pseudo = find_pseudo_legal_moves(piece, position, color, right_to_castle, board);
    proof {
        lemma_pseudo_legal_moves_sound(*board, *right_to_castle, color, piece, position.x as int, position.y as int);
        lemma_legal_moves_sound(*board, *right_to_castle, color, piece, position.x as int, position.y as int);
        assert(position == sq(position.x as int, position.y as int));
    }
    match king {
        None => pseudo,
        Some(k) => retain_safe_moves(pseudo, position, k, color, board),
    }
}

/// The legal moves of every piece of `color_to_move`: an entry per square
/// that holds a piece of that side, with the moves its movement rules allow
/// minus those that would leave its own king attacked.
pub fn generate_legal_moves(board: &Board, color_to_move: Color, right_to_castle: &RightToCastle) -> (r: MoveSet)
    ensures
        r@ == move_set_spec(*board, *right_to_castle, color_to_move),
{
    let king = board.king_square(color_to_move);
    let mut entries: Vec<Option<LegalMoves>> = Vec::new();
    let mut i: usize = 0;
    while i < 64
        invariant
            0 <= i <= 64,
            entries@.len() == i,
            king == board.king_square_spec(color_to_move),
            king matches Some(k) ==> k.wf(),
            forall|j: int| 0 <= j < i ==> entry_view(#[trigger] entries@[j]) == move_set_entry(
                *board,
                *right_to_castle,
                color_to_move,
                j,
            ),
            forall|j: int, l: int|
                #![trigger entries@[j]->Some_0.0@[l]]
                0 <= j < i && entries@[j] is Some && 0 <= l < entries@[j]->Some_0.0@.len()
                    ==> sound_move(entries@[j]->Some_0.0@[l]),
        decreases 64 - i,
    {
        let s = Square { x: (i % 8) as u32, y: (i / 8) as u32 };
        proof {
            Board::lemma_len(*board);
        }
        assert(index_of(s.x as int, s.y as int) == i);
        match board.piece_at(s) {
            Some(p) => {
                if p.color == color_to_move {
                    let moves = find_legal_moves(p.piece, s, color_to_move, king, right_to_castle, board);
                    entries.push(Some(LegalMoves(moves)));
                } else {
                    entries.push(None);
                }
            },
            None => {
                entries.push(None);
            },
        }
        i = i + 1;
    }
    let r = MoveSet { entries };
    assert(r@ =~= move_set_spec(*board, *right_to_castle, color_to_move));
    r
}

} // verus!
