use vstd::prelude::*;
use crate::board::{Board, is_enemy};
use crate::components::{Color, LegalMove, Piece, on_board, sq, step_to};
use crate::check::king_threatened_after_move;
use crate::components::{GamePiece, Square, opposite};
use crate::game::{board_after_move, castling_rook, idx, put_down_target};
use crate::legal::{MoveSet, keeps_king_safe, legal_moves_from, move_set_spec};
use crate::resources::{SelectedPiece, SelectedPieceOriginalPosition};
use crate::moves::{
    castling_moves, directions, forward, lemma_pseudo_legal_moves_sound, pseudo_legal_moves, ray,
    rays, start_rank,
};
use crate::resources::{RightToCastle, rights_after_leaving};

verus! {

/// A ray never goes past the first occupied square, and takes that square
/// exactly when it holds an enemy piece: its moves are the squares along
/// `(dx, dy)` in order; all but the last are empty; the last is empty or
/// holds an enemy; and when the ray ends on an empty square (or takes no
/// square) before its `n` steps are spent, the next square is off the board
/// or holds a piece of the mover.
pub proof fn lemma_ray_stops_at_first_piece(b: Board, c: Color, x: int, y: int, dx: int, dy: int, n: nat)
    ensures
        ({
            let r = ray(b, c, x, y, dx, dy, n);
            let k = r.len() as int;
            &&& k <= n
            &&& forall|i: int| 0 <= i < k ==> #[trigger] r[i] == step_to(x + (i + 1) * dx, y + (i + 1) * dy)
                && on_board(x + (i + 1) * dx, y + (i + 1) * dy)
            &&& forall|i: int| 0 <= i < k - 1 ==> (#[trigger] b.at(x + (i + 1) * dx, y + (i + 1) * dy)) is None
            &&& k > 0 ==> b.at(x + k * dx, y + k * dy) is None || is_enemy(b.at(x + k * dx, y + k * dy), c)
            &&& (k == 0 || b.at(x + k * dx, y + k * dy) is None) && k < n ==> !on_board(
                x + (k + 1) * dx,
                y + (k + 1) * dy,
            ) || (b.at(x + (k + 1) * dx, y + (k + 1) * dy) is Some && !is_enemy(
                b.at(x + (k + 1) * dx, y + (k + 1) * dy),
                c,
            ))
        }),
    decreases n,
{
    let r = ray(b, c, x, y, dx, dy, n);
    if n == 0 || !on_board(x + dx, y + dy) {
        assert(r.len() == 0);
        assert((0 + 1) * dx == dx && (0 + 1) * dy == dy);
    } else {
        match b.at(x + dx, y + dy) {
            None => {
                lemma_ray_stops_at_first_piece(b, c, x + dx, y + dy, dx, dy, (n - 1) as nat);
                let rest = ray(b, c, x + dx, y + dy, dx, dy, (n - 1) as nat);
                let k = r.len() as int;
                assert(r == seq![step_to(x + dx, y + dy)] + rest);
                assert forall|i: int| 0 <= i < k implies #[trigger] r[i] == step_to(x + (i + 1) * dx, y + (i + 1) * dy)
                    && on_board(x + (i + 1) * dx, y + (i + 1) * dy) by {
                    if i > 0 {
                        assert(r[i] == rest[i - 1]);
                        assert(x + dx + i * dx == x + (i + 1) * dx) by (nonlinear_arith);
                        assert(y + dy + i * dy == y + (i + 1) * dy) by (nonlinear_arith);
                    }
                }
                assert forall|i: int| 0 <= i < k - 1 implies (#[trigger] b.at(x + (i + 1) * dx, y + (i + 1) * dy)) is None by {
                    if i > 0 {
                        let j = i - 1;
                        assert(x + dx + (j + 1) * dx == x + (i + 1) * dx) by (nonlinear_arith)
                            requires i == j + 1;
                        assert(y + dy + (j + 1) * dy == y + (i + 1) * dy) by (nonlinear_arith)
                            requires i == j + 1;
                        assert(b.at(x + dx + (j + 1) * dx, y + dy + (j + 1) * dy) is None);
                    }
                }
                let k1 = k - 1;
                assert(x + dx + k1 * dx == x + k * dx) by (nonlinear_arith)
                    requires k1 == k - 1;
                assert(y + dy + k1 * dy == y + k * dy) by (nonlinear_arith)
                    requires k1 == k - 1;
                assert(x + dx + (k1 + 1) * dx == x + (k + 1) * dx) by (nonlinear_arith)
                    requires k1 == k - 1;
                assert(y + dy + (k1 + 1) * dy == y + (k + 1) * dy) by (nonlinear_arith)
                    requires k1 == k - 1;
            },
            Some(p) => {
                let k = r.len() as int;
                assert((0 + 1) * dx == dx && (0 + 1) * dy == dy);
                assert(1 * dx == dx && 1 * dy == dy);
                if p.color != c {
                    assert(r[0] == step_to(x + (0 + 1) * dx, y + (0 + 1) * dy));
                } else {
                    assert(k == 0);
                }
            },
        }
    }
}

/// The move `m` of a piece of color `c` goes to a square of the board that
/// is empty or holds an enemy piece.
pub open spec fn lands_on_board_not_friendly(b: Board, c: Color, m: LegalMove) -> bool {
    let d = m.destination;
    d.wf() && (b.at(d.x as int, d.y as int) is None || is_enemy(b.at(d.x as int, d.y as int), c))
}

proof fn lemma_ray_lands(b: Board, c: Color, x: int, y: int, dx: int, dy: int, n: nat)
    ensures
        forall|i: int| 0 <= i < ray(b, c, x, y, dx, dy, n).len() ==> lands_on_board_not_friendly(
            b,
            c,
            #[trigger] ray(b, c, x, y, dx, dy, n)[i],
        ),
    decreases n,
{
    if n > 0 && on_board(x + dx, y + dy) {
        lemma_ray_lands(b, c, x + dx, y + dy, dx, dy, (n - 1) as nat);
        let r = ray(b, c, x, y, dx, dy, n);
        let rest = ray(b, c, x + dx, y + dy, dx, dy, (n - 1) as nat);
        assert forall|i: int| 0 <= i < r.len() implies lands_on_board_not_friendly(b, c, #[trigger] r[i]) by {
            if i > 0 {
                assert(r[i] == rest[i - 1]);
            }
        }
    }
}

proof fn lemma_rays_land(b: Board, c: Color, x: int, y: int, dirs: Seq<(i32, i32)>, n: nat)
    ensures
        forall|i: int| 0 <= i < rays(b, c, x, y, dirs, n).len() ==> lands_on_board_not_friendly(
            b,
            c,
            #[trigger] rays(b, c, x, y, dirs, n)[i],
        ),
    decreases dirs.len(),
{
    if dirs.len() > 0 {
        let r = rays(b, c, x, y, dirs, n);
        let front = rays(b, c, x, y, dirs.drop_last(), n);
        let back = ray(b, c, x, y, dirs.last().0 as int, dirs.last().1 as int, n);
        lemma_rays_land(b, c, x, y, dirs.drop_last(), n);
        lemma_ray_lands(b, c, x, y, dirs.last().0 as int, dirs.last().1 as int, n);
        assert forall|i: int| 0 <= i < r.len() implies lands_on_board_not_friendly(b, c, #[trigger] r[i]) by {
            if i < front.len() {
                assert(r[i] == front[i]);
            } else {
                assert(r[i] == back[i - front.len()]);
            }
        }
    }
}

/// The legal moves of a knight or a king never leave the board and never
/// land on a piece of the mover's own color.
pub proof fn lemma_step_moves_land_well(b: Board, r: RightToCastle, c: Color, p: Piece, x: int, y: int)
    requires
        p == Piece::Knight || p == Piece::King,
        on_board(x, y),
    ensures
        forall|i: int| 0 <= i < legal_moves_from(b, r, c, p, x, y).len() ==> lands_on_board_not_friendly(
            b,
            c,
            #[trigger] legal_moves_from(b, r, c, p, x, y)[i],
        ),
{
    let pseudo = pseudo_legal_moves(b, r, c, p, x, y);
    lemma_rays_land(b, c, x, y, directions(p), 1);
    assert forall|i: int| 0 <= i < pseudo.len() implies lands_on_board_not_friendly(b, c, #[trigger] pseudo[i]) by {
        if p == Piece::King {
            let front = rays(b, c, x, y, directions(p), 1);
            if i < front.len() {
                assert(pseudo[i] == front[i]);
            } else {
                assert(pseudo[i] == castling_moves(b, r, c)[i - front.len()]);
            }
        }
    }
    let legal = legal_moves_from(b, r, c, p, x, y);
    match b.king_square_spec(c) {
        None => {},
        Some(k) => {
            assert forall|i: int| 0 <= i < legal.len() implies lands_on_board_not_friendly(b, c, #[trigger] legal[i]) by {
                assert(legal.contains(legal[i]));
                pseudo.lemma_filter_contains_rev(|m: LegalMove| keeps_king_safe(b, sq(x, y), k, c, m), legal[i]);
            }
        },
    }
}

/// Some move of `s` goes to the square with coordinates `(x, y)`.
pub open spec fn offers(s: Seq<LegalMove>, x: int, y: int) -> bool {
    exists|i: int| 0 <= i < s.len() && #[trigger] s[i].destination.x as int == x && s[i].destination.y as int == y
}

/// The moves of a pawn, split into its advances and its two captures.
proof fn lemma_pawn_parts(b: Board, r: RightToCastle, c: Color, x: int, y: int)
    requires
        on_board(x, y),
    ensures
        ({
            let d = forward(c);
            let s = pseudo_legal_moves(b, r, c, Piece::Pawn, x, y);
            let one = on_board(x, y + d) && b.at(x, y + d) is None;
            let two = one && y == start_rank(c) && b.at(x, y + 2 * d) is None;
            let left = on_board(x - 1, y + d) && is_enemy(b.at(x - 1, y + d), c);
            let right = on_board(x + 1, y + d) && is_enemy(b.at(x + 1, y + d), c);
            let n_adv: int = if two { 2 } else if one { 1 } else { 0 };
            let n_left: int = if left { 1 } else { 0 };
            &&& s.len() == n_adv + n_left + if right { 1int } else { 0 }
            &&& forall|i: int| 0 <= i < s.len() ==> (#[trigger] s[i]).destination.wf()
            &&& one ==> s[0].destination.x as int == x && s[0].destination.y as int == y + d
            &&& two ==> s[1].destination.x as int == x && s[1].destination.y as int == y + 2 * d
            &&& left ==> s[n_adv].destination.x as int == x - 1 && s[n_adv].destination.y as int == y + d
            &&& right ==> s[n_adv + n_left].destination.x as int == x + 1 && s[n_adv + n_left].destination.y as int
                == y + d
        }),
{
    lemma_pseudo_legal_moves_sound(b, r, c, Piece::Pawn, x, y);
    let d = forward(c);
    let ny = y + d;
    let s = pseudo_legal_moves(b, r, c, Piece::Pawn, x, y);
    let advance = if on_board(x, ny) && b.at(x, ny) is None {
        seq![step_to(x, ny)] + if y == start_rank(c) && b.at(x, ny + d) is None {
            seq![step_to(x, ny + d)]
        } else {
            seq![]
        }
    } else {
        seq![]
    };
    let left = if on_board(x - 1, ny) && is_enemy(b.at(x - 1, ny), c) {
        seq![step_to(x - 1, ny)]
    } else {
        seq![]
    };
    let right = if on_board(x + 1, ny) && is_enemy(b.at(x + 1, ny), c) {
        seq![step_to(x + 1, ny)]
    } else {
        seq![]
    };
    assert(s == advance + left + right);
    assert(ny + d == y + 2 * d);
    if right.len() > 0 {
        assert(s[advance.len() + left.len() as int] == right[0]);
    }
    if left.len() > 0 {
        assert(s[advance.len() as int] == left[0]);
    }
}

/// A pawn may advance two squares exactly when it stands on its color's
/// starting rank and both the square in front of it and the one beyond are
/// empty.
pub proof fn lemma_pawn_double_advance(b: Board, r: RightToCastle, c: Color, x: int, y: int)
    requires
        on_board(x, y),
    ensures
        offers(pseudo_legal_moves(b, r, c, Piece::Pawn, x, y), x, y + 2 * forward(c)) <==> (y == start_rank(c)
            && b.at(x, y + forward(c)) is None && b.at(x, y + 2 * forward(c)) is None),
{
    let d = forward(c);
    let s = pseudo_legal_moves(b, r, c, Piece::Pawn, x, y);
    lemma_pawn_parts(b, r, c, x, y);
    if y == start_rank(c) && b.at(x, y + d) is None && b.at(x, y + 2 * d) is None {
        assert(s[1].destination.x as int == x);
    }
}

/// A pawn is offered a diagonal step (`side` is -1 or 1) exactly when the
/// square there holds an enemy piece.
pub proof fn lemma_pawn_capture(b: Board, r: RightToCastle, c: Color, x: int, y: int, side: int)
    requires
        on_board(x, y),
        side == -1 || side == 1,
    ensures
        offers(pseudo_legal_moves(b, r, c, Piece::Pawn, x, y), x + side, y + forward(c)) <==> (on_board(
            x + side,
            y + forward(c),
        ) && is_enemy(b.at(x + side, y + forward(c)), c)),
{
    let d = forward(c);
    let s = pseudo_legal_moves(b, r, c, Piece::Pawn, x, y);
    lemma_pawn_parts(b, r, c, x, y);
    let one = on_board(x, y + d) && b.at(x, y + d) is None;
    let two = one && y == start_rank(c) && b.at(x, y + 2 * d) is None;
    let left = on_board(x - 1, y + d) && is_enemy(b.at(x - 1, y + d), c);
    let n_adv: int = if two { 2 } else if one { 1 } else { 0 };
    let n_left: int = if left { 1 } else { 0 };
    if on_board(x + side, y + d) && is_enemy(b.at(x + side, y + d), c) {
        if side == -1 {
            assert(s[n_adv].destination.x as int == x + side);
        } else {
            assert(s[n_adv + n_left].destination.x as int == x + side);
        }
    }
}

/// White's king is offered kingside castling exactly when White still holds
/// that right and the squares between king and rook, (5, 0) and (6, 0), are
/// empty.
pub proof fn lemma_white_kingside_castling(b: Board, r: RightToCastle, x: int, y: int)
    requires
        on_board(x, y),
    ensures
        pseudo_legal_moves(b, r, Color::White, Piece::King, x, y).contains(
            LegalMove { destination: sq(6, 0), is_castling: true },
        ) <==> (r.white_kingside && b.at(5, 0) is None && b.at(6, 0) is None),
{
    let target = LegalMove { destination: sq(6, 0), is_castling: true };
    let s = pseudo_legal_moves(b, r, Color::White, Piece::King, x, y);
    let front = rays(b, Color::White, x, y, directions(Piece::King), 1);
    let back = castling_moves(b, r, Color::White);
    lemma_pseudo_legal_moves_sound(b, r, Color::White, Piece::King, x, y);
    if r.white_kingside && b.at(5, 0) is None && b.at(6, 0) is None {
        assert(s[front.len() as int] == back[0]);
    }
    if s.contains(target) {
        let i = choose|i: int| 0 <= i < s.len() && s[i] == target;
        if i < front.len() {
            assert(s[i] == front[i]);
            crate::moves::lemma_rays_sound(b, Color::White, x, y, directions(Piece::King), 1);
        } else {
            assert(s[i] == back[i - front.len()]);
        }
    }
}

/// Castling rights are never regained: a right held after a move was held
/// before it.
pub proof fn lemma_castling_rights_never_return(r: RightToCastle, x: int, y: int)
    ensures
        rights_after_leaving(r, x, y).white_kingside ==> r.white_kingside,
        rights_after_leaving(r, x, y).white_queenside ==> r.white_queenside,
        rights_after_leaving(r, x, y).black_kingside ==> r.black_kingside,
        rights_after_leaving(r, x, y).black_queenside ==> r.black_queenside,
{
}

/// A move that leaves White's kingside corner, (7, 0), loses White's
/// kingside right whatever piece made it.
pub proof fn lemma_kingside_rook_move_loses_right(r: RightToCastle)
    ensures
        !rights_after_leaving(r, 7, 0).white_kingside,
        rights_after_leaving(r, 7, 0).white_queenside == r.white_queenside,
{
}

/// The check filter removes exactly the moves that would leave the mover's
/// king attacked: when the side has a king, every legal move keeps it
/// unattacked, and every move of the movement rules that keeps it unattacked
/// is legal.
pub proof fn lemma_legal_moves_keep_king_safe(b: Board, r: RightToCastle, c: Color, p: Piece, x: int, y: int)
    ensures
        b.king_square_spec(c) matches Some(k) ==> {
            let legal = legal_moves_from(b, r, c, p, x, y);
            let pseudo = pseudo_legal_moves(b, r, c, p, x, y);
            &&& forall|i: int| 0 <= i < legal.len() ==> !king_threatened_after_move(
                b,
                sq(x, y),
                (#[trigger] legal[i]).destination,
                k,
                c,
            )
            &&& forall|i: int| 0 <= i < pseudo.len() && !king_threatened_after_move(
                b,
                sq(x, y),
                (#[trigger] pseudo[i]).destination,
                k,
                c,
            ) ==> legal.contains(pseudo[i])
        },
{
    match b.king_square_spec(c) {
        None => {},
        Some(k) => {
            let pred = |m: LegalMove| keeps_king_safe(b, sq(x, y), k, c, m);
            let legal = legal_moves_from(b, r, c, p, x, y);
            let pseudo = pseudo_legal_moves(b, r, c, p, x, y);
            assert forall|i: int| 0 <= i < legal.len() implies !king_threatened_after_move(
                b,
                sq(x, y),
                (#[trigger] legal[i]).destination,
                k,
                c,
            ) by {
                pseudo.lemma_filter_pred(pred, i);
            }
            assert forall|i: int| 0 <= i < pseudo.len() && !king_threatened_after_move(
                b,
                sq(x, y),
                (#[trigger] pseudo[i]).destination,
                k,
                c,
            ) implies legal.contains(pseudo[i]) by {
                pseudo.lemma_filter_contains(pred, i);
            }
        },
    }
}

/// After a legal move of side `c` is put down, the side to move is the
/// other one, and the move set generated for it has no entry for any piece
/// of `c`, the moved piece included.
pub proof fn lemma_round_trip(
    b: Board,
    r: RightToCastle,
    c: Color,
    piece: GamePiece,
    origin: Square,
    tile: Square,
    after: Board,
    rights_after: RightToCastle,
)
    requires
        tile.wf(),
        piece.color == c,
        put_down_target(
            SelectedPiece(Some(piece)),
            SelectedPieceOriginalPosition(Some(origin)),
            move_set_spec(b, r, c),
            tile,
        ) is Some,
        after@ == board_after_move(
            b@,
            origin,
            tile,
            piece,
            put_down_target(
                SelectedPiece(Some(piece)),
                SelectedPieceOriginalPosition(Some(origin)),
                move_set_spec(b, r, c),
                tile,
            )->Some_0.2.is_castling,
        ),
    ensures
        opposite(c) != c,
        forall|i: int| 0 <= i < 64 && (#[trigger] move_set_spec(after, rights_after, opposite(c))[i]) is Some
            ==> (after@[i] matches Some(q) && q.color != c),
        after@[idx(tile)] == Some(piece),
        move_set_spec(after, rights_after, opposite(c))[idx(tile)] is None,
{
    Board::lemma_len(b);
    Board::lemma_len(after);
    let (p, o, m) = put_down_target(
        SelectedPiece(Some(piece)),
        SelectedPieceOriginalPosition(Some(origin)),
        move_set_spec(b, r, c),
        tile,
    )->Some_0;
    let i = idx(o);
    let ms = move_set_spec(b, r, c)[i]->Some_0;
    assert(i % 8 == o.x && i / 8 == o.y);
    crate::game::lemma_first_to(ms, tile);
    crate::legal::lemma_legal_moves_sound(b, r, c, b@[i]->Some_0.piece, i % 8, i / 8);
    let j = choose|j: int| 0 <= j < ms.len() && ms[j] == m;
    assert(crate::moves::sound_move(ms[j]));
    if m.is_castling {
        let (rook_from, rook_to, rc) = castling_rook(tile);
        assert(idx(rook_from) != idx(tile) && idx(rook_to) != idx(tile));
    }
}

/// Generating the move set twice for the same board, rights and side to
/// move gives the same move set.
pub proof fn lemma_generation_is_deterministic(
    b: Board,
    r: RightToCastle,
    c: Color,
    first: MoveSet,
    second: MoveSet,
)
    requires
        first@ == move_set_spec(b, r, c),
        second@ == move_set_spec(b, r, c),
    ensures
        first@ == second@,
{
}

} // verus!
