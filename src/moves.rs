use vstd::prelude::*;
use crate::board::{Board, is_enemy};
use crate::components::{Color, LegalMove, Piece, Square, on_board, sq, step_to};
use crate::resources::{RightToCastle, kingside_right, queenside_right};

verus! {

/// How many steps a piece may take along one direction: a sliding piece
/// goes on until it is stopped, a stepping piece takes one step.
pub open spec fn reach(keep_going: bool) -> nat {
    if keep_going { 7 } else { 1 }
}

/// The moves from `(x, y)` along `(dx, dy)` for a piece of color `c`, taking
/// at most `n` steps: each empty square is a destination and the ray goes on;
/// the first occupied square ends it, and is a destination (a capture) only
/// when it holds an enemy piece; the edge of the board ends it too.
pub open spec fn ray(b: Board, c: Color, x: int, y: int, dx: int, dy: int, n: nat) -> Seq<LegalMove>
    decreases n,
{
    if n == 0 || !on_board(x + dx, y + dy) {
        seq![]
    } else {
        match b.at(x + dx, y + dy) {
            None => seq![step_to(x + dx, y + dy)] + ray(b, c, x + dx, y + dy, dx, dy, (n - 1) as nat),
            Some(p) => if p.color != c { seq![step_to(x + dx, y + dy)] } else { seq![] },
        }
    }
}

/// Appends to `legal_moves` the moves of a piece of color `color` on
/// `position` along the direction `(dx, dy)`; with `keep_going` the piece
/// slides, else it takes a single step.
pub fn find_legal_moves_in_direction(
    dx: i32,
    dy: i32,
    keep_going: bool,
    legal_moves: &mut Vec<LegalMove>,
    position: Square,
    color: Color,
    board: &Board,
)
    requires
        position.wf(),
        -2 <= dx <= 2,
        -2 <= dy <= 2,
    ensures
        final(legal_moves)@ == old(legal_moves)@ + ray(
            *board,
            color,
            position.x as int,
            position.y as int,
            dx as int,
            dy as int,
            reach(keep_going),
        ),
{
    let ghost total = old(legal_moves)@ + ray(
        *board,
        color,
        position.x as int,
        position.y as int,
        dx as int,
        dy as int,
        reach(keep_going),
    );
    let mut x: i32 = position.x as i32;
    let mut y: i32 = position.y as i32;
    let mut n: u32 = if keep_going { 7 } else { 1 };
    loop
        invariant_except_break
            legal_moves@ + ray(*board, color, x as int, y as int, dx as int, dy as int, n as nat)
                == total,
        invariant
            on_board(x as int, y as int),
            -2 <= dx <= 2,
            -2 <= dy <= 2,
            n <= 7,
        ensures
            legal_moves@ == total,
        decreases n,
    {
        if n == 0 {
            assert(legal_moves@ =~= total);
            break;
        }
        let nx: i32 = x + dx;
        let ny: i32 = y + dy;
        if nx < 0 || nx >= 8 || ny < 0 || ny >= 8 {
            assert(legal_moves@ =~= total);
            break;
        }
        let s = Square { x: nx as u32, y: ny as u32 };
        match board.piece_at(s) {
            None => {
                legal_moves.push(LegalMove { destination: s, is_castling: false });
                proof {
                    assert(s == sq(nx as int, ny as int));
                    assert(legal_moves@ + ray(*board, color, nx as int, ny as int, dx as int, dy as int, (n - 1) as nat)
                        =~= total);
                }
                x = nx;
                y = ny;
                n = n - 1;
            },
            Some(p) => {
                if p.color != color {
                    legal_moves.push(LegalMove { destination: s, is_castling: false });
                }
                assert(legal_moves@ =~= total);
                break;
            },
        }
    }
}

/// The direction in which pawns of color `c` advance along the ranks.
pub open spec fn forward(c: Color) -> int {
    match c {
        Color::White => 1,
        Color::Black => -1,
    }
}

/// The rank that pawns of color `c` start on.
pub open spec fn start_rank(c: Color) -> int {
    match c {
        Color::White => 1,
        Color::Black => 6,
    }
}

/// The moves of a pawn of color `c` on `(x, y)`: one step forward onto an
/// empty square, then, from the starting rank, a second step onto an empty
/// square; and a step forward on either diagonal onto an enemy piece.
pub open spec fn pawn_moves(b: Board, c: Color, x: int, y: int) -> Seq<LegalMove> {
    let d = forward(c);
    let ny = y + d;
    let advance = if on_board(x, ny) && b.at(x, ny) is None {
        seq![step_to(x, ny)] + if y == start_rank(c) && b.at(x, ny + d) is None {
            seq![step_to(x, ny + d)]
        } else {
            seq![]
        }
    } else {
        seq![]
    };
    let left = if on_board(x - 1, ny) && is_enemy(b.at(x - 1, ny), c) {
        seq![step_to(x - 1, ny)]
    } else {
        seq![]
    };
    let right = if on_board(x + 1, ny) && is_enemy(b.at(x + 1, ny), c) {
        seq![step_to(x + 1, ny)]
    } else {
        seq![]
    };
    advance + left + right
}

/// Appends to `legal_moves` the moves of a pawn of color `color` on `position`.
pub fn find_legal_pawn_moves(
    legal_moves: &mut Vec<LegalMove>,
    position: Square,
    color: Color,
    board: &Board,
)
    requires
        position.wf(),
    ensures
        final(legal_moves)@ == old(legal_moves)@ + pawn_moves(
            *board,
            color,
            position.x as int,
            position.y as int,
        ),
{
    let ghost b = *board;
    let ghost x = position.x as int;
    let ghost y = position.y as int;
    let ghost start = legal_moves@;
    let d: i32 = match color {
        Color::White => 1,
        Color::Black => -1,
    };
    let px = position.x as i32;
    let ny: i32 = position.y as i32 + d;
    if 0 <= ny && ny < 8 {
        let ahead = Square { x: position.x, y: ny as u32 };
        if board.piece_at(ahead).is_none() {
            legal_moves.push(LegalMove { destination: ahead, is_castling: false });
            let on_start = match color {
                Color::White => position.y == 1,
                Color::Black => position.y == 6,
            };
            if on_start {
                let two_ahead = Square { x: position.x, y: (ny + d) as u32 };
                if board.piece_at(two_ahead).is_none() {
                    legal_moves.push(LegalMove { destination: two_ahead, is_castling: false });
                }
            }
        }
    }
    let ghost after_advance = legal_moves@;
    if px >= 1 && 0 <= ny && ny < 8 {
        let target = Square { x: (px - 1) as u32, y: ny as u32 };
        match board.piece_at(target) {
            Some(p) => {
                if p.color != color {
                    legal_moves.push(LegalMove { destination: target, is_castling: false });
                }
            },
            None => {},
        }
    }
    let ghost after_left = legal_moves@;
    if px + 1 < 8 && 0 <= ny && ny < 8 {
        let target = Square { x: (px + 1) as u32, y: ny as u32 };
        match board.piece_at(target) {
            Some(p) => {
                if p.color != color {
                    legal_moves.push(LegalMove { destination: target, is_castling: false });
                }
            },
            None => {},
        }
    }
    proof {
        let nyi = y + forward(color);
        let advance = if on_board(x, nyi) && b.at(x, nyi) is None {
            seq![step_to(x, nyi)] + if y == start_rank(color) && b.at(x, nyi + forward(color)) is None {
                seq![step_to(x, nyi + forward(color))]
            } else {
                seq![]
            }
        } else {
            seq![]
        };
        let left = if on_board(x - 1, nyi) && is_enemy(b.at(x - 1, nyi), color) {
            seq![step_to(x - 1, nyi)]
        } else {
            seq![]
        };
        let right = if on_board(x + 1, nyi) && is_enemy(b.at(x + 1, nyi), color) {
            seq![step_to(x + 1, nyi)]
        } else {
            seq![]
        };
        assert(after_advance =~= start + advance);
        assert(after_left =~= start + advance + left);
        assert(legal_moves@ =~= start + advance + left + right);
    }
}

/// The rank that the king and rooks of color `c` start on.
pub open spec fn home_rank(c: Color) -> int {
    match c {
        Color::White => 0,
        Color::Black => 7,
    }
}

/// The castling moves of the king of color `c`: kingside to file 6 when the
/// right is held and files 5 and 6 of the home rank are empty, queenside to
/// file 2 when the right is held and files 1, 2 and 3 are empty. Whether the
/// squares are attacked is left to the check filter.
pub open spec fn castling_moves(b: Board, r: RightToCastle, c: Color) -> Seq<LegalMove> {
    let row = home_rank(c);
    let kingside = if kingside_right(r, c) && b.at(5, row) is None && b.at(6, row) is None {
        seq![LegalMove { destination: sq(6, row), is_castling: true }]
    } else {
        seq![]
    };
    let queenside = if queenside_right(r, c) && b.at(1, row) is None && b.at(2, row) is None
        && b.at(3, row) is None {
        seq![LegalMove { destination: sq(2, row), is_castling: true }]
    } else {
        seq![]
    };
    kingside + queenside
}

/// Appends to `legal_moves` the castling moves of the king of color `color`.
pub fn find_legal_castling_moves(
    legal_moves: &mut Vec<LegalMove>,
    right_to_castle: &RightToCastle,
    color: Color,
    board: &Board,
)
    ensures
        final(legal_moves)@ == old(legal_moves)@ + castling_moves(*board, *right_to_castle, color),
{
    let ghost start = legal_moves@;
    let row: u32 = match color {
        Color::White => 0,
        Color::Black => 7,
    };
    let (kingside, queenside) = match color {
        Color::White => (right_to_castle.white_kingside, right_to_castle.white_queenside),
        Color::Black => (right_to_castle.black_kingside, right_to_castle.black_queenside),
    };
    if kingside && board.piece_at(Square { x: 5, y: row }).is_none() && board.piece_at(
        Square { x: 6, y: row },
    ).is_none() {
        legal_moves.push(LegalMove { destination: Square { x: 6, y: row }, is_castling: true });
    }
    let ghost after_kingside = legal_moves@;
    if queenside && board.piece_at(Square { x: 1, y: row }).is_none() && board.piece_at(
        Square { x: 2, y: row },
    ).is_none() && board.piece_at(Square { x: 3, y: row }).is_none() {
        legal_moves.push(LegalMove { destination: Square { x: 2, y: row }, is_castling: true });
    }
    proof {
        let b = *board;
        let r = home_rank(color);
        let ks = if kingside_right(*right_to_castle, color) && b.at(5, r) is None && b.at(6, r) is None {
            seq![LegalMove { destination: sq(6, r), is_castling: true }]
        } else {
            seq![]
        };
        assert(after_kingside =~= start + ks);
        assert(legal_moves@ =~= start + castling_moves(b, *right_to_castle, color));
    }
}

/// The directions that a piece of kind `p` moves along (none for a pawn,
/// whose moves depend on its color).
pub open spec fn directions(p: Piece) -> Seq<(i32, i32)> {
    match p {
        Piece::Rook => seq![(0i32, 1i32), (1i32, 0i32), (0i32, -1i32), (-1i32, 0i32)],
        Piece::Bishop => seq![(1i32, 1i32), (1i32, -1i32), (-1i32, -1i32), (-1i32, 1i32)],
        Piece::Knight => seq![(1i32, 2i32), (2i32, 1i32), (2i32, -1i32), (1i32, -2i32), (-1i32, -2i32), (-2i32, -1i32), (-2i32, 1i32), (-1i32, 2i32)],
        Piece::Queen | Piece::King => seq![(0i32, 1i32), (1i32, 1i32), (1i32, 0i32), (1i32, -1i32), (0i32, -1i32), (-1i32, -1i32), (-1i32, 0i32), (-1i32, 1i32)],
        Piece::Pawn => seq![],
    }
}

/// Rooks, bishops and queens slide; knights and kings step.
pub open spec fn slides(p: Piece) -> bool {
    match p {
        Piece::Rook | Piece::Bishop | Piece::Queen => true,
        _ => false,
    }
}

/// The rays from `(x, y)` along each of `dirs` in turn, each of at most `n` steps.
pub open spec fn rays(b: Board, c: Color, x: int, y: int, dirs: Seq<(i32, i32)>, n: nat) -> Seq<LegalMove>
    decreases dirs.len(),
{
    if dirs.len() == 0 {
        seq![]
    } else {
        rays(b, c, x, y, dirs.drop_last(), n) + ray(b, c, x, y, dirs.last().0 as int, dirs.last().1 as int, n)
    }
}

/// The moves of a piece of kind `p` and color `c` on `(x, y)` by its
/// movement rules alone, before the check filter: the pawn's own rules;
/// rays or steps along the piece's directions; and for a king its castling
/// moves after its steps.
pub open spec fn pseudo_legal_moves(b: Board, r: RightToCastle, c: Color, p: Piece, x: int, y: int) -> Seq<LegalMove> {
    match p {
        Piece::Pawn => pawn_moves(b, c, x, y),
        Piece::King => rays(b, c, x, y, directions(p), 1) + castling_moves(b, r, c),
        _ => rays(b, c, x, y, directions(p), reach(slides(p))),
    }
}

/// Appends to `legal_moves` the moves along each direction of `dirs`.
fn find_legal_moves_in_directions(
    dirs: &[(i32, i32)],
    keep_going: bool,
    legal_moves: &mut Vec<LegalMove>,
    position: Square,
    color: Color,
    board: &Board,
)
    requires
        position.wf(),
        forall|i: int| 0 <= i < dirs@.len() ==> -2 <= #[trigger] dirs@[i].0 <= 2 && -2 <= dirs@[i].1 <= 2,
    ensures
        final(legal_moves)@ == old(legal_moves)@ + rays(
            *board,
            color,
            position.x as int,
            position.y as int,
            dirs@,
            reach(keep_going),
        ),
{
    let ghost start = legal_moves@;
    let mut i: usize = 0;
    while i < dirs.len()
        invariant
            position.wf(),
            0 <= i <= dirs@.len(),
            forall|i: int| 0 <= i < dirs@.len() ==> -2 <= #[trigger] dirs@[i].0 <= 2 && -2 <= dirs@[i].1 <= 2,
            legal_moves@ == start + rays(
                *board,
                color,
                position.x as int,
                position.y as int,
                dirs@.subrange(0, i as int),
                reach(keep_going),
            ),
        decreases dirs@.len() - i,
    {
        let (dx, dy) = dirs[i];
        find_legal_moves_in_direction(dx, dy, keep_going, legal_moves, position, color, board);
        proof {
            assert(dirs@.subrange(0, i + 1).drop_last() =~= dirs@.subrange(0, i as int));
            assert(legal_moves@ =~= start + rays(
                *board,
                color,
                position.x as int,
                position.y as int,
                dirs@.subrange(0, i + 1),
                reach(keep_going),
            ));
        }
        i = i + 1;
    }
    assert(dirs@.subrange(0, dirs@.len() as int) =~= dirs@);
}

/// The moves of a piece of kind `piece` and color `color` on `position`,
/// before the check filter.
pub fn find_pseudo_legal_moves(
    piece: Piece,
    position: Square,
    color: Color,
    right_to_castle: &RightToCastle,
    board: &Board,
) -> (r: Vec<LegalMove>)
    requires
        position.wf(),
    ensures
        r@ == pseudo_legal_moves(*board, *right_to_castle, color, piece, position.x as int, position.y as int),
{
    let mut legal_moves: Vec<LegalMove> = Vec::new();
    let orthogonal: [(i32, i32); 4] = [(0, 1), (1, 0), (0, -1), (-1, 0)];
    let diagonal: [(i32, i32); 4] = [(1, 1), (1, -1), (-1, -1), (-1, 1)];
    let knight: [(i32, i32); 8] = [(1, 2), (2, 1), (2, -1), (1, -2), (-1, -2), (-2, -1), (-2, 1), (-1, 2)];
    let all: [(i32, i32); 8] = [(0, 1), (1, 1), (1, 0), (1, -1), (0, -1), (-1, -1), (-1, 0), (-1, 1)];
    match piece {
        Piece::Pawn => {
            find_legal_pawn_moves(&mut legal_moves, position, color, board);
        },
        Piece::Rook => {
            assert(orthogonal@ == directions(piece));
            find_legal_moves_in_directions(&orthogonal, true, &mut legal_moves, position, color, board);
        },
        Piece::Bishop => {
            assert(diagonal@ == directions(piece));
            find_legal_moves_in_directions(&diagonal, true, &mut legal_moves, position, color, board);
        },
        Piece::Queen => {
            assert(all@ == directions(piece));
            find_legal_moves_in_directions(&all, true, &mut legal_moves, position, color, board);
        },
        Piece::Knight => {
            assert(knight@ == directions(piece));
            find_legal_moves_in_directions(&knight, false, &mut legal_moves, position, color, board);
        },
        Piece::King => {
            assert(all@ == directions(piece));
            find_legal_moves_in_directions(&all, false, &mut legal_moves, position, color, board);
            find_legal_castling_moves(&mut legal_moves, right_to_castle, color, board);
        },
    }
    assert(legal_moves@ =~= pseudo_legal_moves(*board, *right_to_castle, color, piece, position.x as int, position.y as int));
    legal_moves
}

/// Whether `s` is one of the squares that a king lands on when castling.
pub open spec fn castling_square(s: Square) -> bool {
    (s.y == 0 || s.y == 7) && (s.x == 2 || s.x == 6)
}

/// A generated move goes to a square of the board, and a castling move goes
/// to a castling square.
pub open spec fn sound_move(m: LegalMove) -> bool {
    m.destination.wf() && (m.is_castling ==> castling_square(m.destination))
}

/// Every move of a ray is an ordinary move to a square of the board.
proof fn lemma_ray_sound(b: Board, c: Color, x: int, y: int, dx: int, dy: int, n: nat)
    ensures
        forall|i: int| 0 <= i < ray(b, c, x, y, dx, dy, n).len() ==> {
            let m = #[trigger] ray(b, c, x, y, dx, dy, n)[i];
            m.destination.wf() && !m.is_castling
        },
    decreases n,
{
    if n > 0 && on_board(x + dx, y + dy) {
        lemma_ray_sound(b, c, x + dx, y + dy, dx, dy, (n - 1) as nat);
        let rest = ray(b, c, x + dx, y + dy, dx, dy, (n - 1) as nat);
        assert forall|i: int| 0 <= i < ray(b, c, x, y, dx, dy, n).len() implies {
            let m = #[trigger] ray(b, c, x, y, dx, dy, n)[i];
            m.destination.wf() && !m.is_castling
        } by {
            if i > 0 {
                assert(ray(b, c, x, y, dx, dy, n)[i] == rest[i - 1]);
            }
        }
    }
}

/// Every move of a sequence of rays is an ordinary move to a square of the board.
pub proof fn lemma_rays_sound(b: Board, c: Color, x: int, y: int, dirs: Seq<(i32, i32)>, n: nat)
    ensures
        forall|i: int| 0 <= i < rays(b, c, x, y, dirs, n).len() ==> {
            let m = #[trigger] rays(b, c, x, y, dirs, n)[i];
            m.destination.wf() && !m.is_castling
        },
    decreases dirs.len(),
{
    if dirs.len() > 0 {
        let front = rays(b, c, x, y, dirs.drop_last(), n);
        let back = ray(b, c, x, y, dirs.last().0 as int, dirs.last().1 as int, n);
        lemma_rays_sound(b, c, x, y, dirs.drop_last(), n);
        lemma_ray_sound(b, c, x, y, dirs.last().0 as int, dirs.last().1 as int, n);
        assert forall|i: int| 0 <= i < rays(b, c, x, y, dirs, n).len() implies {
            let m = #[trigger] rays(b, c, x, y, dirs, n)[i];
            m.destination.wf() && !m.is_castling
        } by {
            if i < front.len() {
                assert(rays(b, c, x, y, dirs, n)[i] == front[i]);
            } else {
                assert(rays(b, c, x, y, dirs, n)[i] == back[i - front.len()]);
            }
        }
    }
}

/// Every move found by the movement rules goes to a square of the board,
/// and a castling move goes to a castling square.
pub proof fn lemma_pseudo_legal_moves_sound(b: Board, r: RightToCastle, c: Color, p: Piece, x: int, y: int)
    requires
        on_board(x, y),
    ensures
        forall|i: int| 0 <= i < pseudo_legal_moves(b, r, c, p, x, y).len() ==> sound_move(
            #[trigger] pseudo_legal_moves(b, r, c, p, x, y)[i],
        ),
{
    let s = pseudo_legal_moves(b, r, c, p, x, y);
    match p {
        Piece::Pawn => {},
        Piece::King => {
            lemma_rays_sound(b, c, x, y, directions(p), 1);
            let front = rays(b, c, x, y, directions(p), 1);
            let back = castling_moves(b, r, c);
            assert forall|i: int| 0 <= i < s.len() implies sound_move(#[trigger] s[i]) by {
                if i < front.len() {
                    assert(s[i] == front[i]);
                } else {
                    assert(s[i] == back[i - front.len()]);
                }
            }
        },
        _ => {
            lemma_rays_sound(b, c, x, y, directions(p), reach(slides(p)));
        },
    }
}

} // verus!
