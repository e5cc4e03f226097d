use chessboard::board::{Board, SquareStatus};
use chessboard::check::is_king_threatened_after_move;
use chessboard::components::{Color, GamePiece, LegalMove, Piece, Square};
use chessboard::legal::{generate_legal_moves, MoveSet};
use chessboard::resources::RightToCastle;

fn sq(x: u32, y: u32) -> Square {
    Square { x, y }
}

fn gp(piece: Piece, color: Color) -> GamePiece {
    GamePiece { piece, color }
}

fn no_rights() -> RightToCastle {
    RightToCastle {
        white_kingside: false,
        white_queenside: false,
        black_kingside: false,
        black_queenside: false,
    }
}

fn board_with(pieces: &[(u32, u32, Piece, Color)]) -> Board {
    let mut b = Board::empty();
    for &(x, y, p, c) in pieces {
        b.set_piece(sq(x, y), Some(gp(p, c)));
    }
    b
}

fn destinations(moves: &MoveSet, from: Square) -> Vec<(u32, u32)> {
    let mut d: Vec<(u32, u32)> = moves
        .legal_moves_at(from)
        .expect("piece of the side to move")
        .0
        .iter()
        .map(|m| (m.destination.x, m.destination.y))
        .collect();
    d.sort();
    d
}

fn moves_of(moves: &MoveSet, from: Square) -> Vec<LegalMove> {
    moves.legal_moves_at(from).expect("piece of the side to move").0.clone()
}

#[test]
fn pawn_double_advance_from_start_rank() {
    let b = board_with(&[(3, 1, Piece::Pawn, Color::White)]);
    let m = generate_legal_moves(&b, Color::White, &no_rights());
    assert_eq!(destinations(&m, sq(3, 1)), vec![(3, 2), (3, 3)]);
}

#[test]
fn pawn_double_advance_blocked_at_destination() {
    let b = board_with(&[(3, 1, Piece::Pawn, Color::White), (3, 3, Piece::Knight, Color::Black)]);
    let m = generate_legal_moves(&b, Color::White, &no_rights());
    assert_eq!(destinations(&m, sq(3, 1)), vec![(3, 2)]);
}

#[test]
fn pawn_blocked_in_front_has_no_advance() {
    let b = board_with(&[(3, 1, Piece::Pawn, Color::White), (3, 2, Piece::Knight, Color::Black)]);
    let m = generate_legal_moves(&b, Color::White, &no_rights());
    assert_eq!(destinations(&m, sq(3, 1)), Vec::<(u32, u32)>::new());
}

#[test]
fn pawn_off_start_rank_steps_once() {
    let b = board_with(&[(3, 2, Piece::Pawn, Color::White)]);
    let m = generate_legal_moves(&b, Color::White, &no_rights());
    assert_eq!(destinations(&m, sq(3, 2)), vec![(3, 3)]);
}

#[test]
fn black_pawn_moves_down() {
    let b = board_with(&[(2, 6, Piece::Pawn, Color::Black), (1, 5, Piece::Rook, Color::White)]);
    let m = generate_legal_moves(&b, Color::Black, &no_rights());
    assert_eq!(destinations(&m, sq(2, 6)), vec![(1, 5), (2, 4), (2, 5)]);
}

#[test]
fn pawn_captures_enemy_on_diagonal() {
    let b = board_with(&[(4, 1, Piece::Pawn, Color::White), (5, 2, Piece::Bishop, Color::Black)]);
    let m = generate_legal_moves(&b, Color::White, &no_rights());
    assert!(destinations(&m, sq(4, 1)).contains(&(5, 2)));
}

#[test]
fn pawn_does_not_move_diagonally_onto_empty_square() {
    let b = board_with(&[(4, 1, Piece::Pawn, Color::White)]);
    let m = generate_legal_moves(&b, Color::White, &no_rights());
    assert!(!destinations(&m, sq(4, 1)).contains(&(5, 2)));
    assert!(!destinations(&m, sq(4, 1)).contains(&(3, 2)));
}

#[test]
fn pawn_does_not_capture_own_piece() {
    let b = board_with(&[(4, 1, Piece::Pawn, Color::White), (5, 2, Piece::Bishop, Color::White)]);
    let m = generate_legal_moves(&b, Color::White, &no_rights());
    assert_eq!(destinations(&m, sq(4, 1)), vec![(4, 2), (4, 3)]);
}

#[test]
fn pawn_on_last_rank_has_no_move() {
    let b = board_with(&[(0, 7, Piece::Pawn, Color::White)]);
    let m = generate_legal_moves(&b, Color::White, &no_rights());
    assert!(m.legal_moves_at(sq(0, 7)).unwrap().0.is_empty());
}

#[test]
fn rook_ray_stops_at_enemy_and_takes_it() {
    let b = board_with(&[(0, 0, Piece::Rook, Color::White), (0, 3, Piece::Pawn, Color::Black), (2, 0, Piece::Pawn, Color::White)]);
    let m = generate_legal_moves(&b, Color::White, &no_rights());
    assert_eq!(destinations(&m, sq(0, 0)), vec![(0, 1), (0, 2), (0, 3), (1, 0)]);
}

#[test]
fn rook_on_empty_board_has_fourteen_moves() {
    let b = board_with(&[(3, 4, Piece::Rook, Color::White)]);
    let m = generate_legal_moves(&b, Color::White, &no_rights());
    assert_eq!(destinations(&m, sq(3, 4)).len(), 14);
}

#[test]
fn queen_in_centre_has_twenty_seven_moves() {
    let b = board_with(&[(3, 3, Piece::Queen, Color::White)]);
    let m = generate_legal_moves(&b, Color::White, &no_rights());
    assert_eq!(destinations(&m, sq(3, 3)).len(), 27);
}

#[test]
fn bishop_rays_stop_before_friend() {
    let b = board_with(&[(2, 0, Piece::Bishop, Color::White), (4, 2, Piece::Knight, Color::White), (1, 1, Piece::Rook, Color::Black)]);
    let m = generate_legal_moves(&b, Color::White, &no_rights());
    assert_eq!(destinations(&m, sq(2, 0)), vec![(1, 1), (3, 1)]);
}

#[test]
fn sliding_moves_come_ray_by_ray() {
    let b = board_with(&[(0, 0, Piece::Rook, Color::White), (0, 2, Piece::Pawn, Color::White), (2, 0, Piece::Pawn, Color::Black)]);
    let m = generate_legal_moves(&b, Color::White, &no_rights());
    let got: Vec<(u32, u32)> = moves_of(&m, sq(0, 0)).iter().map(|l| (l.destination.x, l.destination.y)).collect();
    assert_eq!(got, vec![(0, 1), (1, 0), (2, 0)]);
}

#[test]
fn knight_in_corner_stays_on_board() {
    let b = board_with(&[(0, 0, Piece::Knight, Color::White), (2, 1, Piece::Pawn, Color::White)]);
    let m = generate_legal_moves(&b, Color::White, &no_rights());
    assert_eq!(destinations(&m, sq(0, 0)), vec![(1, 2)]);
}

#[test]
fn knight_captures_enemy_but_not_friend() {
    let b = board_with(&[(4, 4, Piece::Knight, Color::Black), (5, 6, Piece::Pawn, Color::White), (6, 5, Piece::Pawn, Color::Black)]);
    let m = generate_legal_moves(&b, Color::Black, &no_rights());
    let d = destinations(&m, sq(4, 4));
    assert_eq!(d.len(), 7);
    assert!(d.contains(&(5, 6)));
    assert!(!d.contains(&(6, 5)));
}

#[test]
fn king_steps_stay_on_board_and_off_friends() {
    let b = board_with(&[(0, 0, Piece::King, Color::White), (1, 0, Piece::Knight, Color::White)]);
    let m = generate_legal_moves(&b, Color::White, &no_rights());
    assert_eq!(destinations(&m, sq(0, 0)), vec![(0, 1), (1, 1)]);
}

#[test]
fn white_kingside_castling_offered_when_free() {
    let b = board_with(&[(4, 0, Piece::King, Color::White), (7, 0, Piece::Rook, Color::White)]);
    let m = generate_legal_moves(&b, Color::White, &RightToCastle::default());
    let moves = moves_of(&m, sq(4, 0));
    assert!(moves.contains(&LegalMove { destination: sq(6, 0), is_castling: true }));
}

#[test]
fn castling_not_offered_without_right() {
    let b = board_with(&[(4, 0, Piece::King, Color::White), (7, 0, Piece::Rook, Color::White), (0, 0, Piece::Rook, Color::White)]);
    let mut rights = RightToCastle::default();
    rights.white_kingside = false;
    let m = generate_legal_moves(&b, Color::White, &rights);
    let moves = moves_of(&m, sq(4, 0));
    assert!(!moves.iter().any(|l| l.destination == sq(6, 0)));
    assert!(moves.contains(&LegalMove { destination: sq(2, 0), is_castling: true }));
}

#[test]
fn castling_not_offered_through_pieces() {
    let b = board_with(&[(4, 0, Piece::King, Color::White), (7, 0, Piece::Rook, Color::White), (5, 0, Piece::Bishop, Color::White), (1, 0, Piece::Knight, Color::White), (0, 0, Piece::Rook, Color::White)]);
    let m = generate_legal_moves(&b, Color::White, &RightToCastle::default());
    let moves = moves_of(&m, sq(4, 0));
    assert!(!moves.iter().any(|l| l.is_castling));
}

#[test]
fn black_queenside_castling_offered() {
    let b = board_with(&[(4, 7, Piece::King, Color::Black), (0, 7, Piece::Rook, Color::Black)]);
    let m = generate_legal_moves(&b, Color::Black, &RightToCastle::default());
    let moves = moves_of(&m, sq(4, 7));
    assert!(moves.contains(&LegalMove { destination: sq(2, 7), is_castling: true }));
    assert!(moves.contains(&LegalMove { destination: sq(6, 7), is_castling: true }));
}

#[test]
fn castling_into_attack_is_filtered_but_transit_is_not_checked() {
    // A Black rook on file 6 attacks the kingside landing square.
    let b = board_with(&[(4, 0, Piece::King, Color::White), (7, 0, Piece::Rook, Color::White), (6, 5, Piece::Rook, Color::Black)]);
    let m = generate_legal_moves(&b, Color::White, &RightToCastle::default());
    assert!(!moves_of(&m, sq(4, 0)).iter().any(|l| l.is_castling && l.destination == sq(6, 0)));
    // A Black rook on file 5 attacks only the square the king passes: castling stays offered.
    let b = board_with(&[(4, 0, Piece::King, Color::White), (7, 0, Piece::Rook, Color::White), (5, 5, Piece::Rook, Color::Black)]);
    let m = generate_legal_moves(&b, Color::White, &RightToCastle::default());
    assert!(moves_of(&m, sq(4, 0)).contains(&LegalMove { destination: sq(6, 0), is_castling: true }));
}

#[test]
fn pinned_rook_keeps_only_moves_on_its_file() {
    let b = board_with(&[(4, 0, Piece::King, Color::White), (4, 3, Piece::Rook, Color::White), (4, 7, Piece::Rook, Color::Black)]);
    let m = generate_legal_moves(&b, Color::White, &no_rights());
    assert_eq!(destinations(&m, sq(4, 3)), vec![(4, 1), (4, 2), (4, 4), (4, 5), (4, 6), (4, 7)]);
}

#[test]
fn king_may_not_step_into_attack() {
    let b = board_with(&[(4, 0, Piece::King, Color::White), (3, 7, Piece::Rook, Color::Black), (5, 7, Piece::Rook, Color::Black)]);
    let m = generate_legal_moves(&b, Color::White, &no_rights());
    assert_eq!(destinations(&m, sq(4, 0)), vec![(4, 1)]);
}

#[test]
fn without_a_king_nothing_is_filtered() {
    let b = board_with(&[(4, 3, Piece::Rook, Color::White), (4, 7, Piece::Rook, Color::Black)]);
    let m = generate_legal_moves(&b, Color::White, &no_rights());
    assert_eq!(destinations(&m, sq(4, 3)).len(), 14);
}

#[test]
fn move_set_has_entries_only_for_the_side_to_move() {
    let b = board_with(&[(4, 0, Piece::King, Color::White), (4, 7, Piece::King, Color::Black), (0, 1, Piece::Pawn, Color::White)]);
    let m = generate_legal_moves(&b, Color::White, &no_rights());
    assert!(m.legal_moves_at(sq(4, 0)).is_some());
    assert!(m.legal_moves_at(sq(0, 1)).is_some());
    assert!(m.legal_moves_at(sq(4, 7)).is_none());
    assert!(m.legal_moves_at(sq(3, 3)).is_none());
}

#[test]
fn generating_twice_gives_the_same_moves() {
    let b = chessboard::game::setup_pieces();
    let rights = RightToCastle::default();
    let first = generate_legal_moves(&b, Color::White, &rights);
    let second = generate_legal_moves(&b, Color::White, &rights);
    for x in 0..8u32 {
        for y in 0..8u32 {
            let a = first.legal_moves_at(sq(x, y)).map(|l| l.0.clone());
            let c = second.legal_moves_at(sq(x, y)).map(|l| l.0.clone());
            assert_eq!(a, c);
        }
    }
}

#[test]
fn square_status_is_three_way() {
    let b = board_with(&[(1, 1, Piece::Pawn, Color::White), (2, 2, Piece::Pawn, Color::Black)]);
    assert_eq!(b.is_square_empty_or_enemy(sq(1, 1), Color::White), SquareStatus::Friendly);
    assert_eq!(b.is_square_empty_or_enemy(sq(2, 2), Color::White), SquareStatus::Enemy);
    assert_eq!(b.is_square_empty_or_enemy(sq(3, 3), Color::White), SquareStatus::Empty);
    assert_eq!(b.is_square_empty_or_enemy(sq(2, 2), Color::Black), SquareStatus::Friendly);
}

#[test]
fn king_square_found_or_absent() {
    let b = board_with(&[(6, 2, Piece::King, Color::Black), (1, 1, Piece::Pawn, Color::White)]);
    assert_eq!(b.king_square(Color::Black), Some(sq(6, 2)));
    assert_eq!(b.king_square(Color::White), None);
}

#[test]
fn set_piece_and_piece_at_round_trip() {
    let mut b = Board::empty();
    assert_eq!(b.piece_at(sq(7, 7)), None);
    b.set_piece(sq(7, 7), Some(gp(Piece::Queen, Color::Black)));
    assert_eq!(b.piece_at(sq(7, 7)), Some(gp(Piece::Queen, Color::Black)));
    assert_eq!(b.piece_at(sq(7, 6)), None);
    b.set_piece(sq(7, 7), None);
    assert_eq!(b.piece_at(sq(7, 7)), None);
}

#[test]
fn knight_threat_detected() {
    let b = board_with(&[(4, 0, Piece::King, Color::White), (5, 2, Piece::Knight, Color::Black), (0, 1, Piece::Pawn, Color::White)]);
    assert!(is_king_threatened_after_move(sq(0, 1), sq(0, 2), sq(4, 0), Color::White, &b));
    // Capturing the knight removes the threat.
    let b = board_with(&[(4, 0, Piece::King, Color::White), (5, 2, Piece::Knight, Color::Black), (5, 1, Piece::Pawn, Color::White), (4, 1, Piece::Pawn, Color::White)]);
    assert!(!is_king_threatened_after_move(sq(4, 1), sq(5, 2), sq(4, 0), Color::White, &b));
}

#[test]
fn pawn_threat_depends_on_direction() {
    let b = board_with(&[(4, 0, Piece::King, Color::White), (5, 1, Piece::Pawn, Color::Black), (0, 1, Piece::Pawn, Color::White)]);
    assert!(is_king_threatened_after_move(sq(0, 1), sq(0, 2), sq(4, 0), Color::White, &b));
    let b = board_with(&[(4, 2, Piece::King, Color::White), (5, 1, Piece::Pawn, Color::Black), (0, 1, Piece::Pawn, Color::White)]);
    assert!(!is_king_threatened_after_move(sq(0, 1), sq(0, 2), sq(4, 2), Color::White, &b));
    let b = board_with(&[(4, 2, Piece::King, Color::Black), (5, 1, Piece::Pawn, Color::White), (0, 6, Piece::Pawn, Color::Black)]);
    assert!(is_king_threatened_after_move(sq(0, 6), sq(0, 5), sq(4, 2), Color::Black, &b));
    let b = board_with(&[(4, 0, Piece::King, Color::Black), (5, 1, Piece::Pawn, Color::White), (0, 6, Piece::Pawn, Color::Black)]);
    assert!(!is_king_threatened_after_move(sq(0, 6), sq(0, 5), sq(4, 0), Color::Black, &b));
}

#[test]
fn distant_king_does_not_threaten() {
    let b = board_with(&[(4, 0, Piece::King, Color::White), (4, 2, Piece::King, Color::Black), (0, 1, Piece::Pawn, Color::White)]);
    assert!(!is_king_threatened_after_move(sq(0, 1), sq(0, 2), sq(4, 0), Color::White, &b));
    assert!(is_king_threatened_after_move(sq(4, 0), sq(4, 1), sq(4, 0), Color::White, &b));
}

#[test]
fn moving_piece_out_of_the_line_exposes_king() {
    let b = board_with(&[(0, 0, Piece::King, Color::White), (2, 2, Piece::Knight, Color::White), (7, 7, Piece::Bishop, Color::Black)]);
    assert!(is_king_threatened_after_move(sq(2, 2), sq(3, 4), sq(0, 0), Color::White, &b));
    assert!(!is_king_threatened_after_move(sq(2, 2), sq(1, 1), sq(0, 0), Color::White, &b));
}
