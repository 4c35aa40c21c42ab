use chessboard::Color::{Black, White};
use chessboard::PieceType::{Bishop, King, Knight, Pawn, Queen, Rook};
use chessboard::Square::{
    A1, A2, A3, A4, A7, A8, B1, B2, B3, B4, B5, B6, B8, C1, C2, C3, C4, C5, C6, D1, D2, D3, D4, D5,
    D7, D8, E1, E2, E3, E4, E5, E6, F3, F5, G1, G3, H1, H2, H8,
};
use chessboard::{attacked_squares_for, attacked_squares_for_color, Bitboard, PieceType, Square, State};

fn all_squares() -> Vec<Square> {
    (0..64u8).map(Square::from_index).collect()
}

fn count(b: &Bitboard) -> usize {
    all_squares().into_iter().filter(|s| b.square_occupied(*s)).count()
}

fn coords(s: Square) -> (i32, i32) {
    let i = s.index() as i32;
    (i / 8, i % 8)
}

fn expected_by_offsets(from: Square, offsets: &[(i32, i32)]) -> Bitboard {
    let (f, r) = coords(from);
    let targets: Vec<Square> = offsets
        .iter()
        .map(|(df, dr)| (f + df, r + dr))
        .filter(|(tf, tr)| (0..8).contains(tf) && (0..8).contains(tr))
        .map(|(tf, tr)| Square::from_file_rank(tf as u8, tr as u8))
        .collect();
    Bitboard::from_squares(&targets)
}

const KNIGHT_OFFSETS: [(i32, i32); 8] =
    [(1, 2), (2, 1), (2, -1), (1, -2), (-1, -2), (-2, -1), (-2, 1), (-1, 2)];
const KING_OFFSETS: [(i32, i32); 8] =
    [(0, 1), (1, 1), (1, 0), (1, -1), (0, -1), (-1, -1), (-1, 0), (-1, 1)];

#[test]
fn knight_attacks_match_coordinates_everywhere() {
    for s in all_squares() {
        assert_eq!(attacked_squares_for(Knight, s), expected_by_offsets(s, &KNIGHT_OFFSETS));
    }
}

#[test]
fn king_attacks_match_coordinates_everywhere() {
    for s in all_squares() {
        assert_eq!(attacked_squares_for(King, s), expected_by_offsets(s, &KING_OFFSETS));
    }
}

#[test]
fn pawn_attacks_are_forward_diagonals() {
    for s in all_squares() {
        assert_eq!(attacked_squares_for_color(Pawn, White, s), expected_by_offsets(s, &[(-1, 1), (1, 1)]));
        assert_eq!(attacked_squares_for_color(Pawn, Black, s), expected_by_offsets(s, &[(-1, -1), (1, -1)]));
    }
}

#[test]
fn pawns_on_their_last_rank_attack_nothing() {
    for file in 0..8u8 {
        let white = attacked_squares_for_color(Pawn, White, Square::from_file_rank(file, 7));
        assert_eq!(white.get_bits(), 0);
        assert_eq!(attacked_squares_for(Pawn, Square::from_file_rank(file, 7)).get_bits(), 0);
        let black = attacked_squares_for_color(Pawn, Black, Square::from_file_rank(file, 0));
        assert_eq!(black.get_bits(), 0);
    }
    assert_eq!(attacked_squares_for(Pawn, A8), Bitboard::from_squares(&[]));
    assert_eq!(attacked_squares_for_color(Pawn, Black, A1), Bitboard::from_squares(&[]));
}

#[test]
fn white_is_the_default_pawn_direction() {
    for s in all_squares() {
        assert_eq!(attacked_squares_for(Pawn, s), attacked_squares_for_color(Pawn, White, s));
    }
}

#[test]
fn black_pawn_scenarios() {
    let b = Bitboard::from_squares;
    assert_eq!(attacked_squares_for_color(Pawn, Black, A7), b(&[B6]));
    assert_eq!(attacked_squares_for_color(Pawn, Black, D7), b(&[C6, E6]));
    assert_eq!(attacked_squares_for_color(Pawn, Black, H2), b(&[G1]));
}

#[test]
fn corner_and_edge_counts() {
    for s in [A1, A8, H1, H8] {
        assert_eq!(count(&attacked_squares_for(Knight, s)), 2);
        assert_eq!(count(&attacked_squares_for(King, s)), 3);
    }
    for s in all_squares() {
        let (f, r) = coords(s);
        if (1..7).contains(&f) && (1..7).contains(&r) {
            assert_eq!(count(&attacked_squares_for(King, s)), 8);
        }
    }
    for s in all_squares() {
        let (f, r) = coords(s);
        let file_edge = f == 0 || f == 7;
        let rank_edge = r == 0 || r == 7;
        if file_edge != rank_edge {
            assert_eq!(count(&attacked_squares_for(King, s)), 5);
        }
    }
    assert_eq!(attacked_squares_for(King, A3), Bitboard::from_squares(&[A2, A4, B2, B3, B4]));
    assert_eq!(attacked_squares_for(King, B1), Bitboard::from_squares(&[A1, A2, B2, C1, C2]));
}

#[test]
fn sliding_pieces_stand_for_their_own_square() {
    for piece in [Bishop, Rook, Queen] {
        assert_eq!(attacked_squares_for(piece, D4), Bitboard::from_squares(&[D4]));
    }
}

#[test]
fn empty_board_has_no_squares_and_zero_bits() {
    let b = Bitboard::from_squares(&[]);
    assert_eq!(b.get_bits(), 0);
    assert_eq!(count(&b), 0);
}

#[test]
fn single_square_board_holds_only_that_square() {
    for s in all_squares() {
        let b = Bitboard::from_squares(&[s]);
        for t in all_squares() {
            assert_eq!(b.square_occupied(t), s == t);
        }
        assert_eq!(b.get_bits(), 1u64 << s.index());
    }
}

#[test]
fn squares_occupied_is_a_conjunction() {
    let b = Bitboard::from_squares(&[A1, D4, H8]);
    assert!(b.squares_occupied(&[]));
    assert!(b.squares_occupied(&[A1]));
    assert!(b.squares_occupied(&[H8, A1, D4]));
    assert!(!b.squares_occupied(&[A1, A2]));
    assert!(!b.squares_occupied(&[A2, A1]));
    assert!(!Bitboard::from_squares(&[]).squares_occupied(&[E4]));
}

#[test]
fn squares_occupied_agrees_with_square_occupied() {
    let b = Bitboard::from_squares(&[B2, C3, E4, F5]);
    let lists: [&[Square]; 4] = [&[B2, C3], &[B2, D3], &[E4, F5, C3], &[A1]];
    for list in lists {
        let each = list.iter().all(|s| b.square_occupied(*s));
        assert_eq!(b.squares_occupied(list), each);
    }
}

#[test]
fn bits_round_trip() {
    let b = Bitboard::from_bits(0x8100);
    assert_eq!(b.get_bits(), 0x8100);
    assert!(b.square_occupied(B1));
    assert!(b.square_occupied(B8));
    assert!(!b.square_occupied(A1));
    assert_eq!(Bitboard::from_squares(&[A1, A8, H1, H8]).get_bits(), 0x8100_0000_0000_0081);
}

#[test]
fn pawn_scenarios() {
    let b = Bitboard::from_squares;
    assert_eq!(attacked_squares_for(Pawn, A2), b(&[B3]));
    assert_eq!(attacked_squares_for(Pawn, H2), b(&[G3]));
    assert_eq!(attacked_squares_for(Pawn, D2), b(&[C3, E3]));
}

#[test]
fn knight_scenarios() {
    let b = Bitboard::from_squares;
    assert_eq!(attacked_squares_for(Knight, A1), b(&[B3, C2]));
    assert_eq!(attacked_squares_for(Knight, D4), b(&[B3, B5, C2, C6, E2, E6, F3, F5]));
}

#[test]
fn king_scenarios() {
    let b = Bitboard::from_squares;
    assert_eq!(attacked_squares_for(King, A1), b(&[A2, B1, B2]));
    assert_eq!(attacked_squares_for(King, D4), b(&[C3, C4, C5, D3, D5, E3, E4, E5]));
}

#[test]
fn square_indices_follow_file_major_numbering() {
    assert_eq!(A1.index(), 0);
    assert_eq!(A8.index(), 7);
    assert_eq!(B1.index(), 8);
    assert_eq!(H8.index(), 63);
    assert_eq!(Square::from_file_rank(3, 3), D4);
    for i in 0..64u8 {
        assert_eq!(Square::from_index(i).index(), i);
    }
}

#[test]
fn initial_position_lookup() {
    let state = State::new();
    assert_eq!(state.piece_on(E1), Some((King, White)));
    assert_eq!(state.piece_on(D8), Some((Queen, Black)));
    assert_eq!(state.piece_on(A2), Some((Pawn, White)));
    assert_eq!(state.piece_on(D7), Some((Pawn, Black)));
    assert_eq!(state.piece_on(E4), None);
    assert_eq!(state.piece_on(D1), Some((Queen, White)));
}

#[test]
fn piece_letters() {
    let letters: Vec<char> = [Pawn, Knight, Bishop, Rook, Queen, King].iter().map(|p: &PieceType| p.letter()).collect();
    assert_eq!(letters, vec!['P', 'N', 'B', 'R', 'Q', 'K']);
}
