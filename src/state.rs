use vstd::prelude::*;

use crate::bitboard::Bitboard;
use crate::piece::{Color, PieceType, COLOR_COUNT, PIECE_TYPE_COUNT};
use crate::square::Square;

verus! {

/// The squares a `piece` of `color` stands on at the start of a game.
pub open spec fn initial_squares(piece: PieceType, color: Color) -> Seq<Square> {
    match (piece, color) {
        (PieceType::Pawn, Color::White) => seq![Square::A2, Square::B2, Square::C2, Square::D2, Square::E2, Square::F2, Square::G2, Square::H2],
        (PieceType::Knight, Color::White) => seq![Square::B1, Square::G1],
        (PieceType::Bishop, Color::White) => seq![Square::C1, Square::F1],
        (PieceType::Rook, Color::White) => seq![Square::A1, Square::H1],
        (PieceType::Queen, Color::White) => seq![Square::D1],
        (PieceType::King, Color::White) => seq![Square::E1],
        (PieceType::Pawn, Color::Black) => seq![Square::A7, Square::B7, Square::C7, Square::D7, Square::E7, Square::F7, Square::G7, Square::H7],
        (PieceType::Knight, Color::Black) => seq![Square::B8, Square::G8],
        (PieceType::Bishop, Color::Black) => seq![Square::C8, Square::F8],
        (PieceType::Rook, Color::Black) => seq![Square::A8, Square::H8],
        (PieceType::Queen, Color::Black) => seq![Square::D8],
        (PieceType::King, Color::Black) => seq![Square::E8],
    }
}

/// The slot of the board for a `piece` of `color`: piece types in declaration
/// order, all White boards before all Black ones.
pub open spec fn board_index(piece: PieceType, color: Color) -> nat {
    piece.spec_ordinal() + 6 * color.spec_ordinal()
}

/// The order in which `piece_on` looks at the boards: by piece type, and for one
/// piece type White before Black.
pub open spec fn search_order(piece: PieceType, color: Color) -> nat {
    2 * piece.spec_ordinal() + color.spec_ordinal()
}

/// Piece placement: one board for each piece type and color.
pub struct State {
    bitboards: [Bitboard; 12],
}

impl State {
    /// The board of the pieces of type `piece` and color `color`.
    pub closed spec fn board(self, piece: PieceType, color: Color) -> Bitboard {
        self.bitboards@[board_index(piece, color) as int]
    }

    /// The starting position of a game of chess.
    pub fn new() -> (r: State)
        ensures
            forall|piece: PieceType, color: Color|
                (#[trigger] r.board(piece, color))@ == initial_squares(piece, color).to_set(),
    {
        let pawn_white = Bitboard::from_squares(
            &[Square::A2, Square::B2, Square::C2, Square::D2,
              Square::E2, Square::F2, Square::G2, Square::H2],
        );
        let knight_white = Bitboard::from_squares(&[Square::B1, Square::G1]);
        let bishop_white = Bitboard::from_squares(&[Square::C1, Square::F1]);
        let rook_white = Bitboard::from_squares(&[Square::A1, Square::H1]);
        let queen_white = Bitboard::from_squares(&[Square::D1]);
        let king_white = Bitboard::from_squares(&[Square::E1]);
        let pawn_black = Bitboard::from_squares(
            &[Square::A7, Square::B7, Square::C7, Square::D7,
              Square::E7, Square::F7, Square::G7, Square::H7],
        );
        let knight_black = Bitboard::from_squares(&[Square::B8, Square::G8]);
        let bishop_black = Bitboard::from_squares(&[Square::C8, Square::F8]);
        let rook_black = Bitboard::from_squares(&[Square::A8, Square::H8]);
        let queen_black = Bitboard::from_squares(&[Square::D8]);
        let king_black = Bitboard::from_squares(&[Square::E8]);
        let bitboards = [
            pawn_white,
            knight_white,
            bishop_white,
            rook_white,
            queen_white,
            king_white,
            pawn_black,
            knight_black,
            bishop_black,
            rook_black,
            queen_black,
            king_black,
        ];
        proof {
            assert forall|piece: PieceType, color: Color|
                (#[trigger] bitboards@[board_index(piece, color) as int])@ == initial_squares(piece, color).to_set() by {
                match (piece, color) {
                    (PieceType::Pawn, Color::White) => assert(pawn_white@ =~= initial_squares(piece, color).to_set()),
                    (PieceType::Knight, Color::White) => assert(knight_white@ =~= initial_squares(piece, color).to_set()),
                    (PieceType::Bishop, Color::White) => assert(bishop_white@ =~= initial_squares(piece, color).to_set()),
                    (PieceType::Rook, Color::White) => assert(rook_white@ =~= initial_squares(piece, color).to_set()),
                    (PieceType::Queen, Color::White) => assert(queen_white@ =~= initial_squares(piece, color).to_set()),
                    (PieceType::King, Color::White) => assert(king_white@ =~= initial_squares(piece, color).to_set()),
                    (PieceType::Pawn, Color::Black) => assert(pawn_black@ =~= initial_squares(piece, color).to_set()),
                    (PieceType::Knight, Color::Black) => assert(knight_black@ =~= initial_squares(piece, color).to_set()),
                    (PieceType::Bishop, Color::Black) => assert(bishop_black@ =~= initial_squares(piece, color).to_set()),
                    (PieceType::Rook, Color::Black) => assert(rook_black@ =~= initial_squares(piece, color).to_set()),
                    (PieceType::Queen, Color::Black) => assert(queen_black@ =~= initial_squares(piece, color).to_set()),
                    (PieceType::King, Color::Black) => assert(king_black@ =~= initial_squares(piece, color).to_set()),
                }
            }
        }
        State { bitboards }
    }

    /// The board of the pieces of type `piece` and color `color`.
    pub fn get_bitboard_for(&self, piece: PieceType, color: Color) -> (r: Bitboard)
        ensures
            r == self.board(piece, color),
    {
        self.bitboards[self.get_index_for(piece, color)]
    }

    /// The first piece in `search_order` that stands on `square`, if any.
    pub fn piece_on(&self, square: Square) -> (r: Option<(PieceType, Color)>)
        ensures
            r is None <==> forall|p: PieceType, c: Color| !(#[trigger] self.board(p, c))@.contains(square),
            r matches Some((piece, color)) ==> {
                &&& self.board(piece, color)@.contains(square)
                &&& forall|p: PieceType, c: Color|
                    search_order(p, c) < search_order(piece, color) ==> !(#[trigger] self.board(p, c))@.contains(square)
            },
    {
        let pieces = [
            PieceType::Pawn,
            PieceType::Knight,
            PieceType::Bishop,
            PieceType::Rook,
            PieceType::Queen,
            PieceType::King,
        ];
        let colors = [Color::White, Color::Black];
        let mut i: usize = 0;
        while i < PIECE_TYPE_COUNT
            invariant
                i <= PIECE_TYPE_COUNT,
                forall|k: int| 0 <= k < 6 ==> (#[trigger] pieces@[k]).spec_ordinal() == k,
                forall|k: int| 0 <= k < 2 ==> (#[trigger] colors@[k]).spec_ordinal() == k,
                forall|p: PieceType, c: Color|
                    p.spec_ordinal() < i ==> !(#[trigger] self.board(p, c))@.contains(square),
            decreases PIECE_TYPE_COUNT - i,
        {
            let piece = pieces[i];
            let mut j: usize = 0;
            while j < COLOR_COUNT
                invariant
                    i < PIECE_TYPE_COUNT,
                    j <= COLOR_COUNT,
                    piece.spec_ordinal() == i,
                    forall|k: int| 0 <= k < 2 ==> (#[trigger] colors@[k]).spec_ordinal() == k,
                    forall|p: PieceType, c: Color|
                        p.spec_ordinal() < i ==> !(#[trigger] self.board(p, c))@.contains(square),
                    forall|c: Color| c.spec_ordinal() < j ==> !(#[trigger] self.board(piece, c))@.contains(square),
                decreases COLOR_COUNT - j,
            {
                let color = colors[j];
                if self.get_bitboard_for(piece, color).square_occupied(square) {
                    return Some((piece, color));
                }
                j = j + 1;
            }
            proof {
                assert forall|p: PieceType, c: Color|
                    p.spec_ordinal() < i + 1 implies !(#[trigger] self.board(p, c))@.contains(square) by {
                    if p.spec_ordinal() == i {
                        assert(p == piece);
                    }
                }
            }
            i = i + 1;
        }
        None
    }

    fn get_index_for(&self, piece: PieceType, color: Color) -> (r: usize)
        ensures
            r == board_index(piece, color),
            r < 12,
    {
        piece.ordinal() + PIECE_TYPE_COUNT * color.ordinal()
    }
}

} // verus!
