use vstd::math::abs;
use vstd::prelude::*;

use crate::bitboard::{squares_of, Bitboard, Bits};
use crate::bits::has_bit;
use crate::piece::{Color, PieceType};
use crate::square::{lemma_index_bijective, lemma_square_at, square_at, Square};

verus! {

/// Each mask clears the eight bits of one file or rank, so that a shift cannot
/// carry a piece across an edge of the board onto the opposite side.
const NOT_FILE_A: Bits = 0xFFFFFFFFFFFFFF00;
const NOT_FILE_B: Bits = 0xFFFFFFFFFFFF00FF;
const NOT_FILE_G: Bits = 0xFF00FFFFFFFFFFFF;
const NOT_FILE_H: Bits = 0x00FFFFFFFFFFFFFF;
const NOT_RANK_1: Bits = 0xFEFEFEFEFEFEFEFE;
const NOT_RANK_2: Bits = 0xFDFDFDFDFDFDFDFD;
const NOT_RANK_7: Bits = 0xBFBFBFBFBFBFBFBF;
const NOT_RANK_8: Bits = 0x7F7F7F7F7F7F7F7F;

/// The direction in which pawns of `color` advance: up the ranks for White, down for Black.
pub open spec fn forward(color: Color) -> int {
    match color {
        Color::White => 1,
        Color::Black => -1,
    }
}

/// The rank that pawns of `color` advance toward, from which they have no move forward.
pub open spec fn last_rank(color: Color) -> int {
    match color {
        Color::White => 7,
        Color::Black => 0,
    }
}

/// A pawn of `color` on `from` attacks `to`: the square one file to either side and
/// one rank forward.
pub open spec fn pawn_attacks(color: Color, from: Square, to: Square) -> bool {
    abs(to.file() - from.file()) == 1 && to.rank() == from.rank() + forward(color)
}

/// The squares attacked by a pawn of `color` on some square of `from`.
pub open spec fn pawn_reach(color: Color, from: Set<Square>) -> Set<Square> {
    Set::new(|to: Square| exists|s: Square| from.contains(s) && pawn_attacks(color, s, to))
}

/// The pawn capture pattern of `pawn` for `color`, as computed by shifts and masks.
spec fn pawn_pattern(pawn: Bits, color: Color) -> Bits {
    match color {
        Color::White => (pawn & NOT_FILE_A & NOT_RANK_8) >> 7u64 | (pawn & NOT_FILE_H & NOT_RANK_8) << 9u64,
        Color::Black => (pawn & NOT_FILE_A & NOT_RANK_1) >> 9u64 | (pawn & NOT_FILE_H & NOT_RANK_1) << 7u64,
    }
}

/// Bit `8 * f + r` of the White pawn pattern is set exactly when one of the two
/// squares diagonally behind file `f` and rank `r` is on the board and set.
proof fn lemma_white_pawn_bit(pawn: Bits, f: u64, r: u64)
    by (bit_vector)
    requires
        f < 8,
        r < 8,
    ensures
        has_bit((pawn & NOT_FILE_A & NOT_RANK_8) >> 7u64 | (pawn & NOT_FILE_H & NOT_RANK_8) << 9u64, (8 * f + r) as u64) == (
            (f + 1 < 8 && r >= 1 && has_bit(pawn, (8 * (f + 1) + (r - 1)) as u64))
            || (f >= 1 && r >= 1 && has_bit(pawn, (8 * (f - 1) + (r - 1)) as u64))
        ),
{
}

/// Bit `8 * f + r` of the Black pawn pattern is set exactly when one of the two
/// squares diagonally behind file `f` and rank `r` is on the board and set.
proof fn lemma_black_pawn_bit(pawn: Bits, f: u64, r: u64)
    by (bit_vector)
    requires
        f < 8,
        r < 8,
    ensures
        has_bit((pawn & NOT_FILE_A & NOT_RANK_1) >> 9u64 | (pawn & NOT_FILE_H & NOT_RANK_1) << 7u64, (8 * f + r) as u64) == (
            (f + 1 < 8 && r + 1 < 8 && has_bit(pawn, (8 * (f + 1) + (r + 1)) as u64))
            || (f >= 1 && r + 1 < 8 && has_bit(pawn, (8 * (f - 1) + (r + 1)) as u64))
        ),
{
}

/// A pawn of `pawn` that attacks `t` puts `t` in the reach of `pawn`.
proof fn lemma_pawn_witness(pawn: Bits, color: Color, s: Square, t: Square)
    requires
        squares_of(pawn).contains(s),
        pawn_attacks(color, s, t),
    ensures
        pawn_reach(color, squares_of(pawn)).contains(t),
{
}

/// A square in the pawn pattern of `pawn` is attacked by a pawn of `pawn`.
proof fn lemma_pawn_pattern_sound(pawn: Bits, color: Color, t: Square)
    requires
        squares_of(pawn_pattern(pawn, color)).contains(t),
    ensures
        pawn_reach(color, squares_of(pawn)).contains(t),
{
    lemma_index_bijective(t);
    let f = t.file();
    let r = t.rank();
    let behind = r - forward(color);
    match color {
        Color::White => lemma_white_pawn_bit(pawn, f as u64, r as u64),
        Color::Black => lemma_black_pawn_bit(pawn, f as u64, r as u64),
    }
    if f + 1 < 8 && 0 <= behind < 8 && has_bit(pawn, (8 * (f + 1) + behind) as u64) {
        lemma_square_at(f + 1, behind);
        lemma_pawn_witness(pawn, color, square_at(f + 1, behind), t);
    } else {
        lemma_square_at(f - 1, behind);
        lemma_pawn_witness(pawn, color, square_at(f - 1, behind), t);
    }
}

/// A square attacked by a pawn of `pawn` is in the pawn pattern of `pawn`.
proof fn lemma_pawn_pattern_complete(pawn: Bits, color: Color, s: Square, t: Square)
    requires
        squares_of(pawn).contains(s),
        pawn_attacks(color, s, t),
    ensures
        squares_of(pawn_pattern(pawn, color)).contains(t),
{
    lemma_index_bijective(s);
    lemma_index_bijective(t);
    match color {
        Color::White => lemma_white_pawn_bit(pawn, t.file() as u64, t.rank() as u64),
        Color::Black => lemma_black_pawn_bit(pawn, t.file() as u64, t.rank() as u64),
    }
}

/// A square lies in the pawn pattern of `pawn` exactly when a pawn of `pawn` attacks it.
proof fn lemma_pawn_pattern(pawn: Bits, color: Color)
    ensures
        squares_of(pawn_pattern(pawn, color)) == pawn_reach(color, squares_of(pawn)),
{
    assert forall|t: Square|
        squares_of(pawn_pattern(pawn, color)).contains(t) == pawn_reach(color, squares_of(pawn)).contains(t) by {
        if squares_of(pawn_pattern(pawn, color)).contains(t) {
            lemma_pawn_pattern_sound(pawn, color, t);
        }
        if pawn_reach(color, squares_of(pawn)).contains(t) {
            let s = choose|s: Square| squares_of(pawn).contains(s) && pawn_attacks(color, s, t);
            lemma_pawn_pattern_complete(pawn, color, s, t);
        }
    }
    assert(squares_of(pawn_pattern(pawn, color)) =~= pawn_reach(color, squares_of(pawn)));
}

/// A knight on `from` attacks `to`: one file and two ranks away, or two files and one rank.
pub open spec fn knight_attacks(from: Square, to: Square) -> bool {
    let df = abs(to.file() - from.file());
    let dr = abs(to.rank() - from.rank());
    (df == 1 && dr == 2) || (df == 2 && dr == 1)
}

/// The squares attacked by a knight on some square of `from`.
pub open spec fn knight_reach(from: Set<Square>) -> Set<Square> {
    Set::new(|to: Square| exists|s: Square| from.contains(s) && knight_attacks(s, to))
}

/// The knight jump pattern of `knight`, as computed by shifts and masks.
spec fn knight_pattern(knight: Bits) -> Bits {
    (knight & NOT_FILE_G & NOT_FILE_H & NOT_RANK_8) << 17u64
        | (knight & NOT_FILE_H & NOT_RANK_7 & NOT_RANK_8) << 10u64
        | (knight & NOT_FILE_A & NOT_RANK_7 & NOT_RANK_8) >> 6u64
        | (knight & NOT_FILE_A & NOT_FILE_B & NOT_RANK_8) >> 15u64
        | (knight & NOT_FILE_A & NOT_FILE_B & NOT_RANK_1) >> 17u64
        | (knight & NOT_FILE_A & NOT_RANK_1 & NOT_RANK_2) >> 10u64
        | (knight & NOT_FILE_H & NOT_RANK_1 & NOT_RANK_2) << 6u64
        | (knight & NOT_FILE_G & NOT_FILE_H & NOT_RANK_1) << 15u64
}

/// Bit `8 * f + r` of the knight pattern is set exactly when one of its source
/// squares, one knight move back from file `f` and rank `r`, is on the board and set.
proof fn lemma_knight_bit(knight: Bits, f: u64, r: u64)
    by (bit_vector)
    requires
        f < 8,
        r < 8,
    ensures
        has_bit(knight_pattern(knight), (8 * f + r) as u64) == (
            (f >= 2 && r >= 1 && has_bit(knight, (8 * (f - 2) + (r - 1)) as u64))
            || (f >= 1 && r >= 2 && has_bit(knight, (8 * (f - 1) + (r - 2)) as u64))
            || (f + 1 < 8 && r >= 2 && has_bit(knight, (8 * (f + 1) + (r - 2)) as u64))
            || (f + 2 < 8 && r >= 1 && has_bit(knight, (8 * (f + 2) + (r - 1)) as u64))
            || (f + 2 < 8 && r + 1 < 8 && has_bit(knight, (8 * (f + 2) + (r + 1)) as u64))
            || (f + 1 < 8 && r + 2 < 8 && has_bit(knight, (8 * (f + 1) + (r + 2)) as u64))
            || (f >= 1 && r + 2 < 8 && has_bit(knight, (8 * (f - 1) + (r + 2)) as u64))
            || (f >= 2 && r + 1 < 8 && has_bit(knight, (8 * (f - 2) + (r + 1)) as u64))
        ),
{
}

/// A square in the knight pattern of `knight` is attacked by a knight of `knight`.
proof fn lemma_knight_pattern_sound(knight: Bits, t: Square)
    requires
        squares_of(knight_pattern(knight)).contains(t),
    ensures
        knight_reach(squares_of(knight)).contains(t),
{
    lemma_index_bijective(t);
    let f = t.file();
    let r = t.rank();
    lemma_knight_bit(knight, f as u64, r as u64);
    if f >= 2 && r >= 1 && has_bit(knight, (8 * (f - 2) + (r - 1)) as u64) {
        lemma_square_at(f - 2, r - 1);
        assert(knight_attacks(square_at(f - 2, r - 1), t));
    } else if f >= 1 && r >= 2 && has_bit(knight, (8 * (f - 1) + (r - 2)) as u64) {
        lemma_square_at(f - 1, r - 2);
        assert(knight_attacks(square_at(f - 1, r - 2), t));
    } else if f + 1 < 8 && r >= 2 && has_bit(knight, (8 * (f + 1) + (r - 2)) as u64) {
        lemma_square_at(f + 1, r - 2);
        assert(knight_attacks(square_at(f + 1, r - 2), t));
    } else if f + 2 < 8 && r >= 1 && has_bit(knight, (8 * (f + 2) + (r - 1)) as u64) {
        lemma_square_at(f + 2, r - 1);
        assert(knight_attacks(square_at(f + 2, r - 1), t));
    } else if f + 2 < 8 && r + 1 < 8 && has_bit(knight, (8 * (f + 2) + (r + 1)) as u64) {
        lemma_square_at(f + 2, r + 1);
        assert(knight_attacks(square_at(f + 2, r + 1), t));
    } else if f + 1 < 8 && r + 2 < 8 && has_bit(knight, (8 * (f + 1) + (r + 2)) as u64) {
        lemma_square_at(f + 1, r + 2);
        assert(knight_attacks(square_at(f + 1, r + 2), t));
    } else if f >= 1 && r + 2 < 8 && has_bit(knight, (8 * (f - 1) + (r + 2)) as u64) {
        lemma_square_at(f - 1, r + 2);
        assert(knight_attacks(square_at(f - 1, r + 2), t));
    } else if f >= 2 && r + 1 < 8 && has_bit(knight, (8 * (f - 2) + (r + 1)) as u64) {
        lemma_square_at(f - 2, r + 1);
        assert(knight_attacks(square_at(f - 2, r + 1), t));
    }
}

/// A square attacked by a knight of `knight` is in the knight pattern of `knight`.
proof fn lemma_knight_pattern_complete(knight: Bits, s: Square, t: Square)
    requires
        squares_of(knight).contains(s),
        knight_attacks(s, t),
    ensures
        squares_of(knight_pattern(knight)).contains(t),
{
    lemma_index_bijective(s);
    lemma_index_bijective(t);
    lemma_knight_bit(knight, t.file() as u64, t.rank() as u64);
}

/// A square lies in the knight pattern of `knight` exactly when a knight of `knight` attacks it.
proof fn lemma_knight_pattern(knight: Bits)
    ensures
        squares_of(knight_pattern(knight)) == knight_reach(squares_of(knight)),
{
    assert forall|t: Square| squares_of(knight_pattern(knight)).contains(t) == knight_reach(squares_of(knight)).contains(t) by {
        if squares_of(knight_pattern(knight)).contains(t) {
            lemma_knight_pattern_sound(knight, t);
        }
        if knight_reach(squares_of(knight)).contains(t) {
            let s = choose|s: Square| squares_of(knight).contains(s) && knight_attacks(s, t);
            lemma_knight_pattern_complete(knight, s, t);
        }
    }
    assert(squares_of(knight_pattern(knight)) =~= knight_reach(squares_of(knight)));
}


/// A king on `from` attacks each of the up to eight squares next to it.
pub open spec fn king_attacks(from: Square, to: Square) -> bool {
    let df = abs(to.file() - from.file());
    let dr = abs(to.rank() - from.rank());
    df <= 1 && dr <= 1 && (df != 0 || dr != 0)
}

/// The squares attacked by a king on some square of `from`.
pub open spec fn king_reach(from: Set<Square>) -> Set<Square> {
    Set::new(|to: Square| exists|s: Square| from.contains(s) && king_attacks(s, to))
}

/// The king step pattern of `king`, as computed by shifts and masks.
spec fn king_pattern(king: Bits) -> Bits {
    (king & NOT_RANK_8) << 1u64
        | (king & NOT_FILE_H & NOT_RANK_8) << 9u64
        | (king & NOT_FILE_H) << 8u64
        | (king & NOT_FILE_H & NOT_RANK_1) << 7u64
        | (king & NOT_RANK_1) >> 1u64
        | (king & NOT_FILE_A & NOT_RANK_1) >> 9u64
        | (king & NOT_FILE_A) >> 8u64
        | (king & NOT_FILE_A & NOT_RANK_8) >> 7u64
}

/// Bit `8 * f + r` of the king pattern is set exactly when one of its source
/// squares, one king move back from file `f` and rank `r`, is on the board and set.
proof fn lemma_king_bit(king: Bits, f: u64, r: u64)
    by (bit_vector)
    requires
        f < 8,
        r < 8,
    ensures
        has_bit(king_pattern(king), (8 * f + r) as u64) == (
            (r >= 1 && has_bit(king, (8 * f + (r - 1)) as u64))
            || (f >= 1 && r >= 1 && has_bit(king, (8 * (f - 1) + (r - 1)) as u64))
            || (f >= 1 && has_bit(king, (8 * (f - 1) + r) as u64))
            || (f >= 1 && r + 1 < 8 && has_bit(king, (8 * (f - 1) + (r + 1)) as u64))
            || (r + 1 < 8 && has_bit(king, (8 * f + (r + 1)) as u64))
            || (f + 1 < 8 && r + 1 < 8 && has_bit(king, (8 * (f + 1) + (r + 1)) as u64))
            || (f + 1 < 8 && has_bit(king, (8 * (f + 1) + r) as u64))
            || (f + 1 < 8 && r >= 1 && has_bit(king, (8 * (f + 1) + (r - 1)) as u64))
        ),
{
}

/// A square in the king pattern of `king` is attacked by a king of `king`.
proof fn lemma_king_pattern_sound(king: Bits, t: Square)
    requires
        squares_of(king_pattern(king)).contains(t),
    ensures
        king_reach(squares_of(king)).contains(t),
{
    lemma_index_bijective(t);
    let f = t.file();
    let r = t.rank();
    lemma_king_bit(king, f as u64, r as u64);
    if r >= 1 && has_bit(king, (8 * f + (r - 1)) as u64) {
        lemma_square_at(f, r - 1);
        assert(king_attacks(square_at(f, r - 1), t));
    } else if f >= 1 && r >= 1 && has_bit(king, (8 * (f - 1) + (r - 1)) as u64) {
        lemma_square_at(f - 1, r - 1);
        assert(king_attacks(square_at(f - 1, r - 1), t));
    } else if f >= 1 && has_bit(king, (8 * (f - 1) + r) as u64) {
        lemma_square_at(f - 1, r);
        assert(king_attacks(square_at(f - 1, r), t));
    } else if f >= 1 && r + 1 < 8 && has_bit(king, (8 * (f - 1) + (r + 1)) as u64) {
        lemma_square_at(f - 1, r + 1);
        assert(king_attacks(square_at(f - 1, r + 1), t));
    } else if r + 1 < 8 && has_bit(king, (8 * f + (r + 1)) as u64) {
        lemma_square_at(f, r + 1);
        assert(king_attacks(square_at(f, r + 1), t));
    } else if f + 1 < 8 && r + 1 < 8 && has_bit(king, (8 * (f + 1) + (r + 1)) as u64) {
        lemma_square_at(f + 1, r + 1);
        assert(king_attacks(square_at(f + 1, r + 1), t));
    } else if f + 1 < 8 && has_bit(king, (8 * (f + 1) + r) as u64) {
        lemma_square_at(f + 1, r);
        assert(king_attacks(square_at(f + 1, r), t));
    } else if f + 1 < 8 && r >= 1 && has_bit(king, (8 * (f + 1) + (r - 1)) as u64) {
        lemma_square_at(f + 1, r - 1);
        assert(king_attacks(square_at(f + 1, r - 1), t));
    }
}

/// A square attacked by a king of `king` is in the king pattern of `king`.
proof fn lemma_king_pattern_complete(king: Bits, s: Square, t: Square)
    requires
        squares_of(king).contains(s),
        king_attacks(s, t),
    ensures
        squares_of(king_pattern(king)).contains(t),
{
    lemma_index_bijective(s);
    lemma_index_bijective(t);
    lemma_king_bit(king, t.file() as u64, t.rank() as u64);
}

/// A square lies in the king pattern of `king` exactly when a king of `king` attacks it.
proof fn lemma_king_pattern(king: Bits)
    ensures
        squares_of(king_pattern(king)) == king_reach(squares_of(king)),
{
    assert forall|t: Square| squares_of(king_pattern(king)).contains(t) == king_reach(squares_of(king)).contains(t) by {
        if squares_of(king_pattern(king)).contains(t) {
            lemma_king_pattern_sound(king, t);
        }
        if king_reach(squares_of(king)).contains(t) {
            let s = choose|s: Square| squares_of(king).contains(s) && king_attacks(s, t);
            lemma_king_pattern_complete(king, s, t);
        }
    }
    assert(squares_of(king_pattern(king)) =~= king_reach(squares_of(king)));
}


/// Whether a `piece` of `color` on `from` attacks `to` on an otherwise empty board.
/// Bishops, rooks and queens have no attack pattern here: they stand for their own
/// square only.
pub open spec fn attacks(piece: PieceType, color: Color, from: Square, to: Square) -> bool {
    match piece {
        PieceType::Pawn => pawn_attacks(color, from, to),
        PieceType::Knight => knight_attacks(from, to),
        PieceType::King => king_attacks(from, to),
        _ => to == from,
    }
}

/// The squares that a `piece` of `color` on `from` attacks.
pub open spec fn attack_set(piece: PieceType, color: Color, from: Square) -> Set<Square> {
    Set::new(|to: Square| attacks(piece, color, from, to))
}

/// The squares attacked by `piece` on `square`, with pawns attacking as White pawns do.
pub fn attacked_squares_for(piece: PieceType, square: Square) -> (r: Bitboard)
    ensures
        r@ == attack_set(piece, Color::White, square),
{
    attacked_squares_for_color(piece, Color::White, square)
}

/// The squares attacked by a `piece` of `color` on `square`.
pub fn attacked_squares_for_color(piece: PieceType, color: Color, square: Square) -> (r: Bitboard)
    ensures
        r@ == attack_set(piece, color, square),
{
    let origin = Bitboard::from_squares(&[square]);
    let bits = origin.get_bits();
    proof {
        assert(origin@ =~= set![square]);
    }
    let r = match piece {
        PieceType::Pawn => attacked_squares_for_pawn(bits, color),
        PieceType::Knight => attacked_squares_for_knight(bits),
        PieceType::King => attacked_squares_for_king(bits),
        _ => origin,
    };
    proof {
        assert forall|t: Square| r@.contains(t) == attack_set(piece, color, square).contains(t) by {
            assert(set![square].contains(square));
        }
        assert(r@ =~= attack_set(piece, color, square));
    }
    r
}

/// The squares attacked by pawns of `color` on the squares of `pawn`.
fn attacked_squares_for_pawn(pawn: Bits, color: Color) -> (r: Bitboard)
    ensures
        r@ == pawn_reach(color, squares_of(pawn)),
{
    proof {
        lemma_pawn_pattern(pawn, color);
    }
    match color {
        Color::White => Bitboard::from_bits(
            (pawn & NOT_FILE_A & NOT_RANK_8) >> 7 | (pawn & NOT_FILE_H & NOT_RANK_8) << 9,
        ),
        Color::Black => Bitboard::from_bits(
            (pawn & NOT_FILE_A & NOT_RANK_1) >> 9 | (pawn & NOT_FILE_H & NOT_RANK_1) << 7,
        ),
    }
}

/// The squares attacked by knights on the squares of `knight`.
fn attacked_squares_for_knight(knight: Bits) -> (r: Bitboard)
    ensures
        r@ == knight_reach(squares_of(knight)),
{
    proof {
        lemma_knight_pattern(knight);
    }
    Bitboard::from_bits(
        (knight & NOT_FILE_G & NOT_FILE_H & NOT_RANK_8) << 17
            | (knight & NOT_FILE_H & NOT_RANK_7 & NOT_RANK_8) << 10
            | (knight & NOT_FILE_A & NOT_RANK_7 & NOT_RANK_8) >> 6
            | (knight & NOT_FILE_A & NOT_FILE_B & NOT_RANK_8) >> 15
            | (knight & NOT_FILE_A & NOT_FILE_B & NOT_RANK_1) >> 17
            | (knight & NOT_FILE_A & NOT_RANK_1 & NOT_RANK_2) >> 10
            | (knight & NOT_FILE_H & NOT_RANK_1 & NOT_RANK_2) << 6
            | (knight & NOT_FILE_G & NOT_FILE_H & NOT_RANK_1) << 15,
    )
}

/// The squares attacked by kings on the squares of `king`.
fn attacked_squares_for_king(king: Bits) -> (r: Bitboard)
    ensures
        r@ == king_reach(squares_of(king)),
{
    proof {
        lemma_king_pattern(king);
    }
    Bitboard::from_bits(
        (king & NOT_RANK_8) << 1
            | (king & NOT_FILE_H & NOT_RANK_8) << 9
            | (king & NOT_FILE_H) << 8
            | (king & NOT_FILE_H & NOT_RANK_1) << 7
            | (king & NOT_RANK_1) >> 1
            | (king & NOT_FILE_A & NOT_RANK_1) >> 9
            | (king & NOT_FILE_A) >> 8
            | (king & NOT_FILE_A & NOT_RANK_8) >> 7,
    )
}

/// A pawn attacks exactly the squares one file to either side and one rank forward;
/// none of them wraps around to the other edge of the board.
pub proof fn lemma_pawn_attacks_forward_diagonals(color: Color, from: Square)
    ensures
        attack_set(PieceType::Pawn, color, from) == Set::new(
            |to: Square| abs(to.file() - from.file()) == 1 && to.rank() == from.rank() + forward(color),
        ),
{
    assert(attack_set(PieceType::Pawn, color, from) =~= Set::new(
        |to: Square| abs(to.file() - from.file()) == 1 && to.rank() == from.rank() + forward(color),
    ));
}

/// A pawn on its last rank attacks nothing.
pub proof fn lemma_pawn_on_last_rank_attacks_nothing(color: Color, from: Square)
    requires
        from.rank() == last_rank(color),
    ensures
        attack_set(PieceType::Pawn, color, from) == Set::<Square>::empty(),
{
    assert forall|to: Square| !attack_set(PieceType::Pawn, color, from).contains(to) by {
        lemma_index_bijective(to);
    }
    assert(attack_set(PieceType::Pawn, color, from) =~= Set::<Square>::empty());
}

/// From a corner a knight attacks exactly two squares and a king exactly three.
pub proof fn lemma_corner_attack_counts(color: Color, from: Square)
    requires
        from.file() == 0 || from.file() == 7,
        from.rank() == 0 || from.rank() == 7,
    ensures
        attack_set(PieceType::Knight, color, from).len() == 2,
        attack_set(PieceType::King, color, from).len() == 3,
{
    lemma_index_bijective(from);
    let f = from.file();
    let r = from.rank();
    let df: int = if f == 0 { 1 } else { -1 };
    let dr: int = if r == 0 { 1 } else { -1 };
    let n1 = square_at(f + df, r + 2 * dr);
    let n2 = square_at(f + 2 * df, r + dr);
    lemma_square_at(f + df, r + 2 * dr);
    lemma_square_at(f + 2 * df, r + dr);
    assert forall|to: Square|
        #[trigger] attack_set(PieceType::Knight, color, from).contains(to) == (to == n1 || to == n2) by {
        lemma_index_bijective(to);
    }
    assert(attack_set(PieceType::Knight, color, from) =~= set![n1, n2]);
    let k1 = square_at(f + df, r);
    let k2 = square_at(f, r + dr);
    let k3 = square_at(f + df, r + dr);
    lemma_square_at(f + df, r);
    lemma_square_at(f, r + dr);
    lemma_square_at(f + df, r + dr);
    assert forall|to: Square|
        #[trigger] attack_set(PieceType::King, color, from).contains(to) == (to == k1 || to == k2 || to == k3) by {
        lemma_index_bijective(to);
    }
    assert(attack_set(PieceType::King, color, from) =~= set![k1, k2, k3]);
}

/// From a square on one edge of the board but not in a corner a king attacks
/// exactly five squares.
pub proof fn lemma_edge_king_attack_count(color: Color, from: Square)
    requires
        (from.file() == 0 || from.file() == 7) != (from.rank() == 0 || from.rank() == 7),
    ensures
        attack_set(PieceType::King, color, from).len() == 5,
{
    lemma_index_bijective(from);
    let f = from.file();
    let r = from.rank();
    if f == 0 || f == 7 {
        let inner = if f == 0 { 1 } else { 6int };
        let k1 = square_at(f, r - 1);
        let k2 = square_at(f, r + 1);
        let k3 = square_at(inner, r - 1);
        let k4 = square_at(inner, r);
        let k5 = square_at(inner, r + 1);
        lemma_square_at(f, r - 1);
        lemma_square_at(f, r + 1);
        lemma_square_at(inner, r - 1);
        lemma_square_at(inner, r);
        lemma_square_at(inner, r + 1);
        assert forall|to: Square|
            #[trigger] attack_set(PieceType::King, color, from).contains(to) == (to == k1 || to == k2
                || to == k3 || to == k4 || to == k5) by {
            lemma_index_bijective(to);
        }
        assert(attack_set(PieceType::King, color, from) =~= set![k1, k2, k3, k4, k5]);
    } else {
        let inner = if r == 0 { 1 } else { 6int };
        let k1 = square_at(f - 1, r);
        let k2 = square_at(f + 1, r);
        let k3 = square_at(f - 1, inner);
        let k4 = square_at(f, inner);
        let k5 = square_at(f + 1, inner);
        lemma_square_at(f - 1, r);
        lemma_square_at(f + 1, r);
        lemma_square_at(f - 1, inner);
        lemma_square_at(f, inner);
        lemma_square_at(f + 1, inner);
        assert forall|to: Square|
            #[trigger] attack_set(PieceType::King, color, from).contains(to) == (to == k1 || to == k2
                || to == k3 || to == k4 || to == k5) by {
            lemma_index_bijective(to);
        }
        assert(attack_set(PieceType::King, color, from) =~= set![k1, k2, k3, k4, k5]);
    }
}

/// From a square on no edge of the board a king attacks all eight squares around it.
pub proof fn lemma_interior_king_attack_count(color: Color, from: Square)
    requires
        1 <= from.file() <= 6,
        1 <= from.rank() <= 6,
    ensures
        attack_set(PieceType::King, color, from).len() == 8,
{
    lemma_index_bijective(from);
    let f = from.file();
    let r = from.rank();
    let k1 = square_at(f - 1, r - 1);
    let k2 = square_at(f - 1, r);
    let k3 = square_at(f - 1, r + 1);
    let k4 = square_at(f, r - 1);
    let k5 = square_at(f, r + 1);
    let k6 = square_at(f + 1, r - 1);
    let k7 = square_at(f + 1, r);
    let k8 = square_at(f + 1, r + 1);
    lemma_square_at(f - 1, r - 1);
    lemma_square_at(f - 1, r);
    lemma_square_at(f - 1, r + 1);
    lemma_square_at(f, r - 1);
    lemma_square_at(f, r + 1);
    lemma_square_at(f + 1, r - 1);
    lemma_square_at(f + 1, r);
    lemma_square_at(f + 1, r + 1);
    assert forall|to: Square|
        #[trigger] attack_set(PieceType::King, color, from).contains(to) == (to == k1 || to == k2 || to == k3
            || to == k4 || to == k5 || to == k6 || to == k7 || to == k8) by {
        lemma_index_bijective(to);
    }
    assert(attack_set(PieceType::King, color, from) =~= set![k1, k2, k3, k4, k5, k6, k7, k8]);
}

} // verus!
