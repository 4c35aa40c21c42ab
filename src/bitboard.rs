use vstd::prelude::*;

use crate::bits::{
    has_bit, lemma_bit_or, lemma_bit_single, lemma_bit_test, lemma_bit_zero, lemma_bits_ext,
};
use crate::square::{lemma_index_bijective, lemma_index_injective, lemma_index_surjective, Square};

verus! {

/// A raw 64-bit pattern: bit `i` stands for the square with index `i`.
pub type Bits = u64;

/// The squares whose bit is set in `x`.
pub open spec fn squares_of(x: Bits) -> Set<Square> {
    Set::new(|s: Square| has_bit(x, s.spec_index() as u64))
}

/// A set of squares, held as one bit per square.
#[derive(Clone, Copy, Debug, PartialEq, Eq, Structural)]
pub struct Bitboard {
    data: Bits,
}

impl View for Bitboard {
    type V = Set<Square>;

    open spec fn view(&self) -> Set<Square> {
        squares_of(self.bits())
    }
}

impl Bitboard {
    /// The raw bit pattern of the board.
    pub closed spec fn bits(self) -> Bits {
        self.data
    }

    /// The board holding exactly the listed squares.
    pub fn from_squares(squares: &[Square]) -> (r: Bitboard)
        ensures
            r@ == squares@.to_set(),
    {
        let mut data: Bits = 0;
        let mut i: usize = 0;
        proof {
            assert forall|t: Square| !squares_of(0).contains(t) by {
                lemma_index_bijective(t);
                lemma_bit_zero(t.spec_index() as u64);
            }
            assert(squares_of(0) =~= squares@.subrange(0, 0).to_set());
        }
        while i < squares.len()
            invariant
                i <= squares.len(),
                squares_of(data) == squares@.subrange(0, i as int).to_set(),
            decreases squares.len() - i,
        {
            let bit = Self::bits_from_square(squares[i]);
            proof {
                lemma_squares_of_insert(data, squares@[i as int]);
                assert(squares@.subrange(0, i + 1) == squares@.subrange(0, i as int).push(squares@[i as int]));
                squares@.subrange(0, i as int).lemma_push_to_set_commute(squares@[i as int]);
            }
            data = data | bit;
            i = i + 1;
        }
        assert(squares@.subrange(0, i as int) == squares@);
        Bitboard { data }
    }

    /// The board whose bit pattern is `bits`.
    pub fn from_bits(bits: Bits) -> (r: Bitboard)
        ensures
            r.bits() == bits,
            r@ == squares_of(bits),
    {
        Bitboard { data: bits }
    }

    /// The bit pattern of the board.
    pub fn get_bits(&self) -> (r: Bits)
        ensures
            r == self.bits(),
    {
        self.data
    }

    /// Whether every listed square is on the board.
    pub fn squares_occupied(&self, squares: &[Square]) -> (r: bool)
        ensures
            r == (forall|i: int| 0 <= i < squares@.len() ==> self@.contains(#[trigger] squares@[i])),
    {
        let mut i: usize = 0;
        while i < squares.len()
            invariant
                i <= squares.len(),
                forall|k: int| 0 <= k < i ==> self@.contains(#[trigger] squares@[k]),
            decreases squares.len() - i,
        {
            if !self.square_occupied(squares[i]) {
                return false;
            }
            i = i + 1;
        }
        true
    }

    /// Whether `square` is on the board.
    pub fn square_occupied(&self, square: Square) -> (r: bool)
        ensures
            r == self@.contains(square),
    {
        let bit = Self::bits_from_square(square);
        proof {
            lemma_index_bijective(square);
            lemma_bit_test(self.data, square.spec_index() as u64);
        }
        self.data & bit != 0
    }

    /// The pattern with only the bit of `square` set.
    fn bits_from_square(square: Square) -> (r: Bits)
        ensures
            r == 1u64 << (square.spec_index() as u64),
            squares_of(r) == set![square],
    {
        let k = square.index();
        proof {
            lemma_index_bijective(square);
            lemma_single_square(square);
        }
        1u64 << (k as u64)
    }
}

/// Setting the bit of `s` adds `s` to the squares of a pattern.
proof fn lemma_squares_of_insert(x: Bits, s: Square)
    ensures
        squares_of(x | (1u64 << (s.spec_index() as u64))) == squares_of(x).insert(s),
{
    lemma_index_bijective(s);
    assert forall|t: Square|
        squares_of(x | (1u64 << (s.spec_index() as u64))).contains(t) == squares_of(x).insert(s).contains(t) by {
        lemma_index_bijective(t);
        lemma_index_injective(s, t);
        lemma_bit_or(x, 1u64 << (s.spec_index() as u64), t.spec_index() as u64);
        lemma_bit_single(s.spec_index() as u64, t.spec_index() as u64);
    }
    assert(squares_of(x | (1u64 << (s.spec_index() as u64))) =~= squares_of(x).insert(s));
}

/// The single bit of `s` stands for `s` alone.
proof fn lemma_single_square(s: Square)
    ensures
        squares_of(1u64 << (s.spec_index() as u64)) == set![s],
{
    lemma_index_bijective(s);
    assert forall|t: Square| #[trigger] squares_of(1u64 << (s.spec_index() as u64)).contains(t) == (t == s) by {
        lemma_index_bijective(t);
        lemma_index_injective(s, t);
        lemma_bit_single(s.spec_index() as u64, t.spec_index() as u64);
    }
    assert(squares_of(1u64 << (s.spec_index() as u64)) =~= set![s]);
}

/// Two boards with the same squares have the same bit pattern.
pub proof fn lemma_view_determines_bits(a: Bitboard, b: Bitboard)
    requires
        a@ == b@,
    ensures
        a.bits() == b.bits(),
        a == b,
{
    assert forall|i: u64| i < 64 implies has_bit(a.bits(), i) == has_bit(b.bits(), i) by {
        lemma_index_surjective(i as int);
        let s = Square::spec_from_index(i as int);
        assert(a@.contains(s) == b@.contains(s));
        assert(a@.contains(s) == has_bit(a.bits(), i));
        assert(b@.contains(s) == has_bit(b.bits(), i));
    }
    lemma_bits_ext(a.bits(), b.bits());
}

/// A board made from no squares holds no square, and its bit pattern is zero.
pub proof fn lemma_empty_board(b: Bitboard)
    requires
        b@ == Seq::<Square>::empty().to_set(),
    ensures
        b@.len() == 0,
        b.bits() == 0,
{
    let z = Bitboard { data: 0 };
    assert forall|t: Square| !z@.contains(t) by {
        lemma_index_bijective(t);
        lemma_bit_zero(t.spec_index() as u64);
    }
    assert(b@ =~= z@);
    lemma_view_determines_bits(b, z);
    assert(b@ =~= Set::<Square>::empty());
}

/// A board made from one square holds that square and no other.
pub proof fn lemma_single_square_board(b: Bitboard, s: Square)
    requires
        b@ == seq![s].to_set(),
    ensures
        forall|t: Square| #[trigger] b@.contains(t) <==> t == s,
{
    assert(seq![s][0] == s);
}

} // verus!
