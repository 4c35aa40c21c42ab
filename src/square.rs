use vstd::prelude::*;

verus! {

/// One of the 64 cells of the board.
///
/// Squares are numbered file-major: the square on file `f` (A = 0 .. H = 7) and
/// rank `r` (rank 1 = 0 .. rank 8 = 7) has index `8 * f + r`, so A1 is bit 0,
/// A8 is bit 7, B1 is bit 8 and H8 is bit 63.
#[derive(Clone, Copy, Debug, PartialEq, Eq, Structural)]
pub enum Square {
    A1,
    A2,
    A3,
    A4,
    A5,
    A6,
    A7,
    A8,
    B1,
    B2,
    B3,
    B4,
    B5,
    B6,
    B7,
    B8,
    C1,
    C2,
    C3,
    C4,
    C5,
    C6,
    C7,
    C8,
    D1,
    D2,
    D3,
    D4,
    D5,
    D6,
    D7,
    D8,
    E1,
    E2,
    E3,
    E4,
    E5,
    E6,
    E7,
    E8,
    F1,
    F2,
    F3,
    F4,
    F5,
    F6,
    F7,
    F8,
    G1,
    G2,
    G3,
    G4,
    G5,
    G6,
    G7,
    G8,
    H1,
    H2,
    H3,
    H4,
    H5,
    H6,
    H7,
    H8,
}

impl Square {
    /// The bit position of the square.
    #[verifier::opaque]
    pub open spec fn spec_index(self) -> nat {
        match self {
            Square::A1 => 0,
            Square::A2 => 1,
            Square::A3 => 2,
            Square::A4 => 3,
            Square::A5 => 4,
            Square::A6 => 5,
            Square::A7 => 6,
            Square::A8 => 7,
            Square::B1 => 8,
            Square::B2 => 9,
            Square::B3 => 10,
            Square::B4 => 11,
            Square::B5 => 12,
            Square::B6 => 13,
            Square::B7 => 14,
            Square::B8 => 15,
            Square::C1 => 16,
            Square::C2 => 17,
            Square::C3 => 18,
            Square::C4 => 19,
            Square::C5 => 20,
            Square::C6 => 21,
            Square::C7 => 22,
            Square::C8 => 23,
            Square::D1 => 24,
            Square::D2 => 25,
            Square::D3 => 26,
            Square::D4 => 27,
            Square::D5 => 28,
            Square::D6 => 29,
            Square::D7 => 30,
            Square::D8 => 31,
            Square::E1 => 32,
            Square::E2 => 33,
            Square::E3 => 34,
            Square::E4 => 35,
            Square::E5 => 36,
            Square::E6 => 37,
            Square::E7 => 38,
            Square::E8 => 39,
            Square::F1 => 40,
            Square::F2 => 41,
            Square::F3 => 42,
            Square::F4 => 43,
            Square::F5 => 44,
            Square::F6 => 45,
            Square::F7 => 46,
            Square::F8 => 47,
            Square::G1 => 48,
            Square::G2 => 49,
            Square::G3 => 50,
            Square::G4 => 51,
            Square::G5 => 52,
            Square::G6 => 53,
            Square::G7 => 54,
            Square::G8 => 55,
            Square::H1 => 56,
            Square::H2 => 57,
            Square::H3 => 58,
            Square::H4 => 59,
            Square::H5 => 60,
            Square::H6 => 61,
            Square::H7 => 62,
            Square::H8 => 63,
        }
    }

    /// The file of the square, from 0 (file A) to 7 (file H).
    pub open spec fn file(self) -> int {
        self.spec_index() as int / 8
    }

    /// The rank of the square, from 0 (rank 1) to 7 (rank 8).
    pub open spec fn rank(self) -> int {
        self.spec_index() as int % 8
    }

    /// The square with bit position `i`, for `i` in `0..64`.
    #[verifier::opaque]
    pub open spec fn spec_from_index(i: int) -> Square {
        if i == 0 {
            Square::A1
        } else if i == 1 {
            Square::A2
        } else if i == 2 {
            Square::A3
        } else if i == 3 {
            Square::A4
        } else if i == 4 {
            Square::A5
        } else if i == 5 {
            Square::A6
        } else if i == 6 {
            Square::A7
        } else if i == 7 {
            Square::A8
        } else if i == 8 {
            Square::B1
        } else if i == 9 {
            Square::B2
        } else if i == 10 {
            Square::B3
        } else if i == 11 {
            Square::B4
        } else if i == 12 {
            Square::B5
        } else if i == 13 {
            Square::B6
        } else if i == 14 {
            Square::B7
        } else if i == 15 {
            Square::B8
        } else if i == 16 {
            Square::C1
        } else if i == 17 {
            Square::C2
        } else if i == 18 {
            Square::C3
        } else if i == 19 {
            Square::C4
        } else if i == 20 {
            Square::C5
        } else if i == 21 {
            Square::C6
        } else if i == 22 {
            Square::C7
        } else if i == 23 {
            Square::C8
        } else if i == 24 {
            Square::D1
        } else if i == 25 {
            Square::D2
        } else if i == 26 {
            Square::D3
        } else if i == 27 {
            Square::D4
        } else if i == 28 {
            Square::D5
        } else if i == 29 {
            Square::D6
        } else if i == 30 {
            Square::D7
        } else if i == 31 {
            Square::D8
        } else if i == 32 {
            Square::E1
        } else if i == 33 {
            Square::E2
        } else if i == 34 {
            Square::E3
        } else if i == 35 {
            Square::E4
        } else if i == 36 {
            Square::E5
        } else if i == 37 {
            Square::E6
        } else if i == 38 {
            Square::E7
        } else if i == 39 {
            Square::E8
        } else if i == 40 {
            Square::F1
        } else if i == 41 {
            Square::F2
        } else if i == 42 {
            Square::F3
        } else if i == 43 {
            Square::F4
        } else if i == 44 {
            Square::F5
        } else if i == 45 {
            Square::F6
        } else if i == 46 {
            Square::F7
        } else if i == 47 {
            Square::F8
        } else if i == 48 {
            Square::G1
        } else if i == 49 {
            Square::G2
        } else if i == 50 {
            Square::G3
        } else if i == 51 {
            Square::G4
        } else if i == 52 {
            Square::G5
        } else if i == 53 {
            Square::G6
        } else if i == 54 {
            Square::G7
        } else if i == 55 {
            Square::G8
        } else if i == 56 {
            Square::H1
        } else if i == 57 {
            Square::H2
        } else if i == 58 {
            Square::H3
        } else if i == 59 {
            Square::H4
        } else if i == 60 {
            Square::H5
        } else if i == 61 {
            Square::H6
        } else if i == 62 {
            Square::H7
        } else {
            Square::H8
        }
    }

    /// The bit position of the square.
    pub fn index(self) -> (r: u8)
        ensures
            r as nat == self.spec_index(),
    {
        reveal(Square::spec_index);
        match self {
            Square::A1 => 0,
            Square::A2 => 1,
            Square::A3 => 2,
            Square::A4 => 3,
            Square::A5 => 4,
            Square::A6 => 5,
            Square::A7 => 6,
            Square::A8 => 7,
            Square::B1 => 8,
            Square::B2 => 9,
            Square::B3 => 10,
            Square::B4 => 11,
            Square::B5 => 12,
            Square::B6 => 13,
            Square::B7 => 14,
            Square::B8 => 15,
            Square::C1 => 16,
            Square::C2 => 17,
            Square::C3 => 18,
            Square::C4 => 19,
            Square::C5 => 20,
            Square::C6 => 21,
            Square::C7 => 22,
            Square::C8 => 23,
            Square::D1 => 24,
            Square::D2 => 25,
            Square::D3 => 26,
            Square::D4 => 27,
            Square::D5 => 28,
            Square::D6 => 29,
            Square::D7 => 30,
            Square::D8 => 31,
            Square::E1 => 32,
            Square::E2 => 33,
            Square::E3 => 34,
            Square::E4 => 35,
            Square::E5 => 36,
            Square::E6 => 37,
            Square::E7 => 38,
            Square::E8 => 39,
            Square::F1 => 40,
            Square::F2 => 41,
            Square::F3 => 42,
            Square::F4 => 43,
            Square::F5 => 44,
            Square::F6 => 45,
            Square::F7 => 46,
            Square::F8 => 47,
            Square::G1 => 48,
            Square::G2 => 49,
            Square::G3 => 50,
            Square::G4 => 51,
            Square::G5 => 52,
            Square::G6 => 53,
            Square::G7 => 54,
            Square::G8 => 55,
            Square::H1 => 56,
            Square::H2 => 57,
            Square::H3 => 58,
            Square::H4 => 59,
            Square::H5 => 60,
            Square::H6 => 61,
            Square::H7 => 62,
            Square::H8 => 63,
        }
    }

    /// The square with bit position `i`.
    pub fn from_index(i: u8) -> (r: Square)
        requires
            i < 64,
        ensures
            r.spec_index() == i,
            r == Square::spec_from_index(i as int),
    {
        reveal(Square::spec_index);
        reveal(Square::spec_from_index);
        match i {
            0 => Square::A1,
            1 => Square::A2,
            2 => Square::A3,
            3 => Square::A4,
            4 => Square::A5,
            5 => Square::A6,
            6 => Square::A7,
            7 => Square::A8,
            8 => Square::B1,
            9 => Square::B2,
            10 => Square::B3,
            11 => Square::B4,
            12 => Square::B5,
            13 => Square::B6,
            14 => Square::B7,
            15 => Square::B8,
            16 => Square::C1,
            17 => Square::C2,
            18 => Square::C3,
            19 => Square::C4,
            20 => Square::C5,
            21 => Square::C6,
            22 => Square::C7,
            23 => Square::C8,
            24 => Square::D1,
            25 => Square::D2,
            26 => Square::D3,
            27 => Square::D4,
            28 => Square::D5,
            29 => Square::D6,
            30 => Square::D7,
            31 => Square::D8,
            32 => Square::E1,
            33 => Square::E2,
            34 => Square::E3,
            35 => Square::E4,
            36 => Square::E5,
            37 => Square::E6,
            38 => Square::E7,
            39 => Square::E8,
            40 => Square::F1,
            41 => Square::F2,
            42 => Square::F3,
            43 => Square::F4,
            44 => Square::F5,
            45 => Square::F6,
            46 => Square::F7,
            47 => Square::F8,
            48 => Square::G1,
            49 => Square::G2,
            50 => Square::G3,
            51 => Square::G4,
            52 => Square::G5,
            53 => Square::G6,
            54 => Square::G7,
            55 => Square::G8,
            56 => Square::H1,
            57 => Square::H2,
            58 => Square::H3,
            59 => Square::H4,
            60 => Square::H5,
            61 => Square::H6,
            62 => Square::H7,
            _ => Square::H8,
        }
    }

    /// The square on file `file` (0 = A) and rank `rank` (0 = rank 1).
    pub fn from_file_rank(file: u8, rank: u8) -> (r: Square)
        requires
            file < 8,
            rank < 8,
        ensures
            r.file() == file,
            r.rank() == rank,
    {
        Square::from_index(file * 8 + rank)
    }
}

/// The square on file `file` and rank `rank`, for both in `0..8`.
pub open spec fn square_at(file: int, rank: int) -> Square {
    Square::spec_from_index(8 * file + rank)
}

/// Every square has a bit position in `0..64`, made of its file and rank, and
/// that position names it back.
pub proof fn lemma_index_bijective(s: Square)
    ensures
        s.spec_index() < 64,
        Square::spec_from_index(s.spec_index() as int) == s,
        0 <= s.file() < 8,
        0 <= s.rank() < 8,
        s.spec_index() == 8 * s.file() + s.rank(),
        square_at(s.file(), s.rank()) == s,
{
    reveal(Square::spec_index);
    reveal(Square::spec_from_index);
}

/// Two squares with the same bit position are the same square.
pub proof fn lemma_index_injective(s: Square, t: Square)
    ensures
        s.spec_index() == t.spec_index() <==> s == t,
{
    lemma_index_bijective(s);
    lemma_index_bijective(t);
}

/// Every position in `0..64` is the bit position of a square.
pub proof fn lemma_index_surjective(i: int)
    requires
        0 <= i < 64,
    ensures
        Square::spec_from_index(i).spec_index() == i,
{
    reveal(Square::spec_index);
    reveal(Square::spec_from_index);
}

/// The square at a file and rank has that file and rank.
pub proof fn lemma_square_at(file: int, rank: int)
    requires
        0 <= file < 8,
        0 <= rank < 8,
    ensures
        square_at(file, rank).spec_index() == 8 * file + rank,
        square_at(file, rank).file() == file,
        square_at(file, rank).rank() == rank,
{
    lemma_index_surjective(8 * file + rank);
}

} // verus!
