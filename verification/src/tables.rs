//! Leaper attack tables: one bitboard per square for the knight and for
//! the king, plus the magic transform for file attacks. A table is built
//! by one bounded pass and never mutated afterwards; callers build once
//! and only read.

use vstd::prelude::*;
use crate::coordinates::BitBoard;
use crate::coordinates::Coordinate;
use crate::coordinates::Square;
use crate::piece::king_attacks_from;
use crate::piece::king_bb;
use crate::piece::knight_attacks_from;
use crate::piece::knight_bb;

verus! {

/// A full knight table: entry `i` is the knight attack set from square `i`.
pub fn knight_attacks_table() -> (t: Vec<BitBoard>)
    ensures
        t@.len() == 64,
        forall|i: int| 0 <= i < 64 ==> t@[i] == knight_bb(i / 8, i % 8),
{
    let mut t: Vec<BitBoard> = Vec::new();
    let mut i: u8 = 0;
    while i < 64
        invariant
            i <= 64,
            t@.len() == i as int,
            forall|j: int| 0 <= j < i as int ==> t@[j] == knight_bb(j / 8, j % 8),
        decreases 64 - i,
    {
        let sq = Square::new(i);
        t.push(knight_attacks_from(sq));
        i = i + 1;
    }
    t
}

/// A full king table: entry `i` is the king attack set from square `i`.
pub fn king_attacks_table() -> (t: Vec<BitBoard>)
    ensures
        t@.len() == 64,
        forall|i: int| 0 <= i < 64 ==> t@[i] == king_bb(i / 8, i % 8),
{
    let mut t: Vec<BitBoard> = Vec::new();
    let mut i: u8 = 0;
    while i < 64
        invariant
            i <= 64,
            t@.len() == i as int,
            forall|j: int| 0 <= j < i as int ==> t@[j] == king_bb(j / 8, j % 8),
        decreases 64 - i,
    {
        let sq = Square::new(i);
        t.push(king_attacks_from(sq));
        i = i + 1;
    }
    t
}


/// A magic-bitboard entry for file attacks from one square: the relevant
/// occupancy mask and the multiply-shift perfect hash that maps a masked
/// occupancy to a table index.
#[derive(Copy, Clone, Debug, PartialEq, Eq, Structural)]
pub struct Magic {
    pub mask: u64,
    pub multiplier: u64,
    pub shift: u32,
}

impl Magic {
    /// A usable entry never shifts past the word.
    pub open spec fn wf(self) -> bool {
        self.shift < 64
    }

    /// The magic transform: mask, multiply (mod 2^64), shift.
    pub open spec fn spec_magify(self, bb: u64) -> u64 {
        ((((bb & self.mask) * self.multiplier) % 0x1_0000_0000_0000_0000) as u64) >> (
        self.shift as u64)
    }

    /// Apply the magic transform to an occupancy bitboard.
    pub fn magify(self, bb: u64) -> (r: u64)
        requires
            self.wf(),
        ensures
            r == self.spec_magify(bb),
    {
        let masked = bb & self.mask;
        proof {
            let a = masked as nat;
            let b = self.multiplier as nat;
            assert(a * b <= 0xffff_ffff_ffff_ffffnat * 0xffff_ffff_ffff_ffffnat)
                by (nonlinear_arith)
                requires
                    a <= 0xffff_ffff_ffff_ffffnat && b <= 0xffff_ffff_ffff_ffffnat,
            ;
        }
        let prod: u128 = (masked as u128) * (self.multiplier as u128);
        let low: u64 = (prod % 0x1_0000_0000_0000_0000u128) as u64;
        low >> self.shift
    }

    /// The mask of a file magic: the six inner squares of the square's
    /// file, whose occupancy decides file attacks.
    pub open spec fn spec_file_mask(i: int) -> u64 {
        0x7eu64 << ((8 * (i / 8)) as u64)
    }

    /// One magic entry per square for file attacks. In the file-major
    /// layout a file is one contiguous byte, so the multiply-shift hash
    /// degenerates to an exact shift: multiplier 1, shift to the file's
    /// low inner bit.
    pub fn by_file() -> (t: Vec<Magic>)
        ensures
            t@.len() == 64,
            forall|i: int| 0 <= i < 64 ==> (#[trigger] t@[i]) == (Magic {
                mask: Magic::spec_file_mask(i),
                multiplier: 1u64,
                shift: (8 * (i / 8) + 1) as u32,
            }),
            forall|i: int| 0 <= i < 64 ==> (#[trigger] t@[i]).wf(),
    {
        let mut t: Vec<Magic> = Vec::new();
        let mut i: u8 = 0;
        while i < 64
            invariant
                i <= 64,
                t@.len() == i as int,
                forall|j: int| 0 <= j < i as int ==> (#[trigger] t@[j]) == (Magic {
                    mask: Magic::spec_file_mask(j),
                    multiplier: 1u64,
                    shift: (8 * (j / 8) + 1) as u32,
                }),
            decreases 64 - i,
        {
            let f = i / 8;
            t.push(
                Magic {
                    mask: 0x7eu64 << ((8 * f) as u64),
                    multiplier: 1,
                    shift: (8 * f + 1) as u32,
                },
            );
            i = i + 1;
        }
        t
    }
}

/// The file transform is a perfect hash of the relevant occupancy: two
/// occupancy boards map to the same index exactly when they agree on the
/// square's six inner file bits, so the index resolves file attacks for
/// every reachable blocker pattern.
pub proof fn lemma_file_magic_perfect(m: Magic, i: int, o1: u64, o2: u64)
    requires
        0 <= i < 64,
        m.mask == Magic::spec_file_mask(i),
        m.multiplier == 1,
        m.shift == 8 * (i / 8) + 1,
    ensures
        m.spec_magify(o1) == m.spec_magify(o2) <==> (o1 & m.mask) == (o2 & m.mask),
{
    let f = (i / 8) as u64;
    let m1: u64 = m.mask;
    let a1: u64 = o1 & m1;
    let a2: u64 = o2 & m1;
    let sh: u64 = (8 * f + 1) as u64;
    assert((a1 >> sh == a2 >> sh) <==> a1 == a2) by (bit_vector)
        requires
            f < 8,
            m1 == 0x7eu64 << (8 * f),
            a1 == o1 & m1,
            a2 == o2 & m1,
            sh == 8 * f + 1,
    ;
    assert(a1 * 1 == a1);
    assert(a2 * 1 == a2);
}

} // verus!

