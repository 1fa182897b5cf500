//! Coordinate algebra: files, ranks, squares and 64-bit square sets.
//!
//! A square index decomposes as `index = file * 8 + rank` (file-major);
//! the shift and diagonal formulas below depend on that ordering.

use vstd::prelude::*;
use vstd::std_specs::bits::axiom_u64_trailing_zeros;
use vstd::std_specs::bits::u64_trailing_zeros;

verus! {

/// A 64-bit set of squares: bit `i` is set iff square `i` is a member.
pub type BitBoard = u64;

/// True when bit `i` of `b` is set.
pub open spec fn bb_bit(b: u64, i: int) -> bool {
    0 <= i < 64 && (b >> (i as u64)) & 1u64 == 1u64
}

/// The set-bit indices of `b` from position `i` upward, in ascending order.
pub open spec fn bits_seq_from(b: u64, i: int) -> Seq<u8>
    decreases 64 - i,
{
    if i < 0 || i >= 64 {
        Seq::empty()
    } else if bb_bit(b, i) {
        seq![i as u8] + bits_seq_from(b, i + 1)
    } else {
        bits_seq_from(b, i + 1)
    }
}

/// The ascending sequence of set-bit indices of `b`.
pub open spec fn bits_seq(b: u64) -> Seq<u8> {
    bits_seq_from(b, 0)
}

/// Number of set bits of `b` at position `i` or above.
pub open spec fn popcount_from(b: u64, i: int) -> nat
    decreases 64 - i,
{
    if i < 0 || i >= 64 {
        0
    } else if bb_bit(b, i) {
        1 + popcount_from(b, i + 1)
    } else {
        popcount_from(b, i + 1)
    }
}

/// The population count of `b`: how many bits are set.
pub open spec fn popcount(b: u64) -> nat {
    popcount_from(b, 0)
}

/// Range-checked construction, total construction, edge-safe shifting and
/// iteration, shared by [`File`], [`Rank`] and [`Square`].
pub trait Coordinate: Sized + Copy {
    /// One past the largest legal index: 8 for files and ranks, 64 for squares.
    spec fn limit() -> u8;

    /// The index this value carries.
    spec fn idx(self) -> u8;

    /// Well-formed: the index is within range. Every constructor establishes this.
    open spec fn wf(self) -> bool {
        self.idx() < Self::limit()
    }

    /// Construct from an index already known to be in range.
    fn new_unchecked(i: u8) -> (r: Self)
        requires
            i < Self::limit(),
        ensures
            r.idx() == i,
    ;

    /// The index, as a usize.
    fn i(self) -> (r: usize)
        requires
            self.wf(),
        ensures
            r == self.idx() as int,
    ;

    /// Range-checked construction; only for internally-derived indices
    /// already known to be valid.
    fn new(i: u8) -> (r: Self)
        requires
            i < Self::limit(),
        ensures
            r.idx() == i,
    ;

    /// Total construction: accepts any signed index and returns `None`
    /// outside the legal range.
    fn new_opt(i: i32) -> (r: Option<Self>)
        ensures
            0 <= i < Self::limit() ==> r is Some && r->0.idx() == i,
            !(0 <= i < Self::limit()) ==> r is None,
    ;

    /// Construction at a uniformly drawn index.
    fn new_rnd() -> (r: Self)
        ensures
            r.wf(),
    ;

    /// Edge-safe shift: `new_opt(index + delta)`, never aborts.
    fn shift(self, rhs: i32) -> (r: Option<Self>)
        requires
            self.wf(),
        ensures
            0 <= self.idx() + rhs < Self::limit() ==> r is Some && r->0.idx() == self.idx() + rhs,
            !(0 <= self.idx() + rhs < Self::limit()) ==> r is None,
    ;

    /// The smallest legal value.
    fn min() -> (r: Self)
        ensures
            r.idx() == 0,
    ;

    /// The largest legal value.
    fn max() -> (r: Self)
        ensures
            r.idx() == Self::limit() - 1,
    ;

    /// How many legal values there are.
    fn count() -> (r: usize)
        ensures
            r == Self::limit() as int,
    ;

    /// A walker over the whole legal range, ascending; also supports
    /// descending traversal from the back.
    fn iter() -> (r: CoordinateWalker<Self>)
        ensures
            r.lo() == 0,
            r.hi() == Self::limit() as int,
    ;
}

/// A finite, restartable walker over a coordinate range; yields each index
/// of `[lo, hi)` exactly once, ascending from the front or descending from
/// the back.
pub struct CoordinateWalker<T> {
    phantom: core::marker::PhantomData<T>,
    start: u8,
    end: u8,
}

impl<T> CoordinateWalker<T> {
    /// The next index the walker would yield from the front.
    pub closed spec fn lo(self) -> int {
        self.start as int
    }

    /// One past the last index the walker would yield from the back.
    pub closed spec fn hi(self) -> int {
        self.end as int
    }

    /// Whether the walk is finished.
    pub fn is_over(&self) -> (r: bool)
        ensures
            r == (self.lo() == self.hi()),
    {
        self.start == self.end
    }
}

impl<T: Coordinate> CoordinateWalker<T> {
    /// All walkers in use stay within the coordinate's range.
    pub open spec fn wf(self) -> bool {
        0 <= self.lo() <= self.hi() <= T::limit() as int
    }

    /// Yield the smallest remaining coordinate, or `None` when finished.
    pub fn next(&mut self) -> (r: Option<T>)
        requires
            old(self).wf(),
        ensures
            final(self).wf(),
            final(self).hi() == old(self).hi(),
            old(self).lo() == old(self).hi() ==> r is None && final(self).lo() == old(self).lo(),
            old(self).lo() < old(self).hi() ==> r is Some && r->0.idx() == old(self).lo()
                && final(self).lo() == old(self).lo() + 1,
    {
        if self.start == self.end {
            None
        } else {
            let i = self.start;
            self.start = self.start + 1;
            Some(T::new_unchecked(i))
        }
    }

    /// Yield the largest remaining coordinate, or `None` when finished.
    pub fn next_back(&mut self) -> (r: Option<T>)
        requires
            old(self).wf(),
        ensures
            final(self).wf(),
            final(self).lo() == old(self).lo(),
            old(self).lo() == old(self).hi() ==> r is None && final(self).hi() == old(self).hi(),
            old(self).lo() < old(self).hi() ==> r is Some && r->0.idx() == old(self).hi() - 1
                && final(self).hi() == old(self).hi() - 1,
    {
        if self.start == self.end {
            None
        } else {
            self.end = self.end - 1;
            Some(T::new_unchecked(self.end))
        }
    }
}

/// Relies on `rand::random::<u64>()`; nothing is promised of the value drawn.
#[verifier::external_body]
fn random_u64() -> u64 {
    rand::random::<u64>()
}

/// A uniformly drawn index below `limit`; the bound is all that is promised.
fn random_index(limit: u8) -> (r: u8)
    requires
        0 < limit,
    ensures
        r < limit,
{
    (random_u64() % (limit as u64)) as u8
}

/// A board file (column), index 0 ('a') to 7 ('h').
#[derive(Copy, Clone, Debug, PartialEq, Eq, Structural)]
pub struct File(u8);

impl Coordinate for File {
    open spec fn limit() -> u8 {
        8
    }

    closed spec fn idx(self) -> u8 {
        self.0
    }

    fn new_unchecked(i: u8) -> Self {
        File(i)
    }

    fn i(self) -> usize {
        self.0 as usize
    }

    fn new(i: u8) -> Self {
        File(i)
    }

    fn new_opt(i: i32) -> Option<Self> {
        if 0 <= i && i < 8 {
            Some(File(i as u8))
        } else {
            None
        }
    }

    fn new_rnd() -> Self {
        File(random_index(8))
    }

    fn shift(self, rhs: i32) -> Option<Self> {
        let t: i64 = self.0 as i64 + rhs as i64;
        if 0 <= t && t < 8 {
            Some(File(t as u8))
        } else {
            None
        }
    }

    fn min() -> Self {
        File(0)
    }

    fn max() -> Self {
        File(7)
    }

    fn count() -> usize {
        8
    }

    fn iter() -> CoordinateWalker<Self> {
        CoordinateWalker { phantom: core::marker::PhantomData, start: 0, end: 8 }
    }
}

/// A board rank (row), index 0 (rank '1') to 7 (rank '8').
#[derive(Copy, Clone, Debug, PartialEq, Eq, Structural)]
pub struct Rank(u8);

impl Coordinate for Rank {
    open spec fn limit() -> u8 {
        8
    }

    closed spec fn idx(self) -> u8 {
        self.0
    }

    fn new_unchecked(i: u8) -> Self {
        Rank(i)
    }

    fn i(self) -> usize {
        self.0 as usize
    }

    fn new(i: u8) -> Self {
        Rank(i)
    }

    fn new_opt(i: i32) -> Option<Self> {
        if 0 <= i && i < 8 {
            Some(Rank(i as u8))
        } else {
            None
        }
    }

    fn new_rnd() -> Self {
        Rank(random_index(8))
    }

    fn shift(self, rhs: i32) -> Option<Self> {
        let t: i64 = self.0 as i64 + rhs as i64;
        if 0 <= t && t < 8 {
            Some(Rank(t as u8))
        } else {
            None
        }
    }

    fn min() -> Self {
        Rank(0)
    }

    fn max() -> Self {
        Rank(7)
    }

    fn count() -> usize {
        8
    }

    fn iter() -> CoordinateWalker<Self> {
        CoordinateWalker { phantom: core::marker::PhantomData, start: 0, end: 8 }
    }
}

/// A board square, index 0 (a1) to 63 (h8); `index = file * 8 + rank`.
#[derive(Copy, Clone, Debug, Hash, PartialEq, Eq, Structural)]
pub struct Square(u8);

impl Coordinate for Square {
    open spec fn limit() -> u8 {
        64
    }

    closed spec fn idx(self) -> u8 {
        self.0
    }

    fn new_unchecked(i: u8) -> Self {
        Square(i)
    }

    fn i(self) -> usize {
        self.0 as usize
    }

    fn new(i: u8) -> Self {
        Square(i)
    }

    fn new_opt(i: i32) -> Option<Self> {
        if 0 <= i && i < 64 {
            Some(Square(i as u8))
        } else {
            None
        }
    }

    fn new_rnd() -> Self {
        Square(random_index(64))
    }

    fn shift(self, rhs: i32) -> Option<Self> {
        let t: i64 = self.0 as i64 + rhs as i64;
        if 0 <= t && t < 64 {
            Some(Square(t as u8))
        } else {
            None
        }
    }

    fn min() -> Self {
        Square(0)
    }

    fn max() -> Self {
        Square(63)
    }

    fn count() -> usize {
        64
    }

    fn iter() -> CoordinateWalker<Self> {
        CoordinateWalker { phantom: core::marker::PhantomData, start: 0, end: 64 }
    }
}

impl Square {
    /// The square with the given file and rank.
    pub closed spec fn spec_at(file: File, rank: Rank) -> Square {
        Square((file.idx() * 8 + rank.idx()) as u8)
    }

    /// The file of this square.
    pub closed spec fn spec_file(self) -> File {
        File(self.0 / 8)
    }

    /// The rank of this square.
    pub closed spec fn spec_rank(self) -> Rank {
        Rank(self.0 % 8)
    }

    /// Compose a square from file and rank: `index = file * 8 + rank`.
    pub fn at(file: File, rank: Rank) -> (r: Square)
        requires
            file.wf(),
            rank.wf(),
        ensures
            r == Square::spec_at(file, rank),
            r.idx() == file.idx() * 8 + rank.idx(),
            r.wf(),
    {
        proof {
            let f: u8 = file.0;
            let r: u8 = rank.0;
            assert(f < 8 && r < 8 ==> ((f << 3) | r) == f * 8 + r) by (bit_vector);
        }
        Square((file.0 << 3) | rank.0)
    }

    /// Decompose: the file, `index / 8`.
    pub fn file(self) -> (r: File)
        requires
            self.wf(),
        ensures
            r == self.spec_file(),
            r.idx() == self.idx() / 8,
            r.wf(),
    {
        proof {
            let s: u8 = self.0;
            assert(s >> 3 == s / 8) by (bit_vector);
        }
        File(self.0 >> 3)
    }

    /// Decompose: the rank, `index % 8`.
    pub fn rank(self) -> (r: Rank)
        requires
            self.wf(),
        ensures
            r == self.spec_rank(),
            r.idx() == self.idx() % 8,
            r.wf(),
    {
        proof {
            let s: u8 = self.0;
            assert(s & 7 == s % 8) by (bit_vector);
        }
        Rank(self.0 & 7)
    }

    /// Composing a square from the file and rank of `s` gives back `s`.
    pub proof fn lemma_at_roundtrip(s: Square)
        requires
            s.wf(),
        ensures
            Square::spec_at(s.spec_file(), s.spec_rank()) == s,
    {
        assert((s.0 / 8) * 8 + s.0 % 8 == s.0);
    }

    /// Two squares with the same index are the same square.
    pub proof fn lemma_idx_injective(a: Square, b: Square)
        requires
            a.idx() == b.idx(),
        ensures
            a == b,
    {
    }

    /// The full a1-h8 diagonal bitboard through this square: the canonical
    /// main diagonal shifted by `rank - file`.
    pub closed spec fn spec_diagonal_a1h8(self) -> u64 {
        let delta = self.spec_rank().idx() - self.spec_file().idx();
        if delta >= 0 {
            0x8040_2010_0804_0201u64 << (delta as u64)
        } else {
            0x8040_2010_0804_0201u64 >> ((-delta) as u64)
        }
    }

    /// The full h1-a8 diagonal bitboard through this square: the canonical
    /// anti-diagonal shifted by `rank + file - 7`.
    pub closed spec fn spec_diagonal_h1a8(self) -> u64 {
        let delta = self.spec_rank().idx() + self.spec_file().idx() - 7;
        if delta >= 0 {
            0x0102_0408_1020_4080u64 << (delta as u64)
        } else {
            0x0102_0408_1020_4080u64 >> ((-delta) as u64)
        }
    }

    /// The a1-h8 diagonal through this square; it always contains the square.
    pub fn diagonal_a1h8(self) -> (r: BitBoard)
        requires
            self.wf(),
        ensures
            r == self.spec_diagonal_a1h8(),
            bb_bit(r, self.idx() as int),
    {
        let f = self.file().i() as i32;
        let rk = self.rank().i() as i32;
        let delta: i32 = rk - f;
        proof {
            let s: u8 = self.0;
            assert(s < 64 ==> {
                let ff = s / 8;
                let rr = s % 8;
                if rr >= ff {
                    ((0x8040_2010_0804_0201u64 << ((rr - ff) as u64)) >> s) & 1u64 == 1u64
                } else {
                    ((0x8040_2010_0804_0201u64 >> ((ff - rr) as u64)) >> s) & 1u64 == 1u64
                }
            }) by (bit_vector);
        }
        if delta >= 0 {
            0x8040_2010_0804_0201u64 << (delta as u64)
        } else {
            0x8040_2010_0804_0201u64 >> ((-delta) as u64)
        }
    }

    /// The h1-a8 diagonal through this square; it always contains the square.
    pub fn diagonal_h1a8(self) -> (r: BitBoard)
        requires
            self.wf(),
        ensures
            r == self.spec_diagonal_h1a8(),
            bb_bit(r, self.idx() as int),
    {
        let f = self.file().i() as i32;
        let rk = self.rank().i() as i32;
        let delta: i32 = rk + f - 7;
        proof {
            let s: u8 = self.0;
            assert(s < 64 ==> {
                let ff = s / 8;
                let rr = s % 8;
                if rr + ff >= 7 {
                    ((0x0102_0408_1020_4080u64 << ((rr + ff - 7) as u64)) >> s) & 1u64 == 1u64
                } else {
                    ((0x0102_0408_1020_4080u64 >> ((7 - (rr + ff)) as u64)) >> s) & 1u64 == 1u64
                }
            }) by (bit_vector);
        }
        if delta >= 0 {
            0x0102_0408_1020_4080u64 << (delta as u64)
        } else {
            0x0102_0408_1020_4080u64 >> ((-delta) as u64)
        }
    }
}

/// Conversion of a coordinate into the bitboard of squares it covers.
pub trait ToBb: Sized {
    /// Well-formedness the conversion needs.
    spec fn bb_wf(self) -> bool;

    /// The bitboard this value denotes.
    spec fn spec_bb(self) -> u64;

    /// Convert into a bitboard.
    fn to_bb(self) -> (r: BitBoard)
        requires
            self.bb_wf(),
        ensures
            r == self.spec_bb(),
    ;
}

impl ToBb for File {
    open spec fn bb_wf(self) -> bool {
        self.wf()
    }

    /// The eight squares of this file: one contiguous byte of the board.
    open spec fn spec_bb(self) -> u64 {
        0xffu64 << ((self.idx() * 8) as u64)
    }

    fn to_bb(self) -> BitBoard {
        0xffu64 << ((self.0 * 8) as u64)
    }
}

impl ToBb for Rank {
    open spec fn bb_wf(self) -> bool {
        self.wf()
    }

    /// The eight squares of this rank: one bit in each byte of the board.
    open spec fn spec_bb(self) -> u64 {
        0x0101_0101_0101_0101u64 << (self.idx() as u64)
    }

    fn to_bb(self) -> BitBoard {
        0x0101_0101_0101_0101u64 << (self.0 as u64)
    }
}

impl ToBb for Square {
    open spec fn bb_wf(self) -> bool {
        self.wf()
    }

    /// The singleton bitboard of this square.
    open spec fn spec_bb(self) -> u64 {
        1u64 << (self.idx() as u64)
    }

    fn to_bb(self) -> BitBoard {
        1u64 << (self.0 as u64)
    }
}

/// Shifts and iteration over 64-bit square sets.
///
/// The four shifts are raw bit-shifts with no off-board masking: a caller
/// generating moves near a board edge must mask wraparound itself.
pub trait BitBoardOps: Sized {
    /// The raw 64-bit value.
    spec fn val(self) -> u64;

    /// An iterator over the set squares, ascending.
    fn squares(self) -> (r: BitsCounter)
        ensures
            r.remaining() == self.val(),
    ;

    /// Shift every square `n` ranks up (raw shift, no masking).
    fn north(self, n: usize) -> (r: Self)
        requires
            n < 64,
        ensures
            r.val() == self.val() << (n as u64),
    ;

    /// Shift every square `n` ranks down (raw shift, no masking).
    fn south(self, n: usize) -> (r: Self)
        requires
            n < 64,
        ensures
            r.val() == self.val() >> (n as u64),
    ;

    /// Shift every square `n` files up (raw shift, no masking).
    fn east(self, n: usize) -> (r: Self)
        requires
            n < 8,
        ensures
            r.val() == self.val() << ((8 * n) as u64),
    ;

    /// Shift every square `n` files down (raw shift, no masking).
    fn west(self, n: usize) -> (r: Self)
        requires
            n < 8,
        ensures
            r.val() == self.val() >> ((8 * n) as u64),
    ;

    /// A uniformly drawn set; nothing is promised of the value.
    fn rnd() -> Self;

    /// A sparsely populated random set: the intersection of three draws.
    fn rnd_sparsely_populated() -> Self;
}

impl BitBoardOps for BitBoard {
    open spec fn val(self) -> u64 {
        self
    }

    fn squares(self) -> BitsCounter {
        BitsCounter { bb: self }
    }

    fn north(self, n: usize) -> Self {
        self << n
    }

    fn south(self, n: usize) -> Self {
        self >> n
    }

    fn east(self, n: usize) -> Self {
        self << (8 * n)
    }

    fn west(self, n: usize) -> Self {
        self >> (8 * n)
    }

    fn rnd() -> Self {
        random_u64()
    }

    fn rnd_sparsely_populated() -> Self {
        let a = random_u64();
        let b = random_u64();
        let c = random_u64();
        a & b & c
    }
}

/// Iterator over the set bits of a bitboard, as squares, in ascending index
/// order; it works on its own copy, so the source value is never mutated.
pub struct BitsCounter {
    /// The working copy: the bits not yet yielded.
    pub bb: u64,
}

impl BitsCounter {
    /// The bits not yet yielded.
    pub open spec fn remaining(self) -> u64 {
        self.bb
    }

    /// Isolate the lowest set bit, yield its index as a square, and clear
    /// it from the working copy; `None` once the copy reaches zero.
    pub fn next(&mut self) -> (r: Option<Square>)
        ensures
            old(self).remaining() == 0 ==> r is None && final(self).remaining() == 0,
            old(self).remaining() != 0 ==> {
                &&& r is Some
                &&& r->0.idx() == u64_trailing_zeros(old(self).remaining())
                &&& r->0.idx() == bits_seq(old(self).remaining())[0]
                &&& r->0.wf()
                &&& final(self).remaining() == (old(self).remaining() & ((old(
                    self,
                ).remaining() - 1) as u64))
                &&& bits_seq(final(self).remaining()) == bits_seq(old(self).remaining()).drop_first()
            },
    {
        if self.bb == 0 {
            None
        } else {
            proof {
                axiom_u64_trailing_zeros(self.bb);
            }
            let i = self.bb.trailing_zeros() as u8;
            proof {
                lemma_bits_seq_head(self.bb);
                lemma_bits_seq_clear_head(self.bb);
                let b = self.bb;
                let t = u64_trailing_zeros(b) as u64;
                assert(b << ((64 - t) as u64) == 0);
                assert((b != 0 && t < 64 && (b >> t) & 1u64 == 1u64 && b << ((64 - t) as u64)
                    == 0) ==> b ^ (1u64 << t) == b & ((b - 1) as u64)) by (bit_vector);
            }
            self.bb = self.bb ^ (1u64 << (i as u32));
            Some(Square::new_unchecked(i))
        }
    }
}

/// For a nonzero board, the first entry of its bit sequence is the number
/// of trailing zeros, i.e. the lowest set bit.
proof fn lemma_bits_seq_head(b: u64)
    requires
        b != 0,
    ensures
        bits_seq(b).len() > 0,
        bits_seq(b)[0] == u64_trailing_zeros(b),
{
    axiom_u64_trailing_zeros(b);
    lemma_bits_seq_head_from(b, 0, u64_trailing_zeros(b) as int);
}

/// Helper: scanning from `i`, with all bits in `[i, t)` clear and bit `t`
/// set, the sequence starts at `t`.
proof fn lemma_bits_seq_head_from(b: u64, i: int, t: int)
    requires
        0 <= i <= t < 64,
        (b >> (t as u64)) & 1u64 == 1u64,
        forall|j: u64| i <= j < t ==> #[trigger] ((b >> j) & 1u64) == 0u64,
    ensures
        bits_seq_from(b, i).len() > 0,
        bits_seq_from(b, i)[0] == t,
    decreases t - i,
{
    if i < t {
        assert((b >> (i as u64)) & 1u64 == 0u64);
        lemma_bits_seq_head_from(b, i + 1, t);
    }
}

/// Clearing the lowest set bit drops the first entry of the bit sequence.
proof fn lemma_bits_seq_clear_head(b: u64)
    requires
        b != 0,
    ensures
        bits_seq(b ^ (1u64 << (u64_trailing_zeros(b) as u64)))
            == bits_seq(b).drop_first(),
{
    axiom_u64_trailing_zeros(b);
    let t = u64_trailing_zeros(b) as u64;
    let b2 = b ^ (1u64 << t);
    assert forall|j: u64| j < 64 && j != t implies ((b2 >> j) & 1u64) == ((b >> j) & 1u64) by {
        assert(t < 64 && j < 64 && j != t ==> (((b ^ (1u64 << t)) >> j) & 1u64) == ((b >> j) & 1u64))
            by (bit_vector);
    }
    assert((b2 >> t) & 1u64 == 0u64) by {
        assert(t < 64 && (b >> t) & 1u64 == 1u64 ==> (((b ^ (1u64 << t)) >> t) & 1u64) == 0u64)
            by (bit_vector);
    }
    lemma_bits_seq_head(b);
    lemma_bits_seq_agree_above(b, b2, t as int + 1);
    lemma_bits_seq_all_clear_below(b2, 0, t as int + 1);
    assert(bits_seq_from(b2, 0) == bits_seq_from(b2, t as int + 1));
    lemma_bits_seq_drop_head(b, 0, t as int);
    assert(bits_seq(b).drop_first() =~= bits_seq_from(b, t as int + 1));
}

/// Two boards that agree on all bits at or above `i` have the same bit
/// sequence from `i`.
proof fn lemma_bits_seq_agree_above(a: u64, b: u64, i: int)
    requires
        forall|j: u64| i <= j < 64 ==> #[trigger] ((a >> j) & 1u64) == ((b >> j) & 1u64),
    ensures
        bits_seq_from(a, i) == bits_seq_from(b, i),
    decreases 64 - i,
{
    if 0 <= i < 64 {
        lemma_bits_seq_agree_above(a, b, i + 1);
        assert(((a >> (i as u64)) & 1u64) == ((b >> (i as u64)) & 1u64));
    }
}

/// A board with all bits of `[i, t)` clear has the same sequence scanning
/// from `i` as from `t`.
proof fn lemma_bits_seq_all_clear_below(b: u64, i: int, t: int)
    requires
        0 <= i <= t <= 64,
        forall|j: u64| i <= j < t ==> #[trigger] ((b >> j) & 1u64) == 0u64,
    ensures
        bits_seq_from(b, i) == bits_seq_from(b, t),
    decreases t - i,
{
    if i < t {
        assert((b >> (i as u64)) & 1u64 == 0u64);
        lemma_bits_seq_all_clear_below(b, i + 1, t);
    }
}

/// With bits of `[i, t)` clear and bit `t` set, dropping the first entry of
/// the sequence from `i` leaves the sequence from `t + 1`.
proof fn lemma_bits_seq_drop_head(b: u64, i: int, t: int)
    requires
        0 <= i <= t < 64,
        (b >> (t as u64)) & 1u64 == 1u64,
        forall|j: u64| i <= j < t ==> #[trigger] ((b >> j) & 1u64) == 0u64,
    ensures
        bits_seq_from(b, i).len() > 0,
        bits_seq_from(b, i).drop_first() == bits_seq_from(b, t + 1),
    decreases t - i,
{
    if i < t {
        assert((b >> (i as u64)) & 1u64 == 0u64);
        lemma_bits_seq_drop_head(b, i + 1, t);
    } else {
        assert(bb_bit(b, t));
        assert(bits_seq_from(b, t) == seq![t as u8] + bits_seq_from(b, t + 1));
        assert(bits_seq_from(b, t).drop_first() =~= bits_seq_from(b, t + 1));
    }
}

/// The bit-iteration law: the sequence of squares a bitboard yields has
/// exactly one entry per set bit (its length is the population count),
/// its indices are strictly ascending, and the empty board yields nothing.
pub proof fn lemma_bits_seq_ascending(b: u64)
    ensures
        bits_seq(b).len() == popcount(b),
        forall|p: int, q: int| 0 <= p < q < bits_seq(b).len()
            ==> bits_seq(b)[p] < bits_seq(b)[q],
        b == 0 ==> bits_seq(b).len() == 0,
        forall|p: int| 0 <= p < bits_seq(b).len() ==> bb_bit(b, #[trigger] bits_seq(b)[p] as int),
{
    lemma_bits_seq_from_props(b, 0);
    if b == 0 {
        assert forall|j: u64| 0 <= j < 64 implies #[trigger] ((b >> j) & 1u64) == 0u64 by {
            assert(j < 64 ==> ((0u64 >> j) & 1u64) == 0u64) by (bit_vector);
        }
        lemma_bits_seq_all_clear_below(b, 0, 64);
    }
}

/// Scanning from `i`: every entry is at least `i`, entries are strictly
/// ascending, and each entry is a set bit.
proof fn lemma_bits_seq_from_props(b: u64, i: int)
    ensures
        bits_seq_from(b, i).len() == popcount_from(b, i),
        forall|p: int| 0 <= p < bits_seq_from(b, i).len()
            ==> i <= #[trigger] bits_seq_from(b, i)[p] < 64,
        forall|p: int, q: int| 0 <= p < q < bits_seq_from(b, i).len()
            ==> bits_seq_from(b, i)[p] < bits_seq_from(b, i)[q],
        forall|p: int| 0 <= p < bits_seq_from(b, i).len()
            ==> bb_bit(b, #[trigger] bits_seq_from(b, i)[p] as int),
    decreases 64 - i,
{
    if 0 <= i < 64 {
        lemma_bits_seq_from_props(b, i + 1);
    }
}


impl File {
    /// The file letter: 'a' for index 0 up to 'h' for index 7.
    pub fn to_char(self) -> (r: char)
        requires
            self.wf(),
        ensures
            r as int == 97 + self.idx(),
    {
        ((97 + self.0) as u8) as char
    }

    /// The file a letter names, or `None` for characters outside 'a'..='h'.
    pub fn from_char(c: char) -> (r: Option<File>)
        ensures
            97 <= c as int <= 104 ==> r is Some && r->0.idx() == c as int - 97,
            !(97 <= c as int <= 104) ==> r is None,
    {
        let v = c as u32;
        if 97 <= v && v <= 104 {
            Some(File((v - 97) as u8))
        } else {
            None
        }
    }
}

impl Rank {
    /// The rank digit: '1' for index 0 up to '8' for index 7.
    pub fn to_char(self) -> (r: char)
        requires
            self.wf(),
        ensures
            r as int == 49 + self.idx(),
    {
        ((49 + self.0) as u8) as char
    }

    /// The rank a digit names, or `None` for characters outside '1'..='8'.
    pub fn from_char(c: char) -> (r: Option<Rank>)
        ensures
            49 <= c as int <= 56 ==> r is Some && r->0.idx() == c as int - 49,
            !(49 <= c as int <= 56) ==> r is None,
    {
        let v = c as u32;
        if 49 <= v && v <= 56 {
            Some(Rank((v - 49) as u8))
        } else {
            None
        }
    }
}

/// Whether the two characters at `at` in `s` name a square, as in "e2".
pub open spec fn square_chars_ok(s: Seq<char>, at: int) -> bool {
    0 <= at && at + 2 <= s.len() && 97 <= s[at] as int <= 104 && 49 <= s[at + 1] as int <= 56
}

/// The index of the square the two characters at `at` name.
pub open spec fn square_chars_idx(s: Seq<char>, at: int) -> int {
    (s[at] as int - 97) * 8 + (s[at + 1] as int - 49)
}

impl Square {
    /// The square of index `i`, as a spec value.
    pub closed spec fn spec_square(i: int) -> Square {
        Square(i as u8)
    }

    /// For an in-range index the spec square carries exactly that index.
    pub proof fn lemma_spec_square(i: int)
        requires
            0 <= i < 64,
        ensures
            Square::spec_square(i).idx() == i,
            Square::spec_square(i).wf(),
    {
    }

    /// The two characters that name this square.
    pub open spec fn spec_name(self) -> Seq<char> {
        seq![
            (97 + self.idx() as int / 8) as char,
            (49 + self.idx() as int % 8) as char,
        ]
    }

    /// The two-character name of this square, file letter then rank digit.
    pub fn name(self) -> (s: String)
        requires
            self.wf(),
        ensures
            s@ == self.spec_name(),
    {
        let mut s = String::new();
        crate::strutil::push_char(&mut s, self.file().to_char());
        crate::strutil::push_char(&mut s, self.rank().to_char());
        proof {
            assert(s@ =~= self.spec_name());
        }
        s
    }

    /// Parse the two characters at `at` of a token as a square name; a
    /// malformed name is reported, never a panic.
    pub fn parse_at(tok: &String, at: usize) -> (r: Result<Square, crate::errors::ChessError>)
        ensures
            square_chars_ok(tok@, at as int) ==> r is Ok
                && r->Ok_0.idx() == square_chars_idx(tok@, at as int)
                && r->Ok_0.wf(),
            !square_chars_ok(tok@, at as int) ==> r is Err
                && r->Err_0 == crate::errors::ChessError::InvalidSquare,
    {
        let n = tok.as_str().unicode_len();
        if at >= n || n - at < 2 {
            return Err(crate::errors::ChessError::InvalidSquare);
        }
        let cf = tok.as_str().get_char(at);
        let cr = tok.as_str().get_char(at + 1);
        match (File::from_char(cf), Rank::from_char(cr)) {
            (Some(f), Some(rk)) => Ok(Square::at(f, rk)),
            _ => Err(crate::errors::ChessError::InvalidSquare),
        }
    }

    /// Parse a square name such as "e2"; characters beyond the first two
    /// are ignored, as the nested literal parsers consume two at a time.
    pub fn parse(tok: &String) -> (r: Result<Square, crate::errors::ChessError>)
        ensures
            square_chars_ok(tok@, 0) ==> r is Ok && r->Ok_0.idx() == square_chars_idx(tok@, 0)
                && r->Ok_0.wf(),
            !square_chars_ok(tok@, 0) ==> r is Err
                && r->Err_0 == crate::errors::ChessError::InvalidSquare,
    {
        Square::parse_at(tok, 0)
    }
}

} // verus!

