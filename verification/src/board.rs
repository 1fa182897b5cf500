//! A minimal board: piece placement per square, side to move, and move
//! clocks. Castling rights and en-passant targets are not modeled; their
//! FEN fields render as "-".
//!
//! Squares are numbered file-major (`index = file * 8 + rank`), so any FEN
//! bridge must translate the rank-major textual order into this layout.

use vstd::prelude::*;
use crate::color::Color;
use crate::coordinates::Coordinate;
use crate::coordinates::Square;
use crate::coordinates::square_chars_idx;
use crate::coordinates::square_chars_ok;
use crate::errors::ChessError;
use crate::piece::Piece;
use crate::piece::Role;
use crate::strutil::dec_digit;
use crate::strutil::dec_digits;
use crate::strutil::push_char;

verus! {

/// A move as the protocol writes it: a source and a target square.
#[derive(Copy, Clone, Debug, PartialEq, Eq, Structural)]
pub struct Move {
    pub from: Square,
    pub to: Square,
}

/// Whether a token begins with a move in coordinate notation: two square
/// names with no separator, as in "e2e4".
pub open spec fn move_chars_ok(s: Seq<char>) -> bool {
    square_chars_ok(s, 0) && square_chars_ok(s, 2)
}

impl Move {
    pub open spec fn wf(self) -> bool {
        self.from.wf() && self.to.wf()
    }

    /// Parse a move token: squares at characters 0..2 and 2..4; characters
    /// beyond the fourth (a promotion suffix) are ignored.
    pub fn parse(tok: &String) -> (r: Result<Move, ChessError>)
        ensures
            move_chars_ok(tok@) ==> r is Ok && r->Ok_0.wf()
                && r->Ok_0.from.idx() == square_chars_idx(tok@, 0)
                && r->Ok_0.to.idx() == square_chars_idx(tok@, 2),
            !move_chars_ok(tok@) ==> r is Err && r->Err_0 == ChessError::InvalidSquare,
    {
        let from = match Square::parse_at(tok, 0) {
            Ok(sq) => sq,
            Err(e) => {
                return Err(e);
            },
        };
        let to = match Square::parse_at(tok, 2) {
            Ok(sq) => sq,
            Err(e) => {
                return Err(e);
            },
        };
        Ok(Move { from, to })
    }

    /// The four characters of this move's token.
    pub open spec fn spec_name(self) -> Seq<char> {
        self.from.spec_name() + self.to.spec_name()
    }

    /// The token of this move: the two square names run together.
    pub fn name(self) -> (s: String)
        requires
            self.wf(),
        ensures
            s@ == self.spec_name(),
    {
        let a = self.from.name();
        let b = self.to.name();
        let s = a.concat(b.as_str());
        s
    }
}

/// The piece of the standard starting position at square `i`
/// (file-major numbering).
pub open spec fn start_piece(i: int) -> Option<Piece> {
    let f = i / 8;
    let r = i % 8;
    if r == 1 {
        Some(Piece { role: Role::Pawn, color: Color::White })
    } else if r == 6 {
        Some(Piece { role: Role::Pawn, color: Color::Black })
    } else if r == 0 {
        Some(Piece { role: back_role(f), color: Color::White })
    } else if r == 7 {
        Some(Piece { role: back_role(f), color: Color::Black })
    } else {
        None
    }
}

/// The back-rank role on file `f` in the starting position.
pub open spec fn back_role(f: int) -> Role {
    if f == 0 || f == 7 {
        Role::Rook
    } else if f == 1 || f == 6 {
        Role::Knight
    } else if f == 2 || f == 5 {
        Role::Bishop
    } else if f == 3 {
        Role::Queen
    } else {
        Role::King
    }
}

/// The placement of the standard starting position.
pub open spec fn start_placement() -> Seq<Option<Piece>> {
    Seq::new(64, |i: int| start_piece(i))
}

/// A chess position: what stands where, whose turn it is, and the two
/// move clocks.
pub struct Board {
    pub squares: Vec<Option<Piece>>,
    pub color_to_move: Color,
    pub halfmove_clock: u64,
    pub fullmove_number: u64,
}

impl Board {
    /// What stands on each of the 64 squares, by square index.
    pub open spec fn placement(self) -> Seq<Option<Piece>> {
        self.squares@
    }

    /// Well-formed: exactly one entry per square.
    pub open spec fn wf(self) -> bool {
        self.placement().len() == 64
    }

    /// The standard starting position, White to move.
    pub fn starting() -> (b: Board)
        ensures
            b.wf(),
            b.placement() == start_placement(),
            b.color_to_move == Color::White,
            b.halfmove_clock == 0,
            b.fullmove_number == 1,
    {
        let mut squares: Vec<Option<Piece>> = Vec::new();
        let mut i: u8 = 0;
        while i < 64
            invariant
                i <= 64,
                squares@.len() == i as int,
                forall|j: int| 0 <= j < i as int ==> squares@[j] == start_piece(j),
            decreases 64 - i,
        {
            squares.push(start_piece_at(i));
            i = i + 1;
        }
        proof {
            assert(squares@ =~= start_placement());
        }
        Board { squares, color_to_move: Color::White, halfmove_clock: 0, fullmove_number: 1 }
    }

    /// The piece on a square, if any.
    pub fn piece_at(&self, sq: Square) -> (r: Option<Piece>)
        requires
            self.wf(),
            sq.wf(),
        ensures
            r == self.placement()[sq.idx() as int],
    {
        self.squares[sq.i()]
    }

    /// Apply a move: the source square empties, the target square takes
    /// whatever stood on the source, the side to move flips, the halfmove
    /// clock resets on a pawn move or a capture and counts on otherwise,
    /// and the fullmove number counts a completed Black move.
    pub fn do_move(&mut self, m: Move)
        requires
            old(self).wf(),
            m.wf(),
        ensures
            final(self).wf(),
            final(self).placement() == old(self).placement().update(
                m.from.idx() as int,
                None,
            ).update(m.to.idx() as int, old(self).placement()[m.from.idx() as int]),
            final(self).color_to_move == old(self).color_to_move.spec_opposite(),
            final(self).halfmove_clock as int == {
                let moved = old(self).placement()[m.from.idx() as int];
                let taken = old(self).placement()[m.to.idx() as int];
                if (moved is Some && moved->0.role == Role::Pawn) || (taken is Some && m.from
                    != m.to) {
                    0int
                } else if old(self).halfmove_clock == u64::MAX {
                    u64::MAX as int
                } else {
                    old(self).halfmove_clock + 1
                }
            },
            final(self).fullmove_number as int == {
                if old(self).color_to_move == Color::Black && old(self).fullmove_number
                    != u64::MAX {
                    old(self).fullmove_number + 1
                } else {
                    old(self).fullmove_number as int
                }
            },
    {
        let p = self.squares[m.from.i()];
        let taken = self.squares[m.to.i()];
        self.squares.set(m.from.i(), None);
        self.squares.set(m.to.i(), p);
        let pawn_move = match p {
            Some(pc) => matches!(pc.role, Role::Pawn),
            None => false,
        };
        let capture = taken.is_some() && !(m.from == m.to);
        if pawn_move || capture {
            self.halfmove_clock = 0;
        } else if self.halfmove_clock < u64::MAX {
            self.halfmove_clock = self.halfmove_clock + 1;
        }
        if matches!(self.color_to_move, Color::Black) && self.fullmove_number < u64::MAX {
            self.fullmove_number = self.fullmove_number + 1;
        }
        self.color_to_move = self.color_to_move.opposite();
    }

    /// An independent copy with the same placement, side and clocks.
    pub fn duplicate(&self) -> (b: Board)
        requires
            self.wf(),
        ensures
            b.wf(),
            b.placement() == self.placement(),
            b.color_to_move == self.color_to_move,
            b.halfmove_clock == self.halfmove_clock,
            b.fullmove_number == self.fullmove_number,
    {
        let mut squares: Vec<Option<Piece>> = Vec::new();
        let mut i: usize = 0;
        while i < 64
            invariant
                self.wf(),
                i <= 64,
                squares@.len() == i as int,
                forall|j: int| 0 <= j < i as int ==> squares@[j] == self.placement()[j],
            decreases 64 - i,
        {
            squares.push(self.squares[i]);
            i = i + 1;
        }
        proof {
            assert(squares@ =~= self.placement());
        }
        Board {
            squares,
            color_to_move: self.color_to_move,
            halfmove_clock: self.halfmove_clock,
            fullmove_number: self.fullmove_number,
        }
    }

    /// Whether two boards are the same position: same placement and same
    /// side to move. The clocks are not part of a position's identity.
    pub fn same_position(&self, other: &Board) -> (r: bool)
        requires
            self.wf(),
            other.wf(),
        ensures
            r == (self.placement() == other.placement() && self.color_to_move
                == other.color_to_move),
    {
        let mut i: usize = 0;
        while i < 64
            invariant
                self.wf(),
                other.wf(),
                i <= 64,
                forall|j: int| 0 <= j < i as int ==> self.placement()[j] == other.placement()[j],
            decreases 64 - i,
        {
            let a = self.squares[i];
            let b = other.squares[i];
            let eq = match (a, b) {
                (None, None) => true,
                (Some(x), Some(y)) => x == y,
                _ => false,
            };
            if !eq {
                return false;
            }
            i = i + 1;
        }
        proof {
            if self.color_to_move == other.color_to_move {
                assert(self.placement() =~= other.placement());
            }
        }
        match (self.color_to_move, other.color_to_move) {
            (Color::White, Color::White) => true,
            (Color::Black, Color::Black) => true,
            _ => false,
        }
    }
}

impl Default for Board {
    /// The starting position.
    fn default() -> (b: Board)
        ensures
            b.wf(),
            b.placement() == start_placement(),
            b.color_to_move == Color::White,
            b.halfmove_clock == 0,
            b.fullmove_number == 1,
    {
        Board::starting()
    }
}

/// The starting-position piece at square `i`, as a value.
fn start_piece_at(i: u8) -> (r: Option<Piece>)
    requires
        i < 64,
    ensures
        r == start_piece(i as int),
{
    let f = i / 8;
    let r = i % 8;
    if r == 1 {
        Some(Piece { role: Role::Pawn, color: Color::White })
    } else if r == 6 {
        Some(Piece { role: Role::Pawn, color: Color::Black })
    } else if r == 0 || r == 7 {
        let role = if f == 0 || f == 7 {
            Role::Rook
        } else if f == 1 || f == 6 {
            Role::Knight
        } else if f == 2 || f == 5 {
            Role::Bishop
        } else if f == 3 {
            Role::Queen
        } else {
            Role::King
        };
        Some(Piece { role, color: if r == 0 { Color::White } else { Color::Black } })
    } else {
        None
    }
}

/// The FEN rendering of one rank, scanning from file `f` with `run` empty
/// squares pending: empty runs become digits, pieces become letters.
pub open spec fn fen_rank_from(p: Seq<Option<Piece>>, r: int, f: int, run: int) -> Seq<char>
    decreases 8 - f,
{
    if f < 0 || f >= 8 {
        if run > 0 {
            seq![dec_digit(run)]
        } else {
            Seq::empty()
        }
    } else {
        match p[f * 8 + r] {
            None => fen_rank_from(p, r, f + 1, run + 1),
            Some(pc) => (if run > 0 {
                seq![dec_digit(run)]
            } else {
                Seq::empty()
            }) + seq![pc.spec_to_char()] + fen_rank_from(p, r, f + 1, 0),
        }
    }
}

/// The FEN renders of ranks `r` down to 1, each followed by '/', then
/// rank 0 (textual rank 1) last.
pub open spec fn fen_down(p: Seq<Option<Piece>>, r: int) -> Seq<char>
    decreases r,
{
    fen_rank_from(p, r, 0, 0) + (if r > 0 {
        seq!['/'] + fen_down(p, r - 1)
    } else {
        Seq::empty()
    })
}

/// The FEN placement field: ranks 8 down to 1, separated by '/'.
pub open spec fn fen_placement(p: Seq<Option<Piece>>) -> Seq<char> {
    fen_down(p, 7)
}

/// An all-empty 64-square placement.
pub open spec fn fen_empty() -> Seq<Option<Piece>> {
    Seq::new(64, |i: int| None)
}

/// The spec-level reading of a placement field, from character `i` with
/// the cursor at `rank` (7 first), `file` files already covered, and
/// `prev` recording whether the previous character was a digit (two
/// adjacent digits are malformed). `None` at the first malformed
/// character or when the field does not cover exactly 8x8 squares.
pub open spec fn fen_parse_from(
    s: Seq<char>,
    i: int,
    p: Seq<Option<Piece>>,
    rank: int,
    file: int,
    prev: bool,
) -> Option<Seq<Option<Piece>>>
    decreases s.len() - i,
{
    if i < 0 || i >= s.len() {
        if rank == 0 && file == 8 {
            Some(p)
        } else {
            None
        }
    } else {
        let c = s[i];
        if 49 <= c as int <= 56 {
            let d = c as int - 48;
            if prev || d > 8 - file {
                None
            } else {
                fen_parse_from(s, i + 1, p, rank, file + d, true)
            }
        } else if c == '/' {
            if file != 8 || rank == 0 {
                None
            } else {
                fen_parse_from(s, i + 1, p, rank - 1, 0, false)
            }
        } else {
            if file >= 8 || !Role::is_role_char(c) {
                None
            } else {
                fen_parse_from(
                    s,
                    i + 1,
                    p.update(file * 8 + rank, Some(Piece::spec_from_char(c))),
                    rank,
                    file + 1,
                    false,
                )
            }
        }
    }
}

/// The placement a FEN placement field denotes, or `None` when malformed.
pub open spec fn fen_parse(s: Seq<char>) -> Option<Seq<Option<Piece>>> {
    fen_parse_from(s, 0, fen_empty(), 7, 0, false)
}

/// Scanning a stretch of empty squares only lengthens the pending run.
proof fn lemma_rank_skip_empties(p: Seq<Option<Piece>>, r: int, f: int, run: int, d: int)
    requires
        0 <= f,
        0 <= d,
        f + d <= 8,
        forall|j: int| f <= j < f + d ==> p[#[trigger] (j * 8 + r)] is None,
    ensures
        fen_rank_from(p, r, f, run) == fen_rank_from(p, r, f + d, run + d),
    decreases d,
{
    if d > 0 {
        assert(p[f * 8 + r] is None);
        lemma_rank_skip_empties(p, r, f + 1, run + 1, d - 1);
    }
}

/// A successfully read placement field renders back to itself. From any
/// mid-parse state, the renderer's remaining output over the final
/// placement equals the pending run digit (when one was just read) plus
/// the unread characters; the cells already fixed are never touched again.
proof fn lemma_fen_parse_render(
    s: Seq<char>,
    i: int,
    p: Seq<Option<Piece>>,
    rank: int,
    file: int,
    prev: bool,
    run: int,
)
    requires
        0 <= i <= s.len(),
        0 <= rank <= 7,
        0 <= file <= 8,
        p.len() == 64,
        prev ==> 1 <= run <= 8,
        !prev ==> run == 0,
        forall|f2: int, r2: int| 0 <= f2 < 8 && 0 <= r2 < 8 && (r2 < rank || (r2 == rank && f2
            >= file)) ==> p[#[trigger] (f2 * 8 + r2)] is None,
        fen_parse_from(s, i, p, rank, file, prev) is Some,
    ensures
        ({
            let q = fen_parse_from(s, i, p, rank, file, prev)->0;
            &&& q.len() == 64
            &&& forall|f2: int, r2: int| 0 <= f2 < 8 && 0 <= r2 < 8 && (r2 > rank || (r2 == rank
                && f2 < file)) ==> q[#[trigger] (f2 * 8 + r2)] == p[f2 * 8 + r2]
            &&& fen_rank_from(q, rank, file, run) + (if rank > 0 {
                seq!['/'] + fen_down(q, rank - 1)
            } else {
                Seq::<char>::empty()
            }) == (if prev {
                seq![dec_digit(run)]
            } else {
                Seq::<char>::empty()
            }) + s.subrange(i, s.len() as int)
        }),
    decreases s.len() - i,
{
    let q = fen_parse_from(s, i, p, rank, file, prev)->0;
    let pending: Seq<char> = if prev {
        seq![dec_digit(run)]
    } else {
        Seq::<char>::empty()
    };
    if i >= s.len() {
        assert(rank == 0 && file == 8);
        assert(q == p);
        assert(s.subrange(i, s.len() as int) =~= Seq::<char>::empty());
        assert(fen_rank_from(q, rank, file, run) + Seq::<char>::empty() =~= pending
            + s.subrange(i, s.len() as int));
    } else {
        let c = s[i];
        assert(s.subrange(i, s.len() as int) =~= seq![c] + s.subrange(i + 1, s.len() as int));
        if 49 <= c as int <= 56 {
            let d = c as int - 48;
            lemma_fen_parse_render(s, i + 1, p, rank, file + d, true, d);
            assert(c == dec_digit(d));
            assert forall|j: int| file <= j < file + d implies q[#[trigger] (j * 8 + rank)]
                is None by {
                assert(q[j * 8 + rank] == p[j * 8 + rank]);
            }
            lemma_rank_skip_empties(q, rank, file, run, d);
            assert(fen_rank_from(q, rank, file, run) + (if rank > 0 {
                seq!['/'] + fen_down(q, rank - 1)
            } else {
                Seq::<char>::empty()
            }) =~= pending + s.subrange(i, s.len() as int));
        } else if c == '/' {
            lemma_fen_parse_render(s, i + 1, p, rank - 1, 0, false, 0);
            assert(fen_rank_from(q, rank, file, run) == pending);
            assert(fen_down(q, rank - 1) == fen_rank_from(q, rank - 1, 0, 0) + (if rank - 1 > 0 {
                seq!['/'] + fen_down(q, rank - 2)
            } else {
                Seq::<char>::empty()
            }));
            assert(fen_rank_from(q, rank, file, run) + (seq!['/'] + fen_down(q, rank - 1))
                =~= pending + s.subrange(i, s.len() as int));
        } else {
            let p2 = p.update(file * 8 + rank, Some(Piece::spec_from_char(c)));
            lemma_fen_parse_render(s, i + 1, p2, rank, file + 1, false, 0);
            crate::piece::lemma_role_char_roundtrip(c);
            assert(q[file * 8 + rank] == p2[file * 8 + rank]);
            assert(fen_rank_from(q, rank, file, run) == pending + seq![c] + fen_rank_from(
                q,
                rank,
                file + 1,
                0,
            ));
            assert forall|f2: int, r2: int| 0 <= f2 < 8 && 0 <= r2 < 8 && (r2 > rank || (r2
                == rank && f2 < file)) implies q[#[trigger] (f2 * 8 + r2)] == p[f2 * 8 + r2] by {
                assert(q[f2 * 8 + r2] == p2[f2 * 8 + r2]);
                assert(f2 * 8 + r2 != file * 8 + rank);
            }
            assert(fen_rank_from(q, rank, file, run) + (if rank > 0 {
                seq!['/'] + fen_down(q, rank - 1)
            } else {
                Seq::<char>::empty()
            }) =~= pending + s.subrange(i, s.len() as int));
        }
    }
}

/// A parsed placement renders back to the very field it was read from.
pub proof fn lemma_fen_round_trip(s: Seq<char>)
    requires
        fen_parse(s) is Some,
    ensures
        fen_placement(fen_parse(s)->0) == s,
{
    assert(forall|f2: int, r2: int| 0 <= f2 < 8 && 0 <= r2 < 8 ==> fen_empty()[#[trigger] (f2 * 8
        + r2)] is None);
    lemma_fen_parse_render(s, 0, fen_empty(), 7, 0, false, 0);
    let q = fen_parse(s)->0;
    assert(fen_placement(q) =~= fen_rank_from(q, 7, 0, 0) + (seq!['/'] + fen_down(q, 6)));
    assert(s.subrange(0, s.len() as int) =~= s);
}

impl Board {
    /// The six FEN fields of this board, joined by `sep`: placement, side
    /// to move, castling ("-": not modeled), en passant ("-": not
    /// modeled), halfmove clock, fullmove number.
    pub open spec fn spec_fen(self, sep: char) -> Seq<char> {
        fen_placement(self.placement()) + seq![sep, self.color_to_move.spec_to_char(), sep, '-', sep, '-', sep]
            + dec_digits(self.halfmove_clock as nat) + seq![sep] + dec_digits(
            self.fullmove_number as nat,
        )
    }

    /// Render the position in FEN, with `sep` between the six fields.
    pub fn fmt_fen(&self, sep: char) -> (s: String)
        requires
            self.wf(),
        ensures
            s@ == self.spec_fen(sep),
    {
        let mut s = String::new();
        let mut r: u8 = 8;
        while r > 0
            invariant
                self.wf(),
                r <= 8,
                s@ + (if r > 0 {
                    fen_down(self.placement(), r as int - 1)
                } else {
                    Seq::<char>::empty()
                }) == fen_placement(self.placement()),
            decreases r,
        {
            r = r - 1;
            self.fen_rank_push(&mut s, r);
            if r > 0 {
                push_char(&mut s, '/');
            }
            proof {
                assert(s@ + (if r > 0 {
                    fen_down(self.placement(), r as int - 1)
                } else {
                    Seq::<char>::empty()
                }) =~= fen_placement(self.placement()));
            }
        }
        proof {
            assert(s@ =~= fen_placement(self.placement()));
        }
        push_char(&mut s, sep);
        push_char(&mut s, self.color_to_move.to_char());
        push_char(&mut s, sep);
        push_char(&mut s, '-');
        push_char(&mut s, sep);
        push_char(&mut s, '-');
        push_char(&mut s, sep);
        let half = crate::strutil::u64_to_string(self.halfmove_clock);
        let mut s = s.concat(half.as_str());
        push_char(&mut s, sep);
        let full = crate::strutil::u64_to_string(self.fullmove_number);
        let s = s.concat(full.as_str());
        proof {
            assert(s@ =~= self.spec_fen(sep));
        }
        s
    }

    /// Append the FEN rendering of rank `r`.
    fn fen_rank_push(&self, s: &mut String, r: u8)
        requires
            self.wf(),
            r < 8,
        ensures
            final(s)@ == old(s)@ + fen_rank_from(self.placement(), r as int, 0, 0),
    {
        let ghost base = s@;
        let mut f: u8 = 0;
        let mut run: u8 = 0;
        while f < 8
            invariant
                self.wf(),
                r < 8,
                f <= 8,
                run <= f,
                s@ + fen_rank_from(self.placement(), r as int, f as int, run as int) == base
                    + fen_rank_from(self.placement(), r as int, 0, 0),
            decreases 8 - f,
        {
            let ghost p = self.placement();
            let ghost s0 = s@;
            let sq = Square::new(f * 8 + r);
            match self.piece_at(sq) {
                None => {
                    proof {
                        assert(fen_rank_from(p, r as int, f as int, run as int) == fen_rank_from(
                            p,
                            r as int,
                            f as int + 1,
                            run as int + 1,
                        ));
                    }
                    run = run + 1;
                },
                Some(pc) => {
                    if run > 0 {
                        push_char(s, ((48 + run) as u8) as char);
                    }
                    push_char(s, pc.to_char());
                    proof {
                        assert(s@ =~= s0 + (if run > 0 {
                            seq![dec_digit(run as int)]
                        } else {
                            Seq::<char>::empty()
                        }) + seq![pc.spec_to_char()]);
                        assert(s@ + fen_rank_from(p, r as int, f as int + 1, 0) =~= s0
                            + fen_rank_from(p, r as int, f as int, run as int));
                    }
                    run = 0;
                },
            }
            f = f + 1;
        }
        if run > 0 {
            push_char(s, ((48 + run) as u8) as char);
        }
    }

    /// The analysis address of this position: the FEN with underscores for
    /// separators, under the public analysis endpoint.
    pub fn lichess_url(&self) -> (s: String)
        requires
            self.wf(),
        ensures
            s@ == "https://lichess.org/analysis/"@ + self.spec_fen('_'),
    {
        let base = String::from_str("https://lichess.org/analysis/");
        let fen = self.fmt_fen('_');
        base.concat(fen.as_str())
    }
}


/// Read a FEN placement field into a 64-entry placement vector.
///
/// The textual order is rank-major, rank 8 first; the vector is file-major.
/// Accepted are piece letters, the digits 1..=8 for runs of empty squares
/// (two adjacent digits are rejected), and '/' between ranks; each rank
/// must cover exactly eight files. The result is exactly what the
/// spec-level reading denotes.
fn parse_placement(tok: &String) -> (r: Result<Vec<Option<Piece>>, ChessError>)
    ensures
        r is Ok <==> fen_parse(tok@) is Some,
        r is Ok ==> r->Ok_0@ == fen_parse(tok@)->0 && r->Ok_0@.len() == 64,
        r is Err ==> r->Err_0 == ChessError::InvalidFen,
{
    let ghost s = tok@;
    let n = tok.as_str().unicode_len();
    let mut squares: Vec<Option<Piece>> = Vec::new();
    let mut k: u8 = 0;
    while k < 64
        invariant
            squares@.len() == k as int,
            k <= 64,
            forall|j: int| 0 <= j < k as int ==> squares@[j] is None,
        decreases 64 - k,
    {
        squares.push(None);
        k = k + 1;
    }
    proof {
        assert(squares@ =~= fen_empty());
    }
    let mut rank: u8 = 7;
    let mut file: u8 = 0;
    let mut prev_digit: bool = false;
    let mut i: usize = 0;
    while i < n
        invariant
            s == tok@,
            n == s.len(),
            i <= n,
            squares@.len() == 64,
            rank <= 7,
            file <= 8,
            fen_parse(s) == fen_parse_from(
                s,
                i as int,
                squares@,
                rank as int,
                file as int,
                prev_digit,
            ),
        decreases n - i,
    {
        let c = tok.as_str().get_char(i);
        let v = c as u32;
        if 49 <= v && v <= 56 {
            let d = (v - 48) as u8;
            if prev_digit || d > 8 - file {
                return Err(ChessError::InvalidFen);
            }
            file = file + d;
            prev_digit = true;
        } else if v == 47 {
            if file != 8 || rank == 0 {
                return Err(ChessError::InvalidFen);
            }
            rank = rank - 1;
            file = 0;
            prev_digit = false;
        } else {
            if file >= 8 {
                return Err(ChessError::InvalidFen);
            }
            match crate::piece::piece_from_char_opt(c) {
                Some(pc) => {
                    squares.set((file * 8 + rank) as usize, Some(pc));
                },
                None => {
                    return Err(ChessError::InvalidFen);
                },
            }
            file = file + 1;
            prev_digit = false;
        }
        i = i + 1;
    }
    if rank != 0 || file != 8 {
        return Err(ChessError::InvalidFen);
    }
    Ok(squares)
}

/// Whether a FEN side-to-move field is well formed.
pub open spec fn fen_side_ok(t: Seq<char>) -> bool {
    t == seq!['w'] || t == seq!['b']
}

/// Whether a FEN clock field is well formed: digits whose value fits.
pub open spec fn fen_clock_ok(t: Seq<char>) -> bool {
    crate::strutil::is_digits(t) && crate::strutil::dec_value(t) <= u64::MAX
}

/// Whether the six FEN fields at `at` of the token list are well formed:
/// the placement field reads as 8x8 squares, the side is 'w' or 'b', and
/// the two clocks are numbers. The castling and en-passant fields are
/// accepted unexamined (they are not modeled).
pub open spec fn fen_fields_ok(a: Seq<Seq<char>>, at: int) -> bool {
    &&& at + 6 <= a.len()
    &&& fen_parse(a[at]) is Some
    &&& fen_side_ok(a[at + 1])
    &&& fen_clock_ok(a[at + 4])
    &&& fen_clock_ok(a[at + 5])
}

impl Board {
    /// Build a board from six FEN fields: the tokens at `at .. at + 6` of
    /// `tokens`. Success exactly when the fields are well formed; the
    /// placement is the one the field denotes (rank-major text into the
    /// file-major layout) and renders back to the very field, the side to
    /// move and the two clocks come from theirs. A malformed side is a
    /// color error; everything else malformed is a FEN error.
    pub fn from_fen(tokens: &Vec<String>, at: usize) -> (r: Result<Board, ChessError>)
        ensures
            ({
                let a = Seq::new(tokens@.len(), |k: int| tokens@[k]@);
                &&& (r is Ok <==> fen_fields_ok(a, at as int))
                &&& r is Ok ==> {
                    &&& r->Ok_0.wf()
                    &&& r->Ok_0.placement() == fen_parse(a[at as int])->0
                    &&& fen_placement(r->Ok_0.placement()) == a[at as int]
                    &&& (r->Ok_0.color_to_move == Color::White <==> a[at as int + 1] == seq!['w'])
                    &&& r->Ok_0.halfmove_clock == crate::strutil::dec_value(a[at as int + 4])
                    &&& r->Ok_0.fullmove_number == crate::strutil::dec_value(a[at as int + 5])
                }
                &&& !(at + 6 <= a.len()) ==> r is Err && r->Err_0 == ChessError::InvalidFen
                &&& at + 6 <= a.len() && fen_parse(a[at as int]) is None ==> r is Err && r->Err_0
                    == ChessError::InvalidFen
                &&& at + 6 <= a.len() && fen_parse(a[at as int]) is Some && !fen_side_ok(
                    a[at as int + 1],
                ) ==> r is Err && r->Err_0 == ChessError::InvalidColor
                &&& at + 6 <= a.len() && fen_parse(a[at as int]) is Some && fen_side_ok(
                    a[at as int + 1],
                ) && !(fen_clock_ok(a[at as int + 4]) && fen_clock_ok(a[at as int + 5])) ==> r
                    is Err && r->Err_0 == ChessError::InvalidFen
            }),
    {
        if tokens.len() < 6 || at > tokens.len() - 6 {
            return Err(ChessError::InvalidFen);
        }
        let squares = match parse_placement(&tokens[at]) {
            Ok(sq) => sq,
            Err(e) => {
                return Err(e);
            },
        };
        proof {
            reveal_strlit("w");
            reveal_strlit("b");
            assert("w"@ =~= seq!['w']);
            assert("b"@ =~= seq!['b']);
        }
        let color_to_move = if crate::strutil::streq(&tokens[at + 1], "w") {
            Color::White
        } else if crate::strutil::streq(&tokens[at + 1], "b") {
            Color::Black
        } else {
            return Err(ChessError::InvalidColor);
        };
        let halfmove_clock = match crate::strutil::parse_u64(&tokens[at + 4]) {
            Some(v) => v,
            None => {
                return Err(ChessError::InvalidFen);
            },
        };
        let fullmove_number = match crate::strutil::parse_u64(&tokens[at + 5]) {
            Some(v) => v,
            None => {
                return Err(ChessError::InvalidFen);
            },
        };
        proof {
            lemma_fen_round_trip(tokens@[at as int]@);
        }
        Ok(Board { squares, color_to_move, halfmove_clock, fullmove_number })
    }
}

} // verus!

