//! The piece model: roles, colored pieces, their one-letter encoding, and
//! the leaper attack sets generated from fixed offset lists.

use vstd::prelude::*;
use crate::color::Color;
use crate::color::spec_lower;
use crate::coordinates::BitBoard;
use crate::coordinates::Coordinate;
use crate::coordinates::File;
use crate::coordinates::Rank;
use crate::coordinates::Square;
use crate::coordinates::ToBb;

verus! {

/// What a piece is, independent of its color.
#[derive(Copy, Clone, Debug, PartialEq, Eq, Structural)]
pub enum Role {
    Pawn,
    Knight,
    Bishop,
    Rook,
    King,
    Queen,
}

/// A role together with a color.
#[derive(Copy, Clone, Debug, PartialEq, Eq, Structural)]
pub struct Piece {
    pub role: Role,
    pub color: Color,
}

impl Role {
    /// The lowercase letter of this role.
    pub open spec fn spec_to_char(self) -> char {
        match self {
            Role::Pawn => 'p',
            Role::Knight => 'n',
            Role::Bishop => 'b',
            Role::Rook => 'r',
            Role::Queen => 'q',
            Role::King => 'k',
        }
    }

    /// Encode as the lowercase letter of the alphabet `{p,n,b,r,q,k}`.
    pub fn to_char(self) -> (r: char)
        ensures
            r == self.spec_to_char(),
    {
        match self {
            Role::Pawn => 'p',
            Role::Knight => 'n',
            Role::Bishop => 'b',
            Role::Rook => 'r',
            Role::Queen => 'q',
            Role::King => 'k',
        }
    }

    /// Whether `c` is a role letter in either case.
    pub open spec fn is_role_char(c: char) -> bool {
        spec_lower(c) == 'p' || spec_lower(c) == 'n' || spec_lower(c) == 'b'
            || spec_lower(c) == 'r' || spec_lower(c) == 'q' || spec_lower(c) == 'k'
    }

    /// The role a letter denotes, case-insensitively.
    pub open spec fn spec_from_char(c: char) -> Role {
        if spec_lower(c) == 'p' {
            Role::Pawn
        } else if spec_lower(c) == 'n' {
            Role::Knight
        } else if spec_lower(c) == 'b' {
            Role::Bishop
        } else if spec_lower(c) == 'r' {
            Role::Rook
        } else if spec_lower(c) == 'q' {
            Role::Queen
        } else {
            Role::King
        }
    }

    /// Decode a role letter, case-insensitively; other characters are a
    /// caller error (the outer parsers reject them first).
    pub fn from_char(c: char) -> (r: Role)
        requires
            Role::is_role_char(c),
        ensures
            r == Role::spec_from_char(c),
    {
        let l = Color::Black.set_ascii_case(c);
        if l == 'p' {
            Role::Pawn
        } else if l == 'n' {
            Role::Knight
        } else if l == 'b' {
            Role::Bishop
        } else if l == 'r' {
            Role::Rook
        } else if l == 'q' {
            Role::Queen
        } else {
            Role::King
        }
    }

    /// The attack set of this piece from `from`, for the two leaper roles.
    ///
    /// Sliding roles need the blocker occupancy and are answered by the
    /// movement layer instead; asking here is a caller error.
    pub fn attacks(self, from: Square) -> (r: BitBoard)
        requires
            self == Role::Knight || self == Role::King,
            from.wf(),
        ensures
            self == Role::Knight ==> r == knight_bb(from.idx() as int / 8, from.idx() as int % 8),
            self == Role::King ==> r == king_bb(from.idx() as int / 8, from.idx() as int % 8),
    {
        match self {
            Role::Knight => knight_attacks_from(from),
            _ => king_attacks_from(from),
        }
    }
}

impl Piece {
    /// Pair a role with a color.
    pub fn new(role: Role, color: Color) -> (r: Piece)
        ensures
            r.role == role,
            r.color == color,
    {
        Piece { role, color }
    }

    /// The letter of this piece: the role letter, in the color's case.
    pub open spec fn spec_to_char(self) -> char {
        self.color.spec_set_ascii_case(self.role.spec_to_char())
    }

    /// Encode as one letter: role gives the letter, color its case.
    pub fn to_char(self) -> (r: char)
        ensures
            r == self.spec_to_char(),
    {
        let c = self.role.to_char();
        self.color.set_ascii_case(c)
    }

    /// The piece a letter denotes: role from the letter, color from its case.
    pub open spec fn spec_from_char(c: char) -> Piece {
        Piece { role: Role::spec_from_char(c), color: Color::spec_from_char_case(c) }
    }

    /// Decode one letter into a piece; non-role letters are a caller error.
    pub fn from_char(c: char) -> (r: Piece)
        requires
            Role::is_role_char(c),
        ensures
            r == Piece::spec_from_char(c),
    {
        Piece { role: Role::from_char(c), color: Color::from_char_case(c) }
    }
}

/// Every one of the twelve pieces encodes to a letter that decodes back to
/// the same (role, color) pair.
pub proof fn lemma_piece_char_roundtrip(p: Piece)
    ensures
        Piece::spec_from_char(p.spec_to_char()) == p,
{
}

/// The inverse direction: a valid piece letter decodes and re-encodes to
/// itself, since the role fixes the letter and the letter's case carries
/// the color.
pub proof fn lemma_role_char_roundtrip(c: char)
    requires
        Role::is_role_char(c),
    ensures
        Piece::spec_from_char(c).spec_to_char() == c,
{
}

/// The singleton bitboard of the square at `(f, r)`, or empty when the
/// coordinates fall off the board.
pub open spec fn offset_bit(f: int, r: int) -> u64 {
    if 0 <= f < 8 && 0 <= r < 8 {
        1u64 << ((f * 8 + r) as u64)
    } else {
        0u64
    }
}

/// The knight attack set from `(f, r)`: the eight knight offsets, with
/// off-board destinations discarded.
pub open spec fn knight_bb(f: int, r: int) -> u64 {
    offset_bit(f - 1, r + 2) | offset_bit(f + 1, r + 2) | offset_bit(f + 2, r + 1) | offset_bit(
        f + 2,
        r - 1,
    ) | offset_bit(f + 1, r - 2) | offset_bit(f - 1, r - 2) | offset_bit(f - 2, r - 1)
        | offset_bit(f - 2, r + 1)
}

/// The king attack set from `(f, r)`: the eight neighbors, with off-board
/// destinations discarded.
pub open spec fn king_bb(f: int, r: int) -> u64 {
    offset_bit(f - 1, r - 1) | offset_bit(f - 1, r) | offset_bit(f - 1, r + 1) | offset_bit(
        f,
        r - 1,
    ) | offset_bit(f, r + 1) | offset_bit(f + 1, r - 1) | offset_bit(f + 1, r)
        | offset_bit(f + 1, r + 1)
}

/// One leaper destination: the square `(file + df, rank + dr)` as a
/// bitboard, or empty when the shift leaves the board.
fn leaper_term(f: File, r: Rank, df: i32, dr: i32) -> (bb: u64)
    requires
        f.wf(),
        r.wf(),
        -8 <= df <= 8,
        -8 <= dr <= 8,
    ensures
        bb == offset_bit(f.idx() + df, r.idx() + dr),
{
    match (f.shift(df), r.shift(dr)) {
        (Some(f2), Some(r2)) => Square::at(f2, r2).to_bb(),
        _ => 0,
    }
}

/// The knight attack set from a square, built from the fixed offset list.
pub fn knight_attacks_from(from: Square) -> (r: BitBoard)
    requires
        from.wf(),
    ensures
        r == knight_bb(from.idx() as int / 8, from.idx() as int % 8),
{
    let f = from.file();
    let rk = from.rank();
    let t1 = leaper_term(f, rk, -1, 2);
    let t2 = leaper_term(f, rk, 1, 2);
    let t3 = leaper_term(f, rk, 2, 1);
    let t4 = leaper_term(f, rk, 2, -1);
    let t5 = leaper_term(f, rk, 1, -2);
    let t6 = leaper_term(f, rk, -1, -2);
    let t7 = leaper_term(f, rk, -2, -1);
    let t8 = leaper_term(f, rk, -2, 1);
    t1 | t2 | t3 | t4 | t5 | t6 | t7 | t8
}

/// The king attack set from a square, built from the fixed offset list.
pub fn king_attacks_from(from: Square) -> (r: BitBoard)
    requires
        from.wf(),
    ensures
        r == king_bb(from.idx() as int / 8, from.idx() as int % 8),
{
    let f = from.file();
    let rk = from.rank();
    let t1 = leaper_term(f, rk, -1, -1);
    let t2 = leaper_term(f, rk, -1, 0);
    let t3 = leaper_term(f, rk, -1, 1);
    let t4 = leaper_term(f, rk, 0, -1);
    let t5 = leaper_term(f, rk, 0, 1);
    let t6 = leaper_term(f, rk, 1, -1);
    let t7 = leaper_term(f, rk, 1, 0);
    let t8 = leaper_term(f, rk, 1, 1);
    t1 | t2 | t3 | t4 | t5 | t6 | t7 | t8
}


/// The piece a letter denotes, or `None` for a non-role character.
pub fn piece_from_char_opt(c: char) -> (r: Option<Piece>)
    ensures
        Role::is_role_char(c) ==> r is Some && r->0 == Piece::spec_from_char(c),
        !Role::is_role_char(c) ==> r is None,
{
    let l = Color::Black.set_ascii_case(c);
    if l == 'p' || l == 'n' || l == 'b' || l == 'r' || l == 'q' || l == 'k' {
        Some(Piece::from_char(c))
    } else {
        None
    }
}

} // verus!

