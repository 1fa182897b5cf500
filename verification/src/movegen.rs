//! Movement: a pointwise pseudo-legal move test over the board, the
//! perft node count built on it, a material evaluation, and the move
//! choice the `go` command answers with.
//!
//! Moves are pseudo-legal: leaper and slider geometry, pawn pushes and
//! captures, with no check, castling, en-passant or promotion rules.

use vstd::prelude::*;
use crate::board::Board;
use crate::board::Move;
use crate::color::Color;
use crate::coordinates::Coordinate;
use crate::coordinates::Square;
use crate::piece::Piece;
use crate::piece::Role;

verus! {

/// The sign of a step: -1, 0 or 1.
pub open spec fn sign(d: int) -> int {
    if d > 0 {
        1
    } else if d < 0 {
        -1
    } else {
        0
    }
}

/// The larger of two magnitudes.
pub open spec fn abs(d: int) -> int {
    if d >= 0 {
        d
    } else {
        -d
    }
}

/// How many king steps from square `from` to square `to`: the Chebyshev
/// distance of their files and ranks.
pub open spec fn steps(from: int, to: int) -> int {
    let df = abs(to / 8 - from / 8);
    let dr = abs(to % 8 - from % 8);
    if df >= dr {
        df
    } else {
        dr
    }
}

/// Whether every square strictly between `from` and `to` along their
/// common line or diagonal is empty.
pub open spec fn path_clear(p: Seq<Option<Piece>>, from: int, to: int) -> bool {
    let sf = sign(to / 8 - from / 8);
    let sr = sign(to % 8 - from % 8);
    forall|k: int| 1 <= k < steps(from, to)
        ==> p[#[trigger] ((from / 8 + k * sf) * 8 + (from % 8 + k * sr))] is None
}

/// Whether `from` and `to` share a rank or a file, without coinciding.
pub open spec fn rook_aligned(from: int, to: int) -> bool {
    from != to && (from / 8 == to / 8 || from % 8 == to % 8)
}

/// Whether `from` and `to` share a diagonal, without coinciding.
pub open spec fn bishop_aligned(from: int, to: int) -> bool {
    from != to && abs(to / 8 - from / 8) == abs(to % 8 - from % 8)
}

/// Whether the geometry of `role` lets it go from `from` to `to` over the
/// placement `p` (blockers considered, destination occupancy not).
pub open spec fn role_reaches(
    p: Seq<Option<Piece>>,
    role: Role,
    c: Color,
    from: int,
    to: int,
) -> bool {
    let df = to / 8 - from / 8;
    let dr = to % 8 - from % 8;
    match role {
        Role::Knight => (abs(df) == 1 && abs(dr) == 2) || (abs(df) == 2 && abs(dr) == 1),
        Role::King => from != to && abs(df) <= 1 && abs(dr) <= 1,
        Role::Rook => rook_aligned(from, to) && path_clear(p, from, to),
        Role::Bishop => bishop_aligned(from, to) && path_clear(p, from, to),
        Role::Queen => (rook_aligned(from, to) || bishop_aligned(from, to)) && path_clear(
            p,
            from,
            to,
        ),
        Role::Pawn => {
            let fwd: int = if c == Color::White {
                1
            } else {
                -1
            };
            let start: int = if c == Color::White {
                1
            } else {
                6
            };
            ||| (df == 0 && dr == fwd && p[to] is None)
            ||| (df == 0 && dr == 2 * fwd && from % 8 == start && p[to] is None && p[from + fwd]
                is None)
            ||| (abs(df) == 1 && dr == fwd && p[to] is Some)
        },
    }
}

/// The pseudo-legal move test: a piece of the side to move stands on
/// `from`, the destination holds no piece of its own side, and the role's
/// geometry reaches it.
pub open spec fn is_pseudo_move(p: Seq<Option<Piece>>, c: Color, from: int, to: int) -> bool {
    &&& 0 <= from < 64
    &&& 0 <= to < 64
    &&& from != to
    &&& p[from] is Some
    &&& p[from]->0.color == c
    &&& !(p[to] is Some && p[to]->0.color == c)
    &&& role_reaches(p, p[from]->0.role, c, from, to)
}

/// Decide the pseudo-legal move test for one square pair.
pub fn is_pseudo_move_at(b: &Board, from: Square, to: Square) -> (r: bool)
    requires
        b.wf(),
        from.wf(),
        to.wf(),
    ensures
        r == is_pseudo_move(b.placement(), b.color_to_move, from.idx() as int, to.idx() as int),
{
    let fi = from.i();
    let ti = to.i();
    if fi == ti {
        return false;
    }
    let pc = match b.piece_at(from) {
        Some(pc) => pc,
        None => {
            return false;
        },
    };
    let own = match (pc.color, b.color_to_move) {
        (Color::White, Color::White) => true,
        (Color::Black, Color::Black) => true,
        _ => false,
    };
    if !own {
        return false;
    }
    let dest = b.piece_at(to);
    let dest_own = match dest {
        Some(d) => matches!((d.color, pc.color), (Color::White, Color::White) | (
            Color::Black,
            Color::Black,
        )),
        None => false,
    };
    if dest_own {
        return false;
    }
    let ff = (fi / 8) as i64;
    let fr = (fi % 8) as i64;
    let tf = (ti / 8) as i64;
    let tr = (ti % 8) as i64;
    let df: i64 = tf - ff;
    let dr: i64 = tr - fr;
    let adf: i64 = if df >= 0 {
        df
    } else {
        -df
    };
    let adr: i64 = if dr >= 0 {
        dr
    } else {
        -dr
    };
    match pc.role {
        Role::Knight => (adf == 1 && adr == 2) || (adf == 2 && adr == 1),
        Role::King => adf <= 1 && adr <= 1,
        Role::Rook => (df == 0 || dr == 0) && path_clear_at(b, from, to),
        Role::Bishop => adf == adr && path_clear_at(b, from, to),
        Role::Queen => (df == 0 || dr == 0 || adf == adr) && path_clear_at(b, from, to),
        Role::Pawn => {
            let fwd: i64 = if matches!(pc.color, Color::White) {
                1
            } else {
                -1
            };
            let start: i64 = if matches!(pc.color, Color::White) {
                1
            } else {
                6
            };
            if df == 0 && dr == fwd {
                dest.is_none()
            } else if df == 0 && dr == 2 * fwd && fr == start {
                let mid = Square::new((fi as i64 + fwd) as u8);
                dest.is_none() && b.piece_at(mid).is_none()
            } else if adf == 1 && dr == fwd {
                dest.is_some()
            } else {
                false
            }
        },
    }
}

/// Decide whether the squares strictly between `from` and `to` (which
/// must be rook- or bishop-aligned) are all empty.
fn path_clear_at(b: &Board, from: Square, to: Square) -> (r: bool)
    requires
        b.wf(),
        from.wf(),
        to.wf(),
        rook_aligned(from.idx() as int, to.idx() as int) || bishop_aligned(
            from.idx() as int,
            to.idx() as int,
        ),
    ensures
        r == path_clear(b.placement(), from.idx() as int, to.idx() as int),
{
    let fi = from.i() as i64;
    let ti = to.i() as i64;
    let ff = fi / 8;
    let fr = fi % 8;
    let tf = ti / 8;
    let tr = ti % 8;
    let sf: i64 = if tf > ff {
        1
    } else if tf < ff {
        -1
    } else {
        0
    };
    let sr: i64 = if tr > fr {
        1
    } else if tr < fr {
        -1
    } else {
        0
    };
    let adf: i64 = if tf >= ff {
        tf - ff
    } else {
        ff - tf
    };
    let adr: i64 = if tr >= fr {
        tr - fr
    } else {
        fr - tr
    };
    let n: i64 = if adf >= adr {
        adf
    } else {
        adr
    };
    let mut k: i64 = 1;
    while k < n
        invariant
            b.wf(),
            from.wf(),
            to.wf(),
            1 <= k <= if n >= 1 { n } else { 1 },
            ff == from.idx() as int / 8,
            fr == from.idx() as int % 8,
            sf == sign(to.idx() as int / 8 - from.idx() as int / 8),
            sr == sign(to.idx() as int % 8 - from.idx() as int % 8),
            n == steps(from.idx() as int, to.idx() as int),
            0 <= n < 8,
            rook_aligned(from.idx() as int, to.idx() as int) || bishop_aligned(
                from.idx() as int,
                to.idx() as int,
            ),
            forall|j: int| 1 <= j < k
                ==> b.placement()[#[trigger] ((ff + j * sf) * 8 + (fr + j * sr))] is None,
        decreases n - k,
    {
        let f2 = ff + k * sf;
        let r2 = fr + k * sr;
        proof {
            lemma_mul_sign(k as int, sf as int);
            lemma_mul_sign(k as int, sr as int);
            let tf2 = to.idx() as int / 8;
            let tr2 = to.idx() as int % 8;
            if sf == 1 {
                assert(n == tf2 - ff);
            } else if sf == -1 {
                assert(n == ff - tf2);
            }
            if sr == 1 {
                assert(n == tr2 - fr);
            } else if sr == -1 {
                assert(n == fr - tr2);
            }
            assert(0 <= f2 < 8 && 0 <= r2 < 8);
        }
        let sq = Square::new((f2 * 8 + r2) as u8);
        if self_occupied(b, sq) {
            return false;
        }
        k = k + 1;
    }
    true
}

/// Multiplying by a sign keeps, negates or cancels the factor.
proof fn lemma_mul_sign(k: int, s: int)
    requires
        -1 <= s <= 1,
    ensures
        s == 1 ==> k * s == k,
        s == -1 ==> k * s == -k,
        s == 0 ==> k * s == 0,
{
    assert(k * 1 == k) by (nonlinear_arith);
    assert(k * -1 == -k) by (nonlinear_arith);
    assert(k * 0 == 0) by (nonlinear_arith);
    if s == 1 {
        assert(k * s == k * 1);
    } else if s == -1 {
        assert(k * s == k * -1);
    } else if s == 0 {
        assert(k * s == k * 0);
    }
}

/// Whether any piece stands on `sq`.
fn self_occupied(b: &Board, sq: Square) -> (r: bool)
    requires
        b.wf(),
        sq.wf(),
    ensures
        r == (b.placement()[sq.idx() as int] is Some),
{
    b.piece_at(sq).is_some()
}

/// The placement after moving whatever stands on `from` to `to`.
pub open spec fn spec_apply(p: Seq<Option<Piece>>, from: int, to: int) -> Seq<Option<Piece>> {
    p.update(from, None).update(to, p[from])
}

/// Saturate a count at the largest representable value.
pub open spec fn clip(x: nat) -> nat {
    if x > u64::MAX {
        u64::MAX as nat
    } else {
        x
    }
}

/// The perft node count: positions reachable in exactly `d` pseudo-legal
/// moves, counted over the move tree.
pub open spec fn spec_perft(p: Seq<Option<Piece>>, c: Color, d: nat) -> nat
    decreases d, 4097int,
{
    if d == 0 {
        1
    } else {
        perft_sum(p, c, d, 0)
    }
}

/// The sum of subtree counts over the move candidates `i..4096`, each
/// candidate `i` encoding the pair (from, to) = (i / 64, i % 64).
pub open spec fn perft_sum(p: Seq<Option<Piece>>, c: Color, d: nat, i: int) -> nat
    decreases d, 4096 - i,
{
    if i < 0 || i >= 4096 || d == 0 {
        0
    } else {
        (if is_pseudo_move(p, c, i / 64, i % 64) {
            spec_perft(spec_apply(p, i / 64, i % 64), c.spec_opposite(), (d - 1) as nat)
        } else {
            0
        }) + perft_sum(p, c, d, i + 1)
    }
}

/// Count perft nodes to the given depth, saturating at `u64::MAX`.
pub fn perft_count(b: &Board, depth: u64) -> (r: u64)
    requires
        b.wf(),
    ensures
        r == clip(spec_perft(b.placement(), b.color_to_move, depth as nat)),
    decreases depth,
{
    if depth == 0 {
        return 1;
    }
    let mut acc: u64 = 0;
    let mut i: u64 = 4096;
    while i > 0
        invariant
            b.wf(),
            depth >= 1,
            i <= 4096,
            acc == clip(perft_sum(b.placement(), b.color_to_move, depth as nat, i as int)),
        decreases i,
    {
        i = i - 1;
        let from = Square::new((i / 64) as u8);
        let to = Square::new((i % 64) as u8);
        if is_pseudo_move_at(b, from, to) {
            let mut b2 = b.duplicate();
            b2.do_move(Move { from, to });
            let sub = perft_count(&b2, depth - 1);
            proof {
                assert(b2.placement() =~= spec_apply(
                    b.placement(),
                    i as int / 64,
                    i as int % 64,
                ));
            }
            acc = if acc > u64::MAX - sub {
                u64::MAX
            } else {
                acc + sub
            };
        }
    }
    acc
}

/// The conventional value of a role, in centipawns.
pub open spec fn role_value(r: Role) -> int {
    match r {
        Role::Pawn => 100,
        Role::Knight => 300,
        Role::Bishop => 300,
        Role::Rook => 500,
        Role::Queen => 900,
        Role::King => 0,
    }
}

/// The material balance of squares `i..64`, White positive.
pub open spec fn material_from(p: Seq<Option<Piece>>, i: int) -> int
    decreases 64 - i,
{
    if i < 0 || i >= 64 {
        0
    } else {
        (match p[i] {
            Some(pc) => if pc.color == Color::White {
                role_value(pc.role)
            } else {
                -role_value(pc.role)
            },
            None => 0,
        }) + material_from(p, i + 1)
    }
}

/// The material balance of the whole board, White positive.
pub open spec fn material(p: Seq<Option<Piece>>) -> int {
    material_from(p, 0)
}

/// Compute the material balance: the sum of piece values, White minus
/// Black.
pub fn material_score(b: &Board) -> (r: i64)
    requires
        b.wf(),
    ensures
        r == material(b.placement()),
{
    let mut acc: i64 = 0;
    let mut i: u8 = 64;
    while i > 0
        invariant
            b.wf(),
            i <= 64,
            acc == material_from(b.placement(), i as int),
        decreases i,
    {
        i = i - 1;
        proof {
            lemma_material_bound(b.placement(), i as int);
        }
        let sq = Square::new(i);
        match b.piece_at(sq) {
            Some(pc) => {
                let v: i64 = match pc.role {
                    Role::Pawn => 100,
                    Role::Knight => 300,
                    Role::Bishop => 300,
                    Role::Rook => 500,
                    Role::Queen => 900,
                    Role::King => 0,
                };
                if matches!(pc.color, Color::White) {
                    acc = acc + v;
                } else {
                    acc = acc - v;
                }
            },
            None => {},
        }
    }
    acc
}

/// The material balance of a tail of squares is bounded by its length.
proof fn lemma_material_bound(p: Seq<Option<Piece>>, i: int)
    requires
        0 <= i <= 64,
    ensures
        -(64 - i) * 900 <= material_from(p, i) <= (64 - i) * 900,
    decreases 64 - i,
{
    if 0 <= i < 64 {
        lemma_material_bound(p, i + 1);
    }
}

/// The least move candidate index at or after `i` that is a pseudo-legal
/// move, or 4096 when none is.
pub open spec fn first_move_from(p: Seq<Option<Piece>>, c: Color, i: int) -> int
    decreases 4096 - i,
{
    if i < 0 || i >= 4096 {
        4096
    } else if is_pseudo_move(p, c, i / 64, i % 64) {
        i
    } else {
        first_move_from(p, c, i + 1)
    }
}

/// The first pseudo-legal move of the side to move, in candidate order,
/// or `None` when that side has no pseudo-legal move at all.
pub fn first_move(b: &Board) -> (r: Option<Move>)
    requires
        b.wf(),
    ensures
        first_move_from(b.placement(), b.color_to_move, 0) == 4096 <==> r is None,
        r is Some ==> {
            let i = first_move_from(b.placement(), b.color_to_move, 0);
            &&& 0 <= i < 4096
            &&& r->0.from.idx() == i / 64
            &&& r->0.to.idx() == i % 64
            &&& r->0.wf()
        },
{
    let mut i: u64 = 0;
    while i < 4096
        invariant
            b.wf(),
            i <= 4096,
            first_move_from(b.placement(), b.color_to_move, 0) == first_move_from(
                b.placement(),
                b.color_to_move,
                i as int,
            ),
        decreases 4096 - i,
    {
        let from = Square::new((i / 64) as u8);
        let to = Square::new((i % 64) as u8);
        if is_pseudo_move_at(b, from, to) {
            return Some(Move { from, to });
        }
        i = i + 1;
    }
    None
}

} // verus!
