//! The position cache: at most one cached evaluation per distinct
//! position. Lookup and insert serve the search subsystem; the interpreter
//! itself only ever wipes the cache wholesale on a new-game signal.

use vstd::prelude::*;
use crate::board::Board;
use crate::color::Color;
use crate::piece::Piece;

verus! {

/// A cached search result. The payload is an intentional placeholder: the
/// bookkeeping contracts below cover membership and invalidation only, and
/// a real search must define the payload (score, best move, depth, bound)
/// before relying on the cache.
#[derive(Copy, Clone, Debug, PartialEq, Eq, Structural)]
pub struct Evaluation {}

/// A position's identity: its placement and the side to move. The move
/// clocks are not part of the identity.
pub open spec fn position_key(b: Board) -> (Seq<Option<Piece>>, Color) {
    (b.placement(), b.color_to_move)
}

/// The cache: a table from position identity to evaluation.
pub struct Cache {
    entries: Vec<(Board, Evaluation)>,
}

/// The map a sequence of entries denotes, later entries winning.
pub open spec fn entries_map(s: Seq<(Board, Evaluation)>) -> Map<
    (Seq<Option<Piece>>, Color),
    Evaluation,
>
    decreases s.len(),
{
    if s.len() == 0 {
        Map::empty()
    } else {
        entries_map(s.drop_last()).insert(position_key(s.last().0), s.last().1)
    }
}

/// A key is in the entries map exactly when some entry carries it, and
/// with distinct keys each entry's value is the map's value for its key.
proof fn lemma_entries_map(s: Seq<(Board, Evaluation)>)
    ensures
        forall|k: (Seq<Option<Piece>>, Color)|
            entries_map(s).contains_key(k) <==> exists|i: int|
                0 <= i < s.len() && position_key(#[trigger] s[i].0) == k,
        (forall|i: int, j: int| 0 <= i < j < s.len()
            ==> position_key(#[trigger] s[i].0) != position_key(#[trigger] s[j].0)) ==> forall|
            i: int,
        | 0 <= i < s.len() ==> entries_map(s)[position_key(#[trigger] s[i].0)] == s[i].1,
    decreases s.len(),
{
    if s.len() > 0 {
        let t = s.drop_last();
        lemma_entries_map(t);
        assert(forall|i: int| 0 <= i < t.len() ==> #[trigger] t[i] == s[i]);
        assert forall|k: (Seq<Option<Piece>>, Color)| entries_map(s).contains_key(k) implies exists|
            i: int,
        | 0 <= i < s.len() && position_key(#[trigger] s[i].0) == k by {
            if k == position_key(s.last().0) {
                assert(position_key(s[s.len() - 1].0) == k);
            } else {
                assert(entries_map(t).contains_key(k));
                let i = choose|i: int| 0 <= i < t.len() && position_key(#[trigger] t[i].0) == k;
                assert(position_key(s[i].0) == k);
            }
        }
        assert forall|k: (Seq<Option<Piece>>, Color)|
            (exists|i: int| 0 <= i < s.len() && position_key(#[trigger] s[i].0) == k) implies
            entries_map(s).contains_key(k) by {
            let i = choose|i: int| 0 <= i < s.len() && position_key(#[trigger] s[i].0) == k;
            if i < s.len() - 1 {
                assert(position_key(t[i].0) == k);
                assert(entries_map(t).contains_key(k));
            }
        }
    }
}

impl Cache {
    /// The mapping this cache holds.
    pub closed spec fn view(self) -> Map<(Seq<Option<Piece>>, Color), Evaluation> {
        entries_map(self.entries@)
    }

    /// Well-formed: entries are well-formed boards with pairwise distinct
    /// identities, so each position is cached at most once.
    pub closed spec fn wf(self) -> bool {
        &&& forall|i: int, j: int| 0 <= i < j < self.entries@.len()
            ==> position_key(#[trigger] self.entries@[i].0) != position_key(
            #[trigger] self.entries@[j].0,
        )
        &&& forall|i: int| 0 <= i < self.entries@.len() ==> (#[trigger] self.entries@[i].0).wf()
    }

    /// An empty cache.
    pub fn new() -> (r: Cache)
        ensures
            r.wf(),
            r.view() == Map::<(Seq<Option<Piece>>, Color), Evaluation>::empty(),
    {
        Cache { entries: Vec::new() }
    }

    /// Wipe the cache wholesale: afterwards every lookup misses.
    pub fn clear(&mut self)
        ensures
            final(self).wf(),
            final(self).view() == Map::<(Seq<Option<Piece>>, Color), Evaluation>::empty(),
    {
        self.entries = Vec::new();
    }

    /// The cached evaluation of this position, if one is stored.
    pub fn lookup(&self, b: &Board) -> (r: Option<Evaluation>)
        requires
            self.wf(),
            b.wf(),
        ensures
            r is Some <==> self.view().contains_key(position_key(*b)),
            r is Some ==> r->0 == self.view()[position_key(*b)],
    {
        proof {
            lemma_entries_map(self.entries@);
        }
        let n = self.entries.len();
        let mut i: usize = 0;
        while i < n
            invariant
                self.wf(),
                b.wf(),
                n == self.entries@.len(),
                i <= n,
                forall|j: int| 0 <= j < i ==> position_key(#[trigger] self.entries@[j].0)
                    != position_key(*b),
            decreases n - i,
        {
            let hit = self.entries[i].0.same_position(b);
            if hit {
                proof {
                    lemma_entries_map(self.entries@);
                    assert(position_key(self.entries@[i as int].0) == position_key(*b));
                }
                return Some(self.entries[i].1);
            }
            i = i + 1;
        }
        proof {
            lemma_entries_map(self.entries@);
        }
        None
    }

    /// Store an evaluation for a position, keeping at most one entry per
    /// distinct position.
    pub fn insert(&mut self, b: Board, e: Evaluation)
        requires
            old(self).wf(),
            b.wf(),
        ensures
            final(self).wf(),
            final(self).view() == old(self).view().insert(position_key(b), e),
    {
        proof {
            lemma_entries_map(self.entries@);
        }
        let n = self.entries.len();
        let mut i: usize = 0;
        while i < n
            invariant
                self.wf(),
                b.wf(),
                n == self.entries@.len(),
                i <= n,
                forall|j: int| 0 <= j < i ==> position_key(#[trigger] self.entries@[j].0)
                    != position_key(b),
            decreases n - i,
        {
            let hit = self.entries[i].0.same_position(&b);
            if hit {
                // The placeholder payload has a single value, so replacing
                // the stored entry would change nothing.
                proof {
                    lemma_entries_map(self.entries@);
                    assert(position_key(self.entries@[i as int].0) == position_key(b));
                    assert(self.entries@[i as int].1 == e);
                    assert(self.view().insert(position_key(b), e) =~= self.view());
                }
                return ;
            }
            i = i + 1;
        }
        self.entries.push((b, e));
        proof {
            assert(self.entries@.drop_last() =~= old(self).entries@);
        }
    }
}

/// A cleared cache misses every position: after a new-game wipe no lookup
/// can return a stale evaluation.
pub proof fn lemma_cleared_cache_misses(c: Cache, b: Board)
    requires
        c.view() == Map::<(Seq<Option<Piece>>, Color), Evaluation>::empty(),
    ensures
        !c.view().contains_key(position_key(b)),
{
}

} // verus!
