//! Targeting strategies for the computer opponent.
//!
//! A strategy produces the next attack coordinate and can be told that its
//! last move hit a ship of some kind, to refine future guesses.  Exactly
//! two behaviours exist: uniform-random fire, and hunt-and-target, which
//! fires randomly until a hit is confirmed and then probes outward from the
//! hit along the four axis directions up to the hit ship's maximum
//! remaining length.  They form a closed set of variants behind
//! [`Strategy`].

use crate::grid::Cell;
use crate::grid::BOARD_SIDE;
use crate::ship::ShipKind;
use vstd::prelude::*;

verus! {

/// Does the vector contain the cell?
fn contains_cell(v: &Vec<Cell>, c: &Cell) -> (r: bool)
    ensures
        r == v@.contains(*c),
{
    let mut i: usize = 0;
    while i < v.len()
        invariant
            i <= v@.len(),
            forall|j: int| 0 <= j < i ==> v@[j] != *c,
        decreases v@.len() - i,
    {
        if v[i].x() == c.x() && v[i].y() == c.y() {
            proof {
                assert(v@[i as int] == *c);
            }
            return true;
        }
        i = i + 1;
    }
    proof {
        assert(forall|j: int| 0 <= j < v@.len() ==> v@[j] != *c);
    }
    false
}

/// The uniform-random strategy: every move is an independent uniformly
/// random board coordinate.  It keeps no history and may suggest an
/// already-tried cell; the caller is expected to tolerate redundant shots.
#[derive(Debug, PartialEq, Eq, Clone, Copy, Structural)]
pub struct RandomStrategy;

impl RandomStrategy {
    /// Returns a random board coordinate.
    pub fn next_move(&mut self) -> (r: Option<Cell>)
        ensures
            r matches Some(c) && c.on_board(),
    {
        Some(Cell::random())
    }

    /// Hit notifications do not interest the random strategy.
    pub fn notify_hit(&mut self, _kind: ShipKind)
        ensures
            *final(self) == *old(self),
    {
    }
}

/// The hunt-and-target strategy.
///
/// It remembers every coordinate it has chosen, and keeps a stack of
/// candidate follow-up coordinates.  A move pops the most recently pushed
/// untried candidate if one exists, and otherwise falls back to a random
/// untried coordinate; the chosen coordinate is recorded as tried.  A hit
/// notification pushes fresh candidates radiating from the last move.
#[derive(Debug, PartialEq, Eq, Clone)]
pub struct SmartStrategy {
    /// Every coordinate this strategy has chosen so far, in order.
    pub moves: Vec<Cell>,
    /// Stack of follow-up coordinates; the last pushed is tried first.
    pub candidates_moves: Vec<Cell>,
}

/// The candidates that one probe distance contributes, in push order:
/// right, left, below, above the hit — each only when it stays on the
/// board and has not been tried.
pub open spec fn probe_step(last: Cell, tried: Seq<Cell>, i: int) -> Seq<Cell> {
    let right = Cell { x: (last.x + i) as u8, y: last.y };
    let left = Cell { x: (last.x - i) as u8, y: last.y };
    let below = Cell { x: last.x, y: (last.y + i) as u8 };
    let above = Cell { x: last.x, y: (last.y - i) as u8 };
    (if last.x + i < BOARD_SIDE && !tried.contains(right) {
        seq![right]
    } else {
        Seq::<Cell>::empty()
    }) + (if last.x - i >= 0 && !tried.contains(left) {
        seq![left]
    } else {
        Seq::<Cell>::empty()
    }) + (if last.y + i < BOARD_SIDE && !tried.contains(below) {
        seq![below]
    } else {
        Seq::<Cell>::empty()
    }) + (if last.y - i >= 0 && !tried.contains(above) {
        seq![above]
    } else {
        Seq::<Cell>::empty()
    })
}

/// All candidates radiating from a hit, for probe distances 1 up to
/// `i - 1`, nearest distance first.
pub open spec fn probe_candidates(last: Cell, tried: Seq<Cell>, i: int) -> Seq<Cell>
    decreases i,
{
    if i <= 1 {
        Seq::<Cell>::empty()
    } else {
        probe_candidates(last, tried, i - 1) + probe_step(last, tried, i - 1)
    }
}

/// How one move choice relates the strategy's state before and after it
/// and the chosen coordinate: the result is the most recently pushed
/// untried candidate if one exists (tried candidates above it are
/// discarded), else an untried coordinate, and it is recorded as tried.
/// Only on a fully covered board (which a real match never reaches) is the
/// history left unchanged and the origin returned.
pub open spec fn spec_move_chosen(pre: SmartStrategy, post: SmartStrategy, r: Option<Cell>) -> bool {
    &&& post.moves@.len() > 0
    &&& match r {
        Some(c) => {
            &&& c.on_board()
            &&& if pre.spec_board_covered() {
                &&& post.moves@ == pre.moves@
                &&& post.candidates_moves@.len() == 0
                &&& c == (Cell { x: 0, y: 0 })
            } else {
                &&& !pre.tried(c)
                &&& post.moves@ == pre.moves@.push(c)
                &&& ((exists|k: int|
                    0 <= k < pre.candidates_moves@.len() && c == pre.candidates_moves@[k]
                        && post.candidates_moves@ == pre.candidates_moves@.take(k) && (forall|
                        j: int,
                    |
                        k < j < pre.candidates_moves@.len() ==> pre.tried(
                            #[trigger] pre.candidates_moves@[j],
                        ))) || (post.candidates_moves@.len() == 0 && (forall|j: int|
                    0 <= j < pre.candidates_moves@.len() ==> pre.tried(
                        #[trigger] pre.candidates_moves@[j],
                    ))))
            }
        },
        None => false,
    }
}

impl SmartStrategy {
    /// Every recorded move is a distinct board cell and every stacked
    /// candidate is a board cell.
    pub open spec fn wf(self) -> bool {
        &&& forall|i: int| 0 <= i < self.moves@.len() ==> (#[trigger] self.moves@[i]).on_board()
        &&& forall|i: int, j: int|
            0 <= i < j < self.moves@.len() ==> self.moves@[i] != self.moves@[j]
        &&& forall|i: int|
            0 <= i < self.candidates_moves@.len() ==> (
            #[trigger] self.candidates_moves@[i]).on_board()
    }

    /// The cell has been chosen before.
    pub open spec fn tried(self, c: Cell) -> bool {
        self.moves@.contains(c)
    }

    /// Every board cell has been chosen already.
    pub open spec fn spec_board_covered(self) -> bool {
        forall|c: Cell| c.on_board() ==> self.moves@.contains(c)
    }

    /// A fresh strategy with no history and no candidates.
    pub fn new() -> (r: Self)
        ensures
            r.wf(),
            r.moves@.len() == 0,
            r.candidates_moves@.len() == 0,
    {
        Self { moves: Vec::new(), candidates_moves: Vec::new() }
    }

    /// Chooses the next move: the most recently pushed untried candidate
    /// if one exists, else a random untried coordinate.  Tried candidates
    /// encountered on the way are discarded, and the chosen coordinate is
    /// recorded as tried.
    ///
    /// When every board cell has been tried already (a full match never
    /// gets there), the history is left unchanged and the origin cell is
    /// returned.
    pub fn next_move(&mut self) -> (r: Option<Cell>)
        requires
            old(self).wf(),
        ensures
            final(self).wf(),
            spec_move_chosen(*old(self), *final(self), r),
    {
        let ghost old_candidates: Seq<Cell> = self.candidates_moves@;
        let mut pick: Option<Cell> = None;

        while pick.is_none() && self.candidates_moves.len() > 0
            invariant
                self.wf(),
                self.moves@ == old(self).moves@,
                self.candidates_moves@.len() <= old_candidates.len(),
                self.candidates_moves@ == old_candidates.take(self.candidates_moves@.len() as int),
                match pick {
                    Some(c) => {
                        &&& !old(self).tried(c)
                        &&& c.on_board()
                        &&& (self.candidates_moves@.len() as int)
                            < old_candidates.len()
                        &&& c == old_candidates[self.candidates_moves@.len() as int]
                        &&& forall|j: int|
                            (self.candidates_moves@.len() as int) < j < old_candidates.len()
                                ==> old(self).tried(#[trigger] old_candidates[j])
                    },
                    None => forall|j: int|
                        (self.candidates_moves@.len() as int) <= j < old_candidates.len() ==> old(
                            self,
                        ).tried(#[trigger] old_candidates[j]),
                },
            decreases self.candidates_moves@.len(),
        {
            let ghost before: Seq<Cell> = self.candidates_moves@;
            if let Some(c) = self.candidates_moves.pop() {
                proof {
                    assert(self.candidates_moves@ =~= old_candidates.take(before.len() - 1));
                    assert(c == old_candidates[before.len() - 1]);
                }
                if !contains_cell(&self.moves, &c) {
                    pick = Some(c);
                }
            }
        }

        let mut tries: u32 = 0;
        while pick.is_none() && tries < 10000
            invariant
                self.wf(),
                self.moves@ == old(self).moves@,
                self.candidates_moves@.len() <= old_candidates.len(),
                self.candidates_moves@ == old_candidates.take(self.candidates_moves@.len() as int),
                match pick {
                    Some(c) => {
                        &&& !old(self).tried(c)
                        &&& c.on_board()
                        &&& (((self.candidates_moves@.len() as int) < old_candidates.len() && c
                            == old_candidates[self.candidates_moves@.len() as int] && forall|j: int|
                            (self.candidates_moves@.len() as int) < j < old_candidates.len() ==> old(
                                self,
                            ).tried(#[trigger] old_candidates[j])) || (
                        self.candidates_moves@.len() == 0 && forall|j: int|
                            0 <= j < old_candidates.len() ==> old(self).tried(
                                #[trigger] old_candidates[j],
                            )))
                    },
                    None => self.candidates_moves@.len() == 0 && forall|j: int|
                        0 <= j < old_candidates.len() ==> old(self).tried(
                            #[trigger] old_candidates[j],
                        ),
                },
            decreases 10000 - tries,
        {
            let c = Cell::random();
            if !contains_cell(&self.moves, &c) {
                pick = Some(c);
            }
            tries = tries + 1;
        }

        let mut covered: bool = false;
        if pick.is_none() {
            let mut idx: u8 = 0;
            while pick.is_none() && idx < 100
                invariant
                    self.wf(),
                    self.moves@ == old(self).moves@,
                    self.candidates_moves@.len() == 0,
                    forall|j: int|
                        0 <= j < old_candidates.len() ==> old(self).tried(
                            #[trigger] old_candidates[j],
                        ),
                    idx <= 100,
                    match pick {
                        Some(c) => !old(self).tried(c) && c.on_board(),
                        None => forall|c: Cell|
                            c.on_board() && (c.y as int * 10 + c.x as int) < idx as int ==> old(
                                self,
                            ).tried(c),
                    },
                decreases 100 - idx,
            {
                let c = Cell { x: idx % 10, y: idx / 10 };
                if !contains_cell(&self.moves, &c) {
                    pick = Some(c);
                } else {
                    proof {
                        assert forall|d: Cell|
                            d.on_board() && (d.y as int * 10 + d.x as int) < idx as int
                                + 1 implies old(self).tried(d) by {
                            if d.y as int * 10 + d.x as int == idx as int {
                                assert(d == c);
                            }
                        }
                    }
                }
                idx = idx + 1;
            }
            if pick.is_none() {
                covered = true;
                proof {
                    assert forall|c: Cell| c.on_board() implies old(self).tried(c) by {
                        assert((c.y as int * 10 + c.x as int) < 100);
                    }
                    assert(old(self).spec_board_covered());
                }
            }
        }

        match pick {
            Some(c) => {
                self.moves.push(c);
                proof {
                    assert(!old(self).spec_board_covered()) by {
                        assert(c.on_board() && !old(self).moves@.contains(c));
                    }
                    assert forall|i: int, j: int|
                        0 <= i < j < self.moves@.len() implies self.moves@[i]
                        != self.moves@[j] by {
                        if j == self.moves@.len() - 1 {
                            assert(old(self).moves@.contains(old(self).moves@[i])) by {
                                assert(old(self).moves@[i] == old(self).moves@[i]);
                            }
                        }
                    }
                }
                Some(c)
            },
            None => {
                proof {
                    assert(covered);
                    assert(old(self).spec_board_covered());
                    let origin = Cell { x: 0u8, y: 0u8 };
                    assert(origin.on_board());
                    assert(old(self).moves@.contains(origin));
                    assert(old(self).tried(origin));
                }
                Some(Cell::bounded(0, 0))
            },
        }
    }

    /// Pushes fresh candidates radiating from the last move along the four
    /// axis directions, out to one less than the hit kind's size in each
    /// direction, keeping only coordinates that are on the board and have
    /// not been tried.  The nearest candidates are pushed last per
    /// direction round, so they are tried first.
    #[verifier::rlimit(100)]
    pub fn notify_hit(&mut self, kind: ShipKind)
        requires
            old(self).wf(),
            old(self).moves@.len() > 0,
        ensures
            final(self).wf(),
            spec_hit_notified(*old(self), *final(self), kind),
    {
        let size: u8 = kind.size();
        let n: usize = self.moves.len();
        let last: Cell = self.moves[n - 1];
        proof {
            assert(last == old(self).moves@.last());
        }

        let mut new_candidates: Vec<Cell> = Vec::new();
        let mut i: u8 = 1;
        while i < size
            invariant
                self == old(self),
                self.wf(),
                last == old(self).moves@.last(),
                last.on_board(),
                1 <= i <= size,
                size == kind.spec_size(),
                new_candidates@ == probe_candidates(last, self.moves@, i as int),
                forall|j: int|
                    0 <= j < new_candidates@.len() ==> (#[trigger] new_candidates@[j]).on_board(),
            decreases size - i,
        {
            let ghost before: Seq<Cell> = new_candidates@;
            if last.x() + i < BOARD_SIDE {
                let c = Cell { x: last.x() + i, y: last.y() };
                if !contains_cell(&self.moves, &c) {
                    new_candidates.push(c);
                }
            }
            if last.x() >= i {
                let c = Cell { x: last.x() - i, y: last.y() };
                if !contains_cell(&self.moves, &c) {
                    new_candidates.push(c);
                }
            }
            if last.y() + i < BOARD_SIDE {
                let c = Cell { x: last.x(), y: last.y() + i };
                if !contains_cell(&self.moves, &c) {
                    new_candidates.push(c);
                }
            }
            if last.y() >= i {
                let c = Cell { x: last.x(), y: last.y() - i };
                if !contains_cell(&self.moves, &c) {
                    new_candidates.push(c);
                }
            }
            proof {
                assert(new_candidates@ =~= before + probe_step(last, self.moves@, i as int));
                assert(probe_candidates(last, self.moves@, i as int + 1) == probe_candidates(
                    last,
                    self.moves@,
                    i as int,
                ) + probe_step(last, self.moves@, i as int));
            }
            i = i + 1;
        }
        self.candidates_moves.append(&mut new_candidates);
    }
}

/// The closed set of targeting behaviours a computer player can carry.
#[derive(Debug, PartialEq, Eq, Clone)]
pub enum Strategy {
    /// Uniform-random fire.
    Random(RandomStrategy),
    /// Hunt-and-target fire.
    Smart(SmartStrategy),
}

/// How a hit notification relates the strategy's state before and after
/// it: the history is untouched and the candidates radiating from the
/// last move, out to one less than the hit kind's size, are appended.
pub open spec fn spec_hit_notified(pre: SmartStrategy, post: SmartStrategy, kind: ShipKind) -> bool {
    &&& post.moves@ == pre.moves@
    &&& post.candidates_moves@ == pre.candidates_moves@ + probe_candidates(
        pre.moves@.last(),
        pre.moves@,
        kind.spec_size() as int,
    )
}

/// Lifts [`spec_hit_notified`] to the closed strategy type: a
/// hunt-and-target state gains exactly the probe candidates of the hit
/// kind, and the memory-less random behaviour stays untouched.
pub open spec fn strategy_notified(pre: Strategy, post: Strategy, kind: ShipKind) -> bool {
    match (pre, post) {
        (Strategy::Smart(s), Strategy::Smart(s2)) => spec_hit_notified(s, s2, kind),
        (Strategy::Random(_), _) => post == pre,
        _ => true,
    }
}

/// Lifts [`spec_move_chosen`] to the closed strategy type: hunt-and-target
/// states are related by it, and nothing is claimed of the memory-less
/// random behaviour.
pub open spec fn strategy_move_chosen(pre: Strategy, post: Strategy, r: Option<Cell>) -> bool {
    match (pre, post) {
        (Strategy::Smart(s), Strategy::Smart(s2)) => spec_move_chosen(s, s2, r),
        _ => true,
    }
}

impl Strategy {
    /// The carried behaviour's own invariant.
    pub open spec fn wf(self) -> bool {
        match self {
            Strategy::Random(_) => true,
            Strategy::Smart(s) => s.wf(),
        }
    }

    /// This is the hunt-and-target behaviour.
    pub open spec fn is_smart(self) -> bool {
        self matches Strategy::Smart(_)
    }

    /// Produces the next attack coordinate, always on the board.  The
    /// variant never changes; after a move the hunt-and-target history is
    /// never empty.
    pub fn next_move(&mut self) -> (r: Option<Cell>)
        requires
            old(self).wf(),
        ensures
            final(self).wf(),
            final(self).is_smart() == old(self).is_smart(),
            r matches Some(c) && c.on_board(),
            strategy_move_chosen(*old(self), *final(self), r),
            (*final(self)) matches Strategy::Smart(s) ==> s.moves@.len() > 0,
    {
        match self {
            Strategy::Random(s) => s.next_move(),
            Strategy::Smart(s) => s.next_move(),
        }
    }

    /// Tells the behaviour that its last move hit a ship of the given
    /// kind: hunt-and-target pushes its probe candidates, random fire
    /// ignores the news.
    pub fn notify_hit(&mut self, kind: ShipKind)
        requires
            old(self).wf(),
            (*old(self)) matches Strategy::Smart(s) ==> s.moves@.len() > 0,
        ensures
            final(self).wf(),
            final(self).is_smart() == old(self).is_smart(),
            strategy_notified(*old(self), *final(self), kind),
            (*final(self)) matches Strategy::Smart(s) ==> s.moves@.len() > 0,
    {
        match self {
            Strategy::Random(s) => s.notify_hit(kind),
            Strategy::Smart(s) => s.notify_hit(kind),
        }
    }
}

} // verus!
