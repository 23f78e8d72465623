//! Players: a name, a fleet, a shot-record grid and an optional targeting
//! strategy.
//!
//! The grid records this player's own shots against an opponent — the
//! outcome of each attack the player has made — never the player's own
//! board layout.  A player without a strategy is the human player: the
//! engine asks the outside for their moves.

use crate::fleet::spec_kind_index;
use crate::fleet::Fleet;
use crate::grid::Cell;
use crate::grid::CellState;
use crate::grid::Grid;
use crate::ship::ShipKind;
use crate::strategy::Strategy;
use vstd::prelude::*;
use vstd::string::StringExecFns;

verus! {

/// Lifts the strategy move relation to players: when both states carry a
/// strategy, the move relates them; a player without one chooses nothing.
pub open spec fn player_move_chosen(pre: Player, post: Player, r: Option<Cell>) -> bool {
    match (pre.strategy, post.strategy) {
        (Some(s), Some(s2)) => crate::strategy::strategy_move_chosen(s, s2, r),
        _ => true,
    }
}

/// Lifts the hit-notification relation to players: a carried strategy
/// receives the news exactly once, and a player without one is left
/// untouched.
pub open spec fn player_notified(pre: Player, post: Player, kind: ShipKind) -> bool {
    match (pre.strategy, post.strategy) {
        (Some(s), Some(s2)) => crate::strategy::strategy_notified(s, s2, kind),
        (None, _) => post == pre,
        _ => true,
    }
}

/// One of the two opponents of a match.
#[derive(Debug)]
pub struct Player {
    /// The player's name.
    pub name: String,
    /// The player's own fleet; the player loses when it is fully sunk.
    pub fleet: Fleet,
    /// Record of this player's shots against the opponent.
    pub grid: Grid,
    /// The targeting strategy; `None` for the human player.
    pub strategy: Option<Strategy>,
    /// Whether this player is the human one.
    pub human: bool,
}

impl Player {
    /// The player invariant: fleet and grid are well-formed, a carried
    /// strategy is well-formed, and being human means carrying no
    /// strategy.
    pub open spec fn wf(self) -> bool {
        &&& self.fleet.wf()
        &&& self.grid.wf()
        &&& (self.strategy matches Some(s) ==> s.wf())
        &&& (self.human <==> self.strategy is None)
    }

    /// The player carries the hunt-and-target strategy.
    pub open spec fn strategy_is_smart(self) -> bool {
        match self.strategy {
            Some(Strategy::Smart(_)) => true,
            _ => false,
        }
    }

    /// A carried hunt-and-target strategy has recorded at least one move
    /// (vacuously true for any other player).
    pub open spec fn smart_moves_nonempty(self) -> bool {
        match self.strategy {
            Some(Strategy::Smart(m)) => m.moves@.len() > 0,
            _ => true,
        }
    }

    /// Creates a new player with the given name and fleet, an empty shot
    /// grid and no strategy: a human player until a strategy is set.
    pub fn new(name: &str, fleet: Fleet) -> (r: Self)
        requires
            fleet.wf(),
        ensures
            r.wf(),
            r.name@ == name@,
            r.fleet == fleet,
            r.grid.spec_is_empty(),
            r.strategy is None,
            r.human,
    {
        Self {
            name: String::from_str(name),
            fleet,
            grid: Grid::default(),
            strategy: None,
            human: true,
        }
    }

    /// Returns the player's name.
    pub fn name(&self) -> (r: &str)
        ensures
            r@ == self.name@,
    {
        self.name.as_str()
    }

    /// Returns the player's shot-record grid: this player's shots on the
    /// opponent's fleet and their effect.
    pub fn shots_grid(&self) -> (r: &Grid)
        ensures
            *r == self.grid,
    {
        &self.grid
    }

    /// Returns the player's fleet.
    pub fn fleet(&self) -> (r: &Fleet)
        ensures
            *r == self.fleet,
    {
        &self.fleet
    }

    /// Attacks the opponent at the given cell: the opponent's fleet
    /// resolves the hit, and this player's own shot grid records a hit or
    /// a miss.  The opponent's grid is never touched.  Returns the kind of
    /// the ship hit, if any.
    pub fn attack(&mut self, opponent: &mut Player, cell: &Cell) -> (r: Option<ShipKind>)
        requires
            old(self).wf(),
            old(opponent).wf(),
            cell.on_board(),
        ensures
            final(self).wf(),
            final(opponent).wf(),
            final(self).name == old(self).name,
            final(self).fleet == old(self).fleet,
            final(self).strategy == old(self).strategy,
            final(self).human == old(self).human,
            final(opponent).name == old(opponent).name,
            final(opponent).grid == old(opponent).grid,
            final(opponent).strategy == old(opponent).strategy,
            final(opponent).human == old(opponent).human,
            final(self).grid.state_at(*cell) == if r is Some {
                CellState::Hit
            } else {
                CellState::Miss
            },
            forall|d: Cell|
                d.on_board() && d != *cell ==> final(self).grid.state_at(d) == old(
                    self,
                ).grid.state_at(d),
            match r {
                Some(k) => {
                    let i = spec_kind_index(k);
                    &&& old(opponent).fleet.ships[i].spec_contains(*cell)
                    &&& forall|j: int|
                        0 <= j < i ==> !old(opponent).fleet.ships[j].spec_contains(*cell)
                    &&& final(opponent).fleet.ships@ == old(opponent).fleet.ships@.update(
                        i,
                        old(opponent).fleet.ships[i].spec_after_hit(*cell),
                    )
                },
                None => {
                    &&& final(opponent).fleet == old(opponent).fleet
                    &&& forall|i: int|
                        0 <= i < 5 ==> !(#[trigger] old(opponent).fleet.ships[i]).spec_contains(
                            *cell,
                        )
                },
            },
    {
        let ship_hit = opponent.fleet.hit_at(cell);
        if ship_hit.is_some() {
            self.grid.mark(cell, CellState::Hit);
        } else {
            self.grid.mark(cell, CellState::Miss);
        }
        ship_hit
    }

    /// Checks whether this player has lost the battle: a player loses when
    /// its own fleet is fully sunk.
    pub fn has_lost(&self) -> (r: bool)
        requires
            self.wf(),
        ensures
            r == self.fleet.spec_is_sunk(),
    {
        self.fleet.is_sunk()
    }

    /// Returns the next move to play, or `None` for a player without a
    /// strategy (the human player, whose moves come from outside).
    pub fn next_move(&mut self) -> (r: Option<Cell>)
        requires
            old(self).wf(),
        ensures
            final(self).wf(),
            final(self).name == old(self).name,
            final(self).fleet == old(self).fleet,
            final(self).grid == old(self).grid,
            final(self).human == old(self).human,
            old(self).human ==> r is None && final(self).strategy == old(self).strategy,
            !old(self).human ==> (r matches Some(c) && c.on_board()),
            !old(self).human ==> final(self).strategy is Some,
            final(self).strategy_is_smart() == old(self).strategy_is_smart(),
            !old(self).human ==> final(self).smart_moves_nonempty(),
            player_move_chosen(*old(self), *final(self), r),
    {
        match &mut self.strategy {
            None => None,
            Some(s) => s.next_move(),
        }
    }

    /// Sets the strategy this player uses to choose its moves; the player
    /// thereby stops being the human one.
    pub fn set_strategy(&mut self, strategy: Strategy)
        requires
            old(self).wf(),
            strategy.wf(),
        ensures
            final(self).wf(),
            final(self).name == old(self).name,
            final(self).fleet == old(self).fleet,
            final(self).grid == old(self).grid,
            final(self).strategy == Some(strategy),
            !final(self).human,
    {
        self.strategy = Some(strategy);
        self.human = false;
    }

    /// A player is the human player while it has no strategy.
    pub fn is_human(&self) -> (r: bool)
        ensures
            r == self.human,
    {
        self.human
    }

    /// Tells this player's strategy, if any, that its last move hit a ship
    /// of the given kind.
    pub fn notify_hit(&mut self, kind: ShipKind)
        requires
            old(self).wf(),
            old(self).smart_moves_nonempty(),
        ensures
            final(self).wf(),
            final(self).name == old(self).name,
            final(self).fleet == old(self).fleet,
            final(self).grid == old(self).grid,
            final(self).human == old(self).human,
            final(self).strategy is Some == old(self).strategy is Some,
            final(self).strategy_is_smart() == old(self).strategy_is_smart(),
            final(self).smart_moves_nonempty(),
            player_notified(*old(self), *final(self), kind),
    {
        match &mut self.strategy {
            None => {},
            Some(s) => s.notify_hit(kind),
        }
    }
}

} // verus!
