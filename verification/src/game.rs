//! The turn-orchestration state machine of a match.
//!
//! A game owns two players in a fixed order decided once, by an unbiased
//! coin flip, when the human player is assigned; the order then never
//! changes for the remainder of the match.  Each call of
//! [`Game::play_turn`] runs one round: both players attack once, in the
//! fixed order, and after each individual attack the engine checks whether
//! the attacked player has just lost, stopping the round at once when a
//! fleet is destroyed.

use crate::fleet::random_ship_of_kind;
use crate::grid::CellState;
use crate::fleet::spec_shot_outcome;
use crate::fleet::Fleet;
use crate::grid::Cell;
use crate::player::Player;
use crate::ship::ShipKind;
use crate::strategy::SmartStrategy;
use crate::strategy::Strategy;
use vstd::prelude::*;
use vstd::string::StringExecFns;

verus! {

/// The naval battle game: two players and the most recent computer-chosen
/// move, kept for display.
pub struct Game {
    /// The two opponents, in the turn order fixed at setup; empty before
    /// the human player is assigned.
    pub players: Vec<Player>,
    /// The most recent move a strategy produced, for display.
    pub last_computer_move: Option<Cell>,
}

/// The move one half of a round was fired at: the strategy's choice when
/// there was one, the supplied human move otherwise.
pub open spec fn spec_used_move(chosen: Option<Cell>, human_move: Cell) -> Cell {
    match chosen {
        Some(m) => m,
        None => human_move,
    }
}

/// One player's half of a round, fired at `m`: a human shooter fires at
/// the supplied move, the shot is resolved against the target fleet, and
/// the shooter's own record marks the cell hit or miss, touching no other
/// cell.
pub open spec fn spec_half_shot(
    shooter_pre: Player,
    shooter_post: Player,
    target_pre_fleet: Fleet,
    target_post_fleet: Fleet,
    human_move: Cell,
    m: Cell,
) -> bool {
    &&& m.on_board()
    &&& (shooter_pre.human ==> m == human_move)
    &&& spec_shot_outcome(target_pre_fleet, target_post_fleet, m)
    &&& shooter_post.grid.state_at(m) == (if target_pre_fleet.spec_covers(m) {
        CellState::Hit
    } else {
        CellState::Miss
    })
    &&& forall|d: Cell|
        d.on_board() && d != m ==> shooter_post.grid.state_at(d) == shooter_pre.grid.state_at(d)
}

/// What one full round does, given the human player's move and the
/// reported outcome: the first player fires (at the supplied move when the
/// first player is the human one) and, unless that attack already
/// destroyed the second player's fleet and won the match — in which case
/// the second player neither fires nor records anything — the second
/// player fires back in the same way.  Each shooter's own record marks
/// exactly its shot, the winner is reported as whether the winning player
/// is the human, and the last computer move holds the most recent
/// strategy-chosen move of the round, if any.
pub open spec fn spec_round(pre: Game, post: Game, human_move: Cell, w: Option<bool>) -> bool {
    if post.players@[1].fleet.spec_is_sunk() {
        &&& (exists|m1: Cell|
            #![auto]
            spec_half_shot(
                pre.players@[0],
                post.players@[0],
                pre.players@[1].fleet,
                post.players@[1].fleet,
                human_move,
                m1,
            ) && post.last_computer_move == (if pre.players@[0].human {
                None::<Cell>
            } else {
                Some(m1)
            }))
        &&& w == Some(pre.players@[0].human)
        &&& post.players@[0].fleet == pre.players@[0].fleet
        &&& post.players@[1].grid == pre.players@[1].grid
    } else {
        &&& (exists|m1: Cell, m2: Cell|
            #![auto]
            {
                &&& spec_half_shot(
                    pre.players@[0],
                    post.players@[0],
                    pre.players@[1].fleet,
                    post.players@[1].fleet,
                    human_move,
                    m1,
                )
                &&& spec_half_shot(
                    pre.players@[1],
                    post.players@[1],
                    pre.players@[0].fleet,
                    post.players@[0].fleet,
                    human_move,
                    m2,
                )
                &&& post.last_computer_move == (if !pre.players@[1].human {
                    Some(m2)
                } else if !pre.players@[0].human {
                    Some(m1)
                } else {
                    None::<Cell>
                })
            })
        &&& w == (if post.players@[0].fleet.spec_is_sunk() {
            Some(pre.players@[1].human)
        } else {
            None::<bool>
        })
    }
}

/// A freshly created computer opponent: named "Computer", not human,
/// carrying the hunt-and-target strategy with no history, an intact fleet
/// and an empty shot grid.
pub open spec fn is_fresh_computer(p: Player) -> bool {
    &&& p.wf()
    &&& !p.human
    &&& p.name@ == "Computer"@
    &&& (p.strategy matches Some(s) && s matches Strategy::Smart(m) && m.moves@.len() == 0
        && m.candidates_moves@.len() == 0)
    &&& forall|i: int| 0 <= i < 5 ==> !(#[trigger] p.fleet.ships[i]).spec_is_sunk()
    &&& p.grid.spec_is_empty()
}

impl Game {
    /// Either no players are assigned yet, or exactly the two opponents
    /// are, each well-formed.
    pub open spec fn wf(self) -> bool {
        &&& (self.players@.len() == 0 || self.players@.len() == 2)
        &&& forall|i: int| 0 <= i < self.players@.len() ==> (#[trigger] self.players@[i]).wf()
        &&& (self.last_computer_move matches Some(c) ==> c.on_board())
    }

    /// Two players are assigned and neither has lost.
    pub open spec fn spec_is_ready(self) -> bool {
        self.players@.len() == 2 && forall|i: int|
            0 <= i < 2 ==> !(#[trigger] self.players@[i]).fleet.spec_is_sunk()
    }

    /// Two players are assigned and at least one has lost.
    pub open spec fn spec_is_over(self) -> bool {
        self.players@.len() == 2 && exists|i: int|
            0 <= i < 2 && (#[trigger] self.players@[i]).fleet.spec_is_sunk()
    }

    /// Creates a new game, not ready to play until the human player is
    /// assigned.
    pub fn new() -> (r: Self)
        ensures
            r.wf(),
            r.players@.len() == 0,
            r.last_computer_move is None,
    {
        Self { players: Vec::new(), last_computer_move: None }
    }

    /// Assigns the human player.
    ///
    /// All previous players are cleared, a companion computer player with
    /// a freshly randomized fleet and the hunt-and-target strategy is
    /// created, and the two players' turn order is fixed by an unbiased
    /// coin flip, performed once, at this moment.
    pub fn set_human_player(&mut self, player: Player)
        requires
            old(self).wf(),
            player.wf(),
            player.human,
        ensures
            final(self).wf(),
            final(self).players@.len() == 2,
            final(self).last_computer_move == old(self).last_computer_move,
            (final(self).players@[0] == player && is_fresh_computer(final(self).players@[1])) || (
            is_fresh_computer(final(self).players@[0]) && final(self).players@[1] == player),
            !player.fleet.spec_is_sunk() ==> final(self).spec_is_ready(),
    {
        let human_player_first: bool = rand::random::<bool>();
        let fleet = Fleet::build(random_ship_of_kind);
        let mut computer = Player::new("Computer", fleet);
        computer.set_strategy(Strategy::Smart(SmartStrategy::new()));
        proof {
            reveal_strlit("Computer");
            assert(is_fresh_computer(computer));
            assert(!computer.fleet.spec_is_sunk()) by {
                assert(!computer.fleet.ships[0].spec_is_sunk());
            }
        }

        self.players.clear();
        if human_player_first {
            self.players.push(player);
            self.players.push(computer);
        } else {
            self.players.push(computer);
            self.players.push(player);
        }
    }

    /// Returns whether the game is over: two players are assigned and one
    /// of them has lost.
    pub fn is_over(&self) -> (r: bool)
        requires
            self.wf(),
        ensures
            r == self.spec_is_over(),
    {
        if self.players.len() != 2 {
            return false;
        }
        let first_lost = self.players[0].has_lost();
        let second_lost = self.players[1].has_lost();
        first_lost || second_lost
    }

    /// The game is ready to play: two players are assigned and neither has
    /// lost yet.
    pub fn is_ready(&self) -> (r: bool)
        requires
            self.wf(),
        ensures
            r == self.spec_is_ready(),
    {
        if self.players.len() != 2 {
            return false;
        }
        let first_lost = self.players[0].has_lost();
        let second_lost = self.players[1].has_lost();
        !first_lost && !second_lost
    }

    /// Returns the human player, if one is assigned.
    pub fn human(&self) -> (r: Option<&Player>)
        requires
            self.wf(),
        ensures
            match r {
                Some(p) => self.players@.len() > 0 && ((*p == self.players@[0] && p.human) || (*p
                    == self.players@[1] && p.human && !self.players@[0].human)),
                None => forall|i: int| 0 <= i < self.players@.len() ==> !(
                #[trigger] self.players@[i]).human,
            },
    {
        let mut i: usize = 0;
        while i < self.players.len()
            invariant
                self.wf(),
                i <= self.players@.len(),
                forall|j: int| 0 <= j < i ==> !(#[trigger] self.players@[j]).human,
            decreases self.players@.len() - i,
        {
            if self.players[i].is_human() {
                return Some(&self.players[i]);
            }
            i = i + 1;
        }
        None
    }

    /// Returns the computer player, if one is assigned.
    pub fn computer(&self) -> (r: Option<&Player>)
        requires
            self.wf(),
        ensures
            match r {
                Some(p) => self.players@.len() > 0 && ((*p == self.players@[0] && !p.human) || (*p
                    == self.players@[1] && !p.human && self.players@[0].human)),
                None => forall|i: int| 0 <= i < self.players@.len() ==> (
                #[trigger] self.players@[i]).human,
            },
    {
        let mut i: usize = 0;
        while i < self.players.len()
            invariant
                self.wf(),
                i <= self.players@.len(),
                forall|j: int| 0 <= j < i ==> (#[trigger] self.players@[j]).human,
            decreases self.players@.len() - i,
        {
            if !self.players[i].is_human() {
                return Some(&self.players[i]);
            }
            i = i + 1;
        }
        None
    }

    /// Returns the last move made by the computer player, for display.
    pub fn last_computer_move(&self) -> (r: Option<&Cell>)
        ensures
            match r {
                Some(c) => self.last_computer_move == Some(*c),
                None => self.last_computer_move is None,
            },
    {
        self.last_computer_move.as_ref()
    }

    /// Plays one round with the given move for the human player; the
    /// computer player draws its move from its strategy.
    ///
    /// Valid only while the game is ready: otherwise an error is returned
    /// and nothing changes.  The two players attack in the fixed turn
    /// order; after each individual attack the engine checks whether the
    /// attacked player has lost and, if so, stops at once.  Every move a
    /// strategy produced this round is recorded as the last computer
    /// move, a match-ending one included.  Returns `Ok(Some(true))` when
    /// the human wins the match this round, `Ok(Some(false))` when the
    /// computer does, and `Ok(None)` when the match goes on.
    pub fn play_turn(&mut self, human_move: &Cell) -> (r: Result<Option<bool>, String>)
        requires
            old(self).wf(),
            human_move.on_board(),
        ensures
            final(self).wf(),
            match r {
                Err(m) => !old(self).spec_is_ready() && m@ == "Game is not ready or already over"@
                    && *final(self) == *old(self),
                Ok(w) => {
                    &&& old(self).spec_is_ready()
                    &&& final(self).players@.len() == 2
                    &&& spec_round(*old(self), *final(self), *human_move, w)
                    &&& (forall|i: int|
                        0 <= i < 2 ==> (#[trigger] final(self).players@[i]).name == old(
                            self,
                        ).players@[i].name && final(self).players@[i].human == old(
                            self,
                        ).players@[i].human && final(self).players@[i].strategy_is_smart() == old(
                            self,
                        ).players@[i].strategy_is_smart())
                    &&& match w {
                        Some(b) => exists|i: int, j: int|
                            #![auto]
                            0 <= i < 2 && 0 <= j < 2 && i != j
                                && final(self).players@[i].human == b
                                && !final(self).players@[i].fleet.spec_is_sunk()
                                && final(self).players@[j].fleet.spec_is_sunk(),
                        None => forall|i: int|
                            0 <= i < 2 ==> !(#[trigger] final(self).players@[i]).fleet.spec_is_sunk(),
                    }
                },
            },
    {
        if !self.is_ready() {
            return Err(String::from_str("Game is not ready or already over"));
        }

        self.last_computer_move = None;

        let mut first = self.players.remove(0);
        let mut second = self.players.remove(0);

        let (first_won, first_move) = do_move(&mut first, &mut second, human_move);
        let ghost m1: Cell = spec_used_move(first_move, *human_move);
        let ghost first_mid: Player = first;
        if let Some(c) = first_move {
            self.last_computer_move = Some(c);
        }
        if first_won {
            let human_wins = first.is_human();
            self.players.push(first);
            self.players.push(second);
            proof {
                assert(self.players@[0] == first && self.players@[1] == second);
                assert(!first.fleet.spec_is_sunk() && second.fleet.spec_is_sunk());
                assert(spec_round(*old(self), *self, *human_move, Some(human_wins))) by {
                    assert(spec_half_shot(
                        old(self).players@[0],
                        first,
                        old(self).players@[1].fleet,
                        second.fleet,
                        *human_move,
                        m1,
                    ));
                    assert(self.last_computer_move == (if old(self).players@[0].human {
                        None::<Cell>
                    } else {
                        Some(m1)
                    }));
                }
            }
            return Ok(Some(human_wins));
        }

        let (second_won, second_move) = do_move(&mut second, &mut first, human_move);
        let ghost m2: Cell = spec_used_move(second_move, *human_move);
        if let Some(c) = second_move {
            self.last_computer_move = Some(c);
        }
        proof {
            assert(first.grid == first_mid.grid);
            assert(spec_half_shot(
                old(self).players@[0],
                first,
                old(self).players@[1].fleet,
                second.fleet,
                *human_move,
                m1,
            )) by {
                assert(spec_half_shot(
                    old(self).players@[0],
                    first_mid,
                    old(self).players@[1].fleet,
                    second.fleet,
                    *human_move,
                    m1,
                ));
            }
            assert(spec_half_shot(
                old(self).players@[1],
                second,
                old(self).players@[0].fleet,
                first.fleet,
                *human_move,
                m2,
            ));
            assert(self.last_computer_move == (if !old(self).players@[1].human {
                Some(m2)
            } else if !old(self).players@[0].human {
                Some(m1)
            } else {
                None::<Cell>
            }));
        }
        if second_won {
            let human_wins = second.is_human();
            self.players.push(first);
            self.players.push(second);
            proof {
                assert(self.players@[0] == first && self.players@[1] == second);
                assert(!second.fleet.spec_is_sunk() && first.fleet.spec_is_sunk());
                assert(spec_round(*old(self), *self, *human_move, Some(human_wins)));
            }
            return Ok(Some(human_wins));
        }

        self.players.push(first);
        self.players.push(second);
        proof {
            assert(self.players@[0] == first && self.players@[1] == second);
            assert(spec_round(*old(self), *self, *human_move, None::<bool>));
        }
        Ok(None)
    }
}

/// One player's half of a round: the move comes from the player's strategy
/// when it has one and from the supplied human move otherwise; the attack
/// is resolved against the opposite player's fleet, the strategy is told
/// about a hit, and whether the opposite player has just lost is returned,
/// together with the strategy-chosen move, if any.
fn do_move(player: &mut Player, opposite: &mut Player, human_move: &Cell) -> (r: (
    bool,
    Option<Cell>,
))
    requires
        old(player).wf(),
        old(opposite).wf(),
        human_move.on_board(),
    ensures
        final(player).wf(),
        final(opposite).wf(),
        final(player).smart_moves_nonempty(),
        final(opposite).smart_moves_nonempty() == old(opposite).smart_moves_nonempty(),
        final(player).name == old(player).name,
        final(player).human == old(player).human,
        final(player).fleet == old(player).fleet,
        final(player).strategy_is_smart() == old(player).strategy_is_smart(),
        final(opposite).name == old(opposite).name,
        final(opposite).human == old(opposite).human,
        final(opposite).grid == old(opposite).grid,
        final(opposite).strategy == old(opposite).strategy,
        final(opposite).strategy_is_smart() == old(opposite).strategy_is_smart(),
        r.0 == final(opposite).fleet.spec_is_sunk(),
        r.1 matches Some(c) ==> c.on_board(),
        (old(player).human <==> r.1 is None),
        spec_half_shot(
            *old(player),
            *final(player),
            old(opposite).fleet,
            final(opposite).fleet,
            *human_move,
            spec_used_move(r.1, *human_move),
        ),
{
    let strategy_move: Option<Cell> = player.next_move();
    let player_move: Cell = match strategy_move {
        Some(m) => m,
        None => *human_move,
    };

    let hit = player.attack(opposite, &player_move);
    proof {
        match hit {
            Some(k) => {
                assert(old(opposite).fleet.spec_covers(player_move)) by {
                    assert(old(opposite).fleet.ships[crate::fleet::spec_kind_index(
                        k,
                    )].spec_contains(player_move));
                }
            },
            None => {
                assert(!old(opposite).fleet.spec_covers(player_move));
            },
        }
    }
    if let Some(kind) = hit {
        if strategy_move.is_some() {
            player.notify_hit(kind);
        }
    }

    let lost = opposite.has_lost();
    (lost, strategy_move)
}

} // verus!
