//! Interface-state models: what each screen of the game tracks.
//!
//! These models hold the data a front end renders and mutate it in
//! response to the front end's requests; they know nothing about how the
//! rendering or the input mapping is done.  [`GridModel`] wraps a grid
//! with a cursor and display layers; [`SetupStateModel`] tracks fleet
//! deployment; [`BattleStateModel`] tracks one running match; and
//! [`NavalBattleState`] is the screen the application currently shows.

use crate::fleet::spec_kind_at;
use crate::fleet::Fleet;
use crate::game::Game;
use crate::grid::Cell;
use crate::grid::Grid;
use crate::player::Player;
use crate::ship::Ship;
use crate::ship::ShipKind;
use crate::ship::ShipOrientation;
use vstd::prelude::*;

verus! {

/// An exact copy of a cell list.
fn copy_cells(v: &Vec<Cell>) -> (r: Vec<Cell>)
    ensures
        r@ == v@,
{
    let mut out: Vec<Cell> = Vec::new();
    let mut i: usize = 0;
    while i < v.len()
        invariant
            i <= v@.len(),
            out@.len() == i,
            forall|j: int| 0 <= j < i ==> out@[j] == v@[j],
        decreases v@.len() - i,
    {
        out.push(v[i]);
        i = i + 1;
    }
    proof {
        assert(out@ =~= v@);
    }
    out
}

/// An exact copy of a ship list.
fn copy_ships(v: &Vec<Ship>) -> (r: Vec<Ship>)
    ensures
        r@ == v@,
{
    let mut out: Vec<Ship> = Vec::new();
    let mut i: usize = 0;
    while i < v.len()
        invariant
            i <= v@.len(),
            out@.len() == i,
            forall|j: int| 0 <= j < i ==> out@[j] == v@[j],
        decreases v@.len() - i,
    {
        out.push(v[i]);
        i = i + 1;
    }
    proof {
        assert(out@ =~= v@);
    }
    out
}

/// Extra information drawn over a grid: a ship silhouette, or a set of
/// shot cells.
#[derive(Debug, PartialEq, Eq, Clone)]
pub enum Layer {
    /// The footprint of one ship.
    Ship(Ship),
    /// A set of cells where shots landed.
    Shots(Vec<Cell>),
}

impl Layer {
    /// A ship layer carries a well-formed ship.
    pub open spec fn wf(self) -> bool {
        match self {
            Layer::Ship(s) => s.wf(),
            Layer::Shots(_) => true,
        }
    }
}

/// The state behind a rendered grid: the grid itself, a cursor that
/// highlights the active cell, and a stack of overlay layers — the last
/// pushed layer is drawn on top.
#[derive(Debug)]
pub struct GridModel {
    /// The grid being shown.
    pub grid: Grid,
    /// The highlighted cell, if the cursor is enabled.
    pub cursor: Option<Cell>,
    /// Overlay layers, bottom first.
    pub layers: Vec<Layer>,
}

impl GridModel {
    /// The grid is well-formed, an enabled cursor is on the board and
    /// every layer is well-formed.
    pub open spec fn wf(self) -> bool {
        &&& self.grid.wf()
        &&& (self.cursor matches Some(c) ==> c.on_board())
        &&& forall|i: int| 0 <= i < self.layers@.len() ==> (#[trigger] self.layers@[i]).wf()
    }

    /// Creates a new grid model for the given grid, with no cursor and no
    /// layers.
    pub fn new(grid: Grid) -> (r: Self)
        requires
            grid.wf(),
        ensures
            r.wf(),
            r.grid == grid,
            r.cursor is None,
            r.layers@.len() == 0,
    {
        Self { grid, cursor: None, layers: Vec::new() }
    }

    /// Sets the cursor position.
    pub fn set_cursor(&mut self, p0: &Cell)
        requires
            old(self).wf(),
            p0.on_board(),
        ensures
            final(self).wf(),
            final(self).cursor == Some(*p0),
            final(self).grid == old(self).grid,
            final(self).layers == old(self).layers,
    {
        self.cursor = Some(*p0);
    }

    /// Returns the cursor cell, if the cursor is enabled.
    pub fn cursor(&self) -> (r: Option<&Cell>)
        ensures
            match r {
                Some(c) => self.cursor == Some(*c),
                None => self.cursor is None,
            },
    {
        self.cursor.as_ref()
    }

    /// Enables the cursor: when it was disabled it starts at the first
    /// cell of the grid.
    pub fn enable_cursor(&mut self)
        requires
            old(self).wf(),
        ensures
            final(self).wf(),
            final(self).cursor == if old(self).cursor is None {
                Some(Cell { x: 0, y: 0 })
            } else {
                old(self).cursor
            },
            final(self).grid == old(self).grid,
            final(self).layers == old(self).layers,
    {
        if self.cursor.is_none() {
            self.cursor = Some(Cell::bounded(0, 0));
        }
    }

    /// Disables the cursor.
    pub fn disable_cursor(&mut self)
        requires
            old(self).wf(),
        ensures
            final(self).wf(),
            final(self).cursor is None,
            final(self).grid == old(self).grid,
            final(self).layers == old(self).layers,
    {
        self.cursor = None;
    }

    /// Adds a layer on top of the grid and all other layers.
    pub fn push_layer(&mut self, layer: Layer)
        requires
            old(self).wf(),
            layer.wf(),
        ensures
            final(self).wf(),
            final(self).layers@ == old(self).layers@.push(layer),
            final(self).grid == old(self).grid,
            final(self).cursor == old(self).cursor,
    {
        self.layers.push(layer);
    }

    /// Removes and returns the topmost layer, if any.
    pub fn pop_layer(&mut self) -> (r: Option<Layer>)
        requires
            old(self).wf(),
        ensures
            final(self).wf(),
            final(self).grid == old(self).grid,
            final(self).cursor == old(self).cursor,
            old(self).layers@.len() == 0 ==> r is None && final(self).layers@ == old(self).layers@,
            old(self).layers@.len() > 0 ==> r == Some(old(self).layers@.last())
                && final(self).layers@ == old(self).layers@.drop_last(),
    {
        self.layers.pop()
    }

    /// Stamps a ship's footprint onto the grid.
    pub fn add_ship(&mut self, ship: &Ship)
        requires
            old(self).wf(),
            ship.wf(),
        ensures
            final(self).wf(),
            final(self).cursor == old(self).cursor,
            final(self).layers == old(self).layers,
            forall|c: Cell|
                c.on_board() ==> final(self).grid.state_at(c) == if ship.spec_contains(c) {
                    crate::grid::CellState::Occupied
                } else {
                    old(self).grid.state_at(c)
                },
    {
        self.grid.add_ship(ship);
    }

    /// Applies the given function to the cursor cell; when the cursor is
    /// disabled it is enabled at the first cell of the grid instead.
    pub fn move_cursor<MoveFn: FnOnce(Cell) -> Cell>(&mut self, move_func: MoveFn)
        requires
            old(self).wf(),
            old(self).cursor matches Some(c) ==> call_requires(move_func, (c,)) && forall|o: Cell|
                call_ensures(move_func, (c,), o) ==> o.on_board(),
        ensures
            final(self).wf(),
            final(self).grid == old(self).grid,
            final(self).layers == old(self).layers,
            old(self).cursor is None ==> final(self).cursor == Some(Cell { x: 0, y: 0 }),
            old(self).cursor matches Some(c) ==> (final(self).cursor matches Some(d)
                && call_ensures(move_func, (c,), d)),
    {
        match self.cursor {
            Some(c) => {
                let moved = move_func(c);
                self.cursor = Some(moved);
            },
            None => {
                self.enable_cursor();
            },
        }
    }
}

/// The state of the deployment screen: the grid the fleet is placed on,
/// the kind being placed, the chosen orientation and the ships accepted so
/// far, in canonical kind order.
#[derive(Debug)]
pub struct SetupStateModel {
    /// The grid showing the deployment, with a preview layer on top.
    pub deploy_grid: GridModel,
    /// The kind currently being placed; `None` once all five are down.
    pub current_kind: Option<ShipKind>,
    /// The orientation the next ship will take.
    pub current_orientation: ShipOrientation,
    /// The accepted ships, in canonical kind order.
    pub ships: Vec<Ship>,
}

impl SetupStateModel {
    /// The accepted ships form a growing prefix of a valid fleet, the
    /// cursor is enabled and the current kind is the next one of the
    /// canonical order.
    pub open spec fn wf(self) -> bool {
        &&& self.deploy_grid.wf()
        &&& self.deploy_grid.cursor is Some
        &&& self.ships@.len() <= 5
        &&& forall|i: int|
            0 <= i < self.ships@.len() ==> (#[trigger] self.ships@[i]).wf()
                && self.ships@[i].ship_size == spec_kind_at(i).spec_size()
        &&& forall|i: int, j: int|
            0 <= i < j < self.ships@.len() ==> !self.ships@[i].spec_overlaps(self.ships@[j])
        &&& self.current_kind == if self.ships@.len() < 5 {
            Some(spec_kind_at(self.ships@.len() as int))
        } else {
            None::<ShipKind>
        }
    }

    /// The ship silhouette previewed for a kind at the cursor.
    pub open spec fn preview_ship(k: ShipKind, cur: Cell, orientation: ShipOrientation) -> Ship {
        Ship {
            first_cell: cur,
            ship_size: k.spec_size(),
            orientation,
            state: crate::ship::full_mask(k.spec_size() as int),
        }
    }

    /// The layer stack with the topmost preview removed.
    pub open spec fn popped_layers(self) -> Seq<Layer> {
        if self.deploy_grid.layers@.len() > 0 {
            self.deploy_grid.layers@.drop_last()
        } else {
            self.deploy_grid.layers@
        }
    }

    /// How refreshing the preview changes the layer stack: the old
    /// preview goes, and a silhouette of the current kind comes on top
    /// exactly when that kind fits the board at the cursor.
    pub open spec fn preview_refreshed(pre: SetupStateModel, post: SetupStateModel) -> bool {
        match (pre.deploy_grid.cursor, pre.current_kind) {
            (Some(cur), Some(k)) => if Ship::placement_fits(
                k.spec_size(),
                cur,
                pre.current_orientation,
            ) {
                post.deploy_grid.layers@ == pre.popped_layers().push(
                    Layer::Ship(Self::preview_ship(k, cur, pre.current_orientation)),
                )
            } else {
                post.deploy_grid.layers@ == pre.popped_layers()
            },
            _ => post.deploy_grid.layers@ == pre.popped_layers(),
        }
    }

    /// How one deployment attempt changes the model: an accepted ship is
    /// appended and stamped onto the grid; a rejected one changes
    /// nothing.
    pub open spec fn placement_done(pre: SetupStateModel, post: SetupStateModel) -> bool {
        match (pre.deploy_grid.cursor, pre.current_kind) {
            (Some(cur), Some(k)) => if pre.placement_accepted(k, cur) {
                let ship = Self::preview_ship(k, cur, pre.current_orientation);
                &&& post.ships@ == pre.ships@.push(ship)
                &&& forall|c: Cell|
                    c.on_board() ==> post.deploy_grid.grid.state_at(c) == (if ship.spec_contains(
                        c,
                    ) {
                        crate::grid::CellState::Occupied
                    } else {
                        pre.deploy_grid.grid.state_at(c)
                    })
            } else {
                post == pre
            },
            _ => post == pre,
        }
    }

    /// Refreshes the preview layer: the old preview is removed and, when
    /// the current kind fits the board at the cursor with the chosen
    /// orientation, a fresh silhouette of it is pushed.
    pub fn update_grid(&mut self)
        requires
            old(self).wf(),
        ensures
            final(self).wf(),
            final(self).deploy_grid.grid == old(self).deploy_grid.grid,
            final(self).deploy_grid.cursor == old(self).deploy_grid.cursor,
            final(self).current_kind == old(self).current_kind,
            final(self).current_orientation == old(self).current_orientation,
            final(self).ships == old(self).ships,
            Self::preview_refreshed(*old(self), *final(self)),
    {
        self.deploy_grid.pop_layer();
        let cursor: Cell = match self.deploy_grid.cursor() {
            Some(c) => *c,
            None => Cell::bounded(0, 0),
        };
        if let Some(kind) = self.current_kind {
            if let Some(ship) = kind.ship(cursor, self.current_orientation) {
                self.deploy_grid.push_layer(Layer::Ship(ship));
            }
        }
    }

    /// Chooses the orientation the next ship will take.
    pub fn set_orientation(&mut self, orientation: ShipOrientation)
        requires
            old(self).wf(),
        ensures
            final(self).wf(),
            final(self).current_orientation == orientation,
            final(self).deploy_grid == old(self).deploy_grid,
            final(self).current_kind == old(self).current_kind,
            final(self).ships == old(self).ships,
    {
        self.current_orientation = orientation;
    }

    /// The current kind would be accepted at the cursor: it fits the
    /// board and keeps the one-cell border to every ship already placed.
    pub open spec fn placement_accepted(self, k: ShipKind, cur: Cell) -> bool {
        &&& Ship::placement_fits(k.spec_size(), cur, self.current_orientation)
        &&& forall|j: int|
            0 <= j < self.ships@.len() ==> !Self::preview_ship(
                k,
                cur,
                self.current_orientation,
            ).spec_overlaps(#[trigger] self.ships@[j])
    }

    /// Tries to deploy the current kind at the cursor with the chosen
    /// orientation.  The ship is accepted when it fits the board and
    /// respects the one-cell-border rule against every ship already
    /// placed; its footprint is then stamped onto the grid and the next
    /// kind becomes current.  Otherwise nothing changes.
    pub fn place_current_ship(&mut self)
        requires
            old(self).wf(),
        ensures
            final(self).wf(),
            final(self).deploy_grid.cursor == old(self).deploy_grid.cursor,
            final(self).current_orientation == old(self).current_orientation,
            Self::placement_done(*old(self), *final(self)),
    {
        let cursor: Cell = match self.deploy_grid.cursor() {
            Some(c) => *c,
            None => Cell::bounded(0, 0),
        };
        if let Some(kind) = self.current_kind {
            if let Some(ship) = kind.ship(cursor, self.current_orientation) {
                let mut conflict: bool = false;
                let mut i: usize = 0;
                while i < self.ships.len()
                    invariant
                        ship.wf(),
                        i <= self.ships@.len(),
                        forall|j: int| 0 <= j < self.ships@.len() ==> (
                        #[trigger] self.ships@[j]).wf(),
                        !conflict ==> forall|j: int|
                            0 <= j < i ==> !ship.spec_overlaps(#[trigger] self.ships@[j]),
                        conflict ==> exists|j: int|
                            0 <= j < self.ships@.len() && ship.spec_overlaps(
                                #[trigger] self.ships@[j],
                            ),
                    decreases self.ships@.len() - i,
                {
                    if ship.is_overlapping(&self.ships[i]) {
                        conflict = true;
                    }
                    i = i + 1;
                }
                if !conflict {
                    proof {
                        assert forall|j: int|
                            0 <= j < self.ships@.len() implies !(
                        #[trigger] self.ships@[j]).spec_overlaps(ship) by {
                            crate::ship::lemma_overlaps_symmetric(self.ships@[j], ship);
                        }
                    }
                    self.deploy_grid.add_ship(&ship);
                    self.ships.push(ship);
                    let placed: usize = self.ships.len();
                    self.current_kind = if placed < 5 {
                        Some(next_kind(placed))
                    } else {
                        None
                    };
                }
            }
        }
    }

    /// The player holds exactly the deployment of this model: human,
    /// named "player 1", owning the placed ships as its fleet.
    pub open spec fn is_assigned_human(self, p: Player) -> bool {
        &&& p.human
        &&& p.name@ == "player 1"@
        &&& p.fleet.ships@ == self.ships@
    }

    /// Hands the finished deployment to the game: once all five ships are
    /// placed, a human player named "player 1" owning exactly that fleet
    /// is created and paired with a fresh computer opponent, which makes
    /// the game ready.  Before that the game is left untouched.
    pub fn update(&mut self, game: &mut Game)
        requires
            old(self).wf(),
            old(game).wf(),
        ensures
            final(self).wf(),
            *final(self) == *old(self),
            final(game).wf(),
            old(self).current_kind is None ==> final(game).players@.len() == 2 && ((old(
                self,
            ).is_assigned_human(final(game).players@[0]) && crate::game::is_fresh_computer(
                final(game).players@[1],
            )) || (crate::game::is_fresh_computer(final(game).players@[0]) && old(
                self,
            ).is_assigned_human(final(game).players@[1]))),
            old(self).current_kind is Some ==> *final(game) == *old(game),
    {
        if self.current_kind.is_none() {
            let fleet = Fleet { ships: copy_ships(&self.ships) };
            let human = Player::new("player 1", fleet);
            proof {
                reveal_strlit("player 1");
                assert(self.is_assigned_human(human));
            }
            game.set_human_player(human);
        }
    }
}

/// The canonical kind at a position, as executable code.
fn next_kind(i: usize) -> (r: ShipKind)
    requires
        i < 5,
    ensures
        r == spec_kind_at(i as int),
{
    match i {
        0 => ShipKind::AircraftCarrier,
        1 => ShipKind::Battleship,
        2 => ShipKind::Cruiser,
        3 => ShipKind::Submarine,
        _ => ShipKind::Destroyer,
    }
}

impl Default for SetupStateModel {
    /// A fresh deployment screen: empty grid, cursor at the first cell,
    /// no ships placed, the Aircraft Carrier up first, horizontally.
    fn default() -> (r: Self)
        ensures
            r.wf(),
            r.ships@.len() == 0,
            r.current_kind == Some(ShipKind::AircraftCarrier),
            r.current_orientation == ShipOrientation::Horizontal,
    {
        let mut deploy_grid = GridModel::new(Grid::default());
        deploy_grid.enable_cursor();
        let mut model = SetupStateModel {
            deploy_grid,
            current_kind: Some(ShipKind::AircraftCarrier),
            current_orientation: ShipOrientation::Horizontal,
            ships: Vec::new(),
        };
        model.update_grid();
        model
    }
}

/// What one committed round of the battle screen does, given the two
/// fleets before and after it: the human fires at the aiming cursor and
/// the computer at some board cell, in the order fixed for the match; the
/// computer's cell is appended to the shot log; the round stops the
/// moment a fleet is destroyed, fixing the winner flag, and otherwise
/// clears the committed shot.
pub open spec fn spec_battle_round(
    pre: BattleStateModel,
    post: BattleStateModel,
    computer_pre: Fleet,
    computer_post: Fleet,
    human_pre: Fleet,
    human_post: Fleet,
) -> bool {
    match pre.opponent_grid.cursor {
        Some(cursor) => if pre.player1_start {
            &&& crate::fleet::spec_shot_outcome(computer_pre, computer_post, cursor)
            &&& if computer_post.spec_is_sunk() {
                &&& post.player1_won == Some(true)
                &&& human_post == human_pre
                &&& post.computer_shots@ == pre.computer_shots@
                &&& post.player1_has_shot == pre.player1_has_shot
            } else {
                &&& (exists|shot: Cell|
                    #![auto]
                    shot.on_board() && crate::fleet::spec_shot_outcome(
                        human_pre,
                        human_post,
                        shot,
                    ) && post.computer_shots@ == pre.computer_shots@.push(shot))
                &&& if human_post.spec_is_sunk() {
                    post.player1_won == Some(false) && post.player1_has_shot
                        == pre.player1_has_shot
                } else {
                    post.player1_won == pre.player1_won && !post.player1_has_shot
                }
            }
        } else {
            &&& (exists|shot: Cell|
                #![auto]
                shot.on_board() && crate::fleet::spec_shot_outcome(human_pre, human_post, shot)
                    && post.computer_shots@ == pre.computer_shots@.push(shot))
            &&& if human_post.spec_is_sunk() {
                &&& post.player1_won == Some(false)
                &&& computer_post == computer_pre
                &&& post.player1_has_shot == pre.player1_has_shot
            } else {
                &&& crate::fleet::spec_shot_outcome(computer_pre, computer_post, cursor)
                &&& if computer_post.spec_is_sunk() {
                    post.player1_won == Some(true) && post.player1_has_shot
                        == pre.player1_has_shot
                } else {
                    post.player1_won == pre.player1_won && !post.player1_has_shot
                }
            }
        },
        None => true,
    }
}

/// The state of the battle screen: who moves first, whether the human has
/// committed a shot, the outcome once known, and the two grids shown —
/// the opponent grid the human aims at, and the tactical grid with the
/// human's own fleet and the computer's shots.
#[derive(Debug)]
pub struct BattleStateModel {
    /// The human moves first this match.
    pub player1_start: bool,
    /// The human has committed a shot for this round.
    pub player1_has_shot: bool,
    /// The match outcome: `Some(true)` when the human won.
    pub player1_won: Option<bool>,
    /// The human's own fleet and the computer's shots against it.
    pub tactical_grid: GridModel,
    /// The grid the human aims at; its cursor is the human's shot.
    pub opponent_grid: GridModel,
    /// Every shot the computer has taken.
    pub computer_shots: Vec<Cell>,
}

impl BattleStateModel {
    /// Both grids are well-formed, the aiming cursor is enabled and every
    /// recorded computer shot is on the board.
    pub open spec fn wf(self) -> bool {
        &&& self.tactical_grid.wf()
        &&& self.opponent_grid.wf()
        &&& self.opponent_grid.cursor is Some
        &&& forall|i: int|
            0 <= i < self.computer_shots@.len() ==> (#[trigger] self.computer_shots@[i]).on_board()
    }

    /// Rebuilds the two grids from the players' current state: the
    /// opponent grid shows the human's shot record with the cursor kept,
    /// and the tactical grid shows the human fleet under a layer with the
    /// computer's shots.
    pub fn update_grid(&mut self, _computer: &Player, human: &Player)
        requires
            old(self).wf(),
            human.wf(),
        ensures
            final(self).wf(),
            final(self).player1_start == old(self).player1_start,
            final(self).player1_has_shot == old(self).player1_has_shot,
            final(self).player1_won == old(self).player1_won,
            final(self).computer_shots == old(self).computer_shots,
            final(self).opponent_grid.grid.cells@ == human.grid.cells@,
            final(self).opponent_grid.cursor == old(self).opponent_grid.cursor,
    {
        let cursor: Cell = match self.opponent_grid.cursor() {
            Some(c) => *c,
            None => Cell::bounded(0, 0),
        };
        self.opponent_grid = GridModel::new(human.shots_grid().clone());
        self.opponent_grid.set_cursor(&cursor);

        self.tactical_grid = GridModel::new(Grid::from_ships(human.fleet.ships.as_slice()));
        self.tactical_grid.push_layer(Layer::Shots(copy_cells(&self.computer_shots)));
    }

    /// Plays one round of the battle once the human has committed a shot:
    /// the human fires at the cursor cell and the computer at a random
    /// cell, in the order fixed for the match, stopping as soon as either
    /// fleet is destroyed and recording who won.  Without a committed shot
    /// nothing happens.
    pub fn play_turn(&mut self, computer: &mut Player, human: &mut Player)
        requires
            old(self).wf(),
            old(computer).wf(),
            old(human).wf(),
        ensures
            final(self).wf(),
            final(computer).wf(),
            final(human).wf(),
            final(self).player1_start == old(self).player1_start,
            final(self).player1_won is None ==> final(self).player1_won == old(self).player1_won,
            final(self).opponent_grid == old(self).opponent_grid,
            final(self).tactical_grid == old(self).tactical_grid,
            final(computer).name == old(computer).name,
            final(computer).human == old(computer).human,
            final(human).name == old(human).name,
            final(human).human == old(human).human,
            !old(self).player1_has_shot ==> *final(self) == *old(self)
                && *final(computer) == *old(computer) && *final(human) == *old(human),
            old(self).player1_has_shot ==> spec_battle_round(
                *old(self),
                *final(self),
                old(computer).fleet,
                final(computer).fleet,
                old(human).fleet,
                final(human).fleet,
            ),
    {
        if self.player1_has_shot {
            let cursor: Cell = match self.opponent_grid.cursor() {
                Some(c) => *c,
                None => Cell::bounded(0, 0),
            };
            proof {
                assert(old(self).opponent_grid.cursor == Some(cursor));
            }

            if self.player1_start {
                human.attack(computer, &cursor);
                proof {
                    assert(crate::fleet::spec_shot_outcome(
                        old(computer).fleet,
                        computer.fleet,
                        cursor,
                    ));
                }
                if computer.has_lost() {
                    self.player1_won = Some(true);
                    return ;
                }
            }
            let shot = Cell::random();
            let ghost human_fleet_mid: Fleet = human.fleet;
            computer.attack(human, &shot);
            self.computer_shots.push(shot);
            proof {
                assert(human_fleet_mid == old(human).fleet);
                assert(crate::fleet::spec_shot_outcome(old(human).fleet, human.fleet, shot));
            }

            if human.has_lost() {
                self.player1_won = Some(false);
                return ;
            }
            if !self.player1_start {
                human.attack(computer, &cursor);
                proof {
                    assert(crate::fleet::spec_shot_outcome(
                        old(computer).fleet,
                        computer.fleet,
                        cursor,
                    ));
                }
                if computer.has_lost() {
                    self.player1_won = Some(true);
                    return ;
                }
            }
            self.player1_has_shot = false;
        }
    }
}

impl Default for BattleStateModel {
    /// A fresh battle screen: empty grids, the aiming cursor enabled, no
    /// shots yet, first mover drawn at random.
    fn default() -> (r: Self)
        ensures
            r.wf(),
            !r.player1_has_shot,
            r.player1_won is None,
            r.computer_shots@.len() == 0,
    {
        let tactical_grid = GridModel::new(Grid::default());
        let mut opponent_grid = GridModel::new(Grid::default());
        opponent_grid.enable_cursor();

        BattleStateModel {
            player1_start: rand::random::<bool>(),
            player1_has_shot: false,
            player1_won: None,
            tactical_grid,
            opponent_grid,
            computer_shots: Vec::new(),
        }
    }
}

/// The screen the application currently shows: fleet deployment, or the
/// battle itself.
pub enum NavalBattleState {
    /// The user is deploying their fleet on the grid.
    Setup(SetupStateModel),
    /// The user is playing against the computer.
    Battle(BattleStateModel),
}

impl NavalBattleState {
    /// The model behind the current screen is well-formed.
    pub open spec fn wf(self) -> bool {
        match self {
            NavalBattleState::Setup(m) => m.wf(),
            NavalBattleState::Battle(m) => m.wf(),
        }
    }

    /// This is the deployment screen.
    pub open spec fn is_setup(self) -> bool {
        self matches NavalBattleState::Setup(_)
    }

    /// A fresh deployment screen, ready to be populated by the user.
    pub fn setup() -> (r: Self)
        ensures
            r.wf(),
            r matches NavalBattleState::Setup(m) && m.ships@.len() == 0,
    {
        NavalBattleState::Setup(SetupStateModel::default())
    }

    /// A fresh battle screen, ready to start the match against the
    /// computer.
    pub fn battle() -> (r: Self)
        ensures
            r.wf(),
            r matches NavalBattleState::Battle(m) && m.player1_won is None,
    {
        NavalBattleState::Battle(BattleStateModel::default())
    }

    /// Advances the game according to the current screen: the deployment
    /// screen assigns the human player once the fleet is complete; the
    /// battle screen plays a round through the game when a shot has been
    /// committed, then refreshes its grids.
    pub fn update(&mut self, game: &mut Game)
        requires
            old(self).wf(),
            old(game).wf(),
        ensures
            final(self).wf(),
            final(game).wf(),
            final(self).is_setup() == old(self).is_setup(),
    {
        match self {
            NavalBattleState::Setup(model) => model.update(game),
            NavalBattleState::Battle(model) => {
                if model.player1_has_shot {
                    let cursor: Cell = match model.opponent_grid.cursor() {
                        Some(c) => *c,
                        None => Cell::bounded(0, 0),
                    };
                    match game.play_turn(&cursor) {
                        Ok(outcome) => {
                            if let Some(human_won) = outcome {
                                model.player1_won = Some(human_won);
                            }
                        },
                        Err(_) => {},
                    }
                    model.player1_has_shot = false;
                }
                match (game.computer(), game.human()) {
                    (Some(computer), Some(human)) => {
                        proof {
                            assert(game.players@.len() == 2);
                            assert(game.players@[0].wf());
                            assert(game.players@[1].wf());
                        }
                        model.update_grid(computer, human);
                    },
                    _ => {},
                }
            },
        }
    }
}

impl Default for NavalBattleState {
    /// The default screen is the deployment one.
    fn default() -> (r: Self)
        ensures
            r.wf(),
            r matches NavalBattleState::Setup(m) && m.ships@.len() == 0,
    {
        NavalBattleState::setup()
    }
}

} // verus!
