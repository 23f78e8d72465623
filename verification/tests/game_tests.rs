use naval_battle::fleet::Fleet;
use naval_battle::game::Game;
use naval_battle::grid::Cell;
use naval_battle::grid::CellState;
use naval_battle::player::Player;
use naval_battle::ship::ShipKind;
use naval_battle::ship::ShipOrientation;
use naval_battle::strategy::RandomStrategy;
use naval_battle::strategy::Strategy;

fn fixed_fleet() -> Fleet {
    Fleet::build(|kind: ShipKind| {
        let row = match kind {
            ShipKind::AircraftCarrier => 0,
            ShipKind::Battleship => 2,
            ShipKind::Cruiser => 4,
            ShipKind::Submarine => 6,
            ShipKind::Destroyer => 8,
        };
        kind.ship(Cell::bounded(0, row), ShipOrientation::Horizontal)
            .unwrap()
    })
}

fn human_player() -> Player {
    Player::new("Human", fixed_fleet())
}

fn computer_player() -> Player {
    let mut player = Player::new("Computer", fixed_fleet());
    player.set_strategy(Strategy::Random(RandomStrategy));
    player
}

fn occupied_cells_of(player: &Player) -> Vec<Cell> {
    let mut occupied = Vec::new();
    for ship in player.fleet().ships.iter() {
        occupied.extend(ship.occupied_cells());
    }
    occupied
}

#[test]
fn test_play_turn_not_ready() {
    let mut game = Game::new();
    let err = game.play_turn(&Cell::bounded(0, 0)).unwrap_err();
    assert_eq!(err, "Game is not ready or already over");
}

#[test]
fn test_play_turn_when_over() {
    let mut human_player = human_player();
    let mut computer_player = computer_player();

    // pre-hit every occupied cell of the computer fleet
    for cell in occupied_cells_of(&computer_player) {
        human_player.attack(&mut computer_player, &cell);
    }
    assert!(computer_player.has_lost());

    let mut game = Game { players: vec![human_player, computer_player], last_computer_move: None };
    assert!(game.is_over());

    let err = game.play_turn(&Cell::bounded(0, 0)).unwrap_err();
    assert_eq!(err, "Game is not ready or already over");
}

#[test]
fn test_play_turn_human_wins_immediately() {
    let mut human_player = human_player();
    let mut computer_player = computer_player();

    // pre-hit every occupied cell of the computer fleet except one, so the
    // next human move wins
    let mut occupied = occupied_cells_of(&computer_player);
    let winning_cell = occupied.pop().expect("fleet must occupy at least one cell");
    for cell in occupied {
        human_player.attack(&mut computer_player, &cell);
    }
    assert!(!computer_player.has_lost());

    // force order: human plays first, so the human move is actually used
    let mut game = Game { players: vec![human_player, computer_player], last_computer_move: None };
    assert!(game.is_ready());

    let winner = game.play_turn(&winning_cell).unwrap();

    assert_eq!(winner, Some(true));
    assert!(game.is_over());
}

#[test]
fn test_get_human_when_not_ready() {
    let game = Game::new();
    assert!(game.human().is_none());
}

#[test]
fn test_get_player_when_not_ready() {
    let game = Game::new();
    assert!(game.computer().is_none());
}

#[test]
fn test_get_player() {
    let human_player = human_player();
    let computer_player = computer_player();
    let human_name = human_player.name().to_string();
    let computer_name = computer_player.name().to_string();
    let game = Game { players: vec![human_player, computer_player], last_computer_move: None };
    assert_eq!(game.human().unwrap().name(), human_name);
    assert_eq!(game.computer().unwrap().name(), computer_name);
}

// A game that is not ready rejects the move; after assigning a human
// player with a valid fleet it becomes ready and a round succeeds.
#[test]
fn test_game_becomes_ready_after_assignment() {
    let mut game = Game::new();
    assert!(!game.is_ready());
    assert!(game.play_turn(&Cell::bounded(0, 0)).is_err());

    game.set_human_player(Player::new("Human", fixed_fleet()));
    assert!(game.is_ready());
    assert!(!game.is_over());

    let outcome = game.play_turn(&Cell::bounded(0, 0)).unwrap();
    // one round against a fresh fleet cannot end the match
    assert_eq!(outcome, None);
    // the computer moved this round, so its move is on display
    assert!(game.last_computer_move().is_some());
}

// Assigning a human player yields exactly one computer player carrying
// the hunt-and-target strategy, and the players' relative order, fixed at
// that moment, never changes afterwards.
#[test]
fn test_assignment_creates_one_smart_computer_with_fixed_order() {
    let mut game = Game::new();
    game.set_human_player(Player::new("Human", fixed_fleet()));

    assert_eq!(game.players.len(), 2);
    let humans = game.players.iter().filter(|p| p.is_human()).count();
    assert_eq!(humans, 1);
    let computer = game.computer().unwrap();
    assert!(matches!(computer.strategy, Some(Strategy::Smart(_))));
    assert_eq!(computer.name(), "Computer");

    let order_before: Vec<String> =
        game.players.iter().map(|p| p.name().to_string()).collect();
    for _ in 0..3 {
        let outcome = game.play_turn(&Cell::bounded(0, 0)).unwrap();
        let order_now: Vec<String> =
            game.players.iter().map(|p| p.name().to_string()).collect();
        assert_eq!(order_now, order_before);
        if outcome.is_some() {
            break;
        }
    }
}

// A strategy move that ends the match is still recorded as the last
// computer move.
#[test]
fn test_match_ending_computer_move_is_recorded() {
    let mut human_player = human_player();
    let mut computer_player = computer_player();

    // leave the human one un-hit ship cell, so any computer round can win
    let mut occupied = occupied_cells_of(&human_player);
    occupied.pop();
    for cell in occupied {
        computer_player.attack(&mut human_player, &cell);
    }
    assert!(!human_player.has_lost());

    let mut game = Game { players: vec![human_player, computer_player], last_computer_move: None };
    let mut rounds = 0;
    loop {
        rounds += 1;
        assert!(rounds < 100000, "the random strategy never found the last cell");
        // the human keeps firing at an empty corner
        match game.play_turn(&Cell::bounded(9, 9)).unwrap() {
            None => {}
            Some(human_won) => {
                assert!(!human_won);
                assert!(game.last_computer_move().is_some());
                break;
            }
        }
    }
}

// An attack marks the attacker's own shot grid, never the defender's.
#[test]
fn test_attack_marks_own_shot_grid() {
    let mut player1 = Player::new("One", fixed_fleet());
    let mut player2 = Player::new("Two", fixed_fleet());

    assert!(player1.shots_grid().is_empty());

    player1.attack(&mut player2, &Cell::bounded(0, 0));
    assert_eq!(*player1.shots_grid().at(&Cell::bounded(0, 0)), CellState::Hit);
    assert!(player2.shots_grid().is_empty());

    player1.attack(&mut player2, &Cell::bounded(9, 9));
    assert_eq!(*player1.shots_grid().at(&Cell::bounded(0, 0)), CellState::Hit);
    assert_eq!(*player1.shots_grid().at(&Cell::bounded(9, 9)), CellState::Miss);
}

#[test]
fn test_match() {
    let player1_fleet = fixed_fleet();
    let player2_fleet = Fleet::build(|kind: ShipKind| {
        let column = match kind {
            ShipKind::AircraftCarrier => 0,
            ShipKind::Battleship => 2,
            ShipKind::Cruiser => 4,
            ShipKind::Submarine => 6,
            ShipKind::Destroyer => 8,
        };
        kind.ship(Cell::bounded(column, 0), ShipOrientation::Vertical)
            .unwrap()
    });

    let shots = [
        Cell::bounded(0, 0),
        Cell::bounded(1, 0),
        Cell::bounded(2, 0),
        Cell::bounded(3, 0),
        Cell::bounded(4, 0),
        Cell::bounded(0, 2),
        Cell::bounded(1, 2),
        Cell::bounded(2, 2),
        Cell::bounded(3, 2),
        Cell::bounded(0, 4),
        Cell::bounded(1, 4),
        Cell::bounded(2, 4),
        Cell::bounded(0, 6),
        Cell::bounded(1, 6),
        Cell::bounded(2, 6),
        Cell::bounded(0, 8),
    ];
    let mut player1 = Player::new("One", player1_fleet);
    let mut player2 = Player::new("Two", player2_fleet);

    for shot in shots.iter() {
        assert!(!player1.has_lost());
        assert!(!player2.has_lost());

        player1.attack(&mut player2, shot);
        assert!(!player2.has_lost());

        player2.attack(&mut player1, shot);
        assert!(!player1.has_lost());
    }

    let attack_result = player2.attack(&mut player1, &Cell::bounded(1, 8)).unwrap();
    assert_eq!(attack_result, ShipKind::Destroyer);
    assert!(player1.fleet().get(&attack_result).is_sunk());
    assert!(player1.fleet().is_sunk());
    assert!(!player2.fleet().is_sunk());

    assert!(!player2.has_lost());
    assert!(player1.has_lost());
}

#[test]
fn test_name() {
    let player1 = Player::new("One", fixed_fleet());
    let player2 = Player::new("Two", fixed_fleet());

    assert_eq!(player1.name(), "One");
    assert_eq!(player2.name(), "Two");
}

#[test]
fn test_human_next_move_is_none() {
    let mut human = Player::new("Human", fixed_fleet());
    assert!(human.is_human());
    assert!(human.next_move().is_none());

    let mut computer = computer_player();
    assert!(!computer.is_human());
    assert!(computer.next_move().is_some());
}
