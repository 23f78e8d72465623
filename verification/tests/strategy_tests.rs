use naval_battle::grid::Cell;
use naval_battle::ship::ShipKind;
use naval_battle::strategy::RandomStrategy;
use naval_battle::strategy::SmartStrategy;
use naval_battle::strategy::Strategy;

#[test]
fn test_random_strategy_moves_are_on_board() {
    let mut strategy = RandomStrategy;
    for _ in 0..50 {
        let c = strategy.next_move().unwrap();
        assert!(c.x() <= 9 && c.y() <= 9);
    }
}

// After a confirmed Destroyer hit at (5, 5) the candidate stack holds
// exactly the four axis neighbours (probe distance 1), pushed in the
// order right, left, below, above.
#[test]
fn test_notify_hit_candidates_around_center() {
    let mut strategy = SmartStrategy::new();
    strategy.moves.push(Cell::bounded(5, 5));
    strategy.notify_hit(ShipKind::Destroyer);
    assert_eq!(
        strategy.candidates_moves,
        vec![
            Cell::bounded(6, 5),
            Cell::bounded(4, 5),
            Cell::bounded(5, 6),
            Cell::bounded(5, 4),
        ]
    );
}

// At a corner only the board-bounded neighbours become candidates.
#[test]
fn test_notify_hit_candidates_at_corner() {
    let mut strategy = SmartStrategy::new();
    strategy.moves.push(Cell::bounded(0, 0));
    strategy.notify_hit(ShipKind::Destroyer);
    assert_eq!(
        strategy.candidates_moves,
        vec![Cell::bounded(1, 0), Cell::bounded(0, 1)]
    );
}

// Already-tried neighbours are not pushed again.
#[test]
fn test_notify_hit_skips_tried_cells() {
    let mut strategy = SmartStrategy::new();
    strategy.moves.push(Cell::bounded(4, 5));
    strategy.moves.push(Cell::bounded(5, 5));
    strategy.notify_hit(ShipKind::Destroyer);
    assert_eq!(
        strategy.candidates_moves,
        vec![
            Cell::bounded(6, 5),
            Cell::bounded(5, 6),
            Cell::bounded(5, 4),
        ]
    );
}

// A larger kind probes further: a Carrier hit radiates out to distance 4.
#[test]
fn test_notify_hit_probe_distance_follows_kind() {
    let mut strategy = SmartStrategy::new();
    strategy.moves.push(Cell::bounded(0, 0));
    strategy.notify_hit(ShipKind::AircraftCarrier);
    assert_eq!(
        strategy.candidates_moves,
        vec![
            Cell::bounded(1, 0),
            Cell::bounded(0, 1),
            Cell::bounded(2, 0),
            Cell::bounded(0, 2),
            Cell::bounded(3, 0),
            Cell::bounded(0, 3),
            Cell::bounded(4, 0),
            Cell::bounded(0, 4),
        ]
    );
}

// The most recently pushed candidate is tried first, and every chosen
// move is recorded.
#[test]
fn test_next_move_pops_last_candidate_first() {
    let mut strategy = SmartStrategy::new();
    strategy.moves.push(Cell::bounded(5, 5));
    strategy.notify_hit(ShipKind::Destroyer);
    let next = strategy.next_move().unwrap();
    assert_eq!(next, Cell::bounded(5, 4));
    assert_eq!(*strategy.moves.last().unwrap(), Cell::bounded(5, 4));
    assert_eq!(
        strategy.candidates_moves,
        vec![
            Cell::bounded(6, 5),
            Cell::bounded(4, 5),
            Cell::bounded(5, 6),
        ]
    );
}

// Tried candidates found on the way down the stack are discarded.
#[test]
fn test_next_move_discards_tried_candidates() {
    let mut strategy = SmartStrategy::new();
    strategy.moves.push(Cell::bounded(5, 5));
    strategy.notify_hit(ShipKind::Destroyer);
    strategy.moves.push(Cell::bounded(5, 4));
    let next = strategy.next_move().unwrap();
    assert_eq!(next, Cell::bounded(5, 6));
    assert_eq!(
        strategy.candidates_moves,
        vec![Cell::bounded(6, 5), Cell::bounded(4, 5)]
    );
}

// With no candidates the fallback is a random untried coordinate.
#[test]
fn test_next_move_never_repeats() {
    let mut strategy = SmartStrategy::new();
    for _ in 0..60 {
        let c = strategy.next_move().unwrap();
        assert!(c.x() <= 9 && c.y() <= 9);
    }
    assert_eq!(strategy.moves.len(), 60);
    for i in 0..strategy.moves.len() {
        for j in (i + 1)..strategy.moves.len() {
            assert_ne!(strategy.moves[i], strategy.moves[j]);
        }
    }
}

#[test]
fn test_strategy_variants_dispatch() {
    let mut random = Strategy::Random(RandomStrategy);
    assert!(random.next_move().is_some());
    random.notify_hit(ShipKind::Cruiser);

    let mut smart = Strategy::Smart(SmartStrategy::new());
    let first = smart.next_move().unwrap();
    assert!(first.x() <= 9 && first.y() <= 9);
    smart.notify_hit(ShipKind::Destroyer);
    match smart {
        Strategy::Smart(ref s) => {
            assert_eq!(s.moves.len(), 1);
            assert!(!s.candidates_moves.is_empty());
        }
        _ => panic!("variant changed"),
    }
}
