use trapgrid::board::{is_adjacent, Board};
use trapgrid::engine::{resolve, TerminationReason};
use trapgrid::grid::{classify, CellKind, MoveType};

#[test]
fn new_board_is_empty() {
    let b = Board::new(2);
    assert_eq!(b.size, 2);
    assert!(b.sequence.is_empty());
    for r in 0..2 {
        for c in 0..2 {
            assert_eq!(b.cell_at(r, c), CellKind::Empty);
        }
    }
    assert_eq!(b.find_token(), None);
    assert!(!b.has_valid_moves());
}

#[test]
fn adjacency_is_edge_sharing() {
    assert!(is_adjacent(0, 0, 0, 1));
    assert!(is_adjacent(0, 0, 1, 0));
    assert!(is_adjacent(1, 1, 0, 1));
    assert!(!is_adjacent(0, 0, 1, 1));
    assert!(!is_adjacent(0, 0, 0, 0));
    assert!(!is_adjacent(0, 0, 0, 2));
}

#[test]
fn start_walk_and_finish_produce_a_goal_run() {
    let mut b = Board::new(2);
    b.place_start(0);
    assert_eq!(b.find_token(), Some((1, 0)));
    assert!(b.has_valid_moves());
    b.advance_token(1, 0, 0, 0);
    assert_eq!(b.find_token(), Some((0, 0)));
    b.finish_run(0);
    assert_eq!(b.find_token(), None);
    assert_eq!(
        b.sequence,
        vec![
            (1, 0, CellKind::Token),
            (0, 0, CellKind::Token),
            (0, 0, CellKind::Token),
        ]
    );
    // The closing entry classifies as the run's finish.
    assert_eq!(classify(&b.sequence, 2), MoveType::Final);

    // Replaying the authored run against a silent opponent: one forward
    // point plus the goal bonus.
    let outcome = resolve(&b.sequence, &Vec::new(), 2).unwrap();
    assert_eq!(outcome.a.score, 2);
    assert_eq!(outcome.a.finished_at, Some(2));
    assert_eq!(outcome.reason, TerminationReason::GoalReached);
}

#[test]
fn trap_placement_marks_the_grid_and_the_log() {
    let mut b = Board::new(2);
    b.place_start(1);
    b.place_trap(0, 0);
    assert_eq!(b.cell_at(0, 0), CellKind::Trap);
    assert_eq!(b.cell_at(1, 1), CellKind::Token);
    assert_eq!(b.sequence.len(), 2);
    assert_eq!(b.sequence[1], (0, 0, CellKind::Trap));
}

#[test]
fn a_walled_in_token_has_no_move() {
    let mut b = Board::new(2);
    b.place_start(0);
    b.place_trap(0, 0);
    b.place_trap(1, 1);
    // The token on (1, 0) has both neighbours trapped and is off the goal
    // row: the competitor is stuck.
    assert!(!b.has_valid_moves());
}

#[test]
fn a_token_on_the_goal_row_can_always_act() {
    let mut b = Board::new(2);
    b.place_start(1);
    b.advance_token(1, 1, 0, 1);
    b.place_trap(0, 0);
    b.place_trap(1, 1);
    assert!(b.has_valid_moves());
}
