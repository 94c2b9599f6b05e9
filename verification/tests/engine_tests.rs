use trapgrid::engine::{resolve, ResolveError, TerminationReason};
use trapgrid::grid::{classify, CellKind, MoveType};

type Entry = (usize, usize, CellKind);

fn token(r: usize, c: usize) -> Entry {
    (r, c, CellKind::Token)
}

fn trap(r: usize, c: usize) -> Entry {
    (r, c, CellKind::Trap)
}

#[test]
fn determinism_repeated_calls() {
    let sa = vec![trap(1, 0), token(1, 1), token(0, 1)];
    let sb = vec![token(1, 1), token(0, 1), token(0, 0)];
    let first = resolve(&sa, &sb, 2).unwrap();
    let second = resolve(&sa, &sb, 2).unwrap();
    assert_eq!(first, second);
}

#[test]
fn empty_sequences_end_at_once() {
    let sa: Vec<Entry> = Vec::new();
    let sb: Vec<Entry> = Vec::new();
    let outcome = resolve(&sa, &sb, 2).unwrap();
    assert_eq!(outcome.a.score, 0);
    assert_eq!(outcome.b.score, 0);
    assert_eq!(outcome.a.eliminated_at, None);
    assert_eq!(outcome.b.eliminated_at, None);
    assert_eq!(outcome.a.finished_at, None);
    assert_eq!(outcome.b.finished_at, None);
    assert_eq!(outcome.a.position, None);
    assert_eq!(outcome.b.position, None);
    assert_eq!(outcome.reason, TerminationReason::SequencesExhausted);
    assert!(outcome.trace.is_empty());
}

#[test]
fn mutual_collision_on_opening_moves() {
    // Both opening moves land on shared cell (0, 0); neither entry is a
    // closing goal-row entry because each sequence has a later step.
    let sa = vec![token(0, 0), token(0, 1)];
    let sb = vec![token(1, 1), token(1, 0)];
    let outcome = resolve(&sa, &sb, 2).unwrap();
    assert_eq!(outcome.a.eliminated_at, Some(0));
    assert_eq!(outcome.b.eliminated_at, Some(0));
    assert_eq!(outcome.a.score, 0);
    assert_eq!(outcome.b.score, 0);
    assert_eq!(outcome.a.position, Some((0, 0)));
    assert_eq!(outcome.b.position, Some((0, 0)));
    assert_eq!(outcome.reason, TerminationReason::BothEliminated);
    assert_eq!(outcome.trace.len(), 1);
}

#[test]
fn single_goal_row_entry_is_a_finish_not_a_collision() {
    // A one-entry sequence on the goal row is the sequence's last token
    // entry there, so it classifies as Final: the competitor finishes and
    // leaves the grid, and the opponent's move onto that cell hits nobody.
    let sa = vec![token(0, 0)];
    let sb = vec![token(1, 1)];
    let outcome = resolve(&sa, &sb, 2).unwrap();
    assert_eq!(outcome.a.finished_at, Some(0));
    assert_eq!(outcome.a.eliminated_at, None);
    assert_eq!(outcome.a.score, 1);
    assert_eq!(outcome.a.position, None);
    assert_eq!(outcome.b.eliminated_at, None);
    assert_eq!(outcome.b.position, Some((0, 0)));
    assert_eq!(outcome.reason, TerminationReason::GoalReached);
}

#[test]
fn trap_eliminates_the_opponent() {
    // A places a trap on (1, 0) at step 0; B's rotated move lands there at
    // step 1 and B is eliminated, while A keeps playing with only its own
    // forward-movement points (here none).
    let sa = vec![trap(1, 0), token(1, 1)];
    // B's step-1 entry must not be its sequence's closing goal-row entry,
    // so a third authored step follows; it is never reached.
    let sb = vec![token(1, 1), token(0, 1), token(0, 0)];
    let outcome = resolve(&sa, &sb, 2).unwrap();
    assert_eq!(outcome.b.eliminated_at, Some(1));
    assert_eq!(outcome.b.position, Some((1, 0)));
    assert_eq!(outcome.b.score, 0);
    assert_eq!(outcome.a.eliminated_at, None);
    assert_eq!(outcome.a.score, 0);
    assert_eq!(outcome.reason, TerminationReason::SequencesExhausted);
    assert_eq!(outcome.trace[0].a.action, MoveType::PlaceTrap(1, 0));
    assert_eq!(outcome.trace[1].b.eliminated_now, true);
}

#[test]
fn trap_placed_on_parked_token_kills_it_the_same_step() {
    let sa = vec![token(1, 0), trap(0, 0)];
    let sb = vec![token(1, 1)];
    let outcome = resolve(&sa, &sb, 2).unwrap();
    // B parked on (0, 0) after its only move; A's step-1 trap lands there.
    assert_eq!(outcome.b.eliminated_at, Some(1));
    assert_eq!(outcome.a.eliminated_at, None);
}

#[test]
fn own_trap_is_harmless() {
    let sa = vec![trap(1, 0), token(1, 0)];
    let sb: Vec<Entry> = Vec::new();
    let outcome = resolve(&sa, &sb, 2).unwrap();
    assert_eq!(outcome.a.eliminated_at, None);
    assert_eq!(outcome.a.position, Some((1, 0)));
}

#[test]
fn forward_move_scores_one_point_sideways_and_backward_none() {
    // Place on row 2, advance to row 1 (+1), retreat to row 2 (0), move
    // sideways (0): exactly one point in all.
    let sa = vec![token(2, 0), token(1, 0), token(2, 0), token(2, 1)];
    let sb: Vec<Entry> = Vec::new();
    let outcome = resolve(&sa, &sb, 3).unwrap();
    assert_eq!(outcome.a.score, 1);
    assert_eq!(outcome.a.eliminated_at, None);
    assert_eq!(outcome.reason, TerminationReason::SequencesExhausted);
}

#[test]
fn first_move_never_scores() {
    let sa = vec![token(1, 0), token(1, 1)];
    let sb: Vec<Entry> = Vec::new();
    let outcome = resolve(&sa, &sb, 2).unwrap();
    assert_eq!(outcome.a.score, 0);
}

#[test]
fn goal_finish_ends_the_round_and_grants_the_bonus() {
    let sa = vec![token(1, 0), token(0, 0)];
    let sb = vec![token(1, 0), token(1, 1), token(0, 1)];
    let outcome = resolve(&sa, &sb, 2).unwrap();
    assert_eq!(outcome.a.finished_at, Some(1));
    assert_eq!(outcome.a.score, 1);
    assert_eq!(outcome.reason, TerminationReason::GoalReached);
    // B's third step is never processed: the finisher ends the round.
    assert_eq!(outcome.trace.len(), 2);
    assert_eq!(outcome.b.eliminated_at, None);
    assert_eq!(outcome.b.score, 0);
}

#[test]
fn simultaneous_finish_is_a_draw_with_both_bonuses() {
    let sa = vec![token(1, 0), token(0, 0)];
    let sb = vec![token(1, 1), token(0, 1)];
    let outcome = resolve(&sa, &sb, 2).unwrap();
    assert_eq!(outcome.a.finished_at, Some(1));
    assert_eq!(outcome.b.finished_at, Some(1));
    assert_eq!(outcome.a.score, 1);
    assert_eq!(outcome.b.score, 1);
    assert_eq!(outcome.reason, TerminationReason::GoalReached);
}

#[test]
fn classification_is_idempotent_and_exact() {
    let s = vec![token(1, 0), trap(1, 1), token(0, 1)];
    assert_eq!(classify(&s, 0), MoveType::Regular(1, 0));
    assert_eq!(classify(&s, 1), MoveType::PlaceTrap(1, 1));
    assert_eq!(classify(&s, 2), MoveType::Final);
    assert_eq!(classify(&s, 3), MoveType::Pass);
    for step in 0..4 {
        assert_eq!(classify(&s, step), classify(&s, step));
    }
}

#[test]
fn swapping_roles_mirrors_the_outcome() {
    let sa = vec![trap(1, 0), token(1, 1)];
    let sb = vec![token(1, 1), token(0, 1), token(0, 0)];
    let straight = resolve(&sa, &sb, 2).unwrap();
    let swapped = resolve(&sb, &sa, 2).unwrap();
    // Roles swap; scores and step numbers carry over; positions rotate
    // through (r, c) -> (1 - r, 1 - c).
    assert_eq!(swapped.a.score, straight.b.score);
    assert_eq!(swapped.b.score, straight.a.score);
    assert_eq!(swapped.a.eliminated_at, straight.b.eliminated_at);
    assert_eq!(swapped.b.eliminated_at, straight.a.eliminated_at);
    assert_eq!(swapped.a.finished_at, straight.b.finished_at);
    assert_eq!(swapped.b.finished_at, straight.a.finished_at);
    assert_eq!(swapped.reason, straight.reason);
    assert_eq!(swapped.a.position, Some((0, 1)));
    assert_eq!(straight.b.position, Some((1, 0)));
    assert_eq!(swapped.trace.len(), straight.trace.len());
}

#[test]
fn elimination_is_terminal() {
    // A is eliminated at step 1 by B's trap; A's sequence still holds a
    // would-be goal-row finish at step 2, which must change nothing.
    let sa = vec![token(1, 0), token(1, 1), token(0, 1)];
    let sb = vec![trap(0, 0)];
    let outcome = resolve(&sa, &sb, 2).unwrap();
    assert_eq!(outcome.a.eliminated_at, Some(1));
    assert_eq!(outcome.a.finished_at, None);
    assert_eq!(outcome.a.position, Some((1, 1)));
    assert_eq!(outcome.a.score, 0);
    assert_eq!(outcome.reason, TerminationReason::SequencesExhausted);
    assert_eq!(outcome.trace[2].a.action, MoveType::Pass);
}

#[test]
fn too_small_grids_are_rejected() {
    let sa: Vec<Entry> = Vec::new();
    let sb: Vec<Entry> = Vec::new();
    assert_eq!(resolve(&sa, &sb, 0), Err(ResolveError::GridTooSmall));
    assert_eq!(resolve(&sa, &sb, 1), Err(ResolveError::GridTooSmall));
    assert!(resolve(&sa, &sb, 2).is_ok());
}

#[test]
fn out_of_range_cells_are_rejected() {
    let sa = vec![token(2, 0)];
    let sb: Vec<Entry> = Vec::new();
    assert_eq!(resolve(&sa, &sb, 2), Err(ResolveError::CellOutOfRange));
    assert_eq!(resolve(&sb, &sa, 2), Err(ResolveError::CellOutOfRange));
    assert!(resolve(&sa, &sb, 3).is_ok());
}

#[test]
fn trace_records_every_processed_step() {
    let sa = vec![token(1, 0), token(0, 0)];
    let sb = vec![token(1, 0)];
    let outcome = resolve(&sa, &sb, 2).unwrap();
    assert_eq!(outcome.trace.len(), 2);
    assert_eq!(outcome.trace[0].a.action, MoveType::Regular(1, 0));
    // B's own-frame (1, 0) lands on shared (0, 1).
    assert_eq!(outcome.trace[0].b.action, MoveType::Regular(0, 1));
    assert_eq!(outcome.trace[0].a.position, Some((1, 0)));
    // Step 1: B's sequence is exhausted, so it passes and holds in place.
    assert_eq!(outcome.trace[1].b.action, MoveType::Pass);
    assert_eq!(outcome.trace[1].b.position, Some((0, 1)));
    assert_eq!(outcome.trace[1].a.action, MoveType::Final);
    assert_eq!(outcome.trace[1].a.position, None);
}
