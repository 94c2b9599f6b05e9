use trapgrid::board::Board;
use trapgrid::roster::{add_opponent, find_opponent, remove_opponent, Opponent, OpponentType};
use trapgrid::session::{
    find_board_by_thumbnail, greeting_for, remove_board_at, select_random_board, speed_seconds,
    GamePhase, GameSpeed, GameState, SavedBoard,
};

#[test]
fn opponent_id_lowercases_and_underscores_the_name() {
    let o = Opponent::new("Mega Man".to_string(), OpponentType::Human);
    assert_eq!(o.id, "human_mega_man");
    assert_eq!(o.name, "Mega Man");
    assert_eq!(o.opponent_type, OpponentType::Human);
}

#[test]
fn opponent_id_uses_the_kind_prefix() {
    let o = Opponent::new("CPU".to_string(), OpponentType::Computer);
    assert_eq!(o.id, "cpu_cpu");
    let h = Opponent::new("CPU".to_string(), OpponentType::Human);
    assert_eq!(h.id, "human_cpu");
}

#[test]
fn adding_an_opponent_twice_keeps_one_entry() {
    let mut list: Vec<Opponent> = Vec::new();
    add_opponent(&mut list, Opponent::new("Ada".to_string(), OpponentType::Human));
    add_opponent(&mut list, Opponent::new("Ada".to_string(), OpponentType::Human));
    assert_eq!(list.len(), 1);
    add_opponent(&mut list, Opponent::new("Ada".to_string(), OpponentType::Computer));
    assert_eq!(list.len(), 2);
    assert_eq!(list[0].id, "human_ada");
    assert_eq!(list[1].id, "cpu_ada");
}

#[test]
fn removing_an_opponent_keeps_the_others_in_order() {
    let mut list: Vec<Opponent> = Vec::new();
    add_opponent(&mut list, Opponent::new("Ada".to_string(), OpponentType::Human));
    add_opponent(&mut list, Opponent::new("Max".to_string(), OpponentType::Human));
    add_opponent(&mut list, Opponent::new("CPU".to_string(), OpponentType::Computer));
    remove_opponent(&mut list, &"human_max".to_string());
    assert_eq!(list.len(), 2);
    assert_eq!(list[0].id, "human_ada");
    assert_eq!(list[1].id, "cpu_cpu");
    remove_opponent(&mut list, &"nobody".to_string());
    assert_eq!(list.len(), 2);
}

#[test]
fn finding_an_opponent_by_id() {
    let mut list: Vec<Opponent> = Vec::new();
    add_opponent(&mut list, Opponent::new("Ada".to_string(), OpponentType::Human));
    assert_eq!(find_opponent(&list, &"human_ada".to_string()), Some(0));
    assert_eq!(find_opponent(&list, &"cpu_ada".to_string()), None);
}

#[test]
fn greeting_embeds_the_name() {
    assert_eq!(greeting_for("Ada"), "Hello, Ada!");
    assert_eq!(greeting_for(""), "Hello, !");
}

#[test]
fn selection_clock_per_speed() {
    assert_eq!(speed_seconds(GameSpeed::Lightning), 1);
    assert_eq!(speed_seconds(GameSpeed::Quick), 5);
    assert_eq!(speed_seconds(GameSpeed::Relaxed), 10);
    assert_eq!(speed_seconds(GameSpeed::Chill), 999999);
}

fn saved(thumbnail: &str) -> SavedBoard {
    SavedBoard { board: Board::new(2), thumbnail: thumbnail.to_string() }
}

#[test]
fn random_board_selection_stays_in_range() {
    let none: Vec<SavedBoard> = Vec::new();
    assert_eq!(select_random_board(&none), None);
    let boards = vec![saved("a"), saved("b"), saved("c")];
    for _ in 0..32 {
        let picked = select_random_board(&boards).unwrap();
        assert!(picked < boards.len());
    }
}

#[test]
fn saved_boards_are_found_and_removed_by_position() {
    let mut boards = vec![saved("a"), saved("b"), saved("c")];
    assert_eq!(find_board_by_thumbnail(&boards, &"b".to_string()), Some(1));
    assert_eq!(find_board_by_thumbnail(&boards, &"z".to_string()), None);
    let gone = remove_board_at(&mut boards, 1);
    assert_eq!(gone.thumbnail, "b");
    assert_eq!(boards.len(), 2);
    assert_eq!(boards[0].thumbnail, "a");
    assert_eq!(boards[1].thumbnail, "c");
}

#[test]
fn a_fresh_match_waits_for_board_selection() {
    let opponent = Opponent::new("CPU".to_string(), OpponentType::Computer);
    let state = GameState::new("Ada".to_string(), opponent);
    assert_eq!(state.current_round, 1);
    assert_eq!(state.player1_score, 0);
    assert_eq!(state.player2_score, 0);
    assert!(state.player1_board.is_none());
    assert!(state.player2_board.is_none());
    assert!(state.outcome.is_none());
    assert_eq!(state.phase, GamePhase::SelectingBoards);
    assert_eq!(state.speed, GameSpeed::Relaxed);
}

#[test]
fn round_scores_accumulate_and_rounds_advance() {
    let opponent = Opponent::new("CPU".to_string(), OpponentType::Computer);
    let mut state = GameState::new("Ada".to_string(), opponent);
    state.apply_round_scores(2, 1);
    state.apply_round_scores(0, 3);
    assert_eq!(state.player1_score, 2);
    assert_eq!(state.player2_score, 4);

    state.player1_board = Some(saved("a"));
    state.phase = GamePhase::ShowingResults;
    state.advance_round();
    assert_eq!(state.current_round, 2);
    assert!(state.player1_board.is_none());
    assert_eq!(state.phase, GamePhase::SelectingBoards);

    state.current_round = 8;
    state.phase = GamePhase::ShowingResults;
    state.advance_round();
    // Past the final round only the counter moves.
    assert_eq!(state.current_round, 9);
    assert_eq!(state.phase, GamePhase::ShowingResults);
}
