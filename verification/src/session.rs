//! Match orchestration data: saved boards, game phases and speeds, the
//! running match state, and the round-to-round bookkeeping rules.

use vstd::prelude::*;
use vstd::string::StringExecFns;

use crate::board::Board;
use crate::engine::Outcome;
use crate::roster::Opponent;

verus! {

/// An authored board kept for later play, together with the rendered
/// thumbnail the interface shows for it.
#[derive(Clone, Debug, PartialEq, Eq)]
pub struct SavedBoard {
    pub board: Board,
    pub thumbnail: String,
}

/// Where a round currently stands.
#[derive(Clone, Copy, Debug, PartialEq, Eq, Structural)]
pub enum GamePhase {
    SelectingBoards,
    DisplayingBoards,
    ShowingResults,
    RoundComplete,
}

/// How much time a competitor gets to choose a board.
#[derive(Clone, Copy, Debug, PartialEq, Eq, Structural)]
pub enum GameSpeed {
    Lightning,
    Quick,
    Relaxed,
    Chill,
}

/// How many rounds one match lasts.
pub const ROUNDS_PER_MATCH: usize = 8;

/// The seconds on the board-selection clock for each speed; `Chill` gets a
/// value large enough to never run out.
pub fn speed_seconds(speed: GameSpeed) -> (r: u32)
    ensures
        speed is Lightning ==> r == 1,
        speed is Quick ==> r == 5,
        speed is Relaxed ==> r == 10,
        speed is Chill ==> r == 999999,
{
    match speed {
        GameSpeed::Lightning => 1,
        GameSpeed::Quick => 5,
        GameSpeed::Relaxed => 10,
        GameSpeed::Chill => 999999,
    }
}

/// Everything one running match keeps between rounds.
#[derive(Clone, Debug, PartialEq, Eq)]
pub struct GameState {
    pub player1: String,
    pub player2: Option<Opponent>,
    pub current_round: usize,
    pub player1_score: i32,
    pub player2_score: i32,
    pub player1_board: Option<SavedBoard>,
    pub player2_board: Option<SavedBoard>,
    pub outcome: Option<Outcome>,
    pub phase: GamePhase,
    pub speed: GameSpeed,
}

impl GameState {
    /// A fresh match against one opponent: round 1, no scores, no boards
    /// chosen, waiting for board selection at the relaxed speed.
    pub fn new(player_name: String, opponent: Opponent) -> (s: GameState)
        ensures
            s.player1 == player_name,
            s.player2 == Some(opponent),
            s.current_round == 1,
            s.player1_score == 0,
            s.player2_score == 0,
            s.player1_board is None,
            s.player2_board is None,
            s.outcome is None,
            s.phase is SelectingBoards,
            s.speed is Relaxed,
    {
        GameState {
            player1: player_name,
            player2: Some(opponent),
            current_round: 1,
            player1_score: 0,
            player2_score: 0,
            player1_board: None,
            player2_board: None,
            outcome: None,
            phase: GamePhase::SelectingBoards,
            speed: GameSpeed::Relaxed,
        }
    }

    /// Adds one resolved round's scores to the match totals.
    pub fn apply_round_scores(&mut self, round_a: i32, round_b: i32)
        requires
            i32::MIN <= old(self).player1_score + round_a <= i32::MAX,
            i32::MIN <= old(self).player2_score + round_b <= i32::MAX,
        ensures
            final(self).player1_score == old(self).player1_score + round_a,
            final(self).player2_score == old(self).player2_score + round_b,
            *final(self) == (GameState {
                player1_score: final(self).player1_score,
                player2_score: final(self).player2_score,
                ..*old(self)
            }),
    {
        self.player1_score = self.player1_score + round_a;
        self.player2_score = self.player2_score + round_b;
    }

    /// Moves the match to the next round: while rounds remain, the board
    /// selections and the round's outcome are cleared and selection opens
    /// again; past the last round only the round counter moves.
    pub fn advance_round(&mut self)
        requires
            old(self).current_round < usize::MAX,
        ensures
            final(self).current_round == old(self).current_round + 1,
            final(self).current_round <= ROUNDS_PER_MATCH ==> *final(self) == (GameState {
                current_round: final(self).current_round,
                player1_board: None,
                player2_board: None,
                outcome: None,
                phase: GamePhase::SelectingBoards,
                ..*old(self)
            }),
            final(self).current_round > ROUNDS_PER_MATCH ==> *final(self) == (GameState {
                current_round: final(self).current_round,
                ..*old(self)
            }),
    {
        self.current_round = self.current_round + 1;
        if self.current_round <= ROUNDS_PER_MATCH {
            self.phase = GamePhase::SelectingBoards;
            self.player1_board = None;
            self.player2_board = None;
            self.outcome = None;
        }
    }
}

/// Relies on `rand::Rng::gen_range` over `0..n`: the drawn value lies
/// below `n`; the range is non-empty, so the call returns.
#[verifier::external_body]
fn random_below(n: usize) -> (r: usize)
    requires
        n > 0,
    ensures
        r < n,
{
    rand::Rng::gen_range(&mut rand::thread_rng(), 0..n)
}

/// Picks a random saved board for the machine opponent: some valid index
/// whenever any board exists, nothing otherwise.  Which index comes back
/// is chance; everything downstream works for any of them.
pub fn select_random_board(boards: &Vec<SavedBoard>) -> (r: Option<usize>)
    ensures
        r is Some <==> boards@.len() > 0,
        r matches Some(i) ==> i < boards@.len(),
{
    if boards.len() == 0 {
        None
    } else {
        Some(random_below(boards.len()))
    }
}

/// Looks up a saved board by its thumbnail, the key under which the
/// interface lists them.
pub fn find_board_by_thumbnail(boards: &Vec<SavedBoard>, thumbnail: &String) -> (r: Option<usize>)
    ensures
        r matches Some(i) ==> i < boards@.len() && boards@[i as int].thumbnail@ == thumbnail@,
        r is None ==> forall|i: int| 0 <= i < boards@.len() ==> boards@[i].thumbnail@ != thumbnail@,
{
    let mut i: usize = 0;
    while i < boards.len()
        invariant
            i <= boards@.len(),
            forall|j: int| 0 <= j < i ==> boards@[j].thumbnail@ != thumbnail@,
        decreases boards@.len() - i,
    {
        if boards[i].thumbnail == *thumbnail {
            return Some(i);
        }
        i += 1;
    }
    None
}

/// Removes the saved board at the given position; later boards move up by
/// one.
pub fn remove_board_at(boards: &mut Vec<SavedBoard>, index: usize) -> (b: SavedBoard)
    requires
        index < old(boards)@.len(),
    ensures
        b == old(boards)@[index as int],
        final(boards)@ == old(boards)@.remove(index as int),
{
    boards.remove(index)
}

/// A user's saved profile.
#[derive(Clone, Debug, PartialEq, Eq)]
pub struct UserData {
    pub name: String,
    pub greeting: String,
    pub default_game_speed: GameSpeed,
}

/// The greeting shown for a name.
pub fn greeting_for(name: &str) -> (r: String)
    ensures
        (r@ == "Hello, "@ + name@ + "!"@),
{
    let mut greeting = String::from_str("Hello, ");
    greeting.append(name);
    greeting.append("!");
    greeting
}

} // verus!
