//! The board's coordinate frame and the classification of authored moves.
//!
//! A move sequence is an ordered log `Vec<(row, col, CellKind)>` of what one
//! competitor did, in authoring order.  Both competitors author toward row 0
//! of their own frame; the engine maps the second competitor's coordinates
//! through the 180-degree rotation so that both play on one shared frame.

use vstd::prelude::*;

verus! {

/// What an authored entry puts on a cell: nothing, the competitor's token,
/// or a permanent trap.
#[derive(Clone, Copy, Debug, PartialEq, Eq, Structural)]
pub enum CellKind {
    Empty,
    Token,
    Trap,
}

/// One authored entry: a cell and what the competitor did there.
pub type MoveEntry = (usize, usize, CellKind);

/// How the engine reads one sequence entry at one step.
#[derive(Clone, Copy, Debug, PartialEq, Eq, Structural)]
pub enum MoveType {
    /// The token is now at this cell.
    Regular(usize, usize),
    /// A trap is placed at this cell, effective from this step onward.
    PlaceTrap(usize, usize),
    /// The sequence's closing entry on the goal row: a scoring event with no
    /// position on the grid.
    Final,
    /// Nothing to do at this step (sequence exhausted, or a blank entry).
    Pass,
}

/// Every coordinate of the sequence lies on an `n x n` board.
pub open spec fn seq_in_bounds(s: Seq<MoveEntry>, n: usize) -> bool {
    forall|i: int| 0 <= i < s.len() ==> s[i].0 < n && s[i].1 < n
}

/// The 180-degree rotation that maps the second competitor's frame onto the
/// first competitor's.  Its own goal row 0 lands on shared row `n - 1`.
pub open spec fn rotate_cell(n: usize, r: usize, c: usize) -> (usize, usize)
    recommends
        r < n,
        c < n,
{
    ((n - 1 - r) as usize, (n - 1 - c) as usize)
}

/// What a sequence asks for at a given step, in the author's own frame:
/// a token entry is a `Regular` move unless it is the last entry of the
/// sequence and sits on the author's goal row 0, which closes the run
/// (`Final`); a trap entry places a trap; past the end there is nothing.
pub open spec fn classify_at(s: Seq<MoveEntry>, step: int) -> MoveType {
    if 0 <= step < s.len() {
        match s[step].2 {
            CellKind::Token => {
                if step == s.len() - 1 && s[step].0 == 0 {
                    MoveType::Final
                } else {
                    MoveType::Regular(s[step].0, s[step].1)
                }
            },
            CellKind::Trap => MoveType::PlaceTrap(s[step].0, s[step].1),
            CellKind::Empty => MoveType::Pass,
        }
    } else {
        MoveType::Pass
    }
}

/// The classified move mentions no cell outside the board.
pub open spec fn move_in_bounds(m: MoveType, n: usize) -> bool {
    match m {
        MoveType::Regular(r, c) => r < n && c < n,
        MoveType::PlaceTrap(r, c) => r < n && c < n,
        MoveType::Final => true,
        MoveType::Pass => true,
    }
}

/// A classified move of an in-bounds sequence is itself in bounds.
pub proof fn lemma_classify_in_bounds(s: Seq<MoveEntry>, step: int, n: usize)
    requires
        seq_in_bounds(s, n),
    ensures
        move_in_bounds(classify_at(s, step), n),
{
}

/// Reads one step of a sequence.  The result depends on the sequence and the
/// index alone, so reclassifying the same sequence at the same step always
/// yields the same `MoveType`.
pub fn classify(s: &Vec<MoveEntry>, step: usize) -> (m: MoveType)
    ensures
        m == classify_at(s@, step as int),
{
    if step < s.len() {
        let (r, c, kind) = s[step];
        match kind {
            CellKind::Token => {
                if step == s.len() - 1 && r == 0 {
                    MoveType::Final
                } else {
                    MoveType::Regular(r, c)
                }
            },
            CellKind::Trap => MoveType::PlaceTrap(r, c),
            CellKind::Empty => MoveType::Pass,
        }
    } else {
        MoveType::Pass
    }
}

/// Maps a classified move into the shared frame by rotating its cell.
pub fn rotate_move(m: MoveType, n: usize) -> (o: MoveType)
    requires
        n >= 1,
        move_in_bounds(m, n),
    ensures
        o == rotate_move_spec(m, n),
{
    match m {
        MoveType::Regular(r, c) => MoveType::Regular(n - 1 - r, n - 1 - c),
        MoveType::PlaceTrap(r, c) => MoveType::PlaceTrap(n - 1 - r, n - 1 - c),
        MoveType::Final => MoveType::Final,
        MoveType::Pass => MoveType::Pass,
    }
}

/// The rotation applied to a classified move's cell.
pub open spec fn rotate_move_spec(m: MoveType, n: usize) -> MoveType {
    match m {
        MoveType::Regular(r, c) => {
            let (rr, rc) = rotate_cell(n, r, c);
            MoveType::Regular(rr, rc)
        },
        MoveType::PlaceTrap(r, c) => {
            let (rr, rc) = rotate_cell(n, r, c);
            MoveType::PlaceTrap(rr, rc)
        },
        MoveType::Final => MoveType::Final,
        MoveType::Pass => MoveType::Pass,
    }
}

/// Rotating a move keeps it on the board.
pub proof fn lemma_rotate_move_in_bounds(m: MoveType, n: usize)
    requires
        n >= 1,
        move_in_bounds(m, n),
    ensures
        move_in_bounds(rotate_move_spec(m, n), n),
{
}

/// Rotating a move twice gives the move back.
pub proof fn lemma_rotate_move_involutive(m: MoveType, n: usize)
    requires
        n >= 1,
        move_in_bounds(m, n),
    ensures
        rotate_move_spec(rotate_move_spec(m, n), n) == m,
{
}

/// Checks that every entry of the sequence lies on the board.
pub fn check_bounds(s: &Vec<MoveEntry>, n: usize) -> (ok: bool)
    ensures
        ok == seq_in_bounds(s@, n),
{
    let mut i: usize = 0;
    while i < s.len()
        invariant
            i <= s@.len(),
            forall|j: int| 0 <= j < i ==> s@[j].0 < n && s@[j].1 < n,
        decreases s@.len() - i,
    {
        let (r, c, _) = s[i];
        if r >= n || c >= n {
            return false;
        }
        i += 1;
    }
    true
}

} // verus!
