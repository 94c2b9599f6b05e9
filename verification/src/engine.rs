//! The resolution engine: replays two authored move sequences against each
//! other under simultaneous-turn semantics and produces a deterministic
//! outcome.
//!
//! The meaning of a round is given by the spec functions `step_state`,
//! `run_steps` and `resolve_spec`: a small-step machine over a ghost
//! `RunState`.  The executable `resolve` is proved to return exactly
//! `resolve_spec` of its inputs, so every call with the same sequences and
//! grid size yields the same outcome.

use vstd::prelude::*;

use crate::grid::{
    classify, classify_at, check_bounds, lemma_classify_in_bounds, rotate_move, rotate_move_spec,
    seq_in_bounds, MoveEntry, MoveType,
};

verus! {

/// Why the round stopped.
#[derive(Clone, Copy, Debug, PartialEq, Eq, Structural)]
pub enum TerminationReason {
    /// Both competitors were eliminated, by a mutual collision or by traps.
    BothEliminated,
    /// A competitor closed its run with a `Final` move; a finisher ends the
    /// round outright.
    GoalReached,
    /// Both sequences ran out of entries.
    SequencesExhausted,
}

/// The inputs the engine rejects.
#[derive(Clone, Copy, Debug, PartialEq, Eq, Structural)]
pub enum ResolveError {
    /// The grid must be at least 2 x 2.
    GridTooSmall,
    /// A sequence entry names a cell outside the grid.
    CellOutOfRange,
}

/// One competitor's share of a processed step, in the shared frame.
#[derive(Clone, Copy, Debug, PartialEq, Eq)]
pub struct CompetitorStep {
    /// The move the competitor actually performed this step (`Pass` once it
    /// is out of play).
    pub action: MoveType,
    /// The committed position after this step; `None` before the first move
    /// and after a `Final` move.
    pub position: Option<(usize, usize)>,
    /// Whether the competitor was eliminated on this very step.
    pub eliminated_now: bool,
}

/// One processed step of the round, for both competitors.
#[derive(Clone, Copy, Debug, PartialEq, Eq)]
pub struct StepTrace {
    pub a: CompetitorStep,
    pub b: CompetitorStep,
}

/// The mathematical state of one competitor during a run.
#[verifier::ext_equal]
pub ghost struct SideState {
    /// Committed position in the shared frame.
    pub pos: Option<(usize, usize)>,
    /// The step at which the competitor was removed from play, if any.
    pub eliminated: Option<int>,
    /// The step at which the competitor finished its run, if any.
    pub finished: Option<int>,
    pub score: int,
}

/// The mathematical state of a whole run after some number of steps.
#[verifier::ext_equal]
pub ghost struct RunState {
    pub a: SideState,
    pub b: SideState,
    /// Cells holding traps placed by each competitor, in placement order.
    pub traps_a: Seq<(usize, usize)>,
    pub traps_b: Seq<(usize, usize)>,
    /// One record per processed step.
    pub trace: Seq<StepTrace>,
    /// Set as soon as a step ends the round; later steps change nothing.
    pub done: Option<TerminationReason>,
}

/// The deterministic result of a round, as a mathematical value.
#[verifier::ext_equal]
pub ghost struct OutcomeModel {
    pub a: SideState,
    pub b: SideState,
    pub reason: TerminationReason,
    pub trace: Seq<StepTrace>,
}

pub open spec fn side_start() -> SideState {
    SideState { pos: None, eliminated: None, finished: None, score: 0 }
}

pub open spec fn run_start() -> RunState {
    RunState {
        a: side_start(),
        b: side_start(),
        traps_a: Seq::empty(),
        traps_b: Seq::empty(),
        trace: Seq::empty(),
        done: None,
    }
}

/// A competitor still takes actions: it is neither eliminated nor finished.
pub open spec fn side_active(s: SideState) -> bool {
    s.eliminated is None && s.finished is None
}

/// The move a competitor performs this step: its classified move while in
/// play, and nothing once eliminated or finished.
pub open spec fn effective_move(s: SideState, m: MoveType) -> MoveType {
    if side_active(s) {
        m
    } else {
        MoveType::Pass
    }
}

/// The cell a competitor's token would occupy after this step, before any
/// collision is resolved: a `Regular` move names it, `Final` leaves the
/// grid, and everything else holds in place.  A competitor out of play has
/// no candidate.
pub open spec fn candidate_of(s: SideState, m: MoveType) -> Option<(usize, usize)> {
    if side_active(s) {
        match m {
            MoveType::Regular(r, c) => Some((r, c)),
            MoveType::Final => None,
            _ => s.pos,
        }
    } else {
        None
    }
}

/// Whether a `Regular` move brings the token strictly closer to the
/// competitor's goal row: row 0 for the first competitor (`goal_north`),
/// row `n - 1` for the second.  The first move of a token, with no previous
/// committed position, is never forward.
pub open spec fn moves_forward(goal_north: bool, prev: Option<(usize, usize)>, m: MoveType) -> bool {
    match (prev, m) {
        (Some(p), MoveType::Regular(r, c)) => if goal_north {
            r < p.0
        } else {
            r > p.0
        },
        _ => false,
    }
}

/// A competitor's traps after this step: a `PlaceTrap` move appends its
/// cell, effective from this very step onward.
pub open spec fn traps_after(traps: Seq<(usize, usize)>, s: SideState, m: MoveType) -> Seq<
    (usize, usize),
> {
    match effective_move(s, m) {
        MoveType::PlaceTrap(r, c) => traps.push((r, c)),
        _ => traps,
    }
}

/// Both candidates name the same cell this step: a mutual collision.
pub open spec fn mutual_collision(st: RunState, ma: MoveType, mb: MoveType) -> bool {
    candidate_of(st.a, ma) is Some && candidate_of(st.a, ma) == candidate_of(st.b, mb)
}

/// The first competitor's candidate cell carries one of the second's traps,
/// counting a trap placed this same step.
pub open spec fn trap_hit_a(st: RunState, ma: MoveType, mb: MoveType) -> bool {
    match candidate_of(st.a, ma) {
        Some(p) => traps_after(st.traps_b, st.b, mb).contains(p),
        None => false,
    }
}

/// As `trap_hit_a`, roles swapped.
pub open spec fn trap_hit_b(st: RunState, ma: MoveType, mb: MoveType) -> bool {
    match candidate_of(st.b, mb) {
        Some(p) => traps_after(st.traps_a, st.a, ma).contains(p),
        None => false,
    }
}

/// The first competitor is eliminated on this step.
pub open spec fn eliminated_now_a(st: RunState, ma: MoveType, mb: MoveType) -> bool {
    side_active(st.a) && (mutual_collision(st, ma, mb) || trap_hit_a(st, ma, mb))
}

/// The second competitor is eliminated on this step.
pub open spec fn eliminated_now_b(st: RunState, ma: MoveType, mb: MoveType) -> bool {
    side_active(st.b) && (mutual_collision(st, ma, mb) || trap_hit_b(st, ma, mb))
}

/// One competitor's state after a step, given its effective move `m`, its
/// candidate cell, and whether it is eliminated this step.  An eliminated
/// competitor freezes at the collision cell with no point for this step; an
/// active one commits its candidate, earns one point for a forward move,
/// and earns the goal bonus the step its move is `Final`.
pub open spec fn side_after(
    s: SideState,
    m: MoveType,
    cand: Option<(usize, usize)>,
    hit: bool,
    goal_north: bool,
    k: int,
) -> SideState {
    if !side_active(s) {
        s
    } else if hit {
        SideState { pos: cand, eliminated: Some(k), finished: s.finished, score: s.score }
    } else {
        SideState {
            pos: cand,
            eliminated: None,
            finished: if m is Final {
                Some(k)
            } else {
                s.finished
            },
            score: s.score + (if moves_forward(goal_north, s.pos, m) {
                1int
            } else {
                0int
            }) + (if m is Final {
                1int
            } else {
                0int
            }),
        }
    }
}

/// One simultaneous step of the round at index `k`, with both competitors'
/// classified moves already in the shared frame.  After the round has ended
/// the state no longer changes.
pub open spec fn step_state(st: RunState, ma: MoveType, mb: MoveType, k: int) -> RunState {
    if st.done is Some {
        st
    } else {
        let ea = effective_move(st.a, ma);
        let eb = effective_move(st.b, mb);
        let ca = candidate_of(st.a, ma);
        let cb = candidate_of(st.b, mb);
        let ta = traps_after(st.traps_a, st.a, ma);
        let tb = traps_after(st.traps_b, st.b, mb);
        let hit_a = eliminated_now_a(st, ma, mb);
        let hit_b = eliminated_now_b(st, ma, mb);
        let a2 = side_after(st.a, ea, ca, hit_a, true, k);
        let b2 = side_after(st.b, eb, cb, hit_b, false, k);
        let done2 = if a2.eliminated is Some && b2.eliminated is Some {
            Some(TerminationReason::BothEliminated)
        } else if ea is Final || eb is Final {
            Some(TerminationReason::GoalReached)
        } else {
            None
        };
        RunState {
            a: a2,
            b: b2,
            traps_a: ta,
            traps_b: tb,
            trace: st.trace.push(
                StepTrace {
                    a: CompetitorStep { action: ea, position: a2.pos, eliminated_now: hit_a },
                    b: CompetitorStep { action: eb, position: b2.pos, eliminated_now: hit_b },
                },
            ),
            done: done2,
        }
    }
}

/// The first competitor's classified move at step `k`, already in the
/// shared frame.
pub open spec fn move_a_at(sa: Seq<MoveEntry>, k: int) -> MoveType {
    classify_at(sa, k)
}

/// The second competitor's classified move at step `k`, rotated into the
/// shared frame.
pub open spec fn move_b_at(sb: Seq<MoveEntry>, k: int, n: usize) -> MoveType {
    rotate_move_spec(classify_at(sb, k), n)
}

/// The run state after the first `k` steps.
pub open spec fn run_steps(sa: Seq<MoveEntry>, sb: Seq<MoveEntry>, n: usize, k: int) -> RunState
    decreases k,
{
    if k <= 0 {
        run_start()
    } else {
        step_state(
            run_steps(sa, sb, n, k - 1),
            move_a_at(sa, k - 1),
            move_b_at(sb, k - 1, n),
            k - 1,
        )
    }
}

/// How many steps a round can take: the longer sequence's length.
pub open spec fn max_steps(sa: Seq<MoveEntry>, sb: Seq<MoveEntry>) -> int {
    if sa.len() >= sb.len() {
        sa.len() as int
    } else {
        sb.len() as int
    }
}

/// The outcome of a round: the run state after all steps, with the round
/// declared exhausted when nothing ended it earlier.
pub open spec fn resolve_spec(sa: Seq<MoveEntry>, sb: Seq<MoveEntry>, n: usize) -> OutcomeModel {
    let st = run_steps(sa, sb, n, max_steps(sa, sb));
    OutcomeModel {
        a: st.a,
        b: st.b,
        reason: match st.done {
            Some(r) => r,
            None => TerminationReason::SequencesExhausted,
        },
        trace: st.trace,
    }
}

/// One competitor's share of an `Outcome`.
#[derive(Clone, Copy, Debug, PartialEq, Eq)]
pub struct CompetitorOutcome {
    /// Final committed position in the shared frame, if the token is still
    /// on the grid.
    pub position: Option<(usize, usize)>,
    /// The step at which the competitor was eliminated, if ever.
    pub eliminated_at: Option<usize>,
    /// The step at which the competitor finished its run, if ever.
    pub finished_at: Option<usize>,
    pub score: i32,
}

/// The complete result of resolving one round.
#[derive(Clone, Debug, PartialEq, Eq)]
pub struct Outcome {
    pub a: CompetitorOutcome,
    pub b: CompetitorOutcome,
    pub reason: TerminationReason,
    /// One record per processed step, enough for a renderer to reconstruct
    /// every intermediate board.
    pub trace: Vec<StepTrace>,
}

pub open spec fn step_index_view(o: Option<usize>) -> Option<int> {
    match o {
        Some(k) => Some(k as int),
        None => None,
    }
}

impl View for CompetitorOutcome {
    type V = SideState;

    open spec fn view(&self) -> SideState {
        SideState {
            pos: self.position,
            eliminated: step_index_view(self.eliminated_at),
            finished: step_index_view(self.finished_at),
            score: self.score as int,
        }
    }
}

impl View for Outcome {
    type V = OutcomeModel;

    open spec fn view(&self) -> OutcomeModel {
        OutcomeModel { a: self.a@, b: self.b@, reason: self.reason, trace: self.trace@ }
    }
}

/// A competitor's score grows by at most one point per processed step.
pub proof fn lemma_run_score_bounds(sa: Seq<MoveEntry>, sb: Seq<MoveEntry>, n: usize, k: int)
    requires
        k >= 0,
    ensures
        0 <= run_steps(sa, sb, n, k).a.score <= k,
        0 <= run_steps(sa, sb, n, k).b.score <= k,
    decreases k,
{
    if k > 0 {
        lemma_run_score_bounds(sa, sb, n, k - 1);
    }
}

/// Linear search for a cell among placed traps.
fn contains_cell(v: &Vec<(usize, usize)>, p: (usize, usize)) -> (b: bool)
    ensures
        b == v@.contains(p),
{
    let mut i: usize = 0;
    while i < v.len()
        invariant
            i <= v@.len(),
            forall|j: int| 0 <= j < i ==> v@[j] != p,
        decreases v@.len() - i,
    {
        if v[i].0 == p.0 && v[i].1 == p.1 {
            assert(v@[i as int] == p);
            return true;
        }
        i += 1;
    }
    assert(!v@.contains(p));
    false
}

/// Resolves one round: replays both sequences step by step, detects
/// collisions and trap hits, scores forward moves and finishes, and reports
/// why the round ended.  The result is exactly `resolve_spec` of the
/// inputs, so resolution is deterministic and free of side effects.
///
/// Inputs are rejected, never clamped: the grid must be at least 2 x 2 and
/// every entry of both sequences must name a cell on the grid.
pub fn resolve(seq_a: &Vec<MoveEntry>, seq_b: &Vec<MoveEntry>, grid_size: usize) -> (r: Result<
    Outcome,
    ResolveError,
>)
    requires
        seq_a@.len() <= 0x7fff_ffff,
        seq_b@.len() <= 0x7fff_ffff,
    ensures
        r is Ok <==> grid_size >= 2 && seq_in_bounds(seq_a@, grid_size) && seq_in_bounds(
            seq_b@,
            grid_size,
        ),
        grid_size < 2 ==> r == Err::<Outcome, ResolveError>(ResolveError::GridTooSmall),
        grid_size >= 2 && !(seq_in_bounds(seq_a@, grid_size) && seq_in_bounds(seq_b@, grid_size))
            ==> r == Err::<Outcome, ResolveError>(ResolveError::CellOutOfRange),
        r matches Ok(o) ==> o@ == resolve_spec(seq_a@, seq_b@, grid_size),
{
    if grid_size < 2 {
        return Err(ResolveError::GridTooSmall);
    }
    if !check_bounds(seq_a, grid_size) || !check_bounds(seq_b, grid_size) {
        return Err(ResolveError::CellOutOfRange);
    }
    let steps_total = if seq_a.len() >= seq_b.len() {
        seq_a.len()
    } else {
        seq_b.len()
    };
    let mut a = CompetitorOutcome { position: None, eliminated_at: None, finished_at: None, score: 0 };
    let mut b = CompetitorOutcome { position: None, eliminated_at: None, finished_at: None, score: 0 };
    let mut traps_a: Vec<(usize, usize)> = Vec::new();
    let mut traps_b: Vec<(usize, usize)> = Vec::new();
    let mut trace: Vec<StepTrace> = Vec::new();
    let mut done: Option<TerminationReason> = None;
    let mut step: usize = 0;
    while step < steps_total
        invariant
            grid_size >= 2,
            seq_in_bounds(seq_a@, grid_size),
            seq_in_bounds(seq_b@, grid_size),
            steps_total as int == max_steps(seq_a@, seq_b@),
            steps_total <= 0x7fff_ffff,
            step <= steps_total,
            a@ == run_steps(seq_a@, seq_b@, grid_size, step as int).a,
            b@ == run_steps(seq_a@, seq_b@, grid_size, step as int).b,
            traps_a@ == run_steps(seq_a@, seq_b@, grid_size, step as int).traps_a,
            traps_b@ == run_steps(seq_a@, seq_b@, grid_size, step as int).traps_b,
            trace@ == run_steps(seq_a@, seq_b@, grid_size, step as int).trace,
            done == run_steps(seq_a@, seq_b@, grid_size, step as int).done,
        decreases steps_total - step,
    {
        let ghost st = run_steps(seq_a@, seq_b@, grid_size, step as int);
        let ghost ma_spec = move_a_at(seq_a@, step as int);
        let ghost mb_spec = move_b_at(seq_b@, step as int, grid_size);
        if done.is_none() {
            let ma = classify(seq_a, step);
            let mb_raw = classify(seq_b, step);
            proof {
                lemma_classify_in_bounds(seq_b@, step as int, grid_size);
            }
            let mb = rotate_move(mb_raw, grid_size);
            let active_a = a.eliminated_at.is_none() && a.finished_at.is_none();
            let active_b = b.eliminated_at.is_none() && b.finished_at.is_none();
            let ea = if active_a {
                ma
            } else {
                MoveType::Pass
            };
            let eb = if active_b {
                mb
            } else {
                MoveType::Pass
            };
            let ca: Option<(usize, usize)> = if active_a {
                match ea {
                    MoveType::Regular(r, c) => Some((r, c)),
                    MoveType::Final => None,
                    _ => a.position,
                }
            } else {
                None
            };
            let cb: Option<(usize, usize)> = if active_b {
                match eb {
                    MoveType::Regular(r, c) => Some((r, c)),
                    MoveType::Final => None,
                    _ => b.position,
                }
            } else {
                None
            };
            if let MoveType::PlaceTrap(r, c) = ea {
                traps_a.push((r, c));
            }
            if let MoveType::PlaceTrap(r, c) = eb {
                traps_b.push((r, c));
            }
            let mutual = match (ca, cb) {
                (Some(p), Some(q)) => p.0 == q.0 && p.1 == q.1,
                _ => false,
            };
            let hit_a = active_a && (mutual || match ca {
                Some(p) => contains_cell(&traps_b, p),
                None => false,
            });
            let hit_b = active_b && (mutual || match cb {
                Some(p) => contains_cell(&traps_a, p),
                None => false,
            });
            proof {
                assert(mutual == mutual_collision(st, ma_spec, mb_spec));
                assert(hit_a == eliminated_now_a(st, ma_spec, mb_spec));
                assert(hit_b == eliminated_now_b(st, ma_spec, mb_spec));
                lemma_run_score_bounds(seq_a@, seq_b@, grid_size, step as int);
            }
            if active_a {
                if hit_a {
                    a.position = ca;
                    a.eliminated_at = Some(step);
                } else {
                    let forward = match (a.position, ea) {
                        (Some(p), MoveType::Regular(r, _)) => r < p.0,
                        _ => false,
                    };
                    if forward {
                        a.score = a.score + 1;
                    }
                    if let MoveType::Final = ea {
                        a.score = a.score + 1;
                        a.finished_at = Some(step);
                    }
                    a.position = ca;
                }
            }
            if active_b {
                if hit_b {
                    b.position = cb;
                    b.eliminated_at = Some(step);
                } else {
                    let forward = match (b.position, eb) {
                        (Some(p), MoveType::Regular(r, _)) => r > p.0,
                        _ => false,
                    };
                    if forward {
                        b.score = b.score + 1;
                    }
                    if let MoveType::Final = eb {
                        b.score = b.score + 1;
                        b.finished_at = Some(step);
                    }
                    b.position = cb;
                }
            }
            if a.eliminated_at.is_some() && b.eliminated_at.is_some() {
                done = Some(TerminationReason::BothEliminated);
            } else {
                let final_a = match ea {
                    MoveType::Final => true,
                    _ => false,
                };
                let final_b = match eb {
                    MoveType::Final => true,
                    _ => false,
                };
                if final_a || final_b {
                    done = Some(TerminationReason::GoalReached);
                }
            }
            trace.push(
                StepTrace {
                    a: CompetitorStep { action: ea, position: a.position, eliminated_now: hit_a },
                    b: CompetitorStep { action: eb, position: b.position, eliminated_now: hit_b },
                },
            );
            proof {
                let st2 = step_state(st, ma_spec, mb_spec, step as int);
                assert(a@ == st2.a);
                assert(b@ == st2.b);
                assert(traps_a@ == st2.traps_a);
                assert(traps_b@ == st2.traps_b);
                assert(trace@ == st2.trace);
                assert(done == st2.done);
            }
        }
        step += 1;
    }
    let reason = match done {
        Some(r) => r,
        None => TerminationReason::SequencesExhausted,
    };
    Ok(Outcome { a, b, reason, trace })
}

} // verus!
