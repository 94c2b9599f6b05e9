//! Round-level guarantees of the resolution engine, stated and proved
//! against the spec functions of `engine`.

use vstd::prelude::*;

use crate::engine::{
    candidate_of, eliminated_now_a, eliminated_now_b, max_steps, move_a_at, move_b_at,
    mutual_collision, resolve_spec, run_start, run_steps, side_active, side_start, step_state,
    trap_hit_a, trap_hit_b, traps_after, CompetitorStep, OutcomeModel, RunState, SideState,
    StepTrace, TerminationReason,
};
use crate::grid::{
    classify_at, lemma_classify_in_bounds, lemma_rotate_move_in_bounds,
    lemma_rotate_move_involutive, move_in_bounds, rotate_cell, rotate_move_spec, seq_in_bounds,
    MoveEntry, MoveType,
};

verus! {

/// Resolution is deterministic: the outcome is a function of the two
/// sequences and the grid size alone, so any two outcomes the engine can
/// return for the same inputs are the same outcome.  `resolve` promises
/// exactly this by pinning its result to `resolve_spec`.
pub proof fn lemma_resolve_deterministic(
    sa: Seq<MoveEntry>,
    sb: Seq<MoveEntry>,
    n: usize,
    o1: OutcomeModel,
    o2: OutcomeModel,
)
    requires
        o1 == resolve_spec(sa, sb, n),
        o2 == resolve_spec(sa, sb, n),
    ensures
        o1 == o2,
{
}

/// A round over two empty sequences ends at once: no step is processed,
/// both scores are 0, nobody is eliminated, nobody finishes, and the round
/// is reported exhausted.
pub proof fn lemma_empty_round(n: usize)
    ensures
        (resolve_spec(Seq::<MoveEntry>::empty(), Seq::<MoveEntry>::empty(), n).a == side_start()),
        (resolve_spec(Seq::<MoveEntry>::empty(), Seq::<MoveEntry>::empty(), n).b == side_start()),
        (resolve_spec(Seq::<MoveEntry>::empty(), Seq::<MoveEntry>::empty(), n).reason
            == TerminationReason::SequencesExhausted),
        (resolve_spec(Seq::<MoveEntry>::empty(), Seq::<MoveEntry>::empty(), n).trace.len() == 0),
{
}

/// Once a step has ended the round, every later state is that same state:
/// no further step is processed.
pub proof fn lemma_run_stable(sa: Seq<MoveEntry>, sb: Seq<MoveEntry>, n: usize, k: int, j: int)
    requires
        0 <= k <= j,
        run_steps(sa, sb, n, k).done is Some,
    ensures
        run_steps(sa, sb, n, j) == run_steps(sa, sb, n, k),
    decreases j - k,
{
    if j > k {
        lemma_run_stable(sa, sb, n, k, j - 1);
    }
}

/// Forward-movement scoring for the first competitor (goal row 0): on a
/// step where it stays in play and its move is `Regular`, it earns exactly
/// one point when the new row is strictly smaller than its previous row,
/// and nothing when it moves sideways or backward or has no previous
/// position.
pub proof fn lemma_forward_scoring_a(st: RunState, ma: MoveType, mb: MoveType, k: int)
    requires
        st.done is None,
        side_active(st.a),
        ma is Regular,
        !eliminated_now_a(st, ma, mb),
    ensures
        st.a.pos matches Some(p) && ma matches MoveType::Regular(r, c) && r < p.0 ==> step_state(
            st,
            ma,
            mb,
            k,
        ).a.score == st.a.score + 1,
        st.a.pos matches Some(p) && ma matches MoveType::Regular(r, c) && r >= p.0 ==> step_state(
            st,
            ma,
            mb,
            k,
        ).a.score == st.a.score,
        st.a.pos is None ==> step_state(st, ma, mb, k).a.score == st.a.score,
{
}

/// Forward-movement scoring for the second competitor, whose goal in the
/// shared frame is row `n - 1`: one point exactly when the new row is
/// strictly larger than its previous row.
pub proof fn lemma_forward_scoring_b(st: RunState, ma: MoveType, mb: MoveType, k: int)
    requires
        st.done is None,
        side_active(st.b),
        mb is Regular,
        !eliminated_now_b(st, ma, mb),
    ensures
        st.b.pos matches Some(p) && mb matches MoveType::Regular(r, c) && r > p.0 ==> step_state(
            st,
            ma,
            mb,
            k,
        ).b.score == st.b.score + 1,
        st.b.pos matches Some(p) && mb matches MoveType::Regular(r, c) && r <= p.0 ==> step_state(
            st,
            ma,
            mb,
            k,
        ).b.score == st.b.score,
        st.b.pos is None ==> step_state(st, ma, mb, k).b.score == st.b.score,
{
}

/// A competitor eliminated on a step earns nothing on that step: its score
/// is frozen at what it had earned on earlier steps.
pub proof fn lemma_no_point_on_elimination(st: RunState, ma: MoveType, mb: MoveType, k: int)
    requires
        st.done is None,
    ensures
        eliminated_now_a(st, ma, mb) ==> step_state(st, ma, mb, k).a.score == st.a.score,
        eliminated_now_b(st, ma, mb) ==> step_state(st, ma, mb, k).b.score == st.b.score,
{
}

/// When both opening moves land on the same shared-frame cell, the round
/// ends at step 0 with both competitors eliminated there and no points for
/// anybody.
pub proof fn lemma_mutual_first_collision(
    sa: Seq<MoveEntry>,
    sb: Seq<MoveEntry>,
    n: usize,
    r: usize,
    c: usize,
)
    requires
        move_a_at(sa, 0) == MoveType::Regular(r, c),
        move_b_at(sb, 0, n) == MoveType::Regular(r, c),
    ensures
        resolve_spec(sa, sb, n).a.eliminated == Some(0int),
        resolve_spec(sa, sb, n).b.eliminated == Some(0int),
        resolve_spec(sa, sb, n).a.score == 0,
        resolve_spec(sa, sb, n).b.score == 0,
        resolve_spec(sa, sb, n).a.pos == Some((r, c)),
        resolve_spec(sa, sb, n).b.pos == Some((r, c)),
        resolve_spec(sa, sb, n).reason == TerminationReason::BothEliminated,
{
    assert(0 < sa.len());
    assert(run_steps(sa, sb, n, 0) == run_start());
    assert(run_steps(sa, sb, n, 1) == step_state(run_start(), move_a_at(sa, 0), move_b_at(sb, 0, n), 0));
    assert(run_steps(sa, sb, n, 1).done is Some);
    lemma_run_stable(sa, sb, n, 1, max_steps(sa, sb));
}

/// On a step where one competitor's move lands on a cell already carrying
/// one of the opponent's traps (or one placed this very step), and the two
/// tokens do not collide with each other, that competitor is eliminated on
/// this step with no point, while the trap's owner is not eliminated by
/// this event.
pub proof fn lemma_trap_eliminates_b(st: RunState, ma: MoveType, mb: MoveType, k: int)
    requires
        st.done is None,
        side_active(st.a),
        side_active(st.b),
        mb matches MoveType::Regular(r, c) && traps_after(st.traps_a, st.a, ma).contains((r, c)),
        !mutual_collision(st, ma, mb),
    ensures
        step_state(st, ma, mb, k).b.eliminated == Some(k),
        step_state(st, ma, mb, k).b.score == st.b.score,
        !trap_hit_a(st, ma, mb) ==> step_state(st, ma, mb, k).a.eliminated is None,
{
}

/// A `Final` move by a competitor still in play ends the round on that very
/// step, whatever entries remain in either sequence, and grants the
/// finisher exactly its goal bonus of one point.
pub proof fn lemma_final_ends_round_a(sa: Seq<MoveEntry>, sb: Seq<MoveEntry>, n: usize, k: int)
    requires
        0 <= k,
        run_steps(sa, sb, n, k).done is None,
        side_active(run_steps(sa, sb, n, k).a),
        move_a_at(sa, k) is Final,
    ensures
        run_steps(sa, sb, n, k + 1).done == Some(TerminationReason::GoalReached),
        run_steps(sa, sb, n, k + 1).a.finished == Some(k),
        run_steps(sa, sb, n, k + 1).a.eliminated is None,
        run_steps(sa, sb, n, k + 1).a.score == run_steps(sa, sb, n, k).a.score + 1,
        k < max_steps(sa, sb),
        resolve_spec(sa, sb, n).reason == TerminationReason::GoalReached,
        resolve_spec(sa, sb, n).a.finished == Some(k),
        resolve_spec(sa, sb, n).a.eliminated is None,
        resolve_spec(sa, sb, n).a.score == run_steps(sa, sb, n, k).a.score + 1,
{
    assert(k == sa.len() - 1);
    assert(run_steps(sa, sb, n, k + 1) == step_state(
        run_steps(sa, sb, n, k),
        move_a_at(sa, k),
        move_b_at(sb, k, n),
        k,
    ));
    lemma_run_stable(sa, sb, n, k + 1, max_steps(sa, sb));
}

/// As `lemma_final_ends_round_a`, for the second competitor.
pub proof fn lemma_final_ends_round_b(sa: Seq<MoveEntry>, sb: Seq<MoveEntry>, n: usize, k: int)
    requires
        0 <= k,
        run_steps(sa, sb, n, k).done is None,
        side_active(run_steps(sa, sb, n, k).b),
        move_b_at(sb, k, n) is Final,
    ensures
        run_steps(sa, sb, n, k + 1).done == Some(TerminationReason::GoalReached),
        run_steps(sa, sb, n, k + 1).b.finished == Some(k),
        run_steps(sa, sb, n, k + 1).b.eliminated is None,
        run_steps(sa, sb, n, k + 1).b.score == run_steps(sa, sb, n, k).b.score + 1,
        k < max_steps(sa, sb),
        resolve_spec(sa, sb, n).reason == TerminationReason::GoalReached,
        resolve_spec(sa, sb, n).b.finished == Some(k),
        resolve_spec(sa, sb, n).b.eliminated is None,
        resolve_spec(sa, sb, n).b.score == run_steps(sa, sb, n, k).b.score + 1,
{
    assert(k == sb.len() - 1);
    assert(run_steps(sa, sb, n, k + 1) == step_state(
        run_steps(sa, sb, n, k),
        move_a_at(sa, k),
        move_b_at(sb, k, n),
        k,
    ));
    lemma_run_stable(sa, sb, n, k + 1, max_steps(sa, sb));
}

/// A cell lies on the `n x n` board.
pub open spec fn cell_in_bounds(n: usize, p: (usize, usize)) -> bool {
    p.0 < n && p.1 < n
}

/// A possible position lies on the board.
pub open spec fn pos_in_bounds(n: usize, p: Option<(usize, usize)>) -> bool {
    match p {
        Some(q) => cell_in_bounds(n, q),
        None => true,
    }
}

/// Every placed trap lies on the board.
pub open spec fn traps_in_bounds(n: usize, t: Seq<(usize, usize)>) -> bool {
    forall|i: int| 0 <= i < t.len() ==> cell_in_bounds(n, t[i])
}

/// Every position and trap of the run state lies on the board.
pub open spec fn run_in_bounds(n: usize, st: RunState) -> bool {
    pos_in_bounds(n, st.a.pos) && pos_in_bounds(n, st.b.pos) && traps_in_bounds(n, st.traps_a)
        && traps_in_bounds(n, st.traps_b)
}

/// In-bounds sequences keep every intermediate run state on the board.
pub proof fn lemma_run_in_bounds(sa: Seq<MoveEntry>, sb: Seq<MoveEntry>, n: usize, k: int)
    requires
        n >= 1,
        seq_in_bounds(sa, n),
        seq_in_bounds(sb, n),
        k >= 0,
    ensures
        run_in_bounds(n, run_steps(sa, sb, n, k)),
    decreases k,
{
    if k > 0 {
        lemma_run_in_bounds(sa, sb, n, k - 1);
        lemma_classify_in_bounds(sa, k - 1, n);
        lemma_classify_in_bounds(sb, k - 1, n);
        lemma_rotate_move_in_bounds(classify_at(sb, k - 1), n);
    }
}

/// The 180-degree rotation applied to one cell.
pub open spec fn mirror_cell(n: usize, p: (usize, usize)) -> (usize, usize) {
    rotate_cell(n, p.0, p.1)
}

/// The rotation applied to a possible position.
pub open spec fn mirror_pos(n: usize, p: Option<(usize, usize)>) -> Option<(usize, usize)> {
    match p {
        Some(q) => Some(mirror_cell(n, q)),
        None => None,
    }
}

/// One competitor's state as seen from the other competitor's frame: the
/// position is rotated, steps and score are frame-independent.
pub open spec fn mirror_side(n: usize, s: SideState) -> SideState {
    SideState {
        pos: mirror_pos(n, s.pos),
        eliminated: s.eliminated,
        finished: s.finished,
        score: s.score,
    }
}

/// Placed traps with every cell rotated.
pub open spec fn mirror_traps(n: usize, t: Seq<(usize, usize)>) -> Seq<(usize, usize)> {
    t.map_values(|p: (usize, usize)| mirror_cell(n, p))
}

/// One trace record of a single competitor, rotated.
pub open spec fn mirror_comp_step(n: usize, s: CompetitorStep) -> CompetitorStep {
    CompetitorStep {
        action: rotate_move_spec(s.action, n),
        position: mirror_pos(n, s.position),
        eliminated_now: s.eliminated_now,
    }
}

/// One trace record with the competitors' roles swapped and cells rotated.
pub open spec fn mirror_step_trace(n: usize, e: StepTrace) -> StepTrace {
    StepTrace { a: mirror_comp_step(n, e.b), b: mirror_comp_step(n, e.a) }
}

/// A whole trace with roles swapped and cells rotated.
pub open spec fn mirror_trace(n: usize, t: Seq<StepTrace>) -> Seq<StepTrace> {
    t.map_values(|e: StepTrace| mirror_step_trace(n, e))
}

/// A whole run state with the competitors' roles swapped and every cell
/// rotated into the other frame.
pub open spec fn mirror_run(n: usize, st: RunState) -> RunState {
    RunState {
        a: mirror_side(n, st.b),
        b: mirror_side(n, st.a),
        traps_a: mirror_traps(n, st.traps_b),
        traps_b: mirror_traps(n, st.traps_a),
        trace: mirror_trace(n, st.trace),
        done: st.done,
    }
}

/// Rotation preserves trap membership: a rotated cell sits among rotated
/// traps exactly when the original cell sits among the original traps.
pub proof fn lemma_mirror_traps_contains(n: usize, t: Seq<(usize, usize)>, p: (usize, usize))
    requires
        n >= 1,
        traps_in_bounds(n, t),
        cell_in_bounds(n, p),
    ensures
        mirror_traps(n, t).contains(mirror_cell(n, p)) == t.contains(p),
{
    if t.contains(p) {
        let i = choose|i: int| 0 <= i < t.len() && t[i] == p;
        assert(mirror_traps(n, t)[i] == mirror_cell(n, p));
        assert(mirror_traps(n, t).contains(mirror_cell(n, p)));
    }
    if mirror_traps(n, t).contains(mirror_cell(n, p)) {
        let i = choose|i: int|
            0 <= i < mirror_traps(n, t).len() && mirror_traps(n, t)[i] == mirror_cell(n, p);
        assert(cell_in_bounds(n, t[i]));
        assert(mirror_cell(n, t[i]) == mirror_cell(n, p));
        assert(t[i] == p);
        assert(t.contains(p));
    }
}

/// One simultaneous step commutes with swapping the competitors' roles:
/// stepping the mirrored state with the mirrored moves (in swapped order)
/// gives the mirror of the stepped state.
pub proof fn lemma_step_mirror(st: RunState, ma: MoveType, mb: MoveType, k: int, n: usize)
    requires
        n >= 1,
        run_in_bounds(n, st),
        move_in_bounds(ma, n),
        move_in_bounds(mb, n),
    ensures
        step_state(mirror_run(n, st), rotate_move_spec(mb, n), rotate_move_spec(ma, n), k)
            == mirror_run(n, step_state(st, ma, mb, k)),
{
    let ms = mirror_run(n, st);
    let rma = rotate_move_spec(ma, n);
    let rmb = rotate_move_spec(mb, n);
    if st.done is Some {
        assert(step_state(ms, rmb, rma, k) == ms);
        assert(mirror_run(n, step_state(st, ma, mb, k)) == ms);
    } else {
        // Candidates correspond under rotation.
        assert(candidate_of(ms.a, rmb) == mirror_pos(n, candidate_of(st.b, mb)));
        assert(candidate_of(ms.b, rma) == mirror_pos(n, candidate_of(st.a, ma)));
        assert(pos_in_bounds(n, candidate_of(st.a, ma)));
        assert(pos_in_bounds(n, candidate_of(st.b, mb)));
        // Mutual collision is frame-independent: rotation is injective on
        // board cells.
        assert(mutual_collision(ms, rmb, rma) == mutual_collision(st, ma, mb));
        // Traps after the step correspond under rotation.
        assert(traps_after(ms.traps_a, ms.a, rmb) =~= mirror_traps(
            n,
            traps_after(st.traps_b, st.b, mb),
        ));
        assert(traps_after(ms.traps_b, ms.b, rma) =~= mirror_traps(
            n,
            traps_after(st.traps_a, st.a, ma),
        ));
        assert(traps_in_bounds(n, traps_after(st.traps_a, st.a, ma)));
        assert(traps_in_bounds(n, traps_after(st.traps_b, st.b, mb)));
        // Trap hits are frame-independent.
        match candidate_of(st.b, mb) {
            Some(p) => lemma_mirror_traps_contains(n, traps_after(st.traps_a, st.a, ma), p),
            None => (),
        }
        match candidate_of(st.a, ma) {
            Some(p) => lemma_mirror_traps_contains(n, traps_after(st.traps_b, st.b, mb), p),
            None => (),
        }
        assert(trap_hit_a(ms, rmb, rma) == trap_hit_b(st, ma, mb));
        assert(trap_hit_b(ms, rmb, rma) == trap_hit_a(st, ma, mb));
        assert(eliminated_now_a(ms, rmb, rma) == eliminated_now_b(st, ma, mb));
        assert(eliminated_now_b(ms, rmb, rma) == eliminated_now_a(st, ma, mb));
        // Forward movement flips with the goal direction.
        assert(crate::engine::moves_forward(true, ms.a.pos, rotate_move_spec(mb, n))
            == crate::engine::moves_forward(false, st.b.pos, mb));
        assert(crate::engine::moves_forward(false, ms.b.pos, rotate_move_spec(ma, n))
            == crate::engine::moves_forward(true, st.a.pos, ma));
        // The two stepped states agree field by field.
        let lhs = step_state(ms, rmb, rma, k);
        let rhs = mirror_run(n, step_state(st, ma, mb, k));
        assert(lhs.a == rhs.a);
        assert(lhs.b == rhs.b);
        assert(lhs.traps_a =~= rhs.traps_a);
        assert(lhs.traps_b =~= rhs.traps_b);
        assert(lhs.trace =~= rhs.trace);
        assert(lhs.done == rhs.done);
        assert(lhs =~= rhs);
    }
}

/// Swapping the two competitors' roles mirrors every intermediate state:
/// the run of `(sb, sa)` is the rotated, role-swapped run of `(sa, sb)`.
pub proof fn lemma_symmetry(sa: Seq<MoveEntry>, sb: Seq<MoveEntry>, n: usize, k: int)
    requires
        n >= 1,
        seq_in_bounds(sa, n),
        seq_in_bounds(sb, n),
        k >= 0,
    ensures
        run_steps(sb, sa, n, k) == mirror_run(n, run_steps(sa, sb, n, k)),
    decreases k,
{
    if k <= 0 {
        assert(run_steps(sb, sa, n, 0) == run_start());
        assert(mirror_run(n, run_start()) =~= run_start());
    } else {
        lemma_symmetry(sa, sb, n, k - 1);
        lemma_run_in_bounds(sa, sb, n, k - 1);
        lemma_classify_in_bounds(sa, k - 1, n);
        lemma_classify_in_bounds(sb, k - 1, n);
        lemma_rotate_move_in_bounds(classify_at(sb, k - 1), n);
        lemma_rotate_move_involutive(classify_at(sb, k - 1), n);
        let st = run_steps(sa, sb, n, k - 1);
        let ma = move_a_at(sa, k - 1);
        let mb = move_b_at(sb, k - 1, n);
        assert(move_a_at(sb, k - 1) == rotate_move_spec(mb, n));
        assert(move_b_at(sa, k - 1, n) == rotate_move_spec(ma, n));
        lemma_step_mirror(st, ma, mb, k - 1, n);
    }
}

/// Swapping the roles of the two competitors (and rotating every cell into
/// the other frame) swaps the two sides of the outcome and changes nothing
/// else: scores, elimination and finish steps, the termination reason and
/// the (role-swapped, rotated) trace all carry over.
pub proof fn lemma_symmetry_outcome(sa: Seq<MoveEntry>, sb: Seq<MoveEntry>, n: usize)
    requires
        n >= 1,
        seq_in_bounds(sa, n),
        seq_in_bounds(sb, n),
    ensures
        (resolve_spec(sb, sa, n).a == mirror_side(n, resolve_spec(sa, sb, n).b)),
        (resolve_spec(sb, sa, n).b == mirror_side(n, resolve_spec(sa, sb, n).a)),
        (resolve_spec(sb, sa, n).reason == resolve_spec(sa, sb, n).reason),
        (resolve_spec(sb, sa, n).trace == mirror_trace(n, resolve_spec(sa, sb, n).trace)),
{
    assert(max_steps(sb, sa) == max_steps(sa, sb));
    lemma_symmetry(sa, sb, n, max_steps(sa, sb));
}

} // verus!
