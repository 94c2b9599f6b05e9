//! Authoring of a single competitor's board: an `n x n` grid on which a
//! token is placed on the start row and then walked toward row 0, leaving
//! trap placements behind.  Every action is appended to the board's move
//! sequence, which is what the engine later replays.

use vstd::prelude::*;

use crate::grid::{classify_at, CellKind, MoveEntry, MoveType};

verus! {

/// One competitor's authoring state: the visible grid, its size, and the
/// append-only log of authored actions.
#[derive(Clone, Debug, PartialEq, Eq)]
pub struct Board {
    pub grid: Vec<Vec<CellKind>>,
    pub size: usize,
    pub sequence: Vec<MoveEntry>,
}

/// Two cells share an edge.
pub open spec fn adjacent_cells(r1: int, c1: int, r2: int, c2: int) -> bool {
    ((r1 - r2 == 1 || r2 - r1 == 1) && c1 == c2) || (r1 == r2 && (c1 - c2 == 1 || c2 - c1 == 1))
}

/// The named cell holds the competitor's token.
pub open spec fn is_token(b: &Board, i: int, j: int) -> bool {
    b.grid@[i]@[j] == CellKind::Token
}

/// The grid never shows more than one token.
pub open spec fn at_most_one_token(b: &Board) -> bool {
    forall|i1: int, j1: int, i2: int, j2: int|
        0 <= i1 < b.size && 0 <= j1 < b.size && 0 <= i2 < b.size && 0 <= j2 < b.size && is_token(
            b,
            i1,
            j1,
        ) && is_token(b, i2, j2) ==> i1 == i2 && j1 == j2
}

/// A token at `(i, j)` can still act: it stands on the goal row, or some
/// empty edge-adjacent cell no farther from the goal is free.
pub open spec fn token_can_act(b: &Board, i: int, j: int) -> bool {
    i == 0 || exists|p: int, q: int|
        0 <= p < b.size && 0 <= q < b.size && b.grid@[p]@[q] == CellKind::Empty && adjacent_cells(
            i,
            j,
            p,
            q,
        ) && p <= i
}

/// Some token on the grid can still act.
pub open spec fn has_move(b: &Board) -> bool {
    exists|i: int, j: int|
        0 <= i < b.size && 0 <= j < b.size && is_token(b, i, j) && token_can_act(b, i, j)
}

impl Board {
    /// The grid is a full `size x size` square.
    pub open spec fn wf(&self) -> bool {
        self.grid@.len() == self.size && forall|i: int|
            0 <= i < self.size ==> self.grid@[i]@.len() == self.size
    }

    /// A fresh board: every cell empty, nothing authored yet.
    pub fn new(size: usize) -> (b: Board)
        ensures
            b.size == size,
            b.wf(),
            b.sequence@.len() == 0,
            forall|i: int, j: int|
                0 <= i < size && 0 <= j < size ==> (b.grid@[i]@[j] == CellKind::Empty),
    {
        let mut grid: Vec<Vec<CellKind>> = Vec::new();
        let mut i: usize = 0;
        while i < size
            invariant
                i <= size,
                grid@.len() == i,
                forall|p: int| 0 <= p < i ==> grid@[p]@.len() == size,
                forall|p: int, q: int|
                    0 <= p < i && 0 <= q < size ==> (grid@[p]@[q] == CellKind::Empty),
            decreases size - i,
        {
            let mut row: Vec<CellKind> = Vec::new();
            let mut j: usize = 0;
            while j < size
                invariant
                    j <= size,
                    row@.len() == j,
                    forall|q: int| 0 <= q < j ==> (row@[q] == CellKind::Empty),
                decreases size - j,
            {
                row.push(CellKind::Empty);
                j += 1;
            }
            grid.push(row);
            i += 1;
        }
        Board { grid, size, sequence: Vec::new() }
    }

    /// Reads one cell.
    pub fn cell_at(&self, r: usize, c: usize) -> (k: CellKind)
        requires
            self.wf(),
            r < self.size,
            c < self.size,
        ensures
            k == self.grid@[r as int]@[c as int],
    {
        self.grid[r][c]
    }

    /// The first token cell in row-major order, if any.
    pub fn find_token(&self) -> (r: Option<(usize, usize)>)
        requires
            self.wf(),
        ensures
            r matches Some(t) ==> t.0 < self.size && t.1 < self.size && is_token(
                self,
                t.0 as int,
                t.1 as int,
            ),
            r is None ==> forall|i: int, j: int|
                0 <= i < self.size && 0 <= j < self.size ==> !is_token(self, i, j),
    {
        let mut i: usize = 0;
        while i < self.size
            invariant
                self.wf(),
                i <= self.size,
                forall|p: int, q: int| 0 <= p < i && 0 <= q < self.size ==> !is_token(self, p, q),
            decreases self.size - i,
        {
            let mut j: usize = 0;
            while j < self.size
                invariant
                    self.wf(),
                    i < self.size,
                    j <= self.size,
                    forall|q: int| 0 <= q < j ==> !is_token(self, i as int, q),
                decreases self.size - j,
            {
                if matches!(self.grid[i][j], CellKind::Token) {
                    return Some((i, j));
                }
                j += 1;
            }
            i += 1;
        }
        None
    }

    /// Whether the competitor can still act: its token stands on the goal
    /// row, or some empty adjacent cell no farther from the goal is free.
    /// A board with no token has no move.
    pub fn has_valid_moves(&self) -> (r: bool)
        requires
            self.wf(),
            at_most_one_token(self),
        ensures
            r == has_move(self),
    {
        let t = self.find_token();
        match t {
            None => {
                assert(!has_move(self));
                false
            },
            Some((tr, tc)) => {
                if tr == 0 {
                    assert(has_move(self)) by {
                        assert(is_token(self, tr as int, tc as int) && token_can_act(
                            self,
                            tr as int,
                            tc as int,
                        ));
                    }
                    return true;
                }
                let mut i: usize = 0;
                while i < self.size
                    invariant
                        self.wf(),
                        at_most_one_token(self),
                        tr < self.size,
                        tc < self.size,
                        is_token(self, tr as int, tc as int),
                        tr != 0,
                        i <= self.size,
                        forall|p: int, q: int|
                            0 <= p < i && 0 <= q < self.size ==> !(self.grid@[p]@[q]
                                == CellKind::Empty && adjacent_cells(tr as int, tc as int, p, q)
                                && p <= tr as int),
                    decreases self.size - i,
                {
                    let mut j: usize = 0;
                    while j < self.size
                        invariant
                            self.wf(),
                            tr < self.size,
                            tc < self.size,
                            is_token(self, tr as int, tc as int),
                            tr != 0,
                            i < self.size,
                            j <= self.size,
                            forall|q: int|
                                0 <= q < j ==> !(self.grid@[i as int]@[q] == CellKind::Empty
                                    && adjacent_cells(tr as int, tc as int, i as int, q) && i as int
                                    <= tr as int),
                        decreases self.size - j,
                    {
                        let empty_here = matches!(self.grid[i][j], CellKind::Empty);
                        let adj = is_adjacent(tr, tc, i, j);
                        if empty_here && adj && i <= tr {
                            assert(has_move(self)) by {
                                assert(token_can_act(self, tr as int, tc as int)) by {
                                    let p = i as int;
                                    let q = j as int;
                                    assert(0 <= p < self.size && 0 <= q < self.size
                                        && self.grid@[p]@[q] == CellKind::Empty && adjacent_cells(
                                        tr as int,
                                        tc as int,
                                        p,
                                        q,
                                    ) && p <= tr as int);
                                }
                                assert(is_token(self, tr as int, tc as int));
                            }
                            return true;
                        }
                        j += 1;
                    }
                    i += 1;
                }
                assert(!token_can_act(self, tr as int, tc as int));
                assert(!has_move(self)) by {
                    assert forall|p: int, q: int|
                        !(0 <= p < self.size && 0 <= q < self.size && is_token(self, p, q)
                            && token_can_act(self, p, q)) by {
                        if 0 <= p < self.size && 0 <= q < self.size && is_token(self, p, q) {
                            assert(is_token(self, tr as int, tc as int));
                            assert(p == tr as int && q == tc as int);
                        }
                    }
                }
                false
            },
        }
    }
}

impl Board {
    /// The opening action: the token enters the grid on the start row
    /// (the row farthest from the goal), before anything else is authored.
    pub fn place_start(&mut self, col: usize)
        requires
            old(self).wf(),
            old(self).size >= 1,
            col < old(self).size,
            old(self).sequence@.len() == 0,
            forall|i: int, j: int|
                0 <= i < old(self).size && 0 <= j < old(self).size ==> (old(self).grid@[i]@[j]
                    == CellKind::Empty),
        ensures
            final(self).wf(),
            final(self).size == old(self).size,
            at_most_one_token(final(self)),
            forall|i: int, j: int|
                0 <= i < old(self).size && 0 <= j < old(self).size ==> (final(self).grid@[i]@[j]
                    == (if i == old(self).size - 1 && j == col as int {
                    CellKind::Token
                } else {
                    CellKind::Empty
                })),
            (final(self).sequence@ == old(self).sequence@.push(
                (((old(self).size - 1) as usize), col, CellKind::Token),
            )),
    {
        let start_row = self.size - 1;
        self.grid[start_row][col] = CellKind::Token;
        self.sequence.push((start_row, col, CellKind::Token));
    }

    /// Walks the token one authored step: the old cell is cleared, the new
    /// cell takes the token, and the move is logged.  The caller supplies
    /// the token's current cell; a token away from the goal row may only
    /// step to an edge-adjacent cell.
    pub fn advance_token(&mut self, from_r: usize, from_c: usize, to_r: usize, to_c: usize)
        requires
            old(self).wf(),
            at_most_one_token(old(self)),
            from_r < old(self).size,
            from_c < old(self).size,
            to_r < old(self).size,
            to_c < old(self).size,
            is_token(old(self), from_r as int, from_c as int),
            from_r == 0 || adjacent_cells(from_r as int, from_c as int, to_r as int, to_c as int),
        ensures
            final(self).wf(),
            final(self).size == old(self).size,
            at_most_one_token(final(self)),
            is_token(final(self), to_r as int, to_c as int),
            forall|i: int, j: int|
                0 <= i < old(self).size && 0 <= j < old(self).size ==> (final(self).grid@[i]@[j]
                    == (if i == to_r as int && j == to_c as int {
                    CellKind::Token
                } else if i == from_r as int && j == from_c as int {
                    CellKind::Empty
                } else {
                    old(self).grid@[i]@[j]
                })),
            (final(self).sequence@ == old(self).sequence@.push((to_r, to_c, CellKind::Token))),
    {
        self.grid[from_r][from_c] = CellKind::Empty;
        self.grid[to_r][to_c] = CellKind::Token;
        self.sequence.push((to_r, to_c, CellKind::Token));
        proof {
            assert forall|i: int, j: int|
                0 <= i < self.size && 0 <= j < self.size && is_token(self, i, j) implies i
                == to_r as int && j == to_c as int by {
                if !(i == to_r as int && j == to_c as int) {
                    if i == from_r as int && j == from_c as int {
                        assert(self.grid@[i]@[j] == CellKind::Empty);
                    } else {
                        assert(is_token(old(self), i, j));
                        assert(is_token(old(self), from_r as int, from_c as int));
                        assert(i == from_r as int && j == from_c as int);
                    }
                }
            }
        }
    }

    /// Places a trap on a cell and logs it; the trap stays for the rest of
    /// the round.
    pub fn place_trap(&mut self, r: usize, c: usize)
        requires
            old(self).wf(),
            at_most_one_token(old(self)),
            r < old(self).size,
            c < old(self).size,
        ensures
            final(self).wf(),
            final(self).size == old(self).size,
            at_most_one_token(final(self)),
            forall|i: int, j: int|
                0 <= i < old(self).size && 0 <= j < old(self).size ==> (final(self).grid@[i]@[j]
                    == (if i == r as int && j == c as int {
                    CellKind::Trap
                } else {
                    old(self).grid@[i]@[j]
                })),
            (final(self).sequence@ == old(self).sequence@.push((r, c, CellKind::Trap))),
    {
        self.grid[r][c] = CellKind::Trap;
        self.sequence.push((r, c, CellKind::Trap));
        proof {
            assert forall|i: int, j: int|
                0 <= i < self.size && 0 <= j < self.size && is_token(self, i, j) implies is_token(
                old(self),
                i,
                j,
            ) by {
                assert(!(i == r as int && j == c as int));
            }
        }
    }

    /// The closing action once the token stands on the goal row: the run
    /// is logged as complete and the token leaves the grid.  The logged
    /// entry is the sequence's last token entry on the goal row, so the
    /// engine classifies it as `Final`.
    pub fn finish_run(&mut self, c: usize)
        requires
            old(self).wf(),
            at_most_one_token(old(self)),
            c < old(self).size,
            old(self).size >= 1,
            is_token(old(self), 0, c as int),
        ensures
            final(self).wf(),
            final(self).size == old(self).size,
            at_most_one_token(final(self)),
            forall|i: int, j: int|
                0 <= i < old(self).size && 0 <= j < old(self).size ==> (final(self).grid@[i]@[j]
                    == (if i == 0 && j == c as int {
                    CellKind::Empty
                } else {
                    old(self).grid@[i]@[j]
                })),
            (final(self).sequence@ == old(self).sequence@.push((0usize, c, CellKind::Token))),
            (classify_at(final(self).sequence@, final(self).sequence@.len() - 1)
                == MoveType::Final),
    {
        self.grid[0][c] = CellKind::Empty;
        self.sequence.push((0usize, c, CellKind::Token));
        proof {
            assert forall|i: int, j: int|
                0 <= i < self.size && 0 <= j < self.size && is_token(self, i, j) implies is_token(
                old(self),
                i,
                j,
            ) by {
                assert(!(i == 0 && j == c as int));
            }
        }
    }
}

/// Whether two cells share an edge.
pub fn is_adjacent(x1: usize, y1: usize, x2: usize, y2: usize) -> (r: bool)
    ensures
        r == adjacent_cells(x1 as int, y1 as int, x2 as int, y2 as int),
{
    let dx = if x1 >= x2 {
        x1 - x2
    } else {
        x2 - x1
    };
    let dy = if y1 >= y2 {
        y1 - y2
    } else {
        y2 - y1
    };
    (dx == 1 && dy == 0) || (dx == 0 && dy == 1)
}

} // verus!
